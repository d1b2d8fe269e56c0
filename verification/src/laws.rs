//! What holds of the recorder and the compiler, whatever is recorded.

use vstd::prelude::*;
use crate::command::{
    offsets_needed, ByteRange, OffsetRange, RenderCommand, DRAW_INDIRECT_ARGS_SIZE,
};
use crate::compile::{
    init_action, lemma_offsets_countable, lemma_run_prefix_error, lemma_step_inv,
    lemma_step_next_offset, lemma_vertex_flush_commands, CompilationView,
};
use crate::context::label_view;
use crate::encoder::{
    bind_group_recorded, bind_groups_after, pipeline_recorded, RenderBundleDescriptor,
    RenderBundleEncoder, StateChange,
};
use crate::error::{PassErrorScope, RenderBundleError};
use crate::flags::BUFFER_USAGE_INDIRECT;
use crate::id::{BindGroupId, BindGroupLayoutId, BufferId, DeviceId, RenderPipelineId};
use crate::resource::{Device, ResourceTables};
use crate::state::{
    bind_flush_commands, bind_flush_offsets, lemma_missing_vertex_buffer_none,
    vertex_flush_commands, BindState, StateView, VertexState,
};
use crate::track::BUFFER_USE_INDIRECT;

verus! {

/// A pipeline that is recorded twice in a row is recorded once: whatever was
/// set before, the second record adds no command.
pub proof fn law_repeated_pipeline_recorded_once(
    commands: Seq<RenderCommand>,
    last: Option<u64>,
    pipeline_id: RenderPipelineId,
)
    ensures
        pipeline_recorded(
            pipeline_recorded(commands, last, pipeline_id),
            Some(pipeline_id.0),
            pipeline_id,
        ) == pipeline_recorded(commands, last, pipeline_id),
{
}

/// A bind group that is recorded twice in a row in one slot, without dynamic
/// offsets, is recorded once: whatever was set before, the second record adds
/// no command.
pub proof fn law_repeated_bind_group_recorded_once(
    commands: Seq<RenderCommand>,
    last: Seq<StateChange>,
    bind_group_id: BindGroupId,
    index: u32,
)
    requires
        index < last.len(),
    ensures
        bind_group_recorded(
            bind_group_recorded(commands, last, bind_group_id, index, 0),
            bind_groups_after(last, bind_group_id, index, 0),
            bind_group_id,
            index,
            0,
        ) == bind_group_recorded(commands, last, bind_group_id, index, 0),
{
}

/// A bind group that the compiler sees twice in a row in one slot, without
/// dynamic offsets, changes the simulated state once.
pub proof fn law_repeated_bind_group_compiled_once(
    s: StateView,
    slot: u8,
    bind_group_id: BindGroupId,
    layout_id: BindGroupLayoutId,
    again: BindGroupLayoutId,
    dynamic_offsets: OffsetRange,
)
    requires
        slot < s.bind.len(),
        dynamic_offsets.is_empty(),
    ensures
        s.set_bind_group(slot, bind_group_id, layout_id, dynamic_offsets).set_bind_group(
            slot,
            bind_group_id,
            again,
            dynamic_offsets,
        ) == s.set_bind_group(slot, bind_group_id, layout_id, dynamic_offsets),
{
}

/// The commands of a flush of the first `n` slots hold the command of every
/// dirty bind group among them.
pub proof fn lemma_bind_flush_contains(bind: Seq<Option<BindState>>, n: int, j: int)
    requires
        0 <= j < n <= bind.len(),
        bind[j] matches Some(b) && b.is_dirty,
    ensures
        bind_flush_commands(bind, n).contains(bind[j].unwrap().command(j)),
    decreases n,
{
    let out = bind_flush_commands(bind, n);
    if j == n - 1 {
        assert(out.last() == bind[j].unwrap().command(j));
    } else {
        lemma_bind_flush_contains(bind, n - 1, j);
        let before = bind_flush_commands(bind, n - 1);
        let w = choose|w: int| 0 <= w < before.len() && before[w] == bind[j].unwrap().command(j);
        assert(out[w] == before[w]);
    }
}

/// When the bind group of a slot changes, the next flush sets every bind
/// group in a later slot that is in use again, also where that bind group and
/// its layout are what they were.
pub proof fn law_invalidation_propagates(
    s: StateView,
    slot: u8,
    bind_group_id: BindGroupId,
    layout_id: BindGroupLayoutId,
    dynamic_offsets: OffsetRange,
    later: int,
)
    requires
        slot < s.bind.len(),
        !(dynamic_offsets.is_empty() && (s.bind[slot as int] matches Some(b) && b.bind_group_id
            == bind_group_id)),
        slot < later < s.used_bind_groups <= s.bind.len(),
        s.bind[later] is Some,
    ensures
        ({
            let t = s.set_bind_group(slot, bind_group_id, layout_id, dynamic_offsets);
            let held = s.bind[later].unwrap();
            &&& t.bind[later] == Some(BindState { is_dirty: true, ..held })
            &&& t.bind_commands().contains(held.command(later))
        }),
{
    let t = s.set_bind_group(slot, bind_group_id, layout_id, dynamic_offsets);
    lemma_bind_flush_contains(t.bind, t.used_bind_groups as int, later);
}

/// The command names a bind group, a pipeline or a buffer that is in the
/// tables and belongs to another device than the encoder.
pub open spec fn names_foreign_resource(
    encoder: &RenderBundleEncoder,
    tables: &ResourceTables,
    command: RenderCommand,
) -> bool {
    match command {
        RenderCommand::SetBindGroup { bind_group_id, .. } => tables.bind_groups.lookup(
            bind_group_id.0,
        ) matches Some(g) && g.device_id != encoder.parent_id,
        RenderCommand::SetPipeline(pipeline_id) => tables.render_pipelines.lookup(
            pipeline_id.0,
        ) matches Some(p) && p.device_id != encoder.parent_id,
        RenderCommand::SetIndexBuffer { buffer_id, .. } => tables.buffers.lookup(
            buffer_id.0,
        ) matches Some(b) && b.device_id != encoder.parent_id,
        RenderCommand::SetVertexBuffer { buffer_id, .. } => tables.buffers.lookup(
            buffer_id.0,
        ) matches Some(b) && b.device_id != encoder.parent_id,
        RenderCommand::MultiDrawIndirect { buffer_id, .. } => tables.buffers.lookup(
            buffer_id.0,
        ) matches Some(b) && b.device_id != encoder.parent_id,
        _ => false,
    }
}

/// A stream that names a resource of another device than the encoder, at
/// whatever place, does not compile.
pub proof fn law_cross_device_rejected(
    encoder: &RenderBundleEncoder,
    desc: &RenderBundleDescriptor,
    device: &Device,
    tables: &ResourceTables,
    at: int,
)
    requires
        0 <= at < encoder.base.commands@.len(),
        names_foreign_resource(encoder, tables, encoder.base.commands@[at]),
    ensures
        encoder.compile(desc, device, tables) is Err,
{
    let commands = encoder.base.commands@;
    let start = CompilationView::initial();
    let upto = commands.take(at + 1);
    assert(upto.drop_last() =~= commands.take(at));
    assert(upto.last() == commands[at]);
    match start.run(encoder, device, tables, commands.take(at)) {
        Ok(s) => {
            assert(s.step(encoder, device, tables, commands[at]) is Err);
        },
        Err(_) => {},
    }
    lemma_run_prefix_error(start, encoder, device, tables, commands, at + 1);
}

/// The scope that names a command in an error, for a command that is compiled
/// while `pipeline` is the current pipeline.
pub open spec fn scope_of(pipeline: Option<RenderPipelineId>, command: RenderCommand) -> PassErrorScope {
    match command {
        RenderCommand::SetBindGroup { bind_group_id, .. } => PassErrorScope::SetBindGroup(
            bind_group_id,
        ),
        RenderCommand::SetPipeline(id) => PassErrorScope::SetPipelineRender(id),
        RenderCommand::SetIndexBuffer { buffer_id, .. } => PassErrorScope::SetIndexBuffer(buffer_id),
        RenderCommand::SetVertexBuffer { buffer_id, .. } => PassErrorScope::SetVertexBuffer(
            buffer_id,
        ),
        RenderCommand::SetPushConstant { .. } => PassErrorScope::SetPushConstant,
        RenderCommand::Draw { .. } => PassErrorScope::Draw {
            indexed: false,
            indirect: false,
            pipeline,
        },
        RenderCommand::DrawIndexed { .. } => PassErrorScope::Draw {
            indexed: true,
            indirect: false,
            pipeline,
        },
        RenderCommand::MultiDrawIndirect { indexed, .. } => PassErrorScope::Draw {
            indexed,
            indirect: true,
            pipeline,
        },
        RenderCommand::MultiDrawIndirectCount { indexed, .. } => PassErrorScope::Draw {
            indexed,
            indirect: true,
            pipeline,
        },
        RenderCommand::PushDebugGroup { .. } => PassErrorScope::PushDebugGroup,
        RenderCommand::InsertDebugMarker { .. } => PassErrorScope::InsertDebugMarker,
        RenderCommand::PopDebugGroup => PassErrorScope::PopDebugGroup,
        RenderCommand::WriteTimestamp { .. } => PassErrorScope::WriteTimestamp,
        RenderCommand::BeginPipelineStatisticsQuery { .. } => PassErrorScope::BeginPipelineStatisticsQuery,
        RenderCommand::EndPipelineStatisticsQuery => PassErrorScope::EndPipelineStatisticsQuery,
        RenderCommand::ExecuteBundle(_) => PassErrorScope::ExecuteBundle,
        RenderCommand::SetBlendConstant { .. } => PassErrorScope::SetBlendConstant,
        RenderCommand::SetStencilReference(_) => PassErrorScope::SetStencilReference,
        RenderCommand::SetViewport { .. } => PassErrorScope::SetViewport,
        RenderCommand::SetScissor { .. } => PassErrorScope::SetScissorRect,
    }
}

/// The error of a command names the command.
pub proof fn lemma_step_error_scope(
    s: CompilationView,
    encoder: &RenderBundleEncoder,
    device: &Device,
    tables: &ResourceTables,
    command: RenderCommand,
)
    requires
        s.step(encoder, device, tables, command) is Err,
    ensures
        (s.step(encoder, device, tables, command)->Err_0).scope == scope_of(
            s.state.pipeline,
            command,
        ),
{
}

/// The first error ends the compilation, and it names the command that caused
/// it. Where an encoder does not compile, one command of its stream is the first
/// that fails: the commands before it compile, the error of the compilation is
/// the error of that command, and the scope of the error names the command.
pub proof fn law_error_is_that_of_the_first_failing_command(
    encoder: &RenderBundleEncoder,
    desc: &RenderBundleDescriptor,
    device: &Device,
    tables: &ResourceTables,
)
    requires
        encoder.compile(desc, device, tables) is Err,
    ensures
        exists|at: int|
            0 <= at < encoder.base.commands@.len() && fails_first_at(
                encoder,
                device,
                tables,
                at,
                encoder.compile(desc, device, tables)->Err_0,
            ),
{
    assert(encoder.base.commands@.take(encoder.base.commands@.len() as int)
        =~= encoder.base.commands@);
    lemma_run_fails_somewhere(encoder, device, tables, encoder.base.commands@.len() as int);
    let error = encoder.compile(desc, device, tables)->Err_0;
    let at = choose|at: int|
        0 <= at < encoder.base.commands@.len() && fails_first_at(encoder, device, tables, at, error);
    assert(fails_first_at(encoder, device, tables, at, error));
}

/// The commands before the one at `at` compile, and that command fails with `error`.
pub open spec fn fails_first_at(
    encoder: &RenderBundleEncoder,
    device: &Device,
    tables: &ResourceTables,
    at: int,
    error: RenderBundleError,
) -> bool {
    let before = CompilationView::initial().run(
        encoder,
        device,
        tables,
        encoder.base.commands@.take(at),
    );
    &&& before is Ok
    &&& before.unwrap().step(encoder, device, tables, encoder.base.commands@[at]) == Err::<
        CompilationView,
        RenderBundleError,
    >(error)
    &&& error.scope == scope_of(before.unwrap().state.pipeline, encoder.base.commands@[at])
}

/// Where the compilation of the first `n` commands fails, one of them is the
/// first that fails.
proof fn lemma_run_fails_somewhere(
    encoder: &RenderBundleEncoder,
    device: &Device,
    tables: &ResourceTables,
    n: int,
)
    requires
        0 <= n <= encoder.base.commands@.len(),
        CompilationView::initial().run(encoder, device, tables, encoder.base.commands@.take(n)) is Err,
    ensures
        exists|at: int|
            0 <= at < n && fails_first_at(
                encoder,
                device,
                tables,
                at,
                CompilationView::initial().run(
                    encoder,
                    device,
                    tables,
                    encoder.base.commands@.take(n),
                )->Err_0,
            ),
    decreases n,
{
    let raw = encoder.base.commands@;
    let start = CompilationView::initial();
    if n > 0 {
        assert(raw.take(n).drop_last() =~= raw.take(n - 1));
        assert(raw.take(n).last() == raw[n - 1]);
        let error = start.run(encoder, device, tables, raw.take(n))->Err_0;
        match start.run(encoder, device, tables, raw.take(n - 1)) {
            Ok(s) => {
                lemma_step_error_scope(s, encoder, device, tables, raw[n - 1]);
                assert(fails_first_at(encoder, device, tables, n - 1, error));
            },
            Err(_) => {
                lemma_run_fails_somewhere(encoder, device, tables, n - 1);
                let at = choose|at: int|
                    0 <= at < n - 1 && fails_first_at(encoder, device, tables, at, error);
                assert(fails_first_at(encoder, device, tables, at, error));
            },
        }
    }
}

/// Whether the compiler hands a command on at once: it sets a pipeline or draws.
pub open spec fn handed_on(command: RenderCommand) -> bool {
    command is SetPipeline || command is Draw || command is DrawIndexed
        || command is MultiDrawIndirect
}

/// The commands of a stream that the compiler hands on at once, in order.
pub open spec fn handed_on_of(commands: Seq<RenderCommand>) -> Seq<RenderCommand>
    decreases commands.len(),
{
    if commands.len() == 0 {
        Seq::empty()
    } else if handed_on(commands.last()) {
        handed_on_of(commands.drop_last()).push(commands.last())
    } else {
        handed_on_of(commands.drop_last())
    }
}

/// What is handed on of two streams, one behind the other.
pub proof fn lemma_handed_on_add(a: Seq<RenderCommand>, b: Seq<RenderCommand>)
    ensures
        handed_on_of(a + b) == handed_on_of(a) + handed_on_of(b),
    decreases b.len(),
{
    if b.len() == 0 {
        assert(a + b =~= a);
        assert(handed_on_of(a) + handed_on_of(b) =~= handed_on_of(a));
    } else {
        lemma_handed_on_add(a, b.drop_last());
        assert((a + b).drop_last() =~= a + b.drop_last());
        assert((a + b).last() == b.last());
        if handed_on(b.last()) {
            assert(handed_on_of(a) + handed_on_of(b.drop_last()).push(b.last()) =~= (handed_on_of(a)
                + handed_on_of(b.drop_last())).push(b.last()));
        }
    }
}

/// Of commands of which none is handed on, nothing is.
pub proof fn lemma_handed_on_none(commands: Seq<RenderCommand>)
    requires
        forall|i: int| 0 <= i < commands.len() ==> !handed_on(#[trigger] commands[i]),
    ensures
        handed_on_of(commands) == Seq::<RenderCommand>::empty(),
    decreases commands.len(),
{
    if commands.len() > 0 {
        assert forall|i: int| 0 <= i < commands.drop_last().len() implies !handed_on(
            #[trigger] commands.drop_last()[i],
        ) by {
            assert(commands.drop_last()[i] == commands[i]);
        }
        lemma_handed_on_none(commands.drop_last());
    }
}

/// The commands that the compiler adds for one command of the recorded
/// stream hold that command if it is handed on, and nothing else that is.
proof fn lemma_step_hands_on(
    s: CompilationView,
    encoder: &RenderBundleEncoder,
    device: &Device,
    tables: &ResourceTables,
    command: RenderCommand,
)
    requires
        s.step(encoder, device, tables, command) is Ok,
    ensures
        handed_on_of(s.step(encoder, device, tables, command).unwrap().commands) == if handed_on(
            command,
        ) {
            handed_on_of(s.commands).push(command)
        } else {
            handed_on_of(s.commands)
        },
{
    let t = s.step(encoder, device, tables, command).unwrap();
    match command {
        RenderCommand::SetPipeline(_) => {
            let clears = t.state.push_constant_commands();
            let first = s.commands.push(command);
            assert(first.drop_last() =~= s.commands);
            lemma_handed_on_none(clears);
            lemma_handed_on_add(first, clears);
            assert(handed_on_of(first) + Seq::<RenderCommand>::empty() =~= handed_on_of(first));
        },
        RenderCommand::SetPushConstant { .. } => {
            assert(t.commands.drop_last() =~= s.commands);
        },
        RenderCommand::Draw { .. } => {
            lemma_flush_hands_on(s, encoder, s.draw_scope(false, false), false, command);
        },
        RenderCommand::DrawIndexed { .. } => {
            lemma_flush_hands_on(s, encoder, s.draw_scope(true, false), true, command);
        },
        RenderCommand::MultiDrawIndirect { buffer_id, offset, indexed, .. } => {
            let scope = s.draw_scope(indexed, true);
            let used = s.use_buffer(
                encoder,
                tables,
                scope,
                buffer_id,
                BUFFER_USE_INDIRECT,
                BUFFER_USAGE_INDIRECT,
            ).unwrap().0;
            let next = CompilationView {
                buffer_memory_init_actions: used.buffer_memory_init_actions.push(
                    init_action(
                        buffer_id,
                        ByteRange { start: offset, end: (offset + DRAW_INDIRECT_ARGS_SIZE) as u64 },
                    ),
                ),
                ..used
            };
            lemma_flush_hands_on(next, encoder, scope, indexed, command);
        },
        _ => {},
    }
}

/// The commands of a flush of the bind groups set bind groups.
proof fn lemma_bind_commands_set(bind: Seq<Option<BindState>>, n: int)
    requires
        0 <= n,
    ensures
        forall|i: int|
            0 <= i < bind_flush_commands(bind, n).len() ==> (#[trigger] bind_flush_commands(
                bind,
                n,
            )[i]) is SetBindGroup,
    decreases n,
{
    if n > 0 {
        lemma_bind_commands_set(bind, n - 1);
        let before = bind_flush_commands(bind, n - 1);
        let out = bind_flush_commands(bind, n);
        assert forall|i: int| 0 <= i < out.len() implies (#[trigger] out[i]) is SetBindGroup by {
            if i < before.len() {
                assert(out[i] == before[i]);
            }
        }
    }
}

/// Of the commands that a flush and a draw add, only the draw is handed on.
proof fn lemma_flush_hands_on(
    s: CompilationView,
    encoder: &RenderBundleEncoder,
    scope: PassErrorScope,
    indexed: bool,
    command: RenderCommand,
)
    requires
        handed_on(command),
        s.flush_and_draw(encoder, scope, indexed, command) is Ok,
    ensures
        handed_on_of(s.flush_and_draw(encoder, scope, indexed, command).unwrap().commands)
            == handed_on_of(s.commands).push(command),
{
    let t = s.flush_and_draw(encoder, scope, indexed, command).unwrap();
    let index_commands = if indexed {
        s.state.index.flush_commands()
    } else {
        Seq::empty()
    };
    let state = StateView {
        index: if indexed {
            s.state.index.flushed()
        } else {
            s.state.index
        },
        ..s.state
    };
    let vertex_commands = state.vertex_commands();
    let bind_commands = state.bind_commands();
    lemma_vertex_flush_commands(state.vertex, state.vertex.len() as int, 0);
    lemma_bind_commands_set(state.bind, state.used_bind_groups as int);
    lemma_handed_on_none(index_commands);
    lemma_handed_on_none(vertex_commands);
    lemma_handed_on_none(bind_commands);
    let a = s.commands + index_commands;
    let b = a + vertex_commands;
    let c = b + bind_commands;
    lemma_handed_on_add(s.commands, index_commands);
    lemma_handed_on_add(a, vertex_commands);
    lemma_handed_on_add(b, bind_commands);
    assert(handed_on_of(c) =~= handed_on_of(s.commands));
    assert(t.commands == c.push(command));
    assert(t.commands.drop_last() =~= c);
}

/// What is handed on of the commands that the compiler gives for a stream is
/// what is handed on of the stream.
proof fn lemma_run_hands_on(
    s: CompilationView,
    encoder: &RenderBundleEncoder,
    device: &Device,
    tables: &ResourceTables,
    commands: Seq<RenderCommand>,
)
    requires
        s.run(encoder, device, tables, commands) is Ok,
    ensures
        handed_on_of(s.run(encoder, device, tables, commands).unwrap().commands) == handed_on_of(
            s.commands,
        ) + handed_on_of(commands),
    decreases commands.len(),
{
    if commands.len() == 0 {
        assert(handed_on_of(s.commands) + handed_on_of(commands) =~= handed_on_of(s.commands));
    } else {
        lemma_run_hands_on(s, encoder, device, tables, commands.drop_last());
        let mid = s.run(encoder, device, tables, commands.drop_last()).unwrap();
        lemma_step_hands_on(mid, encoder, device, tables, commands.last());
        if handed_on(commands.last()) {
            assert((handed_on_of(s.commands) + handed_on_of(commands.drop_last())).push(
                commands.last(),
            ) =~= handed_on_of(s.commands) + handed_on_of(commands.drop_last()).push(
                commands.last(),
            ));
        }
    }
}

/// The compiled commands keep the recorded order: the commands that set a
/// pipeline and the draws of a bundle are those of the recorded stream, in the
/// order in which they were recorded; the compiler puts only commands that set
/// buffers, bind groups and push constants between them.
pub proof fn law_recorded_order_kept(
    encoder: &RenderBundleEncoder,
    desc: &RenderBundleDescriptor,
    device: &Device,
    tables: &ResourceTables,
)
    requires
        encoder.compile(desc, device, tables) is Ok,
    ensures
        handed_on_of(encoder.compile(desc, device, tables).unwrap().commands) == handed_on_of(
            encoder.base.commands@,
        ),
{
    lemma_run_hands_on(CompilationView::initial(), encoder, device, tables, encoder.base.commands@);
    assert(handed_on_of(Seq::<RenderCommand>::empty()) + handed_on_of(encoder.base.commands@)
        =~= handed_on_of(encoder.base.commands@));
}

/// Whether a command leaves nothing for the compiler to set later: it sets
/// push constants, it draws, or it sets a pipeline whose layout declares no
/// push constants.
pub open spec fn plain(tables: &ResourceTables, command: RenderCommand) -> bool {
    match command {
        RenderCommand::SetPipeline(id) => tables.render_pipelines.lookup(id.0) matches Some(p)
            ==> (tables.pipeline_layouts.lookup(p.layout_id.0) matches Some(l)
            ==> l.push_constant_ranges@.len() == 0),
        RenderCommand::SetPushConstant { .. } => true,
        RenderCommand::Draw { .. } => true,
        RenderCommand::DrawIndexed { .. } => true,
        RenderCommand::MultiDrawIndirect { .. } => true,
        _ => false,
    }
}

/// No buffer and no bind group is set, and no push constants are declared.
spec fn nothing_set(s: CompilationView) -> bool {
    &&& forall|i: int| 0 <= i < s.state.vertex.len() ==> (#[trigger] s.state.vertex[i]).buffer is None
    &&& forall|i: int| 0 <= i < s.state.bind.len() ==> (#[trigger] s.state.bind[i]) is None
    &&& s.state.index.buffer is None
    &&& !s.state.index.is_dirty
    &&& !s.state.push_constants_dirty
    &&& s.state.push_constant_ranges.len() == 0
    &&& s.state.flat_dynamic_offsets.len() == 0
}

/// A flush of vertex slots of which none is dirty gives no command.
proof fn lemma_vertex_flush_clean(vertex: Seq<VertexState>, n: int)
    requires
        0 <= n <= vertex.len(),
        forall|i: int| 0 <= i < n ==> !(#[trigger] vertex[i]).is_dirty,
    ensures
        vertex_flush_commands(vertex, n) == Seq::<RenderCommand>::empty(),
    decreases n,
{
    if n > 0 {
        lemma_vertex_flush_clean(vertex, n - 1);
    }
}

/// A flush of bind group slots that hold nothing gives no command and no
/// dynamic offset.
proof fn lemma_bind_flush_empty(bind: Seq<Option<BindState>>, offsets: Seq<u32>, n: int)
    requires
        0 <= n <= bind.len(),
        forall|i: int| 0 <= i < n ==> (#[trigger] bind[i]) is None,
    ensures
        bind_flush_commands(bind, n) == Seq::<RenderCommand>::empty(),
        bind_flush_offsets(bind, offsets, n) == Seq::<u32>::empty(),
    decreases n,
{
    if n > 0 {
        lemma_bind_flush_empty(bind, offsets, n - 1);
    }
}

/// With nothing set, a flush adds no command before the draw.
proof fn lemma_plain_flush(
    s: CompilationView,
    encoder: &RenderBundleEncoder,
    scope: PassErrorScope,
    indexed: bool,
    command: RenderCommand,
)
    requires
        s.inv(encoder),
        nothing_set(s),
        s.flush_and_draw(encoder, scope, indexed, command) is Ok,
    ensures
        ({
            let t = s.flush_and_draw(encoder, scope, indexed, command).unwrap();
            t.commands == s.commands.push(command) && nothing_set(t) && t.inv(encoder)
        }),
{
    let t = s.flush_and_draw(encoder, scope, indexed, command).unwrap();
    let state = StateView {
        index: if indexed {
            s.state.index.flushed()
        } else {
            s.state.index
        },
        ..s.state
    };
    assert forall|i: int| 0 <= i < state.vertex.len() implies !(#[trigger] state.vertex[i]).is_dirty by {
        lemma_missing_vertex_buffer_none(state.vertex, state.vertex.len() as int, i);
    }
    lemma_vertex_flush_clean(state.vertex, state.vertex.len() as int);
    lemma_bind_flush_empty(
        state.bind,
        encoder.base.dynamic_offsets@,
        state.used_bind_groups as int,
    );
    assert(t.commands =~= s.commands.push(command));
    assert(t.state.flat_dynamic_offsets =~= s.state.flat_dynamic_offsets);
}

/// With nothing set, a plain command is compiled to itself and sets nothing.
proof fn lemma_plain_step(
    s: CompilationView,
    encoder: &RenderBundleEncoder,
    device: &Device,
    tables: &ResourceTables,
    command: RenderCommand,
)
    requires
        tables.wf(),
        s.inv(encoder),
        nothing_set(s),
        plain(tables, command),
        s.step(encoder, device, tables, command) is Ok,
    ensures
        ({
            let t = s.step(encoder, device, tables, command).unwrap();
            t.commands == s.commands.push(command) && nothing_set(t) && t.inv(encoder)
        }),
{
    let t = s.step(encoder, device, tables, command).unwrap();
    match command {
        RenderCommand::SetPipeline(id) => {
            let pipeline = tables.render_pipelines.lookup(id.0).unwrap();
            let layout = tables.pipeline_layouts.lookup(pipeline.layout_id.0).unwrap();
            assert(layout.wf());
            assert(layout.push_constant_ranges@ =~= s.state.push_constant_ranges);
            assert(t.state.push_constant_ranges =~= s.state.push_constant_ranges);
            assert(t.commands =~= s.commands.push(command));
            assert forall|i: int| 0 <= i < t.state.vertex.len() implies (#[trigger] t.state.vertex[i]).buffer is None by {
                assert(s.state.vertex[i].buffer is None);
            }
            assert forall|i: int| 0 <= i < t.state.bind.len() implies (#[trigger] t.state.bind[i]) is None by {
                assert(s.state.bind[i] is None);
            }
        },
        RenderCommand::Draw { .. } => {
            lemma_plain_flush(s, encoder, s.draw_scope(false, false), false, command);
        },
        RenderCommand::DrawIndexed { .. } => {
        },
        RenderCommand::MultiDrawIndirect { buffer_id, offset, indexed, .. } => {
            let scope = s.draw_scope(indexed, true);
            let used = s.use_buffer(
                encoder,
                tables,
                scope,
                buffer_id,
                BUFFER_USE_INDIRECT,
                BUFFER_USAGE_INDIRECT,
            ).unwrap().0;
            let next = CompilationView {
                buffer_memory_init_actions: used.buffer_memory_init_actions.push(
                    init_action(
                        buffer_id,
                        ByteRange { start: offset, end: (offset + DRAW_INDIRECT_ARGS_SIZE) as u64 },
                    ),
                ),
                ..used
            };
            lemma_plain_flush(next, encoder, scope, indexed, command);
        },
        _ => {},
    }
}

/// With nothing set, plain commands are compiled to themselves.
proof fn lemma_plain_run(
    s: CompilationView,
    encoder: &RenderBundleEncoder,
    device: &Device,
    tables: &ResourceTables,
    commands: Seq<RenderCommand>,
)
    requires
        tables.wf(),
        s.inv(encoder),
        nothing_set(s),
        forall|i: int| 0 <= i < commands.len() ==> plain(tables, #[trigger] commands[i]),
        s.run(encoder, device, tables, commands) is Ok,
    ensures
        ({
            let t = s.run(encoder, device, tables, commands).unwrap();
            t.commands == s.commands + commands && nothing_set(t) && t.inv(encoder)
        }),
    decreases commands.len(),
{
    if commands.len() == 0 {
        assert(s.commands + commands =~= s.commands);
    } else {
        assert forall|i: int| 0 <= i < commands.drop_last().len() implies plain(
            tables,
            #[trigger] commands.drop_last()[i],
        ) by {
            assert(commands.drop_last()[i] == commands[i]);
        }
        lemma_plain_run(s, encoder, device, tables, commands.drop_last());
        let mid = s.run(encoder, device, tables, commands.drop_last()).unwrap();
        assert(plain(tables, commands[commands.len() - 1]));
        lemma_plain_step(mid, encoder, device, tables, commands.last());
        assert((s.commands + commands.drop_last()).push(commands.last()) =~= s.commands + commands);
    }
}

/// A stream of plain commands that compiles, compiles to itself: the compiled
/// commands are the recorded ones, as many and in the same order, and take no
/// dynamic offsets.
pub proof fn law_plain_stream_compiles_to_itself(
    encoder: &RenderBundleEncoder,
    desc: &RenderBundleDescriptor,
    device: &Device,
    tables: &ResourceTables,
)
    requires
        tables.wf(),
        forall|i: int|
            0 <= i < encoder.base.commands@.len() ==> plain(tables, #[trigger] encoder.base.commands@[i]),
        encoder.compile(desc, device, tables) is Ok,
    ensures
        encoder.compile(desc, device, tables).unwrap().commands == encoder.base.commands@,
        encoder.compile(desc, device, tables).unwrap().dynamic_offsets.len() == 0,
{
    lemma_plain_run(CompilationView::initial(), encoder, device, tables, encoder.base.commands@);
    assert(Seq::<RenderCommand>::empty() + encoder.base.commands@ =~= encoder.base.commands@);
}

/// The compiler reads the encoder and the tables by their contents alone: two
/// encoders with the same stream, device and attachments, compiled with the
/// same device limits against tables with the same contents, give the same
/// bundle or the same error.
pub proof fn law_compile_determined_by_contents(
    first: &RenderBundleEncoder,
    second: &RenderBundleEncoder,
    first_desc: &RenderBundleDescriptor,
    second_desc: &RenderBundleDescriptor,
    device: &Device,
    first_tables: &ResourceTables,
    second_tables: &ResourceTables,
)
    requires
        first.base.commands@ == second.base.commands@,
        first.base.dynamic_offsets@ == second.base.dynamic_offsets@,
        first.base.push_constant_data@ == second.base.push_constant_data@,
        first.parent_id == second.parent_id,
        first.context@ == second.context@,
        first.is_ds_read_only == second.is_ds_read_only,
        label_view(first_desc.label) == label_view(second_desc.label),
        first_tables.buffers.slots@ == second_tables.buffers.slots@,
        first_tables.bind_groups.slots@ == second_tables.bind_groups.slots@,
        first_tables.render_pipelines.slots@ == second_tables.render_pipelines.slots@,
        first_tables.pipeline_layouts.slots@ == second_tables.pipeline_layouts.slots@,
    ensures
        first.compile(first_desc, device, first_tables) == second.compile(
            second_desc,
            device,
            second_tables,
        ),
{
    lemma_run_determined_by_contents(
        CompilationView::initial(),
        first,
        second,
        device,
        first_tables,
        second_tables,
        first.base.commands@,
    );
}

/// One run of the compiler on two encoders and two sets of tables with the
/// same contents.
proof fn lemma_run_determined_by_contents(
    s: CompilationView,
    first: &RenderBundleEncoder,
    second: &RenderBundleEncoder,
    device: &Device,
    first_tables: &ResourceTables,
    second_tables: &ResourceTables,
    commands: Seq<RenderCommand>,
)
    requires
        first.base.dynamic_offsets@ == second.base.dynamic_offsets@,
        first.parent_id == second.parent_id,
        first.context@ == second.context@,
        first.is_ds_read_only == second.is_ds_read_only,
        first_tables.buffers.slots@ == second_tables.buffers.slots@,
        first_tables.bind_groups.slots@ == second_tables.bind_groups.slots@,
        first_tables.render_pipelines.slots@ == second_tables.render_pipelines.slots@,
        first_tables.pipeline_layouts.slots@ == second_tables.pipeline_layouts.slots@,
    ensures
        s.run(first, device, first_tables, commands) == s.run(
            second,
            device,
            second_tables,
            commands,
        ),
    decreases commands.len(),
{
    if commands.len() > 0 {
        lemma_run_determined_by_contents(
            s,
            first,
            second,
            device,
            first_tables,
            second_tables,
            commands.drop_last(),
        );
        match s.run(first, device, first_tables, commands.drop_last()) {
            Ok(mid) => {
                assert(mid.step(first, device, first_tables, commands.last()) == mid.step(
                    second,
                    device,
                    second_tables,
                    commands.last(),
                ));
            },
            Err(_) => {},
        }
    }
}

/// Whether the resource that a command names, if it names one, is in the
/// tables and belongs to the device.
pub open spec fn names_resource_of(
    device_id: DeviceId,
    tables: &ResourceTables,
    command: RenderCommand,
) -> bool {
    match command {
        RenderCommand::SetBindGroup { bind_group_id, .. } => tables.bind_groups.lookup(
            bind_group_id.0,
        ) matches Some(g) && g.device_id == device_id,
        RenderCommand::SetPipeline(pipeline_id) => tables.render_pipelines.lookup(
            pipeline_id.0,
        ) matches Some(p) && p.device_id == device_id,
        RenderCommand::SetIndexBuffer { buffer_id, .. } => owns_buffer(device_id, tables, buffer_id),
        RenderCommand::SetVertexBuffer { buffer_id, .. } => owns_buffer(device_id, tables, buffer_id),
        RenderCommand::MultiDrawIndirect { buffer_id, .. } => owns_buffer(
            device_id,
            tables,
            buffer_id,
        ),
        _ => true,
    }
}

/// Whether the buffer is in the tables and belongs to the device.
pub open spec fn owns_buffer(device_id: DeviceId, tables: &ResourceTables, id: BufferId) -> bool {
    tables.buffers.lookup(id.0) matches Some(b) && b.device_id == device_id
}

/// Every command so far, and everything that the simulated state holds, names a
/// resource of the device of the encoder.
spec fn all_of_device(s: CompilationView, encoder: &RenderBundleEncoder, tables: &ResourceTables) -> bool {
    &&& forall|i: int|
        0 <= i < s.commands.len() ==> names_resource_of(
            encoder.parent_id,
            tables,
            #[trigger] s.commands[i],
        )
    &&& s.state.index.buffer matches Some(id) ==> owns_buffer(encoder.parent_id, tables, id)
    &&& forall|i: int|
        0 <= i < s.state.vertex.len() ==> ((#[trigger] s.state.vertex[i]).buffer matches Some(id)
            ==> owns_buffer(encoder.parent_id, tables, id))
    &&& forall|j: int|
        0 <= j < s.state.bind.len() ==> (#[trigger] s.state.bind[j] matches Some(b)
            ==> names_resource_of(encoder.parent_id, tables, b.command(j)))
}

/// Every command of a flush of the vertex slots sets the buffer of a slot.
pub proof fn lemma_vertex_flush_from_slots(vertex: Seq<VertexState>, n: int, i: int)
    requires
        0 <= n <= vertex.len(),
        0 <= i < vertex_flush_commands(vertex, n).len(),
    ensures
        exists|k: int|
            0 <= k < n && (#[trigger] vertex[k]).is_dirty && vertex_flush_commands(vertex, n)[i]
                == vertex[k].command(k as u32),
    decreases n,
{
    let before = vertex_flush_commands(vertex, n - 1);
    if i < before.len() {
        lemma_vertex_flush_from_slots(vertex, n - 1, i);
        let k = choose|k: int|
            0 <= k < n - 1 && (#[trigger] vertex[k]).is_dirty && before[i] == vertex[k].command(
                k as u32,
            );
        assert(vertex[k].is_dirty);
    } else {
        assert(vertex[n - 1].is_dirty);
    }
}

/// Every command of a flush of the bind group slots sets the bind group of a slot.
pub proof fn lemma_bind_flush_from_slots(bind: Seq<Option<BindState>>, n: int, i: int)
    requires
        0 <= n <= bind.len(),
        0 <= i < bind_flush_commands(bind, n).len(),
    ensures
        exists|k: int|
            0 <= k < n && (#[trigger] bind[k]) is Some && bind_flush_commands(bind, n)[i]
                == bind[k].unwrap().command(k),
    decreases n,
{
    let before = bind_flush_commands(bind, n - 1);
    if i < before.len() {
        lemma_bind_flush_from_slots(bind, n - 1, i);
        let k = choose|k: int|
            0 <= k < n - 1 && (#[trigger] bind[k]) is Some && before[i] == bind[k].unwrap().command(k);
        assert(bind[k] is Some);
    } else {
        assert(bind[n - 1] is Some);
    }
}

/// A flush and a draw name resources of the device of the encoder.
proof fn lemma_flush_of_device(
    s: CompilationView,
    encoder: &RenderBundleEncoder,
    tables: &ResourceTables,
    scope: PassErrorScope,
    indexed: bool,
    command: RenderCommand,
)
    requires
        s.inv(encoder),
        all_of_device(s, encoder, tables),
        names_resource_of(encoder.parent_id, tables, command),
        s.flush_and_draw(encoder, scope, indexed, command) is Ok,
    ensures
        all_of_device(s.flush_and_draw(encoder, scope, indexed, command).unwrap(), encoder, tables),
{
    let t = s.flush_and_draw(encoder, scope, indexed, command).unwrap();
    let index_commands = if indexed {
        s.state.index.flush_commands()
    } else {
        Seq::empty()
    };
    let state = StateView {
        index: if indexed {
            s.state.index.flushed()
        } else {
            s.state.index
        },
        ..s.state
    };
    let vertex_commands = state.vertex_commands();
    let bind_commands = state.bind_commands();
    let a = s.commands + index_commands;
    let b = a + vertex_commands;
    let c = b + bind_commands;
    assert(t.commands == c.push(command));
    assert forall|i: int| 0 <= i < t.commands.len() implies names_resource_of(
        encoder.parent_id,
        tables,
        #[trigger] t.commands[i],
    ) by {
        if i < s.commands.len() {
            assert(t.commands[i] == s.commands[i]);
        } else if i < a.len() {
            assert(t.commands[i] == index_commands[i - s.commands.len()]);
        } else if i < b.len() {
            let at = i - a.len();
            assert(t.commands[i] == vertex_commands[at]);
            lemma_vertex_flush_from_slots(state.vertex, state.vertex.len() as int, at);
            let k = choose|k: int|
                0 <= k < state.vertex.len() && (#[trigger] state.vertex[k]).is_dirty
                    && vertex_commands[at] == state.vertex[k].command(k as u32);
            lemma_missing_vertex_buffer_none(state.vertex, state.vertex.len() as int, k);
            assert(s.state.vertex[k].buffer is Some);
        } else if i < c.len() {
            let at = i - b.len();
            assert(t.commands[i] == bind_commands[at]);
            lemma_bind_flush_from_slots(state.bind, state.used_bind_groups as int, at);
            let k = choose|k: int|
                0 <= k < state.used_bind_groups && (#[trigger] state.bind[k]) is Some
                    && bind_commands[at] == state.bind[k].unwrap().command(k);
            assert(s.state.bind[k] is Some);
        }
    }
    assert forall|i: int| 0 <= i < t.state.vertex.len() implies ((#[trigger] t.state.vertex[i]).buffer matches Some(
        id,
    ) ==> owns_buffer(encoder.parent_id, tables, id)) by {
        assert(s.state.vertex[i].buffer == t.state.vertex[i].buffer);
    }
    assert forall|j: int| 0 <= j < t.state.bind.len() implies (#[trigger] t.state.bind[j] matches Some(
        b,
    ) ==> names_resource_of(encoder.parent_id, tables, b.command(j))) by {
        assert(s.state.bind[j] matches Some(b) ==> names_resource_of(
            encoder.parent_id,
            tables,
            b.command(j),
        ));
    }
}

/// A command that is compiled names resources of the device of the encoder.
proof fn lemma_step_of_device(
    s: CompilationView,
    encoder: &RenderBundleEncoder,
    device: &Device,
    tables: &ResourceTables,
    command: RenderCommand,
)
    requires
        s.inv(encoder),
        device.limits.wf(),
        all_of_device(s, encoder, tables),
        s.step(encoder, device, tables, command) is Ok,
    ensures
        all_of_device(s.step(encoder, device, tables, command).unwrap(), encoder, tables),
{
    let t = s.step(encoder, device, tables, command).unwrap();
    match command {
        RenderCommand::SetBindGroup { index, .. } => {
            assert forall|j: int| 0 <= j < t.state.bind.len() implies (#[trigger] t.state.bind[j] matches Some(
                b,
            ) ==> names_resource_of(encoder.parent_id, tables, b.command(j))) by {
                assert(s.state.bind[j] matches Some(b) ==> names_resource_of(
                    encoder.parent_id,
                    tables,
                    b.command(j),
                ));
            }
        },
        RenderCommand::SetPipeline(_) => {
            let clears = t.state.push_constant_commands();
            let first = s.commands.push(command);
            assert forall|i: int| 0 <= i < t.commands.len() implies names_resource_of(
                encoder.parent_id,
                tables,
                #[trigger] t.commands[i],
            ) by {
                if i < s.commands.len() {
                    assert(t.commands[i] == s.commands[i]);
                } else if i >= first.len() {
                    assert(t.commands[i] == clears[i - first.len()]);
                }
            }
            assert forall|i: int| 0 <= i < t.state.vertex.len() implies ((#[trigger] t.state.vertex[i]).buffer matches Some(
                id,
            ) ==> owns_buffer(encoder.parent_id, tables, id)) by {
                assert(s.state.vertex[i].buffer == t.state.vertex[i].buffer);
            }
            assert forall|j: int| 0 <= j < t.state.bind.len() implies (#[trigger] t.state.bind[j] matches Some(
                b,
            ) ==> names_resource_of(encoder.parent_id, tables, b.command(j))) by {
                assert(s.state.bind[j] matches Some(b) ==> names_resource_of(
                    encoder.parent_id,
                    tables,
                    b.command(j),
                ));
            }
        },
        RenderCommand::SetVertexBuffer { slot, .. } => {
            assert forall|i: int| 0 <= i < t.state.vertex.len() implies ((#[trigger] t.state.vertex[i]).buffer matches Some(
                id,
            ) ==> owns_buffer(encoder.parent_id, tables, id)) by {
                if i != slot {
                    assert(s.state.vertex[i].buffer == t.state.vertex[i].buffer);
                }
            }
        },
        RenderCommand::SetPushConstant { .. } => {
            assert forall|i: int| 0 <= i < t.commands.len() implies names_resource_of(
                encoder.parent_id,
                tables,
                #[trigger] t.commands[i],
            ) by {
                if i < s.commands.len() {
                    assert(t.commands[i] == s.commands[i]);
                }
            }
        },
        RenderCommand::Draw { .. } => {
            lemma_flush_of_device(s, encoder, tables, s.draw_scope(false, false), false, command);
        },
        RenderCommand::DrawIndexed { .. } => {
            lemma_flush_of_device(s, encoder, tables, s.draw_scope(true, false), true, command);
        },
        RenderCommand::MultiDrawIndirect { buffer_id, offset, indexed, .. } => {
            let scope = s.draw_scope(indexed, true);
            let used = s.use_buffer(
                encoder,
                tables,
                scope,
                buffer_id,
                BUFFER_USE_INDIRECT,
                BUFFER_USAGE_INDIRECT,
            ).unwrap().0;
            let next = CompilationView {
                buffer_memory_init_actions: used.buffer_memory_init_actions.push(
                    init_action(
                        buffer_id,
                        ByteRange { start: offset, end: (offset + DRAW_INDIRECT_ARGS_SIZE) as u64 },
                    ),
                ),
                ..used
            };
            lemma_flush_of_device(next, encoder, tables, scope, indexed, command);
        },
        _ => {},
    }
}

/// The compilation of commands, where it does not fail, names resources of
/// the device of the encoder.
proof fn lemma_run_of_device(
    s: CompilationView,
    encoder: &RenderBundleEncoder,
    device: &Device,
    tables: &ResourceTables,
    commands: Seq<RenderCommand>,
)
    requires
        s.inv(encoder),
        device.limits.wf(),
        tables.wf(),
        encoder.base.dynamic_offsets@.len() <= usize::MAX,
        all_of_device(s, encoder, tables),
        forall|i: int| 0 <= i < commands.len() ==> (#[trigger] commands[i]).in_range(
            encoder.base.push_constant_data@.len(),
        ),
        s.next_dynamic_offset + offsets_needed(commands) <= encoder.base.dynamic_offsets@.len(),
        s.run(encoder, device, tables, commands) is Ok,
    ensures
        ({
            let t = s.run(encoder, device, tables, commands).unwrap();
            &&& all_of_device(t, encoder, tables)
            &&& t.inv(encoder)
            &&& t.next_dynamic_offset == s.next_dynamic_offset + offsets_needed(commands)
        }),
    decreases commands.len(),
{
    if commands.len() > 0 {
        let front = commands.drop_last();
        assert forall|i: int| 0 <= i < front.len() implies (#[trigger] front[i]).in_range(
            encoder.base.push_constant_data@.len(),
        ) by {
            assert(front[i] == commands[i]);
        }
        lemma_run_of_device(s, encoder, device, tables, front);
        let mid = s.run(encoder, device, tables, front).unwrap();
        assert(commands[commands.len() - 1].in_range(encoder.base.push_constant_data@.len()));
        lemma_step_of_device(mid, encoder, device, tables, commands.last());
        lemma_step_inv(mid, encoder, device, tables, commands.last());
        lemma_step_next_offset(mid, encoder, device, tables, commands.last());
    }
}

/// Every resource that a command of a bundle names belongs to the device of
/// the bundle: the bind groups, the pipelines and the buffers of the compiled
/// commands are in the tables that the encoder was compiled against, and they
/// are resources of the device that the bundle belongs to.
pub proof fn law_bundle_names_resources_of_its_device(
    encoder: &RenderBundleEncoder,
    desc: &RenderBundleDescriptor,
    device: &Device,
    tables: &ResourceTables,
)
    requires
        encoder.wf(),
        device.limits.wf(),
        tables.wf(),
        encoder.compile(desc, device, tables) is Ok,
    ensures
        ({
            let bundle = encoder.compile(desc, device, tables).unwrap();
            forall|i: int|
                0 <= i < bundle.commands.len() ==> names_resource_of(
                    bundle.device_id,
                    tables,
                    #[trigger] bundle.commands[i],
                )
        }),
{
    lemma_offsets_countable(encoder);
    lemma_run_of_device(
        CompilationView::initial(),
        encoder,
        device,
        tables,
        encoder.base.commands@,
    );
}

/// Whether a command of a stream stands behind a command that sets a pipeline.
pub open spec fn behind_pipeline(commands: Seq<RenderCommand>, at: int) -> bool {
    exists|j: int| 0 <= j < at && (#[trigger] commands[j]) is SetPipeline
}

/// Whether the native calls of a command need the layout of a pipeline.
pub open spec fn needs_layout(command: RenderCommand) -> bool {
    command is SetBindGroup || command is SetPushConstant
}

/// Every command so far that needs a layout stands behind a pipeline, and so
/// does what a flush will add once the simulated state knows a layout.
spec fn layouts_known(s: CompilationView) -> bool {
    &&& forall|i: int|
        0 <= i < s.commands.len() && needs_layout(#[trigger] s.commands[i]) ==> behind_pipeline(
            s.commands,
            i,
        )
    &&& (s.pipeline_layout_id is Some || s.state.used_bind_groups > 0) ==> behind_pipeline(
        s.commands,
        s.commands.len() as int,
    )
}

/// What stands behind a pipeline in a stream does so in a longer stream.
proof fn lemma_behind_pipeline_longer(a: Seq<RenderCommand>, b: Seq<RenderCommand>, at: int)
    requires
        0 <= at <= a.len(),
        behind_pipeline(a, at),
    ensures
        behind_pipeline(a + b, at),
        forall|more: int| at <= more ==> behind_pipeline(a + b, more),
{
    let j = choose|j: int| 0 <= j < at && (#[trigger] a[j]) is SetPipeline;
    assert((a + b)[j] is SetPipeline);
    assert forall|more: int| at <= more implies behind_pipeline(a + b, more) by {
        assert((a + b)[j] is SetPipeline);
    }
}

/// A flush and a draw keep the commands that need a layout behind a pipeline.
proof fn lemma_flush_layouts(
    s: CompilationView,
    encoder: &RenderBundleEncoder,
    scope: PassErrorScope,
    indexed: bool,
    command: RenderCommand,
)
    requires
        layouts_known(s),
        !needs_layout(command),
        s.flush_and_draw(encoder, scope, indexed, command) is Ok,
    ensures
        layouts_known(s.flush_and_draw(encoder, scope, indexed, command).unwrap()),
{
    let t = s.flush_and_draw(encoder, scope, indexed, command).unwrap();
    let index_commands = if indexed {
        s.state.index.flush_commands()
    } else {
        Seq::empty()
    };
    let state = StateView {
        index: if indexed {
            s.state.index.flushed()
        } else {
            s.state.index
        },
        ..s.state
    };
    let vertex_commands = state.vertex_commands();
    let bind_commands = state.bind_commands();
    lemma_vertex_flush_commands(state.vertex, state.vertex.len() as int, 0);
    let rest = (index_commands + vertex_commands + bind_commands).push(command);
    assert(t.commands =~= s.commands + rest);
    if s.pipeline_layout_id is Some || s.state.used_bind_groups > 0 {
        lemma_behind_pipeline_longer(s.commands, rest, s.commands.len() as int);
    } else {
        assert(bind_commands =~= Seq::<RenderCommand>::empty());
    }
    assert forall|i: int| 0 <= i < t.commands.len() && needs_layout(
        #[trigger] t.commands[i],
    ) implies behind_pipeline(t.commands, i) by {
        if i < s.commands.len() {
            assert(t.commands[i] == s.commands[i]);
            lemma_behind_pipeline_longer(s.commands, rest, i);
        } else {
            let a = s.commands + index_commands;
            let b = a + vertex_commands;
            if i < a.len() {
                assert(t.commands[i] == index_commands[i - s.commands.len()]);
            } else if i < b.len() {
                assert(t.commands[i] == vertex_commands[i - a.len()]);
            }
        }
    }
}

/// A command that is compiled keeps the commands that need a layout behind a pipeline.
proof fn lemma_step_layouts(
    s: CompilationView,
    encoder: &RenderBundleEncoder,
    device: &Device,
    tables: &ResourceTables,
    command: RenderCommand,
)
    requires
        layouts_known(s),
        s.step(encoder, device, tables, command) is Ok,
    ensures
        layouts_known(s.step(encoder, device, tables, command).unwrap()),
{
    let t = s.step(encoder, device, tables, command).unwrap();
    match command {
        RenderCommand::SetPipeline(_) => {
            let clears = t.state.push_constant_commands();
            let first = s.commands.push(command);
            assert(t.commands == first + clears);
            assert(t.commands[s.commands.len() as int] is SetPipeline);
            assert forall|i: int| 0 <= i < t.commands.len() && needs_layout(
                #[trigger] t.commands[i],
            ) implies behind_pipeline(t.commands, i) by {
                if i < s.commands.len() {
                    assert(t.commands[i] == s.commands[i]);
                    lemma_behind_pipeline_longer(
                        s.commands,
                        Seq::<RenderCommand>::empty().push(command) + clears,
                        i,
                    );
                    assert(s.commands + (Seq::<RenderCommand>::empty().push(command) + clears)
                        =~= t.commands);
                } else {
                    assert(t.commands[s.commands.len() as int] is SetPipeline);
                }
            }
        },
        RenderCommand::SetPushConstant { .. } => {
            let one = Seq::<RenderCommand>::empty().push(command);
            assert(t.commands =~= s.commands + one);
            lemma_behind_pipeline_longer(s.commands, one, s.commands.len() as int);
            assert forall|i: int| 0 <= i < t.commands.len() && needs_layout(
                #[trigger] t.commands[i],
            ) implies behind_pipeline(t.commands, i) by {
                if i < s.commands.len() {
                    assert(t.commands[i] == s.commands[i]);
                    lemma_behind_pipeline_longer(s.commands, one, i);
                }
            }
        },
        RenderCommand::Draw { .. } => {
            lemma_flush_layouts(s, encoder, s.draw_scope(false, false), false, command);
        },
        RenderCommand::DrawIndexed { .. } => {
            lemma_flush_layouts(s, encoder, s.draw_scope(true, false), true, command);
        },
        RenderCommand::MultiDrawIndirect { buffer_id, offset, indexed, .. } => {
            let scope = s.draw_scope(indexed, true);
            let used = s.use_buffer(
                encoder,
                tables,
                scope,
                buffer_id,
                BUFFER_USE_INDIRECT,
                BUFFER_USAGE_INDIRECT,
            ).unwrap().0;
            let next = CompilationView {
                buffer_memory_init_actions: used.buffer_memory_init_actions.push(
                    init_action(
                        buffer_id,
                        ByteRange { start: offset, end: (offset + DRAW_INDIRECT_ARGS_SIZE) as u64 },
                    ),
                ),
                ..used
            };
            lemma_flush_layouts(next, encoder, scope, indexed, command);
        },
        _ => {},
    }
}

/// The compilation of commands, where it does not fail, keeps the commands
/// that need a layout behind a pipeline.
proof fn lemma_run_layouts(
    s: CompilationView,
    encoder: &RenderBundleEncoder,
    device: &Device,
    tables: &ResourceTables,
    commands: Seq<RenderCommand>,
)
    requires
        layouts_known(s),
        s.run(encoder, device, tables, commands) is Ok,
    ensures
        layouts_known(s.run(encoder, device, tables, commands).unwrap()),
    decreases commands.len(),
{
    if commands.len() > 0 {
        lemma_run_layouts(s, encoder, device, tables, commands.drop_last());
        let mid = s.run(encoder, device, tables, commands.drop_last()).unwrap();
        lemma_step_layouts(mid, encoder, device, tables, commands.last());
    }
}

/// In a bundle a pipeline is set before anything that needs its layout: every
/// command of the compiled commands that sets a bind group or push constants
/// stands behind a command that sets a pipeline. So the replay of a bundle makes
/// a native call for each of them.
pub proof fn law_bundle_sets_pipeline_first(
    encoder: &RenderBundleEncoder,
    desc: &RenderBundleDescriptor,
    device: &Device,
    tables: &ResourceTables,
)
    requires
        encoder.compile(desc, device, tables) is Ok,
    ensures
        ({
            let bundle = encoder.compile(desc, device, tables).unwrap();
            forall|i: int|
                0 <= i < bundle.commands.len() && needs_layout(#[trigger] bundle.commands[i])
                    ==> behind_pipeline(bundle.commands, i)
        }),
{
    lemma_run_layouts(CompilationView::initial(), encoder, device, tables, encoder.base.commands@);
}

} // verus!
