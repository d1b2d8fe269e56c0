//! The manifest of a bundle: what the compiled commands use is in the scope of
//! the bundle, each resource once.

use vstd::prelude::*;
use crate::command::{offsets_needed, ByteRange, RenderCommand, DRAW_INDIRECT_ARGS_SIZE};
use crate::compile::{
    init_action, lemma_offsets_countable, lemma_step_inv, lemma_step_next_offset,
    CompilationView,
};
use crate::encoder::{RenderBundleDescriptor, RenderBundleEncoder};
use crate::error::PassErrorScope;
use crate::flags::{BUFFER_USAGE_INDEX, BUFFER_USAGE_INDIRECT, BUFFER_USAGE_VERTEX};
use crate::id::{BindGroupId, BufferId};
use crate::laws::{lemma_bind_flush_from_slots, lemma_vertex_flush_from_slots};
use crate::resource::{Device, ResourceTables};
use crate::state::{lemma_missing_vertex_buffer_none, StateView};
use crate::track::{
    lemma_add_id_keeps, lemma_merge_usage_keeps, lemma_merge_usages_keeps, uses, ScopeView,
    BUFFER_USES_EXCLUSIVE, BUFFER_USE_INDEX, BUFFER_USE_INDIRECT, BUFFER_USE_VERTEX,
    TEXTURE_USES_EXCLUSIVE,
};

verus! {

/// The scope holds the bind group and all that the bind group uses.
pub open spec fn holds_bind_group(scope: ScopeView, tables: &ResourceTables, id: BindGroupId) -> bool {
    &&& scope.bind_groups.contains(id.0)
    &&& tables.bind_groups.lookup(id.0) matches Some(g) ==> {
        &&& forall|k: int|
            0 <= k < g.used.buffers@.len() ==> uses(
                scope.buffers,
                (#[trigger] g.used.buffers@[k]).id,
                g.used.buffers@[k].usage,
            )
        &&& forall|k: int|
            0 <= k < g.used.textures@.len() ==> uses(
                scope.textures,
                (#[trigger] g.used.textures@[k]).id,
                g.used.textures@[k].usage,
            )
    }
}

/// The scope holds what the command uses: the bind group with all that it
/// uses, the pipeline, or the buffer with the use that the command makes of it.
pub open spec fn holds(scope: ScopeView, tables: &ResourceTables, command: RenderCommand) -> bool {
    match command {
        RenderCommand::SetBindGroup { bind_group_id, .. } => holds_bind_group(
            scope,
            tables,
            bind_group_id,
        ),
        RenderCommand::SetPipeline(id) => scope.render_pipelines.contains(id.0),
        RenderCommand::SetIndexBuffer { buffer_id, .. } => uses(
            scope.buffers,
            buffer_id.0,
            BUFFER_USE_INDEX,
        ),
        RenderCommand::SetVertexBuffer { buffer_id, .. } => uses(
            scope.buffers,
            buffer_id.0,
            BUFFER_USE_VERTEX,
        ),
        RenderCommand::MultiDrawIndirect { buffer_id, .. } => uses(
            scope.buffers,
            buffer_id.0,
            BUFFER_USE_INDIRECT,
        ),
        _ => true,
    }
}

/// A scope that holds at least what another holds.
pub open spec fn grown(before: ScopeView, after: ScopeView) -> bool {
    &&& forall|id: u64, held: u32| uses(before.buffers, id, held) ==> uses(after.buffers, id, held)
    &&& forall|id: u64, held: u32| uses(before.textures, id, held) ==> uses(after.textures, id, held)
    &&& forall|id: u64| before.bind_groups.contains(id) ==> after.bind_groups.contains(id)
    &&& forall|id: u64| before.render_pipelines.contains(id) ==> after.render_pipelines.contains(id)
}

/// What a scope holds, a scope that has grown from it holds.
proof fn lemma_grown_holds(
    before: ScopeView,
    after: ScopeView,
    tables: &ResourceTables,
    command: RenderCommand,
)
    requires
        grown(before, after),
        holds(before, tables, command),
    ensures
        holds(after, tables, command),
{
}

/// The scope holds what every command so far uses, and what the simulated
/// state holds to set it later.
spec fn all_held(s: CompilationView, tables: &ResourceTables) -> bool {
    &&& s.state.trackers.wf()
    &&& forall|i: int| 0 <= i < s.commands.len() ==> holds(s.state.trackers, tables, #[trigger] s.commands[i])
    &&& s.state.index.buffer matches Some(id) ==> uses(s.state.trackers.buffers, id.0, BUFFER_USE_INDEX)
    &&& forall|i: int|
        0 <= i < s.state.vertex.len() ==> ((#[trigger] s.state.vertex[i]).buffer matches Some(id)
            ==> uses(s.state.trackers.buffers, id.0, BUFFER_USE_VERTEX))
    &&& forall|j: int|
        0 <= j < s.state.bind.len() ==> (#[trigger] s.state.bind[j] matches Some(b)
            ==> holds_bind_group(s.state.trackers, tables, b.bind_group_id))
}

/// What is held stays held when the scope grows and the rest stays as it is.
proof fn lemma_all_held_grown(s: CompilationView, t: CompilationView, tables: &ResourceTables)
    requires
        all_held(s, tables),
        grown(s.state.trackers, t.state.trackers),
        t.state.trackers.wf(),
        t.commands == s.commands,
        t.state.index.buffer == s.state.index.buffer,
        t.state.vertex.len() == s.state.vertex.len(),
        forall|i: int|
            0 <= i < s.state.vertex.len() ==> (#[trigger] t.state.vertex[i]).buffer
                == s.state.vertex[i].buffer,
        t.state.bind.len() == s.state.bind.len(),
        forall|j: int|
            0 <= j < s.state.bind.len() ==> (#[trigger] t.state.bind[j] matches Some(b)
                ==> s.state.bind[j] matches Some(a) && a.bind_group_id == b.bind_group_id),
    ensures
        all_held(t, tables),
{
    assert forall|i: int| 0 <= i < t.commands.len() implies holds(
        t.state.trackers,
        tables,
        #[trigger] t.commands[i],
    ) by {
        lemma_grown_holds(s.state.trackers, t.state.trackers, tables, s.commands[i]);
    }
    assert forall|i: int| 0 <= i < t.state.vertex.len() implies ((#[trigger] t.state.vertex[i]).buffer matches Some(
        id,
    ) ==> uses(t.state.trackers.buffers, id.0, BUFFER_USE_VERTEX)) by {
        assert(s.state.vertex[i].buffer matches Some(id) ==> uses(
            s.state.trackers.buffers,
            id.0,
            BUFFER_USE_VERTEX,
        ));
    }
    assert forall|j: int| 0 <= j < t.state.bind.len() implies (#[trigger] t.state.bind[j] matches Some(
        b,
    ) ==> holds_bind_group(t.state.trackers, tables, b.bind_group_id)) by {
        if t.state.bind[j] is Some {
            let a = s.state.bind[j].unwrap();
            assert(holds_bind_group(s.state.trackers, tables, a.bind_group_id));
        }
    }
}

/// A buffer that a command uses is merged into the scope.
proof fn lemma_use_buffer_held(
    s: CompilationView,
    encoder: &RenderBundleEncoder,
    tables: &ResourceTables,
    scope: PassErrorScope,
    id: BufferId,
    tracked_use: u32,
    usage: u32,
)
    requires
        all_held(s, tables),
        s.use_buffer(encoder, tables, scope, id, tracked_use, usage) is Ok,
    ensures
        ({
            let t = s.use_buffer(encoder, tables, scope, id, tracked_use, usage).unwrap().0;
            &&& all_held(t, tables)
            &&& uses(t.state.trackers.buffers, id.0, tracked_use)
            &&& t.state == (StateView { trackers: t.state.trackers, ..s.state })
            &&& t == (CompilationView { state: t.state, ..s })
        }),
{
    let t = s.use_buffer(encoder, tables, scope, id, tracked_use, usage).unwrap().0;
    lemma_merge_usage_keeps(s.state.trackers.buffers, id.0, tracked_use, BUFFER_USES_EXCLUSIVE);
    lemma_all_held_grown(s, t, tables);
}

/// A flush and a draw use what the scope holds.
proof fn lemma_flush_held(
    s: CompilationView,
    encoder: &RenderBundleEncoder,
    tables: &ResourceTables,
    scope: PassErrorScope,
    indexed: bool,
    command: RenderCommand,
)
    requires
        s.inv(encoder),
        all_held(s, tables),
        holds(s.state.trackers, tables, command),
        s.flush_and_draw(encoder, scope, indexed, command) is Ok,
    ensures
        all_held(s.flush_and_draw(encoder, scope, indexed, command).unwrap(), tables),
{
    let t = s.flush_and_draw(encoder, scope, indexed, command).unwrap();
    let index_commands = if indexed {
        s.state.index.flush_commands()
    } else {
        Seq::empty()
    };
    let state = StateView {
        index: if indexed {
            s.state.index.flushed()
        } else {
            s.state.index
        },
        ..s.state
    };
    let vertex_commands = state.vertex_commands();
    let bind_commands = state.bind_commands();
    let a = s.commands + index_commands;
    let b = a + vertex_commands;
    let c = b + bind_commands;
    assert(t.commands == c.push(command));
    assert forall|i: int| 0 <= i < t.commands.len() implies holds(
        t.state.trackers,
        tables,
        #[trigger] t.commands[i],
    ) by {
        if i < s.commands.len() {
            assert(t.commands[i] == s.commands[i]);
        } else if i < a.len() {
            assert(t.commands[i] == index_commands[i - s.commands.len()]);
        } else if i < b.len() {
            let at = i - a.len();
            assert(t.commands[i] == vertex_commands[at]);
            lemma_vertex_flush_from_slots(state.vertex, state.vertex.len() as int, at);
            let k = choose|k: int|
                0 <= k < state.vertex.len() && (#[trigger] state.vertex[k]).is_dirty
                    && vertex_commands[at] == state.vertex[k].command(k as u32);
            lemma_missing_vertex_buffer_none(state.vertex, state.vertex.len() as int, k);
            assert(s.state.vertex[k].buffer is Some);
        } else if i < c.len() {
            let at = i - b.len();
            assert(t.commands[i] == bind_commands[at]);
            lemma_bind_flush_from_slots(state.bind, state.used_bind_groups as int, at);
            let k = choose|k: int|
                0 <= k < state.used_bind_groups && (#[trigger] state.bind[k]) is Some
                    && bind_commands[at] == state.bind[k].unwrap().command(k);
            assert(s.state.bind[k] is Some);
        }
    }
    assert forall|i: int| 0 <= i < t.state.vertex.len() implies ((#[trigger] t.state.vertex[i]).buffer matches Some(
        id,
    ) ==> uses(t.state.trackers.buffers, id.0, BUFFER_USE_VERTEX)) by {
        assert(s.state.vertex[i].buffer == t.state.vertex[i].buffer);
    }
    assert forall|j: int| 0 <= j < t.state.bind.len() implies (#[trigger] t.state.bind[j] matches Some(
        b,
    ) ==> holds_bind_group(t.state.trackers, tables, b.bind_group_id)) by {
        assert(s.state.bind[j] matches Some(b) ==> holds_bind_group(
            s.state.trackers,
            tables,
            b.bind_group_id,
        ));
    }
}

/// A command that is compiled uses what the scope holds.
proof fn lemma_step_held(
    s: CompilationView,
    encoder: &RenderBundleEncoder,
    device: &Device,
    tables: &ResourceTables,
    command: RenderCommand,
)
    requires
        s.inv(encoder),
        device.limits.wf(),
        all_held(s, tables),
        s.step(encoder, device, tables, command) is Ok,
    ensures
        all_held(s.step(encoder, device, tables, command).unwrap(), tables),
{
    let t = s.step(encoder, device, tables, command).unwrap();
    match command {
        RenderCommand::SetBindGroup { index, bind_group_id, .. } => {
            let g = tables.bind_groups.lookup(bind_group_id.0).unwrap();
            let added = s.state.trackers.add_bind_group(bind_group_id);
            lemma_add_id_keeps(s.state.trackers.bind_groups, bind_group_id.0);
            lemma_merge_usages_keeps(added.buffers, g.used.buffers@, BUFFER_USES_EXCLUSIVE);
            lemma_merge_usages_keeps(added.textures, g.used.textures@, TEXTURE_USES_EXCLUSIVE);
            assert(grown(s.state.trackers, t.state.trackers));
            assert(holds_bind_group(t.state.trackers, tables, bind_group_id));
            assert forall|i: int| 0 <= i < t.commands.len() implies holds(
                t.state.trackers,
                tables,
                #[trigger] t.commands[i],
            ) by {
                lemma_grown_holds(s.state.trackers, t.state.trackers, tables, s.commands[i]);
            }
            assert forall|i: int| 0 <= i < t.state.vertex.len() implies ((#[trigger] t.state.vertex[i]).buffer matches Some(
                id,
            ) ==> uses(t.state.trackers.buffers, id.0, BUFFER_USE_VERTEX)) by {
                assert(s.state.vertex[i].buffer matches Some(id) ==> uses(
                    s.state.trackers.buffers,
                    id.0,
                    BUFFER_USE_VERTEX,
                ));
            }
            assert forall|j: int| 0 <= j < t.state.bind.len() implies (#[trigger] t.state.bind[j] matches Some(
                b,
            ) ==> holds_bind_group(t.state.trackers, tables, b.bind_group_id)) by {
                if t.state.bind[j] is Some {
                    let b = t.state.bind[j].unwrap();
                    if b.bind_group_id != bind_group_id {
                        let a = s.state.bind[j].unwrap();
                        assert(holds_bind_group(s.state.trackers, tables, a.bind_group_id));
                    }
                }
            }
        },
        RenderCommand::SetPipeline(id) => {
            lemma_add_id_keeps(s.state.trackers.render_pipelines, id.0);
            let clears = t.state.push_constant_commands();
            let first = s.commands.push(command);
            assert(grown(s.state.trackers, t.state.trackers));
            assert forall|i: int| 0 <= i < t.commands.len() implies holds(
                t.state.trackers,
                tables,
                #[trigger] t.commands[i],
            ) by {
                if i < s.commands.len() {
                    assert(t.commands[i] == s.commands[i]);
                    lemma_grown_holds(s.state.trackers, t.state.trackers, tables, s.commands[i]);
                } else if i >= first.len() {
                    assert(t.commands[i] == clears[i - first.len()]);
                }
            }
            assert forall|i: int| 0 <= i < t.state.vertex.len() implies ((#[trigger] t.state.vertex[i]).buffer matches Some(
                id,
            ) ==> uses(t.state.trackers.buffers, id.0, BUFFER_USE_VERTEX)) by {
                assert(s.state.vertex[i].buffer == t.state.vertex[i].buffer);
            }
            assert forall|j: int| 0 <= j < t.state.bind.len() implies (#[trigger] t.state.bind[j] matches Some(
                b,
            ) ==> holds_bind_group(t.state.trackers, tables, b.bind_group_id)) by {
                if t.state.bind[j] is Some {
                    let a = s.state.bind[j].unwrap();
                    assert(holds_bind_group(s.state.trackers, tables, a.bind_group_id));
                }
            }
        },
        RenderCommand::SetIndexBuffer { buffer_id, .. } => {
            lemma_use_buffer_held(
                s,
                encoder,
                tables,
                PassErrorScope::SetIndexBuffer(buffer_id),
                buffer_id,
                BUFFER_USE_INDEX,
                BUFFER_USAGE_INDEX,
            );
        },
        RenderCommand::SetVertexBuffer { slot, buffer_id, .. } => {
            lemma_use_buffer_held(
                s,
                encoder,
                tables,
                PassErrorScope::SetVertexBuffer(buffer_id),
                buffer_id,
                BUFFER_USE_VERTEX,
                BUFFER_USAGE_VERTEX,
            );
            let used = s.use_buffer(
                encoder,
                tables,
                PassErrorScope::SetVertexBuffer(buffer_id),
                buffer_id,
                BUFFER_USE_VERTEX,
                BUFFER_USAGE_VERTEX,
            ).unwrap().0;
            assert forall|i: int| 0 <= i < t.state.vertex.len() implies ((#[trigger] t.state.vertex[i]).buffer matches Some(
                id,
            ) ==> uses(t.state.trackers.buffers, id.0, BUFFER_USE_VERTEX)) by {
                if i != slot {
                    assert(used.state.vertex[i].buffer == t.state.vertex[i].buffer);
                }
            }
        },
        RenderCommand::SetPushConstant { .. } => {
            assert forall|i: int| 0 <= i < t.commands.len() implies holds(
                t.state.trackers,
                tables,
                #[trigger] t.commands[i],
            ) by {
                if i < s.commands.len() {
                    assert(t.commands[i] == s.commands[i]);
                }
            }
        },
        RenderCommand::Draw { .. } => {
            lemma_flush_held(s, encoder, tables, s.draw_scope(false, false), false, command);
        },
        RenderCommand::DrawIndexed { .. } => {
            lemma_flush_held(s, encoder, tables, s.draw_scope(true, false), true, command);
        },
        RenderCommand::MultiDrawIndirect { buffer_id, offset, indexed, .. } => {
            let scope = s.draw_scope(indexed, true);
            lemma_use_buffer_held(
                s,
                encoder,
                tables,
                scope,
                buffer_id,
                BUFFER_USE_INDIRECT,
                BUFFER_USAGE_INDIRECT,
            );
            let used = s.use_buffer(
                encoder,
                tables,
                scope,
                buffer_id,
                BUFFER_USE_INDIRECT,
                BUFFER_USAGE_INDIRECT,
            ).unwrap().0;
            let next = CompilationView {
                buffer_memory_init_actions: used.buffer_memory_init_actions.push(
                    init_action(
                        buffer_id,
                        ByteRange { start: offset, end: (offset + DRAW_INDIRECT_ARGS_SIZE) as u64 },
                    ),
                ),
                ..used
            };
            lemma_flush_held(next, encoder, tables, scope, indexed, command);
        },
        _ => {},
    }
}

/// The compilation of commands, where it does not fail, uses what the scope holds.
proof fn lemma_run_held(
    s: CompilationView,
    encoder: &RenderBundleEncoder,
    device: &Device,
    tables: &ResourceTables,
    commands: Seq<RenderCommand>,
)
    requires
        s.inv(encoder),
        device.limits.wf(),
        tables.wf(),
        encoder.base.dynamic_offsets@.len() <= usize::MAX,
        all_held(s, tables),
        forall|i: int| 0 <= i < commands.len() ==> (#[trigger] commands[i]).in_range(
            encoder.base.push_constant_data@.len(),
        ),
        s.next_dynamic_offset + offsets_needed(commands)
            <= encoder.base.dynamic_offsets@.len(),
        s.run(encoder, device, tables, commands) is Ok,
    ensures
        ({
            let t = s.run(encoder, device, tables, commands).unwrap();
            &&& all_held(t, tables)
            &&& t.inv(encoder)
            &&& t.next_dynamic_offset == s.next_dynamic_offset + offsets_needed(
                commands,
            )
        }),
    decreases commands.len(),
{
    if commands.len() > 0 {
        let front = commands.drop_last();
        assert forall|i: int| 0 <= i < front.len() implies (#[trigger] front[i]).in_range(
            encoder.base.push_constant_data@.len(),
        ) by {
            assert(front[i] == commands[i]);
        }
        lemma_run_held(s, encoder, device, tables, front);
        let mid = s.run(encoder, device, tables, front).unwrap();
        assert(commands[commands.len() - 1].in_range(encoder.base.push_constant_data@.len()));
        lemma_step_held(mid, encoder, device, tables, commands.last());
        lemma_step_inv(mid, encoder, device, tables, commands.last());
        lemma_step_next_offset(mid, encoder, device, tables, commands.last());
    }
}

/// The manifest of a bundle is complete. Where an encoder compiles, the scope
/// of the bundle holds every resource once, and it holds what every compiled
/// command uses: the pipeline of a command that sets one, the bind group of a
/// command that sets one and every buffer and texture that the bind group uses
/// with its uses, and the buffer of a command that sets or reads one, with the
/// use that the command makes of it.
pub proof fn law_bundle_manifest_complete(
    encoder: &RenderBundleEncoder,
    desc: &RenderBundleDescriptor,
    device: &Device,
    tables: &ResourceTables,
)
    requires
        encoder.wf(),
        device.limits.wf(),
        tables.wf(),
        encoder.compile(desc, device, tables) is Ok,
    ensures
        ({
            let bundle = encoder.compile(desc, device, tables).unwrap();
            &&& bundle.used.wf()
            &&& forall|i: int|
                0 <= i < bundle.commands.len() ==> holds(bundle.used, tables, #[trigger] bundle.commands[i])
        }),
{
    lemma_offsets_countable(encoder);
    lemma_run_held(CompilationView::initial(), encoder, device, tables, encoder.base.commands@);
}

} // verus!
