//! What the draws of a stream see: the pipeline, the buffers and the bind
//! groups that are bound when a draw is made. The compiled stream of a bundle
//! lets every draw see what the recorded stream lets it see.

use vstd::prelude::*;
use crate::command::{
    lemma_offsets_needed_prefix, lemma_offsets_needed_push, offsets_needed, spec_buffer_size,
    ByteRange, IndexFormat, RenderCommand, DRAW_INDIRECT_ARGS_SIZE, MAX_BIND_GROUPS,
    MAX_VERTEX_BUFFERS,
};
use crate::compile::{
    bound_range, init_action, lemma_offsets_countable, lemma_step_inv, lemma_step_next_offset,
    lemma_step_replay_inv, CompilationView,
};
use crate::encoder::{RenderBundleDescriptor, RenderBundleEncoder};
use crate::error::PassErrorScope;
use crate::flags::BUFFER_USAGE_INDIRECT;
use crate::id::{BindGroupId, BufferId, RenderPipelineId};
use crate::resource::{Device, ResourceTables};
use crate::state::{
    bind_flush_commands, bind_flush_offsets, lemma_missing_vertex_buffer_none,
    vertex_flush_commands, BindState, IndexState, StateView, VertexState,
};
use crate::track::BUFFER_USE_INDIRECT;

verus! {

/// An index buffer as it is bound: the buffer, the format of its indices, and
/// the range of bytes that is read.
pub struct IndexBound {
    pub buffer: BufferId,
    pub format: IndexFormat,
    pub range: ByteRange,
}

/// A vertex buffer as it is bound: the buffer and the range of bytes that is read.
pub struct VertexBound {
    pub buffer: BufferId,
    pub range: ByteRange,
}

/// A bind group as it is bound: the bind group and its dynamic offsets.
pub struct GroupBound {
    pub group: BindGroupId,
    pub offsets: Seq<u32>,
}

/// What a draw sees: the pipeline, the index buffer if the draw is indexed,
/// the vertex buffers by slot, and the bind groups in the slots that the layout
/// of the pipeline has.
pub struct Observation {
    pub draw: RenderCommand,
    pub pipeline: Option<RenderPipelineId>,
    pub index: Option<IndexBound>,
    pub vertex: Seq<Option<VertexBound>>,
    pub bind: Seq<Option<GroupBound>>,
}

/// What is bound while a stream is replayed, and what its draws have seen.
pub struct Watch {
    pub pipeline: Option<RenderPipelineId>,
    pub index: Option<IndexBound>,
    /// The vertex buffers by slot.
    pub vertex: Seq<Option<VertexBound>>,
    /// The bind groups by slot.
    pub bind: Seq<Option<GroupBound>>,
    /// How many dynamic offsets of the stream are taken.
    pub cursor: int,
    /// What the draws so far have seen, in order.
    pub seen: Seq<Observation>,
}

/// The range of bytes of a buffer that a command binds from `offset` on:
/// `size` bytes or, without a size, up to the end of the buffer.
pub open spec fn resolved_range(
    tables: &ResourceTables,
    id: BufferId,
    offset: u64,
    size: Option<u64>,
) -> ByteRange {
    match tables.buffers.lookup(id.0) {
        Some(buffer) => bound_range(buffer, offset, size),
        None => ByteRange { start: offset, end: offset },
    }
}

/// The number of bind group slots that the layout of the pipeline has.
pub open spec fn slots_in_use(tables: &ResourceTables, pipeline: Option<RenderPipelineId>) -> int {
    match pipeline {
        Some(id) => match tables.render_pipelines.lookup(id.0) {
            Some(p) => match tables.pipeline_layouts.lookup(p.layout_id.0) {
                Some(l) => if l.bind_group_layout_ids@.len() <= MAX_BIND_GROUPS {
                    l.bind_group_layout_ids@.len() as int
                } else {
                    MAX_BIND_GROUPS as int
                },
                None => 0,
            },
            None => 0,
        },
        None => 0,
    }
}

/// Whether a command draws, and whether the draw is indexed.
pub open spec fn drawing(command: RenderCommand) -> Option<bool> {
    match command {
        RenderCommand::Draw { .. } => Some(false),
        RenderCommand::DrawIndexed { .. } => Some(true),
        RenderCommand::MultiDrawIndirect { count: None, indexed, .. } => Some(indexed),
        _ => None,
    }
}

impl Watch {
    /// Nothing is bound, and nothing was drawn.
    pub open spec fn initial() -> Watch {
        Watch {
            pipeline: None,
            index: None,
            vertex: Seq::new(MAX_VERTEX_BUFFERS as nat, |i: int| None),
            bind: Seq::new(MAX_BIND_GROUPS as nat, |i: int| None),
            cursor: 0,
            seen: Seq::empty(),
        }
    }

    /// What a draw sees of what is bound.
    pub open spec fn observe(self, tables: &ResourceTables, draw: RenderCommand, indexed: bool) -> Observation {
        Observation {
            draw,
            pipeline: self.pipeline,
            index: if indexed {
                self.index
            } else {
                None
            },
            vertex: self.vertex,
            bind: self.bind.take(slots_in_use(tables, self.pipeline)),
        }
    }

    /// What is bound, and what was seen, after one more command of a stream
    /// whose dynamic offsets are `offsets`.
    pub open spec fn step(self, tables: &ResourceTables, offsets: Seq<u32>, command: RenderCommand) -> Watch {
        match command {
            RenderCommand::SetPipeline(id) => Watch { pipeline: Some(id), ..self },
            RenderCommand::SetIndexBuffer { buffer_id, index_format, offset, size } => Watch {
                index: Some(
                    IndexBound {
                        buffer: buffer_id,
                        format: index_format,
                        range: resolved_range(tables, buffer_id, offset, size),
                    },
                ),
                ..self
            },
            RenderCommand::SetVertexBuffer { slot, buffer_id, offset, size } => if slot
                < self.vertex.len() {
                Watch {
                    vertex: self.vertex.update(
                        slot as int,
                        Some(
                            VertexBound {
                                buffer: buffer_id,
                                range: resolved_range(tables, buffer_id, offset, size),
                            },
                        ),
                    ),
                    ..self
                }
            } else {
                self
            },
            RenderCommand::SetBindGroup { index, num_dynamic_offsets, bind_group_id } => {
                let end = self.cursor + num_dynamic_offsets;
                let bound = GroupBound {
                    group: bind_group_id,
                    offsets: offsets.subrange(self.cursor, end),
                };
                Watch {
                    bind: if index < self.bind.len() {
                        self.bind.update(index as int, Some(bound))
                    } else {
                        self.bind
                    },
                    cursor: end,
                    ..self
                }
            },
            _ => match drawing(command) {
                Some(indexed) => Watch {
                    seen: self.seen.push(self.observe(tables, command, indexed)),
                    ..self
                },
                None => self,
            },
        }
    }

    /// What is bound, and what was seen, after the commands of a stream.
    pub open spec fn run(self, tables: &ResourceTables, offsets: Seq<u32>, commands: Seq<RenderCommand>) -> Watch
        decreases commands.len(),
    {
        if commands.len() == 0 {
            self
        } else {
            self.run(tables, offsets, commands.drop_last()).step(tables, offsets, commands.last())
        }
    }
}

/// What the draws of a stream see, in order.
pub open spec fn observations(
    tables: &ResourceTables,
    offsets: Seq<u32>,
    commands: Seq<RenderCommand>,
) -> Seq<Observation> {
    Watch::initial().run(tables, offsets, commands).seen
}

/// The commands of two streams, one behind the other, are watched one stream
/// behind the other.
pub proof fn lemma_run_add(
    w: Watch,
    tables: &ResourceTables,
    offsets: Seq<u32>,
    a: Seq<RenderCommand>,
    b: Seq<RenderCommand>,
)
    ensures
        w.run(tables, offsets, a + b) == w.run(tables, offsets, a).run(tables, offsets, b),
    decreases b.len(),
{
    if b.len() == 0 {
        assert(a + b =~= a);
    } else {
        lemma_run_add(w, tables, offsets, a, b.drop_last());
        assert((a + b).drop_last() =~= a + b.drop_last());
    }
}

/// One more command behind a stream is watched behind the stream.
pub proof fn lemma_run_push(
    w: Watch,
    tables: &ResourceTables,
    offsets: Seq<u32>,
    a: Seq<RenderCommand>,
    command: RenderCommand,
)
    ensures
        w.run(tables, offsets, a.push(command)) == w.run(tables, offsets, a).step(
            tables,
            offsets,
            command,
        ),
{
    assert(a.push(command).drop_last() =~= a);
}

/// The dynamic offsets that a watched stream takes.
pub proof fn lemma_run_cursor(
    w: Watch,
    tables: &ResourceTables,
    offsets: Seq<u32>,
    commands: Seq<RenderCommand>,
)
    ensures
        w.run(tables, offsets, commands).cursor == w.cursor + offsets_needed(commands),
    decreases commands.len(),
{
    if commands.len() > 0 {
        lemma_run_cursor(w, tables, offsets, commands.drop_last());
    }
}

/// A stream is watched alike with more dynamic offsets behind those that it takes.
pub proof fn lemma_run_more_offsets(
    w: Watch,
    tables: &ResourceTables,
    offsets: Seq<u32>,
    more: Seq<u32>,
    commands: Seq<RenderCommand>,
)
    requires
        0 <= w.cursor,
        w.cursor + offsets_needed(commands) <= offsets.len(),
    ensures
        w.run(tables, offsets + more, commands) == w.run(tables, offsets, commands),
    decreases commands.len(),
{
    if commands.len() > 0 {
        let front = commands.drop_last();
        lemma_run_more_offsets(w, tables, offsets, more, front);
        lemma_run_cursor(w, tables, offsets, front);
        let mid = w.run(tables, offsets, front);
        match commands.last() {
            RenderCommand::SetBindGroup { num_dynamic_offsets, .. } => {
                assert((offsets + more).subrange(mid.cursor, mid.cursor + num_dynamic_offsets)
                    =~= offsets.subrange(mid.cursor, mid.cursor + num_dynamic_offsets));
            },
            _ => {},
        }
    }
}

/// Commands that bind nothing and draw nothing leave what is watched as it is.
pub proof fn lemma_run_neutral(
    w: Watch,
    tables: &ResourceTables,
    offsets: Seq<u32>,
    commands: Seq<RenderCommand>,
)
    requires
        forall|i: int| 0 <= i < commands.len() ==> (#[trigger] commands[i]) is SetPushConstant,
    ensures
        w.run(tables, offsets, commands) == w,
    decreases commands.len(),
{
    if commands.len() > 0 {
        assert forall|i: int| 0 <= i < commands.drop_last().len() implies (#[trigger] commands.drop_last()[i]) is SetPushConstant by {
            assert(commands.drop_last()[i] == commands[i]);
        }
        lemma_run_neutral(w, tables, offsets, commands.drop_last());
        assert(commands[commands.len() - 1] is SetPushConstant);
    }
}

/// The range of a binding is told by the command that sets it again: it is
/// not empty, or it ends where the buffer ends.
pub open spec fn settled(tables: &ResourceTables, id: BufferId, range: ByteRange) -> bool {
    tables.buffers.lookup(id.0) matches Some(buffer) && (range.start < range.end || range.end
        == buffer.size)
}

/// The command that a flush gives for a settled range binds that range.
pub proof fn lemma_settled_range(tables: &ResourceTables, id: BufferId, range: ByteRange)
    requires
        settled(tables, id, range),
    ensures
        resolved_range(tables, id, range.start, spec_buffer_size(range.len())) == range,
{
}

/// The vertex buffer that the simulated state of a slot holds.
pub open spec fn vertex_bound(v: VertexState) -> Option<VertexBound> {
    match v.buffer {
        Some(id) => Some(VertexBound { buffer: id, range: v.range }),
        None => None,
    }
}

/// The index buffer that the simulated state holds.
pub open spec fn index_bound(x: IndexState) -> Option<IndexBound> {
    match x.buffer {
        Some(id) => Some(IndexBound { buffer: id, format: x.format, range: x.range }),
        None => None,
    }
}

/// The bind group that the simulated state of a slot holds, with its dynamic
/// offsets from the array of the recorded stream.
pub open spec fn group_bound(b: Option<BindState>, offsets: Seq<u32>) -> Option<GroupBound> {
    match b {
        Some(b) => Some(
            GroupBound {
                group: b.bind_group_id,
                offsets: offsets.subrange(
                    b.dynamic_offsets.start as int,
                    b.dynamic_offsets.end as int,
                ),
            },
        ),
        None => None,
    }
}

/// The number of dynamic bindings of a bind group.
pub open spec fn dynamic_count(tables: &ResourceTables, id: BindGroupId) -> int {
    match tables.bind_groups.lookup(id.0) {
        Some(g) => g.dynamic_binding_info@.len() as int,
        None => 0,
    }
}

/// A vertex slot of the simulated state stands for what the recorded stream
/// has bound, and, unless it is dirty, for what the compiled stream has bound.
pub open spec fn vertex_agrees(
    tables: &ResourceTables,
    v: VertexState,
    recorded: Option<VertexBound>,
    compiled: Option<VertexBound>,
) -> bool {
    &&& recorded == vertex_bound(v)
    &&& (v.buffer matches Some(id) ==> settled(tables, id, v.range))
    &&& (v.buffer is None ==> compiled is None)
    &&& (v.buffer is Some && !v.is_dirty ==> compiled == recorded)
}

/// The index state stands for what the recorded stream has bound, and, unless
/// it is dirty, for what the compiled stream has bound.
pub open spec fn index_agrees(
    tables: &ResourceTables,
    x: IndexState,
    recorded: Option<IndexBound>,
    compiled: Option<IndexBound>,
) -> bool {
    &&& recorded == index_bound(x)
    &&& (x.buffer matches Some(id) ==> settled(tables, id, x.range))
    &&& (x.buffer is None ==> compiled is None)
    &&& (x.buffer is Some && !x.is_dirty ==> compiled == recorded)
}

/// A bind group slot of the simulated state stands for what the recorded
/// stream has bound, and, unless it is dirty, for what the compiled stream has bound.
pub open spec fn bind_agrees(
    tables: &ResourceTables,
    offsets: Seq<u32>,
    b: Option<BindState>,
    recorded: Option<GroupBound>,
    compiled: Option<GroupBound>,
) -> bool {
    &&& recorded == group_bound(b, offsets)
    &&& (b matches Some(x) ==> x.dynamic_offsets.end - x.dynamic_offsets.start == dynamic_count(
        tables,
        x.bind_group_id,
    ))
    &&& (b is None ==> compiled is None)
    &&& (b matches Some(x) && !x.is_dirty ==> compiled == recorded)
}

/// The compiler has simulated the recorded stream truly: the draws of the
/// compiled stream so far have seen what those of the recorded stream have
/// seen, and whatever the simulated state holds as clean is bound alike in both.
pub open spec fn simulates(
    s: CompilationView,
    tables: &ResourceTables,
    offsets: Seq<u32>,
    recorded: Watch,
    compiled: Watch,
) -> bool {
    &&& compiled.seen == recorded.seen
    &&& compiled.pipeline == recorded.pipeline
    &&& recorded.pipeline == s.state.pipeline
    &&& s.state.used_bind_groups == slots_in_use(tables, s.state.pipeline)
    &&& recorded.cursor == s.next_dynamic_offset
    &&& compiled.cursor == s.state.flat_dynamic_offsets.len()
    &&& recorded.vertex.len() == MAX_VERTEX_BUFFERS
    &&& compiled.vertex.len() == MAX_VERTEX_BUFFERS
    &&& recorded.bind.len() == MAX_BIND_GROUPS
    &&& compiled.bind.len() == MAX_BIND_GROUPS
    &&& index_agrees(tables, s.state.index, recorded.index, compiled.index)
    &&& forall|i: int|
        0 <= i < MAX_VERTEX_BUFFERS ==> vertex_agrees(
            tables,
            #[trigger] s.state.vertex[i],
            recorded.vertex[i],
            compiled.vertex[i],
        )
    &&& forall|j: int|
        0 <= j < MAX_BIND_GROUPS ==> bind_agrees(
            tables,
            offsets,
            #[trigger] s.state.bind[j],
            recorded.bind[j],
            compiled.bind[j],
        )
}

/// What is watched after the commands of a flush of the first `n` vertex
/// slots: each dirty one among them is bound as the simulated state holds it,
/// and nothing else changes.
proof fn lemma_watch_vertex_flush(
    w: Watch,
    tables: &ResourceTables,
    offsets: Seq<u32>,
    vertex: Seq<VertexState>,
    n: int,
)
    requires
        0 <= n <= vertex.len(),
        vertex.len() == w.vertex.len(),
        vertex.len() <= u32::MAX,
        forall|i: int|
            0 <= i < n ==> ((#[trigger] vertex[i]).is_dirty ==> (vertex[i].buffer matches Some(id)
                && settled(tables, id, vertex[i].range))),
    ensures
        ({
            let after = w.run(tables, offsets, vertex_flush_commands(vertex, n));
            &&& after.pipeline == w.pipeline
            &&& after.index == w.index
            &&& after.bind == w.bind
            &&& after.cursor == w.cursor
            &&& after.seen == w.seen
            &&& after.vertex.len() == w.vertex.len()
            &&& forall|i: int|
                0 <= i < w.vertex.len() ==> #[trigger] after.vertex[i] == if i < n
                    && vertex[i].is_dirty {
                    vertex_bound(vertex[i])
                } else {
                    w.vertex[i]
                }
        }),
    decreases n,
{
    if n > 0 {
        lemma_watch_vertex_flush(w, tables, offsets, vertex, n - 1);
        let before = w.run(tables, offsets, vertex_flush_commands(vertex, n - 1));
        let v = vertex[n - 1];
        if v.is_dirty {
            let id = v.buffer.unwrap();
            lemma_settled_range(tables, id, v.range);
            lemma_run_push(
                w,
                tables,
                offsets,
                vertex_flush_commands(vertex, n - 1),
                v.command((n - 1) as u32),
            );
        }
    }
}

/// The dynamic offsets of a flush of fewer slots stand at the front of those
/// of a flush of more.
proof fn lemma_bind_offsets_prefix(bind: Seq<Option<BindState>>, offsets: Seq<u32>, n: int, m: int)
    requires
        0 <= n <= m,
    ensures
        bind_flush_offsets(bind, offsets, n).len() <= bind_flush_offsets(bind, offsets, m).len(),
        bind_flush_offsets(bind, offsets, m).take(bind_flush_offsets(bind, offsets, n).len() as int)
            == bind_flush_offsets(bind, offsets, n),
    decreases m,
{
    let short = bind_flush_offsets(bind, offsets, n);
    if n < m {
        lemma_bind_offsets_prefix(bind, offsets, n, m - 1);
        let mid = bind_flush_offsets(bind, offsets, m - 1);
        let long = bind_flush_offsets(bind, offsets, m);
        assert(long.take(mid.len() as int) =~= mid);
        assert(long.take(short.len() as int) =~= mid.take(short.len() as int));
    } else {
        assert(short.take(short.len() as int) =~= short);
    }
}

/// What is watched after the commands of a flush of the first `n` bind group
/// slots, with the dynamic offsets `flat` and behind them those of the flush: each
/// dirty bind group among them is bound with its dynamic offsets of the
/// recorded stream, and nothing else changes.
proof fn lemma_watch_bind_flush(
    w: Watch,
    tables: &ResourceTables,
    flat: Seq<u32>,
    offsets: Seq<u32>,
    bind: Seq<Option<BindState>>,
    n: int,
    m: int,
)
    requires
        0 <= n <= m <= bind.len(),
        bind.len() == w.bind.len(),
        bind.len() <= u8::MAX,
        w.cursor == flat.len(),
        forall|j: int| 0 <= j < bind.len() ==> (#[trigger] bind[j] matches Some(b) ==> b.wf(offsets.len())),
    ensures
        ({
            let after = w.run(
                tables,
                flat + bind_flush_offsets(bind, offsets, m),
                bind_flush_commands(bind, n),
            );
            &&& after.pipeline == w.pipeline
            &&& after.index == w.index
            &&& after.vertex == w.vertex
            &&& after.cursor == flat.len() + bind_flush_offsets(bind, offsets, n).len()
            &&& after.seen == w.seen
            &&& after.bind.len() == w.bind.len()
            &&& forall|j: int|
                0 <= j < w.bind.len() ==> #[trigger] after.bind[j] == if j < n && (bind[j] matches Some(
                    b,
                ) && b.is_dirty) {
                    group_bound(bind[j], offsets)
                } else {
                    w.bind[j]
                }
        }),
    decreases n,
{
    if n > 0 {
        lemma_watch_bind_flush(w, tables, flat, offsets, bind, n - 1, m);
        let all = flat + bind_flush_offsets(bind, offsets, m);
        let before = w.run(tables, all, bind_flush_commands(bind, n - 1));
        match bind[n - 1] {
            Some(b) => {
                if b.is_dirty {
                    lemma_run_push(w, tables, all, bind_flush_commands(bind, n - 1), b.command(n - 1));
                    lemma_bind_offsets_prefix(bind, offsets, n, m);
                    lemma_bind_offsets_prefix(bind, offsets, n - 1, n);
                    let taken = offsets.subrange(
                        b.dynamic_offsets.start as int,
                        b.dynamic_offsets.end as int,
                    );
                    let upto = bind_flush_offsets(bind, offsets, n);
                    let long = bind_flush_offsets(bind, offsets, m);
                    let start = before.cursor;
                    let count = b.dynamic_offsets.end - b.dynamic_offsets.start;
                    assert(upto == bind_flush_offsets(bind, offsets, n - 1) + taken);
                    assert(all.subrange(start, start + count) =~= taken) by {
                        assert forall|k: int| 0 <= k < count implies all[start + k] == taken[k] by {
                            assert(long.take(upto.len() as int)[start - flat.len() + k] == upto[start
                                - flat.len() + k]);
                        }
                    }
                }
            },
            None => {},
        }
    }
}

/// The flush before a draw, and the draw, keep the simulation true: the draw
/// of the compiled stream sees what the draw of the recorded stream sees.
proof fn lemma_flush_simulates(
    s: CompilationView,
    encoder: &RenderBundleEncoder,
    tables: &ResourceTables,
    scope: PassErrorScope,
    indexed: bool,
    command: RenderCommand,
    recorded: Watch,
)
    requires
        s.inv(encoder),
        drawing(command) == Some(indexed),
        offsets_needed(s.commands) == s.state.flat_dynamic_offsets.len(),
        simulates(
            s,
            tables,
            encoder.base.dynamic_offsets@,
            recorded,
            Watch::initial().run(tables, s.state.flat_dynamic_offsets, s.commands),
        ),
        s.flush_and_draw(encoder, scope, indexed, command) is Ok,
    ensures
        ({
            let t = s.flush_and_draw(encoder, scope, indexed, command).unwrap();
            simulates(
                t,
                tables,
                encoder.base.dynamic_offsets@,
                recorded.step(tables, encoder.base.dynamic_offsets@, command),
                Watch::initial().run(tables, t.state.flat_dynamic_offsets, t.commands),
            )
        }),
{
    let offsets = encoder.base.dynamic_offsets@;
    let t = s.flush_and_draw(encoder, scope, indexed, command).unwrap();
    let flat = s.state.flat_dynamic_offsets;
    let compiled = Watch::initial().run(tables, flat, s.commands);
    let index_commands = if indexed {
        s.state.index.flush_commands()
    } else {
        Seq::empty()
    };
    let state = StateView {
        index: if indexed {
            s.state.index.flushed()
        } else {
            s.state.index
        },
        ..s.state
    };
    let used = state.used_bind_groups as int;
    let vertex_commands = state.vertex_commands();
    let bind_commands = state.bind_commands();
    let added = bind_flush_offsets(state.bind, offsets, used);
    let all = flat + added;
    assert(t.state.flat_dynamic_offsets == all);
    let a = s.commands + index_commands;
    let b = a + vertex_commands;
    let c = b + bind_commands;
    assert(t.commands == c.push(command));

    lemma_run_more_offsets(Watch::initial(), tables, flat, added, s.commands);
    let w0 = Watch::initial().run(tables, all, s.commands);
    assert(w0 == compiled);

    lemma_run_add(Watch::initial(), tables, all, s.commands, index_commands);
    let w1 = w0.run(tables, all, index_commands);
    if indexed && s.state.index.is_dirty {
        let x = s.state.index;
        lemma_settled_range(tables, x.buffer.unwrap(), x.range);
        assert(index_commands =~= Seq::<RenderCommand>::empty().push(x.command()));
        lemma_run_push(w0, tables, all, Seq::empty(), x.command());
        assert(w1.index == index_bound(x));
    } else {
        assert(index_commands =~= Seq::<RenderCommand>::empty());
        assert(w1 == w0);
    }
    assert(w1.vertex == w0.vertex);
    assert(w1.bind == w0.bind);
    assert(w1.cursor == w0.cursor);
    assert(w1.seen == w0.seen);
    assert(w1.pipeline == w0.pipeline);

    assert forall|i: int| 0 <= i < state.vertex.len() implies ((#[trigger] state.vertex[i]).is_dirty
        ==> (state.vertex[i].buffer matches Some(id) && settled(tables, id, state.vertex[i].range))) by {
        lemma_missing_vertex_buffer_none(state.vertex, state.vertex.len() as int, i);
        assert(vertex_agrees(tables, s.state.vertex[i], recorded.vertex[i], compiled.vertex[i]));
    }
    lemma_run_add(Watch::initial(), tables, all, a, vertex_commands);
    lemma_watch_vertex_flush(w1, tables, all, state.vertex, state.vertex.len() as int);
    let w2 = w1.run(tables, all, vertex_commands);

    lemma_run_add(Watch::initial(), tables, all, b, bind_commands);
    lemma_watch_bind_flush(w2, tables, flat, offsets, state.bind, used, used);
    let w3 = w2.run(tables, all, bind_commands);

    lemma_run_push(Watch::initial(), tables, all, c, command);
    let w4 = w3.step(tables, all, command);
    assert(Watch::initial().run(tables, all, t.commands) == w4);
    let after = recorded.step(tables, offsets, command);

    assert forall|i: int| 0 <= i < MAX_VERTEX_BUFFERS implies w3.vertex[i]
        == recorded.vertex[i] && vertex_agrees(
        tables,
        #[trigger] t.state.vertex[i],
        after.vertex[i],
        w4.vertex[i],
    ) by {
        assert(vertex_agrees(tables, s.state.vertex[i], recorded.vertex[i], compiled.vertex[i]));
        lemma_missing_vertex_buffer_none(state.vertex, state.vertex.len() as int, i);
        assert(w3.vertex[i] == w2.vertex[i]);
    }
    assert(w3.vertex =~= recorded.vertex);
    assert forall|j: int| 0 <= j < MAX_BIND_GROUPS implies (j < used ==> w3.bind[j]
        == recorded.bind[j]) && bind_agrees(
        tables,
        offsets,
        #[trigger] t.state.bind[j],
        after.bind[j],
        w4.bind[j],
    ) by {
        assert(bind_agrees(tables, offsets, s.state.bind[j], recorded.bind[j], compiled.bind[j]));
    }
    assert(w3.bind.take(used) =~= recorded.bind.take(used));
    assert(w3.observe(tables, command, indexed) == recorded.observe(tables, command, indexed));
}

/// A command that is compiled keeps the simulation true.
proof fn lemma_step_simulates(
    s: CompilationView,
    encoder: &RenderBundleEncoder,
    device: &Device,
    tables: &ResourceTables,
    command: RenderCommand,
    recorded: Watch,
)
    requires
        s.inv(encoder),
        s.admits(encoder, command),
        device.limits.wf(),
        tables.wf(),
        encoder.base.dynamic_offsets@.len() <= usize::MAX,
        offsets_needed(s.commands) == s.state.flat_dynamic_offsets.len(),
        simulates(
            s,
            tables,
            encoder.base.dynamic_offsets@,
            recorded,
            Watch::initial().run(tables, s.state.flat_dynamic_offsets, s.commands),
        ),
        s.step(encoder, device, tables, command) is Ok,
    ensures
        ({
            let t = s.step(encoder, device, tables, command).unwrap();
            simulates(
                t,
                tables,
                encoder.base.dynamic_offsets@,
                recorded.step(tables, encoder.base.dynamic_offsets@, command),
                Watch::initial().run(tables, t.state.flat_dynamic_offsets, t.commands),
            )
        }),
{
    let offsets = encoder.base.dynamic_offsets@;
    let t = s.step(encoder, device, tables, command).unwrap();
    let flat = s.state.flat_dynamic_offsets;
    let compiled = Watch::initial().run(tables, flat, s.commands);
    let after = recorded.step(tables, offsets, command);
    match command {
        RenderCommand::SetBindGroup { index, num_dynamic_offsets, bind_group_id } => {
            lemma_bind_group_simulates(
                s,
                encoder,
                device,
                tables,
                index,
                num_dynamic_offsets,
                bind_group_id,
                recorded,
            );
        },
        RenderCommand::SetPipeline(id) => {
            let pipeline = tables.render_pipelines.lookup(id.0).unwrap();
            let layout = tables.pipeline_layouts.lookup(pipeline.layout_id.0).unwrap();
            assert(layout.wf());
            let clears = t.state.push_constant_commands();
            let first = s.commands.push(command);
            lemma_run_push(Watch::initial(), tables, flat, s.commands, command);
            lemma_run_add(Watch::initial(), tables, flat, first, clears);
            lemma_run_neutral(compiled.step(tables, flat, command), tables, flat, clears);
            let now = Watch::initial().run(tables, flat, t.commands);
            assert(now == compiled.step(tables, flat, command));
            assert forall|i: int| 0 <= i < MAX_VERTEX_BUFFERS implies vertex_agrees(
                tables,
                #[trigger] t.state.vertex[i],
                after.vertex[i],
                now.vertex[i],
            ) by {
                assert(vertex_agrees(tables, s.state.vertex[i], recorded.vertex[i], compiled.vertex[i]));
            }
            assert forall|j: int| 0 <= j < MAX_BIND_GROUPS implies bind_agrees(
                tables,
                offsets,
                #[trigger] t.state.bind[j],
                after.bind[j],
                now.bind[j],
            ) by {
                assert(bind_agrees(tables, offsets, s.state.bind[j], recorded.bind[j], compiled.bind[j]));
            }
        },
        RenderCommand::SetIndexBuffer { .. } => {
            assert forall|i: int| 0 <= i < MAX_VERTEX_BUFFERS implies vertex_agrees(
                tables,
                #[trigger] t.state.vertex[i],
                after.vertex[i],
                compiled.vertex[i],
            ) by {
                assert(vertex_agrees(tables, s.state.vertex[i], recorded.vertex[i], compiled.vertex[i]));
            }
            assert forall|j: int| 0 <= j < MAX_BIND_GROUPS implies bind_agrees(
                tables,
                offsets,
                #[trigger] t.state.bind[j],
                after.bind[j],
                compiled.bind[j],
            ) by {
                assert(bind_agrees(tables, offsets, s.state.bind[j], recorded.bind[j], compiled.bind[j]));
            }
        },
        RenderCommand::SetVertexBuffer { slot, .. } => {
            assert forall|i: int| 0 <= i < MAX_VERTEX_BUFFERS implies vertex_agrees(
                tables,
                #[trigger] t.state.vertex[i],
                after.vertex[i],
                compiled.vertex[i],
            ) by {
                assert(vertex_agrees(tables, s.state.vertex[i], recorded.vertex[i], compiled.vertex[i]));
            }
            assert forall|j: int| 0 <= j < MAX_BIND_GROUPS implies bind_agrees(
                tables,
                offsets,
                #[trigger] t.state.bind[j],
                after.bind[j],
                compiled.bind[j],
            ) by {
                assert(bind_agrees(tables, offsets, s.state.bind[j], recorded.bind[j], compiled.bind[j]));
            }
        },
        RenderCommand::SetPushConstant { .. } => {
            lemma_run_push(Watch::initial(), tables, flat, s.commands, command);
        },
        RenderCommand::Draw { .. } => {
            lemma_flush_simulates(
                s,
                encoder,
                tables,
                s.draw_scope(false, false),
                false,
                command,
                recorded,
            );
        },
        RenderCommand::DrawIndexed { .. } => {
            lemma_flush_simulates(s, encoder, tables, s.draw_scope(true, false), true, command, recorded);
        },
        RenderCommand::MultiDrawIndirect { buffer_id, offset, indexed, .. } => {
            let scope = s.draw_scope(indexed, true);
            let used = s.use_buffer(
                encoder,
                tables,
                scope,
                buffer_id,
                BUFFER_USE_INDIRECT,
                BUFFER_USAGE_INDIRECT,
            ).unwrap().0;
            let next = CompilationView {
                buffer_memory_init_actions: used.buffer_memory_init_actions.push(
                    init_action(
                        buffer_id,
                        ByteRange { start: offset, end: (offset + DRAW_INDIRECT_ARGS_SIZE) as u64 },
                    ),
                ),
                ..used
            };
            assert forall|i: int| 0 <= i < MAX_VERTEX_BUFFERS implies vertex_agrees(
                tables,
                #[trigger] next.state.vertex[i],
                recorded.vertex[i],
                compiled.vertex[i],
            ) by {
                assert(vertex_agrees(tables, s.state.vertex[i], recorded.vertex[i], compiled.vertex[i]));
            }
            assert forall|j: int| 0 <= j < MAX_BIND_GROUPS implies bind_agrees(
                tables,
                offsets,
                #[trigger] next.state.bind[j],
                recorded.bind[j],
                compiled.bind[j],
            ) by {
                assert(bind_agrees(tables, offsets, s.state.bind[j], recorded.bind[j], compiled.bind[j]));
            }
            lemma_flush_simulates(next, encoder, tables, scope, indexed, command, recorded);
        },
        _ => {},
    }
}

/// A command that sets a bind group keeps the simulation true.
proof fn lemma_bind_group_simulates(
    s: CompilationView,
    encoder: &RenderBundleEncoder,
    device: &Device,
    tables: &ResourceTables,
    index: u8,
    num_dynamic_offsets: u8,
    bind_group_id: BindGroupId,
    recorded: Watch,
)
    requires
        s.inv(encoder),
        s.next_dynamic_offset + num_dynamic_offsets <= encoder.base.dynamic_offsets@.len(),
        device.limits.wf(),
        encoder.base.dynamic_offsets@.len() <= usize::MAX,
        simulates(
            s,
            tables,
            encoder.base.dynamic_offsets@,
            recorded,
            Watch::initial().run(tables, s.state.flat_dynamic_offsets, s.commands),
        ),
        s.set_bind_group(encoder, device, tables, index, num_dynamic_offsets, bind_group_id) is Ok,
    ensures
        ({
            let t = s.set_bind_group(
                encoder,
                device,
                tables,
                index,
                num_dynamic_offsets,
                bind_group_id,
            ).unwrap();
            simulates(
                t,
                tables,
                encoder.base.dynamic_offsets@,
                recorded.step(
                    tables,
                    encoder.base.dynamic_offsets@,
                    RenderCommand::SetBindGroup { index, num_dynamic_offsets, bind_group_id },
                ),
                Watch::initial().run(tables, t.state.flat_dynamic_offsets, t.commands),
            )
        }),
{
    let offsets = encoder.base.dynamic_offsets@;
    let command = RenderCommand::SetBindGroup { index, num_dynamic_offsets, bind_group_id };
    let t = s.set_bind_group(encoder, device, tables, index, num_dynamic_offsets, bind_group_id).unwrap();
    let compiled = Watch::initial().run(tables, s.state.flat_dynamic_offsets, s.commands);
    let after = recorded.step(tables, offsets, command);
    let start = s.next_dynamic_offset as int;
    assert(bind_agrees(
        tables,
        offsets,
        s.state.bind[index as int],
        recorded.bind[index as int],
        compiled.bind[index as int],
    ));
    assert forall|i: int| 0 <= i < MAX_VERTEX_BUFFERS implies vertex_agrees(
        tables,
        #[trigger] t.state.vertex[i],
        after.vertex[i],
        compiled.vertex[i],
    ) by {
        assert(vertex_agrees(tables, s.state.vertex[i], recorded.vertex[i], compiled.vertex[i]));
    }
    assert forall|j: int| 0 <= j < MAX_BIND_GROUPS implies bind_agrees(
        tables,
        offsets,
        #[trigger] t.state.bind[j],
        after.bind[j],
        compiled.bind[j],
    ) by {
        assert(bind_agrees(tables, offsets, s.state.bind[j], recorded.bind[j], compiled.bind[j]));
        if j == index {
            if num_dynamic_offsets == 0 {
                assert(offsets.subrange(start, start + 0) =~= Seq::<u32>::empty());
                match s.state.bind[j] {
                    Some(b) => {
                        if b.bind_group_id == bind_group_id {
                            assert(offsets.subrange(
                                b.dynamic_offsets.start as int,
                                b.dynamic_offsets.end as int,
                            ) =~= Seq::<u32>::empty());
                        }
                    },
                    None => {},
                }
            }
        }
    }
}

/// A draw reads no buffer that is not set: every vertex buffer slot that the
/// pipeline of the draw reads holds a buffer, and an indexed draw that names its
/// indices has an index buffer.
pub open spec fn sees_what_is_set(tables: &ResourceTables, seen: Observation) -> bool {
    &&& seen.draw is DrawIndexed ==> seen.index is Some
    &&& seen.pipeline matches Some(id) ==> (tables.render_pipelines.lookup(id.0) matches Some(p)
        ==> forall|i: int|
        0 <= i < p.vertex_strides@.len() && i < seen.vertex.len() && (#[trigger] p.vertex_strides@[i]).0
            != 0 ==> seen.vertex[i] is Some)
}

/// The simulated state holds the strides of the current pipeline, and a slot
/// that was ever read with a stride holds a buffer or is dirty.
spec fn reads_tracked(s: CompilationView, tables: &ResourceTables) -> bool {
    &&& forall|i: int|
        0 <= i < s.state.vertex.len() ==> ((#[trigger] s.state.vertex[i]).stride != 0
            ==> s.state.vertex[i].is_dirty || s.state.vertex[i].buffer is Some)
    &&& s.state.pipeline matches Some(id) ==> (tables.render_pipelines.lookup(id.0) matches Some(p)
        ==> forall|i: int|
        0 <= i < p.vertex_strides@.len() && i < s.state.vertex.len() ==> (#[trigger] s.state.vertex[i]).stride
            == p.vertex_strides@[i].0)
}

/// A command that is compiled keeps the strides tracked.
proof fn lemma_step_reads(
    s: CompilationView,
    encoder: &RenderBundleEncoder,
    device: &Device,
    tables: &ResourceTables,
    command: RenderCommand,
)
    requires
        s.inv(encoder),
        reads_tracked(s, tables),
        s.step(encoder, device, tables, command) is Ok,
    ensures
        reads_tracked(s.step(encoder, device, tables, command).unwrap(), tables),
{
    let t = s.step(encoder, device, tables, command).unwrap();
    match command {
        RenderCommand::SetPipeline(id) => {
            let p = tables.render_pipelines.lookup(id.0).unwrap();
            assert forall|i: int| 0 <= i < t.state.vertex.len() implies ((#[trigger] t.state.vertex[i]).stride
                != 0 ==> t.state.vertex[i].is_dirty || t.state.vertex[i].buffer is Some) by {
                assert(s.state.vertex[i].stride != 0 ==> s.state.vertex[i].is_dirty
                    || s.state.vertex[i].buffer is Some);
            }
        },
        RenderCommand::SetVertexBuffer { slot, .. } => {
            assert forall|i: int| 0 <= i < t.state.vertex.len() implies ((#[trigger] t.state.vertex[i]).stride
                != 0 ==> t.state.vertex[i].is_dirty || t.state.vertex[i].buffer is Some) by {
                assert(s.state.vertex[i].stride != 0 ==> s.state.vertex[i].is_dirty
                    || s.state.vertex[i].buffer is Some);
            }
            assert(t.state.pipeline == s.state.pipeline);
            if t.state.pipeline is Some {
                let p = tables.render_pipelines.lookup(t.state.pipeline.unwrap().0);
                if p is Some {
                    assert forall|i: int|
                        0 <= i < p.unwrap().vertex_strides@.len() && i
                            < t.state.vertex.len() implies (#[trigger] t.state.vertex[i]).stride
                        == p.unwrap().vertex_strides@[i].0 by {
                        assert(s.state.vertex[i].stride == p.unwrap().vertex_strides@[i].0);
                    }
                }
            }
        },
        RenderCommand::Draw { .. } => {
            lemma_flush_reads(s, encoder, tables, s.draw_scope(false, false), false, command);
        },
        RenderCommand::DrawIndexed { .. } => {
            lemma_flush_reads(s, encoder, tables, s.draw_scope(true, false), true, command);
        },
        RenderCommand::MultiDrawIndirect { buffer_id, offset, indexed, .. } => {
            let scope = s.draw_scope(indexed, true);
            let used = s.use_buffer(
                encoder,
                tables,
                scope,
                buffer_id,
                BUFFER_USE_INDIRECT,
                BUFFER_USAGE_INDIRECT,
            ).unwrap().0;
            let next = CompilationView {
                buffer_memory_init_actions: used.buffer_memory_init_actions.push(
                    init_action(
                        buffer_id,
                        ByteRange { start: offset, end: (offset + DRAW_INDIRECT_ARGS_SIZE) as u64 },
                    ),
                ),
                ..used
            };
            lemma_flush_reads(next, encoder, tables, scope, indexed, command);
        },
        _ => {},
    }
}

/// A flush keeps the strides tracked.
proof fn lemma_flush_reads(
    s: CompilationView,
    encoder: &RenderBundleEncoder,
    tables: &ResourceTables,
    scope: PassErrorScope,
    indexed: bool,
    command: RenderCommand,
)
    requires
        reads_tracked(s, tables),
        s.flush_and_draw(encoder, scope, indexed, command) is Ok,
    ensures
        reads_tracked(s.flush_and_draw(encoder, scope, indexed, command).unwrap(), tables),
{
    let t = s.flush_and_draw(encoder, scope, indexed, command).unwrap();
    assert forall|i: int| 0 <= i < t.state.vertex.len() implies ((#[trigger] t.state.vertex[i]).stride
        != 0 ==> t.state.vertex[i].is_dirty || t.state.vertex[i].buffer is Some) by {
        lemma_missing_vertex_buffer_none(s.state.vertex, s.state.vertex.len() as int, i);
        assert(s.state.vertex[i].stride != 0 ==> s.state.vertex[i].is_dirty
            || s.state.vertex[i].buffer is Some);
    }
    if t.state.pipeline is Some {
        let p = tables.render_pipelines.lookup(t.state.pipeline.unwrap().0);
        if p is Some {
            assert forall|i: int|
                0 <= i < p.unwrap().vertex_strides@.len() && i < t.state.vertex.len() implies (#[trigger] t.state.vertex[i]).stride
                == p.unwrap().vertex_strides@[i].0 by {
                assert(s.state.vertex[i].stride == p.unwrap().vertex_strides@[i].0);
            }
        }
    }
}

/// A draw that is compiled reads no buffer that is not set.
proof fn lemma_draw_sees_set(
    s: CompilationView,
    encoder: &RenderBundleEncoder,
    device: &Device,
    tables: &ResourceTables,
    command: RenderCommand,
    recorded: Watch,
    compiled: Watch,
)
    requires
        s.inv(encoder),
        reads_tracked(s, tables),
        simulates(s, tables, encoder.base.dynamic_offsets@, recorded, compiled),
        drawing(command) is Some,
        s.step(encoder, device, tables, command) is Ok,
    ensures
        sees_what_is_set(tables, recorded.observe(tables, command, drawing(command).unwrap())),
{
    let seen = recorded.observe(tables, command, drawing(command).unwrap());
    if seen.pipeline is Some {
        let p = tables.render_pipelines.lookup(seen.pipeline.unwrap().0);
        if p is Some {
            assert forall|i: int|
                0 <= i < p.unwrap().vertex_strides@.len() && i < seen.vertex.len() && (#[trigger] p.unwrap().vertex_strides@[i]).0
                    != 0 implies seen.vertex[i] is Some by {
                assert(vertex_agrees(tables, s.state.vertex[i], recorded.vertex[i], compiled.vertex[i]));
                assert(s.state.vertex[i].stride == p.unwrap().vertex_strides@[i].0);
                match command {
                    RenderCommand::MultiDrawIndirect { buffer_id, offset, indexed, .. } => {
                        let scope = s.draw_scope(indexed, true);
                        let used = s.use_buffer(
                            encoder,
                            tables,
                            scope,
                            buffer_id,
                            BUFFER_USE_INDIRECT,
                            BUFFER_USAGE_INDIRECT,
                        ).unwrap().0;
                        lemma_missing_vertex_buffer_none(
                            used.state.vertex,
                            used.state.vertex.len() as int,
                            i,
                        );
                    },
                    _ => {
                        lemma_missing_vertex_buffer_none(
                            s.state.vertex,
                            s.state.vertex.len() as int,
                            i,
                        );
                    },
                }
            }
        }
    }
}

/// What holds of a compilation that has not failed: the compiler's state is
/// well formed, the compiled commands can be replayed, and the simulation is true.
spec fn compiled_truly(
    s: CompilationView,
    encoder: &RenderBundleEncoder,
    tables: &ResourceTables,
    commands: Seq<RenderCommand>,
) -> bool {
    &&& s.inv(encoder)
    &&& s.replay_inv(encoder.base.push_constant_data@.len())
    &&& s.next_dynamic_offset == offsets_needed(commands)
    &&& reads_tracked(s, tables)
    &&& forall|k: int|
        0 <= k < Watch::initial().run(tables, encoder.base.dynamic_offsets@, commands).seen.len()
            ==> sees_what_is_set(
            tables,
            #[trigger] Watch::initial().run(tables, encoder.base.dynamic_offsets@, commands).seen[k],
        )
    &&& simulates(
        s,
        tables,
        encoder.base.dynamic_offsets@,
        Watch::initial().run(tables, encoder.base.dynamic_offsets@, commands),
        Watch::initial().run(tables, s.state.flat_dynamic_offsets, s.commands),
    )
}

/// The compilation of a front part of the stream of an encoder, where it does
/// not fail, is true to that part.
proof fn lemma_run_simulates(
    encoder: &RenderBundleEncoder,
    device: &Device,
    tables: &ResourceTables,
    n: int,
)
    requires
        encoder.wf(),
        device.limits.wf(),
        tables.wf(),
        encoder.base.dynamic_offsets@.len() <= usize::MAX,
        0 <= n <= encoder.base.commands@.len(),
        CompilationView::initial().run(encoder, device, tables, encoder.base.commands@.take(n)) is Ok,
    ensures
        compiled_truly(
            CompilationView::initial().run(
                encoder,
                device,
                tables,
                encoder.base.commands@.take(n),
            ).unwrap(),
            encoder,
            tables,
            encoder.base.commands@.take(n),
        ),
    decreases n,
{
    let raw = encoder.base.commands@;
    let offsets = encoder.base.dynamic_offsets@;
    let start = CompilationView::initial();
    if n == 0 {
        assert(raw.take(0) =~= Seq::<RenderCommand>::empty());
        let w = Watch::initial();
        assert(start.commands =~= Seq::<RenderCommand>::empty());
        assert forall|i: int| 0 <= i < MAX_VERTEX_BUFFERS implies vertex_agrees(
            tables,
            #[trigger] start.state.vertex[i],
            w.vertex[i],
            w.vertex[i],
        ) by {}
        assert forall|j: int| 0 <= j < MAX_BIND_GROUPS implies bind_agrees(
            tables,
            offsets,
            #[trigger] start.state.bind[j],
            w.bind[j],
            w.bind[j],
        ) by {}
    } else {
        let front = raw.take(n - 1);
        let command = raw[n - 1];
        assert(raw.take(n).drop_last() =~= front);
        assert(raw.take(n).last() == command);
        lemma_run_simulates(encoder, device, tables, n - 1);
        let s = start.run(encoder, device, tables, front).unwrap();
        assert(raw.take(n) =~= front.push(command));
        lemma_offsets_needed_push(front, command);
        lemma_offsets_needed_prefix(raw, n);
        assert(s.admits(encoder, command));
        lemma_step_inv(s, encoder, device, tables, command);
        lemma_step_replay_inv(s, encoder, device, tables, command);
        lemma_step_next_offset(s, encoder, device, tables, command);
        let recorded = Watch::initial().run(tables, offsets, front);
        lemma_step_simulates(s, encoder, device, tables, command, recorded);
        lemma_step_reads(s, encoder, device, tables, command);
        let after = Watch::initial().run(tables, offsets, raw.take(n));
        assert(after == recorded.step(tables, offsets, command));
        assert forall|k: int| 0 <= k < after.seen.len() implies sees_what_is_set(
            tables,
            #[trigger] after.seen[k],
        ) by {
            if k < recorded.seen.len() {
                assert(after.seen[k] == recorded.seen[k]);
            } else {
                lemma_draw_sees_set(
                    s,
                    encoder,
                    device,
                    tables,
                    command,
                    recorded,
                    Watch::initial().run(tables, s.state.flat_dynamic_offsets, s.commands),
                );
            }
        }
    }
}

/// The draws of a bundle see what the draws of the recorded stream see. Where
/// an encoder compiles, the compiled commands hold the draws of the recorded
/// stream, and at every draw the replay of the compiled commands has bound the
/// pipeline, the vertex buffers, the index buffer if the draw is indexed, and the
/// bind groups in the slots that the layout of the pipeline has, that the
/// recorded stream had bound at that draw. So every command that the compiler
/// left out set what was bound already, or what no draw sees before it is set anew.
pub proof fn law_bundle_draws_what_was_recorded(
    encoder: &RenderBundleEncoder,
    desc: &RenderBundleDescriptor,
    device: &Device,
    tables: &ResourceTables,
)
    requires
        encoder.wf(),
        device.limits.wf(),
        tables.wf(),
        encoder.compile(desc, device, tables) is Ok,
    ensures
        ({
            let bundle = encoder.compile(desc, device, tables).unwrap();
            observations(tables, bundle.dynamic_offsets, bundle.commands) == observations(
                tables,
                encoder.base.dynamic_offsets@,
                encoder.base.commands@,
            )
        }),
{
    lemma_offsets_countable(encoder);
    let raw = encoder.base.commands@;
    assert(raw.take(raw.len() as int) =~= raw);
    lemma_run_simulates(encoder, device, tables, raw.len() as int);
}

/// No draw of a bundle reads a buffer that the bundle has not set. Where an
/// encoder compiles, at every draw of the bundle each vertex buffer slot that the
/// pipeline of the draw reads with a stride holds a buffer that a command of the
/// bundle has set, and so does the index buffer at every indexed draw that names
/// its indices: what was bound before the bundle is replayed is not read there.
pub proof fn law_bundle_reads_what_it_sets(
    encoder: &RenderBundleEncoder,
    desc: &RenderBundleDescriptor,
    device: &Device,
    tables: &ResourceTables,
)
    requires
        encoder.wf(),
        device.limits.wf(),
        tables.wf(),
        encoder.compile(desc, device, tables) is Ok,
    ensures
        ({
            let bundle = encoder.compile(desc, device, tables).unwrap();
            let seen = observations(tables, bundle.dynamic_offsets, bundle.commands);
            forall|k: int| 0 <= k < seen.len() ==> sees_what_is_set(tables, #[trigger] seen[k])
        }),
{
    lemma_offsets_countable(encoder);
    let raw = encoder.base.commands@;
    assert(raw.take(raw.len() as int) =~= raw);
    lemma_run_simulates(encoder, device, tables, raw.len() as int);
}

} // verus!
