//! The compiled bundle and the interpreter that replays it into a native encoder.

use vstd::prelude::*;
use crate::command::{
    all_in_range, lemma_offsets_needed_prefix, lemma_offsets_needed_push, offsets_needed,
    BasePass, IndexFormat, OffsetRange, RenderCommand, PUSH_CONSTANT_ALIGNMENT,
};
use crate::context::{label_view, ContextView, RenderPassContext};
use crate::error::ExecutionError;
use crate::flags::ShaderStages;
use crate::id::{BindGroupId, BufferId, DeviceId, PipelineLayoutId, RenderPipelineId};
use crate::resource::{
    BufferInitTrackerAction, ResourceTables, TextureInitTrackerAction,
};
use crate::track::{RenderBundleScope, ScopeView};

verus! {

/// The number of words that one native call clears at most.
pub const PUSH_CONSTANT_CLEAR_WORDS: u32 = 64;

/// The words that a native call sets push constants to.
#[derive(Clone, Copy, Debug, PartialEq, Eq)]
pub enum PushConstantData {
    /// The words of the payload blob of the bundle from `start` up to and without `end`.
    Values { start: usize, end: usize },
    /// This many words of zero.
    Zeros(u32),
}

/// One call into the native command encoder.
#[derive(Clone, Copy, Debug, PartialEq, Eq)]
pub enum NativeCall {
    /// Opens a debug marker with the label of the bundle.
    BeginDebugMarker,
    /// Closes the debug marker.
    EndDebugMarker,
    /// Binds a bind group under a pipeline layout, with the dynamic offsets of
    /// the bundle in the range `offsets`.
    SetBindGroup { layout: PipelineLayoutId, index: u32, group: BindGroupId, offsets: OffsetRange },
    SetRenderPipeline(RenderPipelineId),
    SetIndexBuffer { buffer: BufferId, offset: u64, size: Option<u64>, format: IndexFormat },
    SetVertexBuffer { slot: u32, buffer: BufferId, offset: u64, size: Option<u64> },
    SetPushConstants {
        layout: PipelineLayoutId,
        stages: ShaderStages,
        offset: u32,
        data: PushConstantData,
    },
    Draw { first_vertex: u32, vertex_count: u32, first_instance: u32, instance_count: u32 },
    DrawIndexed {
        first_index: u32,
        index_count: u32,
        base_vertex: i32,
        first_instance: u32,
        instance_count: u32,
    },
    DrawIndirect { buffer: BufferId, offset: u64, draw_count: u32 },
    DrawIndexedIndirect { buffer: BufferId, offset: u64, draw_count: u32 },
}

/// A native command encoder, as the calls that were made into it, in order.
#[derive(Clone, Debug, PartialEq, Eq)]
pub struct NativeEncoder {
    pub calls: Vec<NativeCall>,
}

impl NativeEncoder {
    /// An encoder into which no call was made.
    pub fn new() -> (r: Self)
        ensures
            r.calls@.len() == 0,
    {
        NativeEncoder { calls: Vec::new() }
    }
}

/// What the interpreter tracks during a replay.
pub struct ReplayView {
    /// The native calls made so far.
    pub calls: Seq<NativeCall>,
    /// The layout of the pipeline that was set last.
    pub pipeline_layout_id: Option<PipelineLayoutId>,
    /// How many dynamic offsets of the bundle are taken.
    pub offset_cursor: usize,
}

/// The native calls that clear `size_words` words of push constants from byte
/// `offset` on, of which `done` words are cleared: one call for every 64 words,
/// and one for what is left.
pub open spec fn clear_calls(
    layout: PipelineLayoutId,
    stages: ShaderStages,
    offset: u32,
    size_words: u32,
    done: u32,
) -> Seq<NativeCall>
    decreases size_words - done,
{
    if done >= size_words {
        Seq::empty()
    } else {
        let count = if size_words - done < PUSH_CONSTANT_CLEAR_WORDS {
            (size_words - done) as u32
        } else {
            PUSH_CONSTANT_CLEAR_WORDS
        };
        seq![
            NativeCall::SetPushConstants {
                layout,
                stages,
                offset: (offset + done * PUSH_CONSTANT_ALIGNMENT) as u32,
                data: PushConstantData::Zeros(count),
            },
        ] + clear_calls(layout, stages, offset, size_words, (done + count) as u32)
    }
}

/// Whether the buffer has a native buffer still.
pub open spec fn buffer_alive(tables: &ResourceTables, id: BufferId) -> bool {
    tables.buffers.lookup(id.0) matches Some(b) && b.raw
}

impl ReplayView {
    /// The state with one more native call.
    pub open spec fn call(self, call: NativeCall) -> ReplayView {
        ReplayView { calls: self.calls.push(call), ..self }
    }

    /// The state after one command is replayed, or the error that ends the
    /// replay. A command that needs the layout of a pipeline makes no call while
    /// no pipeline is set, and neither does one that sets a pipeline that is not there.
    pub open spec fn step(self, tables: &ResourceTables, command: RenderCommand) -> Result<
        ReplayView,
        ExecutionError,
    > {
        match command {
            RenderCommand::SetBindGroup { index, num_dynamic_offsets, bind_group_id } => {
                let end = (self.offset_cursor + num_dynamic_offsets) as usize;
                match self.pipeline_layout_id {
                    Some(layout) => Ok(
                        ReplayView {
                            calls: self.calls.push(
                                NativeCall::SetBindGroup {
                                    layout,
                                    index: index as u32,
                                    group: bind_group_id,
                                    offsets: OffsetRange { start: self.offset_cursor, end },
                                },
                            ),
                            offset_cursor: end,
                            ..self
                        },
                    ),
                    None => Ok(ReplayView { offset_cursor: end, ..self }),
                }
            },
            RenderCommand::SetPipeline(pipeline_id) => match tables.render_pipelines.lookup(
                pipeline_id.0,
            ) {
                Some(pipeline) => Ok(
                    ReplayView {
                        calls: self.calls.push(NativeCall::SetRenderPipeline(pipeline_id)),
                        pipeline_layout_id: Some(pipeline.layout_id),
                        ..self
                    },
                ),
                None => Ok(self),
            },
            RenderCommand::SetIndexBuffer { buffer_id, index_format, offset, size } => if buffer_alive(
                tables,
                buffer_id,
            ) {
                Ok(
                    self.call(
                        NativeCall::SetIndexBuffer {
                            buffer: buffer_id,
                            offset,
                            size,
                            format: index_format,
                        },
                    ),
                )
            } else {
                Err(ExecutionError::DestroyedBuffer(buffer_id))
            },
            RenderCommand::SetVertexBuffer { slot, buffer_id, offset, size } => if buffer_alive(
                tables,
                buffer_id,
            ) {
                Ok(self.call(NativeCall::SetVertexBuffer { slot, buffer: buffer_id, offset, size }))
            } else {
                Err(ExecutionError::DestroyedBuffer(buffer_id))
            },
            RenderCommand::SetPushConstant { stages, offset, size_bytes, values_offset } => match self.pipeline_layout_id {
                Some(layout) => match values_offset {
                    Some(values_offset) => Ok(
                        self.call(
                            NativeCall::SetPushConstants {
                                layout,
                                stages,
                                offset,
                                data: PushConstantData::Values {
                                    start: values_offset as usize,
                                    end: (values_offset + size_bytes / PUSH_CONSTANT_ALIGNMENT) as usize,
                                },
                            },
                        ),
                    ),
                    None => Ok(
                        ReplayView {
                            calls: self.calls + clear_calls(
                                layout,
                                stages,
                                offset,
                                size_bytes / PUSH_CONSTANT_ALIGNMENT,
                                0,
                            ),
                            ..self
                        },
                    ),
                },
                None => Ok(self),
            },
            RenderCommand::Draw { vertex_count, instance_count, first_vertex, first_instance } => Ok(
                self.call(
                    NativeCall::Draw { first_vertex, vertex_count, first_instance, instance_count },
                ),
            ),
            RenderCommand::DrawIndexed {
                index_count,
                instance_count,
                first_index,
                base_vertex,
                first_instance,
            } => Ok(
                self.call(
                    NativeCall::DrawIndexed {
                        first_index,
                        index_count,
                        base_vertex,
                        first_instance,
                        instance_count,
                    },
                ),
            ),
            RenderCommand::MultiDrawIndirect { buffer_id, offset, count: None, indexed } => if buffer_alive(
                tables,
                buffer_id,
            ) {
                if indexed {
                    Ok(
                        self.call(
                            NativeCall::DrawIndexedIndirect {
                                buffer: buffer_id,
                                offset,
                                draw_count: 1,
                            },
                        ),
                    )
                } else {
                    Ok(
                        self.call(
                            NativeCall::DrawIndirect { buffer: buffer_id, offset, draw_count: 1 },
                        ),
                    )
                }
            } else {
                Err(ExecutionError::DestroyedBuffer(buffer_id))
            },
            RenderCommand::MultiDrawIndirect { .. } => Err(
                ExecutionError::Unimplemented("multi-draw-indirect"),
            ),
            RenderCommand::MultiDrawIndirectCount { .. } => Err(
                ExecutionError::Unimplemented("multi-draw-indirect"),
            ),
            RenderCommand::PushDebugGroup { .. } => Err(ExecutionError::Unimplemented("debug-markers")),
            RenderCommand::InsertDebugMarker { .. } => Err(
                ExecutionError::Unimplemented("debug-markers"),
            ),
            RenderCommand::PopDebugGroup => Err(ExecutionError::Unimplemented("debug-markers")),
            RenderCommand::WriteTimestamp { .. } => Err(ExecutionError::Unimplemented("queries")),
            RenderCommand::BeginPipelineStatisticsQuery { .. } => Err(
                ExecutionError::Unimplemented("queries"),
            ),
            RenderCommand::EndPipelineStatisticsQuery => Err(ExecutionError::Unimplemented("queries")),
            RenderCommand::ExecuteBundle(_) => Err(
                ExecutionError::Unimplemented("pass-only-commands"),
            ),
            RenderCommand::SetBlendConstant { .. } => Err(
                ExecutionError::Unimplemented("pass-only-commands"),
            ),
            RenderCommand::SetStencilReference(_) => Err(
                ExecutionError::Unimplemented("pass-only-commands"),
            ),
            RenderCommand::SetViewport { .. } => Err(
                ExecutionError::Unimplemented("pass-only-commands"),
            ),
            RenderCommand::SetScissor { .. } => Err(
                ExecutionError::Unimplemented("pass-only-commands"),
            ),
        }
    }

    /// The state after the commands are replayed in order, and how that ended:
    /// at the first error the replay stops, and the calls made before it stay.
    pub open spec fn run(self, tables: &ResourceTables, commands: Seq<RenderCommand>) -> (
        ReplayView,
        Result<(), ExecutionError>,
    )
        decreases commands.len(),
    {
        if commands.len() == 0 {
            (self, Ok(()))
        } else {
            let (s, r) = self.run(tables, commands.drop_last());
            match r {
                Err(e) => (s, Err(e)),
                Ok(()) => match s.step(tables, commands.last()) {
                    Ok(next) => (next, Ok(())),
                    Err(e) => (s, Err(e)),
                },
            }
        }
    }
}

/// Where a replay of a prefix of the commands fails, the replay of them all
/// ends there too.
pub proof fn lemma_replay_prefix_error(
    s: ReplayView,
    tables: &ResourceTables,
    commands: Seq<RenderCommand>,
    n: int,
)
    requires
        0 <= n <= commands.len(),
        s.run(tables, commands.take(n)).1 is Err,
    ensures
        s.run(tables, commands) == s.run(tables, commands.take(n)),
    decreases commands.len(),
{
    if n < commands.len() {
        assert(commands.drop_last().take(n) =~= commands.take(n));
        lemma_replay_prefix_error(s, tables, commands.drop_last(), n);
    } else {
        assert(commands.take(n) =~= commands);
    }
}

/// The contents of a compiled bundle.
pub struct BundleView {
    pub label: Option<Seq<char>>,
    /// The compiled commands.
    pub commands: Seq<RenderCommand>,
    /// The dynamic offsets that the compiled commands take, in order.
    pub dynamic_offsets: Seq<u32>,
    /// The payload blob that commands that set push constants refer to.
    pub push_constant_data: Seq<u32>,
    pub is_ds_read_only: bool,
    /// The device that the bundle belongs to.
    pub device_id: DeviceId,
    /// The resources that the bundle uses.
    pub used: ScopeView,
    pub buffer_memory_init_actions: Seq<BufferInitTrackerAction>,
    pub texture_memory_init_actions: Seq<TextureInitTrackerAction>,
    /// The attachments that the bundle was made for.
    pub context: ContextView,
}

/// Every pipeline that the commands set is in the table of pipelines.
pub open spec fn pipelines_resolve(commands: Seq<RenderCommand>, tables: &ResourceTables) -> bool {
    forall|i: int|
        0 <= i < commands.len() ==> (#[trigger] commands[i] matches RenderCommand::SetPipeline(id)
            ==> tables.render_pipelines.lookup(id.0) is Some)
}

/// The native calls that a replay of the commands makes, and how the replay
/// ends. With a label, a debug marker is opened before the commands and closed
/// behind them, unless the replay fails.
pub open spec fn replay_of(
    label: Option<Seq<char>>,
    commands: Seq<RenderCommand>,
    tables: &ResourceTables,
) -> (Seq<NativeCall>, Result<(), ExecutionError>) {
    let start = ReplayView {
        calls: if label is Some {
            seq![NativeCall::BeginDebugMarker]
        } else {
            Seq::empty()
        },
        pipeline_layout_id: None,
        offset_cursor: 0,
    };
    let (end, result) = start.run(tables, commands);
    if result is Ok && label is Some {
        (end.calls.push(NativeCall::EndDebugMarker), result)
    } else {
        (end.calls, result)
    }
}

impl BundleView {
    /// The commands can be replayed: the bundle has the dynamic offsets that
    /// they take, and their numbers are in range.
    pub open spec fn replay_safe(self) -> bool {
        &&& offsets_needed(self.commands) <= self.dynamic_offsets.len()
        &&& all_in_range(self.commands, self.push_constant_data.len())
    }

    /// Every pipeline that the commands set is in the table of pipelines.
    pub open spec fn pipelines_resolve(self, tables: &ResourceTables) -> bool {
        pipelines_resolve(self.commands, tables)
    }

    /// The native calls that a replay of the bundle makes, and how the replay ends.
    pub open spec fn replay(self, tables: &ResourceTables) -> (Seq<NativeCall>, Result<(), ExecutionError>) {
        replay_of(self.label, self.commands, tables)
    }
}

/// Decides `pipelines_resolve`.
pub fn check_pipelines_resolve(commands: &Vec<RenderCommand>, tables: &ResourceTables) -> (r: bool)
    ensures
        r == pipelines_resolve(commands@, tables),
{
    let mut i: usize = 0;
    while i < commands.len()
        invariant
            i <= commands@.len(),
            forall|j: int|
                0 <= j < i ==> (#[trigger] commands@[j] matches RenderCommand::SetPipeline(id)
                    ==> tables.render_pipelines.lookup(id.0) is Some),
        decreases commands@.len() - i,
    {
        match commands[i] {
            RenderCommand::SetPipeline(id) => {
                if tables.render_pipelines.get(id.0).is_none() {
                    return false;
                }
            },
            _ => {},
        }
        i += 1;
    }
    true
}

/// Replays a stream into a native encoder: makes the native calls of its
/// commands, in order, behind the calls that the encoder holds. The replay
/// stops at the first buffer that has no native buffer any more, and at the
/// first command of a kind that cannot be replayed; the calls made before stay.
pub fn replay(base: &BasePass, raw: &mut NativeEncoder, tables: &ResourceTables) -> (r: Result<
    (),
    ExecutionError,
>)
    requires
        base.wf(),
        pipelines_resolve(base.commands@, tables),
    ensures
        final(raw).calls@ == old(raw).calls@ + replay_of(
            label_view(base.label),
            base.commands@,
            tables,
        ).0,
        r == replay_of(label_view(base.label), base.commands@, tables).1,
{
    let ghost start = ReplayView {
        calls: if base.label is Some {
            seq![NativeCall::BeginDebugMarker]
        } else {
            Seq::empty()
        },
        pipeline_layout_id: None,
        offset_cursor: 0,
    };
    let ghost before = raw.calls@;
    let mut pipeline_layout_id: Option<PipelineLayoutId> = None;
    let mut offset_cursor: usize = 0;
    if base.label.is_some() {
        raw.calls.push(NativeCall::BeginDebugMarker);
    }
    let offsets_len = base.dynamic_offsets.len();
    let words_len = base.push_constant_data.len();
    proof {
        assert(raw.calls@ =~= before + start.calls);
        assert(raw.calls@.skip(before.len() as int) =~= start.calls);
        assert(raw.calls@.take(before.len() as int) =~= before);
        assert(base.commands@.take(0) =~= Seq::empty());
    }
    let mut i: usize = 0;
    while i < base.commands.len()
        invariant
            i <= base.commands@.len(),
            base.wf(),
            pipelines_resolve(base.commands@, tables),
            offsets_len == base.dynamic_offsets@.len(),
            words_len == base.push_constant_data@.len(),
            start == (ReplayView {
                calls: if base.label is Some {
                    seq![NativeCall::BeginDebugMarker]
                } else {
                    Seq::empty()
                },
                pipeline_layout_id: None,
                offset_cursor: 0,
            }),
            offset_cursor == offsets_needed(base.commands@.take(i as int)),
            start.run(tables, base.commands@.take(i as int)) == (
                ReplayView { calls: raw.calls@.skip(before.len() as int), pipeline_layout_id, offset_cursor },
                Ok::<(), ExecutionError>(()),
            ),
            raw.calls@.take(before.len() as int) == before,
            before.len() <= raw.calls@.len(),
            before == old(raw).calls@,
        decreases base.commands@.len() - i,
    {
        let command = base.commands[i];
        let ghost prev = ReplayView {
            calls: raw.calls@.skip(before.len() as int),
            pipeline_layout_id,
            offset_cursor,
        };
        proof {
            assert(base.commands@.take(i as int + 1).drop_last() =~= base.commands@.take(i as int));
            lemma_offsets_needed_push(base.commands@.take(i as int), command);
            assert(base.commands@.take(i as int + 1) =~= base.commands@.take(i as int).push(
                command,
            ));
            lemma_offsets_needed_prefix(base.commands@, i as int + 1);
            assert(command.in_range(base.push_constant_data@.len()));
        }
        let outcome = replay_command(
            raw,
            tables,
            command,
            &mut pipeline_layout_id,
            &mut offset_cursor,
            Ghost(before.len()),
            Ghost(offsets_len as nat),
            Ghost(words_len as nat),
        );
        match outcome {
            Ok(()) => {},
            Err(e) => {
                proof {
                    lemma_replay_prefix_error(start, tables, base.commands@, i as int + 1);
                    assert(raw.calls@ =~= before + prev.calls);
                }
                return Err(e);
            },
        }
        i += 1;
    }
    proof {
        assert(base.commands@.take(i as int) =~= base.commands@);
    }
    let ghost end_calls = raw.calls@.skip(before.len() as int);
    if base.label.is_some() {
        raw.calls.push(NativeCall::EndDebugMarker);
        proof {
            assert(raw.calls@ =~= before + end_calls.push(NativeCall::EndDebugMarker));
        }
    } else {
        proof {
            assert(raw.calls@ =~= before + end_calls);
        }
    }
    Ok(())
}

/// A compiled bundle: the commands that a replay needs, with their side data,
/// and what the bundle uses. It is made by compiling an encoder and does not
/// change afterwards.
#[derive(Debug)]
pub struct RenderBundle {
    pub(crate) base: BasePass,
    pub(crate) is_ds_read_only: bool,
    pub(crate) device_id: DeviceId,
    pub(crate) used: RenderBundleScope,
    pub(crate) buffer_memory_init_actions: Vec<BufferInitTrackerAction>,
    pub(crate) texture_memory_init_actions: Vec<TextureInitTrackerAction>,
    pub(crate) context: RenderPassContext,
}

impl View for RenderBundle {
    type V = BundleView;

    closed spec fn view(&self) -> BundleView {
        BundleView {
            label: label_view(self.base.label),
            commands: self.base.commands@,
            dynamic_offsets: self.base.dynamic_offsets@,
            push_constant_data: self.base.push_constant_data@,
            is_ds_read_only: self.is_ds_read_only,
            device_id: self.device_id,
            used: self.used@,
            buffer_memory_init_actions: self.buffer_memory_init_actions@,
            texture_memory_init_actions: self.texture_memory_init_actions@,
            context: self.context@,
        }
    }
}

impl RenderBundle {
    #[verifier::type_invariant]
    spec fn replayable(self) -> bool {
        self@.replay_safe()
    }

    /// Puts a bundle together from its parts.
    pub(crate) fn from_parts(
        base: BasePass,
        is_ds_read_only: bool,
        device_id: DeviceId,
        used: RenderBundleScope,
        buffer_memory_init_actions: Vec<BufferInitTrackerAction>,
        texture_memory_init_actions: Vec<TextureInitTrackerAction>,
        context: RenderPassContext,
    ) -> (r: Self)
        requires
            offsets_needed(base.commands@) <= base.dynamic_offsets@.len(),
            all_in_range(base.commands@, base.push_constant_data@.len()),
        ensures
            r@ == (BundleView {
                label: label_view(base.label),
                commands: base.commands@,
                dynamic_offsets: base.dynamic_offsets@,
                push_constant_data: base.push_constant_data@,
                is_ds_read_only,
                device_id,
                used: used@,
                buffer_memory_init_actions: buffer_memory_init_actions@,
                texture_memory_init_actions: texture_memory_init_actions@,
                context: context@,
            }),
    {
        RenderBundle {
            base,
            is_ds_read_only,
            device_id,
            used,
            buffer_memory_init_actions,
            texture_memory_init_actions,
            context,
        }
    }

    /// The label of the bundle.
    pub fn label(&self) -> (r: &Option<String>)
        ensures
            label_view(*r) == self@.label,
    {
        &self.base.label
    }

    /// The compiled commands.
    pub fn commands(&self) -> (r: &Vec<RenderCommand>)
        ensures
            r@ == self@.commands,
    {
        &self.base.commands
    }

    /// The dynamic offsets that the compiled commands take, in order.
    pub fn dynamic_offsets(&self) -> (r: &Vec<u32>)
        ensures
            r@ == self@.dynamic_offsets,
    {
        &self.base.dynamic_offsets
    }

    /// The payload blob that commands that set push constants refer to.
    pub fn push_constant_data(&self) -> (r: &Vec<u32>)
        ensures
            r@ == self@.push_constant_data,
    {
        &self.base.push_constant_data
    }

    /// Whether the bundle holds its depth-stencil attachment read-only.
    pub fn is_ds_read_only(&self) -> (r: bool)
        ensures
            r == self@.is_ds_read_only,
    {
        self.is_ds_read_only
    }

    /// The device that the bundle belongs to.
    pub fn device_id(&self) -> (r: DeviceId)
        ensures
            r == self@.device_id,
    {
        self.device_id
    }

    /// The resources that the bundle uses.
    pub fn used(&self) -> (r: &RenderBundleScope)
        ensures
            r@ == self@.used,
    {
        &self.used
    }

    /// The ranges of buffers that must be initialized before a replay.
    pub fn buffer_memory_init_actions(&self) -> (r: &Vec<BufferInitTrackerAction>)
        ensures
            r@ == self@.buffer_memory_init_actions,
    {
        &self.buffer_memory_init_actions
    }

    /// The ranges of textures that must be initialized before a replay.
    pub fn texture_memory_init_actions(&self) -> (r: &Vec<TextureInitTrackerAction>)
        ensures
            r@ == self@.texture_memory_init_actions,
    {
        &self.texture_memory_init_actions
    }

    /// The attachments that the bundle was made for.
    pub fn context(&self) -> (r: &RenderPassContext)
        ensures
            r@ == self@.context,
    {
        &self.context
    }

    /// Decides `pipelines_resolve`.
    pub fn resolves_in(&self, tables: &ResourceTables) -> (r: bool)
        ensures
            r == self@.pipelines_resolve(tables),
    {
        check_pipelines_resolve(&self.base.commands, tables)
    }

    /// Replays the bundle into a native encoder: makes the native calls of its
    /// commands, in order, behind the calls that the encoder holds. The replay
    /// stops at the first buffer that has no native buffer any more; the calls
    /// made before stay.
    pub fn execute(&self, raw: &mut NativeEncoder, tables: &ResourceTables) -> (r: Result<
        (),
        ExecutionError,
    >)
        requires
            self@.pipelines_resolve(tables),
        ensures
            final(raw).calls@ == old(raw).calls@ + self@.replay(tables).0,
            r == self@.replay(tables).1,
    {
        proof {
            use_type_invariant(self);
        }
        replay(&self.base, raw, tables)
    }
}

/// What a render pass holds as bound, for the draws that it makes itself.
#[derive(Clone, Debug, PartialEq, Eq)]
pub struct PassBindings {
    pub pipeline: Option<RenderPipelineId>,
    pub index_buffer: Option<BufferId>,
    /// The vertex buffers by slot.
    pub vertex_buffers: Vec<Option<BufferId>>,
    /// The bind groups by slot.
    pub bind_groups: Vec<Option<BindGroupId>>,
}

impl PassBindings {
    /// Nothing is bound: no pipeline, no index buffer, and no vertex buffer or
    /// bind group in any slot.
    pub open spec fn is_unset(&self) -> bool {
        &&& self.pipeline is None
        &&& self.index_buffer is None
        &&& forall|i: int| 0 <= i < self.vertex_buffers@.len() ==> self.vertex_buffers@[i] is None
        &&& forall|j: int| 0 <= j < self.bind_groups@.len() ==> self.bind_groups@[j] is None
    }

    /// The bindings of a pass in which nothing is bound yet, with `vertex_slots`
    /// vertex buffer slots and `bind_slots` bind group slots.
    pub fn new(vertex_slots: usize, bind_slots: usize) -> (r: Self)
        ensures
            r.is_unset(),
            r.vertex_buffers@.len() == vertex_slots,
            r.bind_groups@.len() == bind_slots,
    {
        let mut r = PassBindings {
            pipeline: None,
            index_buffer: None,
            vertex_buffers: Vec::new(),
            bind_groups: Vec::new(),
        };
        let mut i: usize = 0;
        while i < vertex_slots
            invariant
                i <= vertex_slots,
                r.vertex_buffers@.len() == i,
                r.bind_groups@.len() == 0,
                r.is_unset(),
            decreases vertex_slots - i,
        {
            r.vertex_buffers.push(None);
            i += 1;
        }
        let mut j: usize = 0;
        while j < bind_slots
            invariant
                j <= bind_slots,
                r.vertex_buffers@.len() == vertex_slots,
                r.bind_groups@.len() == j,
                r.is_unset(),
            decreases bind_slots - j,
        {
            r.bind_groups.push(None);
            j += 1;
        }
        r
    }

    /// Forgets what is bound, as a pass does behind a bundle: the pass keeps its
    /// slots, and nothing is bound in them.
    pub fn reset_bundle(&mut self)
        ensures
            final(self).is_unset(),
            final(self).vertex_buffers@.len() == old(self).vertex_buffers@.len(),
            final(self).bind_groups@.len() == old(self).bind_groups@.len(),
    {
        self.pipeline = None;
        self.index_buffer = None;
        let mut i: usize = 0;
        while i < self.vertex_buffers.len()
            invariant
                i <= self.vertex_buffers@.len(),
                self.vertex_buffers@.len() == old(self).vertex_buffers@.len(),
                self.bind_groups@.len() == old(self).bind_groups@.len(),
                self.pipeline is None,
                self.index_buffer is None,
                forall|k: int| 0 <= k < i ==> self.vertex_buffers@[k] is None,
            decreases self.vertex_buffers@.len() - i,
        {
            self.vertex_buffers[i] = None;
            i += 1;
        }
        let mut j: usize = 0;
        while j < self.bind_groups.len()
            invariant
                j <= self.bind_groups@.len(),
                self.vertex_buffers@.len() == old(self).vertex_buffers@.len(),
                self.bind_groups@.len() == old(self).bind_groups@.len(),
                self.pipeline is None,
                self.index_buffer is None,
                forall|k: int| 0 <= k < self.vertex_buffers@.len() ==> self.vertex_buffers@[k] is None,
                forall|k: int| 0 <= k < j ==> self.bind_groups@[k] is None,
            decreases self.bind_groups@.len() - j,
        {
            self.bind_groups[j] = None;
            j += 1;
        }
    }
}

impl RenderBundle {
    /// Replays the bundle from within a render pass. The native calls are those
    /// of `execute`. Whatever the bundle holds, and however the replay ends,
    /// nothing is bound in the pass afterwards: a later draw of the pass sees
    /// nothing that the bundle has set, nor what the pass had set before it.
    pub fn execute_in_pass(
        &self,
        pass: &mut PassBindings,
        raw: &mut NativeEncoder,
        tables: &ResourceTables,
    ) -> (r: Result<(), ExecutionError>)
        requires
            self@.pipelines_resolve(tables),
        ensures
            final(raw).calls@ == old(raw).calls@ + self@.replay(tables).0,
            r == self@.replay(tables).1,
            final(pass).is_unset(),
            final(pass).vertex_buffers@.len() == old(pass).vertex_buffers@.len(),
            final(pass).bind_groups@.len() == old(pass).bind_groups@.len(),
    {
        let result = self.execute(raw, tables);
        pass.reset_bundle();
        result
    }
}

/// Makes the native calls of one command.
fn replay_command(
    raw: &mut NativeEncoder,
    tables: &ResourceTables,
    command: RenderCommand,
    pipeline_layout_id: &mut Option<PipelineLayoutId>,
    offset_cursor: &mut usize,
    Ghost(kept): Ghost<nat>,
    Ghost(offsets): Ghost<nat>,
    Ghost(words): Ghost<nat>,
) -> (r: Result<(), ExecutionError>)
    requires
        kept <= old(raw).calls@.len(),
        *old(offset_cursor) + command.offsets_taken() <= offsets <= usize::MAX,
        command.in_range(words),
        words <= usize::MAX,
        command matches RenderCommand::SetPipeline(id) ==> tables.render_pipelines.lookup(id.0) is Some,
    ensures
        final(raw).calls@.take(kept as int) == old(raw).calls@.take(kept as int),
        kept <= final(raw).calls@.len(),
        match (ReplayView {
            calls: old(raw).calls@.skip(kept as int),
            pipeline_layout_id: *old(pipeline_layout_id),
            offset_cursor: *old(offset_cursor),
        }).step(tables, command) {
            Ok(next) => r is Ok && next == (ReplayView {
                calls: final(raw).calls@.skip(kept as int),
                pipeline_layout_id: *final(pipeline_layout_id),
                offset_cursor: *final(offset_cursor),
            }),
            Err(e) => r == Err::<(), ExecutionError>(e) && final(raw).calls@ == old(raw).calls@,
        },
{
    let ghost calls_before = raw.calls@;
    let ghost tail = raw.calls@.skip(kept as int);
    match command {
        RenderCommand::SetBindGroup { index, num_dynamic_offsets, bind_group_id } => {
            let end = *offset_cursor + num_dynamic_offsets as usize;
            match *pipeline_layout_id {
                Some(layout) => {
                    raw.calls.push(
                        NativeCall::SetBindGroup {
                            layout,
                            index: index as u32,
                            group: bind_group_id,
                            offsets: OffsetRange { start: *offset_cursor, end },
                        },
                    );
                },
                None => {},
            }
            *offset_cursor = end;
        },
        RenderCommand::SetPipeline(pipeline_id) => {
            match tables.render_pipelines.get(pipeline_id.0) {
                Some(pipeline) => {
                    raw.calls.push(NativeCall::SetRenderPipeline(pipeline_id));
                    *pipeline_layout_id = Some(pipeline.layout_id);
                },
                None => {},
            }
        },
        RenderCommand::SetIndexBuffer { buffer_id, index_format, offset, size } => {
            if !buffer_is_alive(tables, buffer_id) {
                return Err(ExecutionError::DestroyedBuffer(buffer_id));
            }
            raw.calls.push(
                NativeCall::SetIndexBuffer { buffer: buffer_id, offset, size, format: index_format },
            );
        },
        RenderCommand::SetVertexBuffer { slot, buffer_id, offset, size } => {
            if !buffer_is_alive(tables, buffer_id) {
                return Err(ExecutionError::DestroyedBuffer(buffer_id));
            }
            raw.calls.push(NativeCall::SetVertexBuffer { slot, buffer: buffer_id, offset, size });
        },
        RenderCommand::SetPushConstant { stages, offset, size_bytes, values_offset } => {
            match *pipeline_layout_id {
                Some(layout) => match values_offset {
                    Some(values_offset) => {
                        let values_end_offset = values_offset as usize + (size_bytes
                            / PUSH_CONSTANT_ALIGNMENT) as usize;
                        raw.calls.push(
                            NativeCall::SetPushConstants {
                                layout,
                                stages,
                                offset,
                                data: PushConstantData::Values {
                                    start: values_offset as usize,
                                    end: values_end_offset,
                                },
                            },
                        );
                    },
                    None => {
                        push_constant_clear(raw, layout, stages, offset, size_bytes);
                        proof {
                            assert(raw.calls@.skip(kept as int) =~= tail + clear_calls(
                                layout,
                                stages,
                                offset,
                                size_bytes / PUSH_CONSTANT_ALIGNMENT,
                                0,
                            ));
                            assert(raw.calls@.take(kept as int) =~= calls_before.take(kept as int));
                        }
                        return Ok(());
                    },
                },
                None => {},
            }
        },
        RenderCommand::Draw { vertex_count, instance_count, first_vertex, first_instance } => {
            raw.calls.push(
                NativeCall::Draw { first_vertex, vertex_count, first_instance, instance_count },
            );
        },
        RenderCommand::DrawIndexed {
            index_count,
            instance_count,
            first_index,
            base_vertex,
            first_instance,
        } => {
            raw.calls.push(
                NativeCall::DrawIndexed {
                    first_index,
                    index_count,
                    base_vertex,
                    first_instance,
                    instance_count,
                },
            );
        },
        RenderCommand::MultiDrawIndirect { buffer_id, offset, count: None, indexed } => {
            if !buffer_is_alive(tables, buffer_id) {
                return Err(ExecutionError::DestroyedBuffer(buffer_id));
            }
            if indexed {
                raw.calls.push(
                    NativeCall::DrawIndexedIndirect { buffer: buffer_id, offset, draw_count: 1 },
                );
            } else {
                raw.calls.push(NativeCall::DrawIndirect { buffer: buffer_id, offset, draw_count: 1 });
            }
        },
        RenderCommand::MultiDrawIndirect { .. } | RenderCommand::MultiDrawIndirectCount { .. } => {
            return Err(ExecutionError::Unimplemented("multi-draw-indirect"));
        },
        RenderCommand::PushDebugGroup { .. }
        | RenderCommand::InsertDebugMarker { .. }
        | RenderCommand::PopDebugGroup => {
            return Err(ExecutionError::Unimplemented("debug-markers"));
        },
        RenderCommand::WriteTimestamp { .. }
        | RenderCommand::BeginPipelineStatisticsQuery { .. }
        | RenderCommand::EndPipelineStatisticsQuery => {
            return Err(ExecutionError::Unimplemented("queries"));
        },
        RenderCommand::ExecuteBundle(_)
        | RenderCommand::SetBlendConstant { .. }
        | RenderCommand::SetStencilReference(_)
        | RenderCommand::SetViewport { .. }
        | RenderCommand::SetScissor { .. } => {
            return Err(ExecutionError::Unimplemented("pass-only-commands"));
        },
    }
    proof {
        assert(raw.calls@.take(kept as int) =~= calls_before.take(kept as int));
        if raw.calls@.len() == calls_before.len() + 1 {
            assert(raw.calls@.skip(kept as int) =~= tail.push(raw.calls@.last()));
        } else {
            assert(raw.calls@.skip(kept as int) =~= tail);
        }
    }
    Ok(())
}

/// Whether the buffer has a native buffer still.
fn buffer_is_alive(tables: &ResourceTables, id: BufferId) -> (r: bool)
    ensures
        r == buffer_alive(tables, id),
{
    match tables.buffers.get(id.0) {
        Some(buffer) => buffer.raw,
        None => false,
    }
}

/// Makes the native calls that clear `size_bytes` bytes of push constants from
/// byte `offset` on.
fn push_constant_clear(
    raw: &mut NativeEncoder,
    layout: PipelineLayoutId,
    stages: ShaderStages,
    offset: u32,
    size_bytes: u32,
)
    requires
        offset + size_bytes <= u32::MAX,
    ensures
        final(raw).calls@ == old(raw).calls@ + clear_calls(
            layout,
            stages,
            offset,
            size_bytes / PUSH_CONSTANT_ALIGNMENT,
            0,
        ),
{
    let size_words = size_bytes / PUSH_CONSTANT_ALIGNMENT;
    let mut count_words: u32 = 0;
    proof {
        assert(raw.calls@ + clear_calls(layout, stages, offset, size_words, 0) =~= old(raw).calls@
            + clear_calls(layout, stages, offset, size_words, 0));
    }
    while count_words < size_words
        invariant
            count_words <= size_words,
            size_words == size_bytes / PUSH_CONSTANT_ALIGNMENT,
            offset + size_bytes <= u32::MAX,
            raw.calls@ + clear_calls(layout, stages, offset, size_words, count_words) == old(
                raw,
            ).calls@ + clear_calls(layout, stages, offset, size_words, 0),
        decreases size_words - count_words,
    {
        let count_bytes = count_words * PUSH_CONSTANT_ALIGNMENT;
        let size_to_write_words = if size_words - count_words < PUSH_CONSTANT_CLEAR_WORDS {
            size_words - count_words
        } else {
            PUSH_CONSTANT_CLEAR_WORDS
        };
        let ghost calls_before = raw.calls@;
        raw.calls.push(
            NativeCall::SetPushConstants {
                layout,
                stages,
                offset: offset + count_bytes,
                data: PushConstantData::Zeros(size_to_write_words),
            },
        );
        proof {
            let rest = clear_calls(
                layout,
                stages,
                offset,
                size_words,
                (count_words + size_to_write_words) as u32,
            );
            assert(raw.calls@ + rest =~= calls_before + clear_calls(
                layout,
                stages,
                offset,
                size_words,
                count_words,
            ));
        }
        count_words += size_to_write_words;
    }
    proof {
        assert(raw.calls@ + clear_calls(layout, stages, offset, size_words, count_words)
            =~= raw.calls@);
    }
}

} // verus!
