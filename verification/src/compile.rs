//! The compiler: one pass over a recorded stream that checks every command
//! against the resources and the limits of the device, simulates what is bound,
//! and gives the commands that a replay needs.

use vstd::prelude::*;
use crate::bundle::{BundleView, RenderBundle};
use crate::command::{
    all_in_range, lemma_offsets_needed_prefix, lemma_offsets_needed_push, offsets_needed,
    BasePass, ByteRange, IndexFormat, OffsetRange, RenderCommand, DRAW_INDIRECT_ARGS_SIZE,
    MAX_VERTEX_BUFFERS,
};
use crate::context::label_view;
use crate::encoder::{extend_from_slice, RenderBundleDescriptor, RenderBundleEncoder};
use crate::error::{
    command_error, draw_error, DrawError, MissingDownlevelFlags, PassErrorScope,
    RenderBundleError, RenderBundleErrorInner, RenderCommandError, UsageConflict,
};
use crate::flags::{
    BufferUsages, DownlevelFlags, BUFFER_USAGE_INDEX, BUFFER_USAGE_INDIRECT,
    BUFFER_USAGE_VERTEX, DOWNLEVEL_INDIRECT_EXECUTION, PIPELINE_WRITES_DEPTH_STENCIL,
};
use crate::id::{BindGroupId, BufferId, PipelineLayoutId, RenderPipelineId};
use crate::push_constant::{
    law_nonoverlapping_ascending, nonoverlapping_ranges, push_constant_validation,
    validate_push_constant_ranges,
};
use crate::resource::{
    binding_alignment, binding_limit_name, buffer_binding_type_alignment, buffer_usage_check,
    check_buffer_usage, BindGroupDynamicBindingData, Buffer, BufferInitTrackerAction, Device,
    Limits, MemoryInitKind, ResourceTables, TextureInitTrackerAction,
};
use crate::state::{
    bind_flush_commands, bind_flush_offsets, vertex_flush_commands, BindState, State, StateView,
    VertexState,
};
use crate::track::{BUFFER_USE_INDEX, BUFFER_USE_INDIRECT, BUFFER_USE_VERTEX};

verus! {

/// What the compiler holds while it walks a recorded stream.
#[derive(Clone, Debug, PartialEq, Eq)]
pub struct Compilation {
    /// The simulated state.
    pub state: State,
    /// The compiled commands so far.
    pub commands: Vec<RenderCommand>,
    /// The layout of the pipeline that was set last.
    pub pipeline_layout_id: Option<PipelineLayoutId>,
    /// The ranges of buffers that must be initialized before a replay.
    pub buffer_memory_init_actions: Vec<BufferInitTrackerAction>,
    /// The ranges of textures that must be initialized before a replay.
    pub texture_memory_init_actions: Vec<TextureInitTrackerAction>,
    /// How many dynamic offsets of the recorded stream are taken.
    pub next_dynamic_offset: usize,
}

/// The contents of a `Compilation`.
pub struct CompilationView {
    pub state: StateView,
    pub commands: Seq<RenderCommand>,
    pub pipeline_layout_id: Option<PipelineLayoutId>,
    pub buffer_memory_init_actions: Seq<BufferInitTrackerAction>,
    pub texture_memory_init_actions: Seq<TextureInitTrackerAction>,
    pub next_dynamic_offset: usize,
}

impl View for Compilation {
    type V = CompilationView;

    open spec fn view(&self) -> CompilationView {
        CompilationView {
            state: self.state@,
            commands: self.commands@,
            pipeline_layout_id: self.pipeline_layout_id,
            buffer_memory_init_actions: self.buffer_memory_init_actions@,
            texture_memory_init_actions: self.texture_memory_init_actions@,
            next_dynamic_offset: self.next_dynamic_offset,
        }
    }
}

/// The error of a command, with the command that caused it.
pub open spec fn command_failure(scope: PassErrorScope, error: RenderCommandError) -> RenderBundleError {
    RenderBundleError { scope, inner: RenderBundleErrorInner::RenderCommand(error) }
}

/// The error of a draw, with the command that caused it.
pub open spec fn draw_failure(scope: PassErrorScope, error: DrawError) -> RenderBundleError {
    RenderBundleError { scope, inner: RenderBundleErrorInner::Draw(error) }
}

/// The error of a resource of another device, with the command that caused it.
pub open spec fn device_failure(scope: PassErrorScope) -> RenderBundleError {
    RenderBundleError { scope, inner: RenderBundleErrorInner::NotValidToUse }
}

/// The index of the first of the first `n` dynamic offsets of a bind group,
/// which stand in `offsets` from `start` on, that is no multiple of the
/// alignment of its binding.
pub open spec fn first_unaligned_upto(
    offsets: Seq<u32>,
    start: int,
    infos: Seq<BindGroupDynamicBindingData>,
    limits: &Limits,
    n: int,
) -> Option<int>
    decreases n,
{
    if n <= 0 {
        None
    } else {
        match first_unaligned_upto(offsets, start, infos, limits, n - 1) {
            Some(k) => Some(k),
            None => if offsets[start + n - 1] as int % binding_alignment(
                limits,
                infos[n - 1].binding_type,
            ) as int != 0 {
                Some(n - 1)
            } else {
                None
            },
        }
    }
}

/// An offset that is not aligned among the first `n` is the first among the first `m`.
proof fn lemma_first_unaligned_stays(
    offsets: Seq<u32>,
    start: int,
    infos: Seq<BindGroupDynamicBindingData>,
    limits: &Limits,
    n: int,
    m: int,
)
    requires
        0 <= n <= m,
        first_unaligned_upto(offsets, start, infos, limits, n) is Some,
    ensures
        first_unaligned_upto(offsets, start, infos, limits, m) == first_unaligned_upto(
            offsets,
            start,
            infos,
            limits,
            n,
        ),
    decreases m,
{
    if n < m {
        lemma_first_unaligned_stays(offsets, start, infos, limits, n, m - 1);
    }
}

/// The range of bytes of a buffer that a binding from `offset` on reads: `size`
/// bytes or, without a size, up to the end of the buffer.
pub open spec fn bound_range(buffer: Buffer, offset: u64, size: Option<u64>) -> ByteRange {
    ByteRange {
        start: offset,
        end: match size {
            Some(s) => (offset + s) as u64,
            None => buffer.size,
        },
    }
}

/// The obligation to have a range of a buffer initialized.
pub open spec fn init_action(id: BufferId, range: ByteRange) -> BufferInitTrackerAction {
    BufferInitTrackerAction { id, range, kind: MemoryInitKind::NeedsInitializedMemory }
}

impl CompilationView {
    /// What the compiler holds before the first command.
    pub open spec fn initial() -> CompilationView {
        CompilationView {
            state: StateView::initial(),
            commands: Seq::empty(),
            pipeline_layout_id: None,
            buffer_memory_init_actions: Seq::empty(),
            texture_memory_init_actions: Seq::empty(),
            next_dynamic_offset: 0,
        }
    }

    /// The scope of a draw under the current pipeline.
    pub open spec fn draw_scope(self, indexed: bool, indirect: bool) -> PassErrorScope {
        PassErrorScope::Draw { indexed, indirect, pipeline: self.state.pipeline }
    }

    /// A buffer is used by a command: the buffer must be there, its uses must
    /// stand together, it must belong to the device of the encoder, and it must
    /// have been created for the usage. Gives the buffer and the compilation with
    /// the use recorded.
    pub open spec fn use_buffer(
        self,
        encoder: &RenderBundleEncoder,
        tables: &ResourceTables,
        scope: PassErrorScope,
        id: BufferId,
        tracked_use: u32,
        usage: u32,
    ) -> Result<(CompilationView, Buffer), RenderBundleError> {
        match tables.buffers.lookup(id.0) {
            None => Err(
                command_failure(
                    scope,
                    RenderCommandError::UsageConflict(UsageConflict::BufferInvalid { id }),
                ),
            ),
            Some(buffer) => match self.state.trackers.merge_buffer(id, tracked_use) {
                Err(e) => Err(command_failure(scope, RenderCommandError::UsageConflict(e))),
                Ok(trackers) => if buffer.device_id != encoder.parent_id {
                    Err(device_failure(scope))
                } else {
                    match buffer_usage_check(buffer.usage, BufferUsages { bits: usage }) {
                        Err(e) => Err(
                            command_failure(scope, RenderCommandError::MissingBufferUsage(e)),
                        ),
                        Ok(()) => Ok(
                            (
                                CompilationView {
                                    state: StateView { trackers, ..self.state },
                                    ..self
                                },
                                buffer,
                            ),
                        ),
                    }
                },
            },
        }
    }

    /// The compilation after a command that sets a bind group.
    pub open spec fn set_bind_group(
        self,
        encoder: &RenderBundleEncoder,
        device: &Device,
        tables: &ResourceTables,
        index: u8,
        num_dynamic_offsets: u8,
        bind_group_id: BindGroupId,
    ) -> Result<CompilationView, RenderBundleError> {
        let scope = PassErrorScope::SetBindGroup(bind_group_id);
        match tables.bind_groups.lookup(bind_group_id.0) {
            None => Err(command_failure(scope, RenderCommandError::InvalidBindGroup(bind_group_id))),
            Some(bind_group) => {
                let start = self.next_dynamic_offset;
                if bind_group.device_id != encoder.parent_id {
                    Err(device_failure(scope))
                } else if index as u32 >= device.limits.max_bind_groups {
                    Err(
                        command_failure(
                            scope,
                            RenderCommandError::BindGroupIndexOutOfRange {
                                index,
                                max: device.limits.max_bind_groups,
                            },
                        ),
                    )
                } else if bind_group.dynamic_binding_info.len() != num_dynamic_offsets as usize {
                    Err(
                        command_failure(
                            scope,
                            RenderCommandError::InvalidDynamicOffsetCount {
                                actual: num_dynamic_offsets as usize,
                                expected: bind_group.dynamic_binding_info.len(),
                            },
                        ),
                    )
                } else {
                    match first_unaligned_upto(
                        encoder.base.dynamic_offsets@,
                        start as int,
                        bind_group.dynamic_binding_info@,
                        &device.limits,
                        num_dynamic_offsets as int,
                    ) {
                        Some(k) => Err(
                            command_failure(
                                scope,
                                RenderCommandError::UnalignedBufferOffset(
                                    encoder.base.dynamic_offsets@[start + k] as u64,
                                    binding_limit_name(
                                        bind_group.dynamic_binding_info@[k].binding_type,
                                    ),
                                    binding_alignment(
                                        &device.limits,
                                        bind_group.dynamic_binding_info@[k].binding_type,
                                    ),
                                ),
                            ),
                        ),
                        None => {
                            let range = OffsetRange {
                                start,
                                end: (start + num_dynamic_offsets) as usize,
                            };
                            let state = StateView {
                                trackers: self.state.trackers.add_bind_group(bind_group_id),
                                ..self.state
                            }.set_bind_group(index, bind_group_id, bind_group.layout_id, range);
                            match state.trackers.merge_bind_group(&bind_group.used) {
                                Err(e) => Err(
                                    command_failure(scope, RenderCommandError::UsageConflict(e)),
                                ),
                                Ok(trackers) => Ok(
                                    CompilationView {
                                        state: StateView { trackers, ..state },
                                        buffer_memory_init_actions: self.buffer_memory_init_actions
                                            + bind_group.used_buffer_ranges@,
                                        texture_memory_init_actions: self.texture_memory_init_actions
                                            + bind_group.used_texture_ranges@,
                                        next_dynamic_offset: range.end,
                                        ..self
                                    },
                                ),
                            }
                        },
                    }
                }
            },
        }
    }

    /// The compilation after a command that sets a pipeline: the command is
    /// compiled at once, and behind it the commands that clear the push
    /// constants of the layout.
    pub open spec fn set_pipeline(
        self,
        encoder: &RenderBundleEncoder,
        tables: &ResourceTables,
        pipeline_id: RenderPipelineId,
    ) -> Result<CompilationView, RenderBundleError> {
        let scope = PassErrorScope::SetPipelineRender(pipeline_id);
        match tables.render_pipelines.lookup(pipeline_id.0) {
            None => Err(command_failure(scope, RenderCommandError::InvalidPipeline(pipeline_id))),
            Some(pipeline) => if pipeline.device_id != encoder.parent_id {
                Err(device_failure(scope))
            } else {
                match encoder.context.compatibility(&pipeline.pass_context) {
                    Err(e) => Err(
                        command_failure(scope, RenderCommandError::IncompatiblePipelineTargets(e)),
                    ),
                    Ok(()) => if pipeline.flags.contains(PIPELINE_WRITES_DEPTH_STENCIL)
                        && encoder.is_ds_read_only {
                        Err(command_failure(scope, RenderCommandError::IncompatiblePipelineRods))
                    } else {
                        match tables.pipeline_layouts.lookup(pipeline.layout_id.0) {
                            None => Err(
                                command_failure(
                                    scope,
                                    RenderCommandError::InvalidPipeline(pipeline_id),
                                ),
                            ),
                            Some(layout) => {
                                let state = StateView {
                                    pipeline: Some(pipeline_id),
                                    trackers: self.state.trackers.add_render_pipeline(pipeline_id),
                                    ..self.state
                                }.set_pipeline(
                                    pipeline.strip_index_format,
                                    pipeline.vertex_strides@,
                                    layout.bind_group_layout_ids@,
                                    layout.push_constant_ranges@,
                                );
                                Ok(
                                    CompilationView {
                                        state,
                                        commands: self.commands.push(
                                            RenderCommand::SetPipeline(pipeline_id),
                                        ) + state.push_constant_commands(),
                                        pipeline_layout_id: Some(pipeline.layout_id),
                                        ..self
                                    },
                                )
                            },
                        }
                    },
                }
            },
        }
    }

    /// The compilation after a command that sets the index buffer.
    pub open spec fn set_index_buffer(
        self,
        encoder: &RenderBundleEncoder,
        tables: &ResourceTables,
        buffer_id: BufferId,
        index_format: IndexFormat,
        offset: u64,
        size: Option<u64>,
    ) -> Result<CompilationView, RenderBundleError> {
        match self.use_buffer(
            encoder,
            tables,
            PassErrorScope::SetIndexBuffer(buffer_id),
            buffer_id,
            BUFFER_USE_INDEX,
            BUFFER_USAGE_INDEX,
        ) {
            Err(e) => Err(e),
            Ok((next, buffer)) => {
                let range = bound_range(buffer, offset, size);
                Ok(
                    CompilationView {
                        state: StateView {
                            index: next.state.index.with_format(index_format).with_buffer(
                                buffer_id,
                                range,
                            ),
                            ..next.state
                        },
                        buffer_memory_init_actions: next.buffer_memory_init_actions.push(
                            init_action(buffer_id, range),
                        ),
                        ..next
                    },
                )
            },
        }
    }

    /// The compilation after a command that sets a vertex buffer.
    pub open spec fn set_vertex_buffer(
        self,
        encoder: &RenderBundleEncoder,
        tables: &ResourceTables,
        slot: u32,
        buffer_id: BufferId,
        offset: u64,
        size: Option<u64>,
    ) -> Result<CompilationView, RenderBundleError> {
        let scope = PassErrorScope::SetVertexBuffer(buffer_id);
        match self.use_buffer(
            encoder,
            tables,
            scope,
            buffer_id,
            BUFFER_USE_VERTEX,
            BUFFER_USAGE_VERTEX,
        ) {
            Err(e) => Err(e),
            Ok((next, buffer)) => if slot >= MAX_VERTEX_BUFFERS {
                Err(
                    command_failure(
                        scope,
                        RenderCommandError::VertexBufferIndexOutOfRange {
                            index: slot,
                            max: MAX_VERTEX_BUFFERS as u32,
                        },
                    ),
                )
            } else {
                let range = bound_range(buffer, offset, size);
                Ok(
                    CompilationView {
                        state: StateView {
                            vertex: next.state.vertex.update(
                                slot as int,
                                next.state.vertex[slot as int].with_buffer(buffer_id, range),
                            ),
                            ..next.state
                        },
                        buffer_memory_init_actions: next.buffer_memory_init_actions.push(
                            init_action(buffer_id, range),
                        ),
                        ..next
                    },
                )
            },
        }
    }

    /// The compilation after a command that sets push constants: the command
    /// is compiled as it is, if the layout of the current pipeline allows it.
    pub open spec fn set_push_constant(
        self,
        tables: &ResourceTables,
        command: RenderCommand,
    ) -> Result<CompilationView, RenderBundleError> {
        let scope = PassErrorScope::SetPushConstant;
        match command {
            RenderCommand::SetPushConstant { stages, offset, size_bytes, .. } => match self.pipeline_layout_id {
                None => Err(draw_failure(scope, DrawError::MissingPipeline)),
                Some(layout_id) => match tables.pipeline_layouts.lookup(layout_id.0) {
                    None => Err(draw_failure(scope, DrawError::MissingPipeline)),
                    Some(layout) => match push_constant_validation(
                        layout.push_constant_ranges@,
                        stages,
                        offset,
                        (offset + size_bytes) as u32,
                    ) {
                        Err(e) => Err(command_failure(scope, RenderCommandError::PushConstants(e))),
                        Ok(()) => Ok(CompilationView { commands: self.commands.push(command), ..self }),
                    },
                },
            },
            _ => Ok(self),
        }
    }

    /// The compilation once the vertex buffers and bind groups that the compiled
    /// stream lacks are set, and the index buffer too for an indexed draw, and
    /// the draw `command` is compiled behind them. A vertex slot that is dirty
    /// and holds no buffer refuses the draw.
    pub open spec fn flush_and_draw(
        self,
        encoder: &RenderBundleEncoder,
        scope: PassErrorScope,
        indexed: bool,
        command: RenderCommand,
    ) -> Result<CompilationView, RenderBundleError> {
        match self.state.missing_vertex_buffer() {
            Some(index) => Err(draw_failure(scope, DrawError::MissingVertexBuffer { index })),
            None => {
                let index_commands = if indexed {
                    self.state.index.flush_commands()
                } else {
                    Seq::empty()
                };
                let state = StateView {
                    index: if indexed {
                        self.state.index.flushed()
                    } else {
                        self.state.index
                    },
                    ..self.state
                };
                Ok(
                    CompilationView {
                        state: state.flush_vertices().flush_binds(encoder.base.dynamic_offsets@),
                        commands: (self.commands + index_commands + state.vertex_commands()
                            + state.bind_commands()).push(command),
                        ..self
                    },
                )
            },
        }
    }

    /// The compilation after a draw: the draw must stay within the bound
    /// vertex buffers, then within those that advance per instance.
    pub open spec fn draw(
        self,
        encoder: &RenderBundleEncoder,
        command: RenderCommand,
    ) -> Result<CompilationView, RenderBundleError> {
        let scope = self.draw_scope(false, false);
        match command {
            RenderCommand::Draw { vertex_count, instance_count, first_vertex, first_instance } => {
                let limits = self.state.vertex_limits();
                let last_vertex = (first_vertex + vertex_count) as u64;
                let last_instance = (first_instance + instance_count) as u64;
                if last_vertex > limits.vertex_limit {
                    Err(
                        draw_failure(
                            scope,
                            DrawError::VertexBeyondLimit {
                                last_vertex,
                                vertex_limit: limits.vertex_limit,
                                slot: limits.vertex_limit_slot,
                            },
                        ),
                    )
                } else if last_instance > limits.instance_limit {
                    Err(
                        draw_failure(
                            scope,
                            DrawError::InstanceBeyondLimit {
                                last_instance,
                                instance_limit: limits.instance_limit,
                                slot: limits.instance_limit_slot,
                            },
                        ),
                    )
                } else {
                    self.flush_and_draw(encoder, scope, false, command)
                }
            },
            _ => Ok(self),
        }
    }

    /// The compilation after an indexed draw: an index buffer must be set, the
    /// draw must stay within it, then within the vertex buffers that advance per
    /// instance.
    pub open spec fn draw_indexed(
        self,
        encoder: &RenderBundleEncoder,
        command: RenderCommand,
    ) -> Result<CompilationView, RenderBundleError> {
        let scope = self.draw_scope(true, false);
        match command {
            RenderCommand::DrawIndexed { index_count, instance_count, first_index, first_instance, .. } => {
                let limits = self.state.vertex_limits();
                let last_index = (first_index + index_count) as u64;
                let last_instance = (first_instance + instance_count) as u64;
                if self.state.index.buffer is None {
                    Err(draw_failure(scope, DrawError::MissingIndexBuffer))
                } else if last_index > self.state.index.spec_limit() {
                    Err(
                        draw_failure(
                            scope,
                            DrawError::IndexBeyondLimit {
                                last_index,
                                index_limit: self.state.index.spec_limit(),
                            },
                        ),
                    )
                } else if last_instance > limits.instance_limit {
                    Err(
                        draw_failure(
                            scope,
                            DrawError::InstanceBeyondLimit {
                                last_instance,
                                instance_limit: limits.instance_limit,
                                slot: limits.instance_limit_slot,
                            },
                        ),
                    )
                } else {
                    self.flush_and_draw(encoder, scope, true, command)
                }
            },
            _ => Ok(self),
        }
    }

    /// The compilation after a draw whose arguments lie in a buffer: the
    /// backend must be able to run it, and the buffer must be fit to hold the
    /// arguments.
    pub open spec fn draw_indirect(
        self,
        encoder: &RenderBundleEncoder,
        device: &Device,
        tables: &ResourceTables,
        command: RenderCommand,
    ) -> Result<CompilationView, RenderBundleError> {
        match command {
            RenderCommand::MultiDrawIndirect { buffer_id, offset, indexed, .. } => {
                let scope = self.draw_scope(indexed, true);
                if !device.downlevel.contains(DOWNLEVEL_INDIRECT_EXECUTION) {
                    Err(
                        RenderBundleError {
                            scope,
                            inner: RenderBundleErrorInner::MissingDownlevelFlags(
                                MissingDownlevelFlags(
                                    DownlevelFlags { bits: DOWNLEVEL_INDIRECT_EXECUTION },
                                ),
                            ),
                        },
                    )
                } else {
                    match self.use_buffer(
                        encoder,
                        tables,
                        scope,
                        buffer_id,
                        BUFFER_USE_INDIRECT,
                        BUFFER_USAGE_INDIRECT,
                    ) {
                        Err(e) => Err(e),
                        Ok((next, buffer)) => CompilationView {
                            buffer_memory_init_actions: next.buffer_memory_init_actions.push(
                                init_action(
                                    buffer_id,
                                    ByteRange {
                                        start: offset,
                                        end: (offset + DRAW_INDIRECT_ARGS_SIZE) as u64,
                                    },
                                ),
                            ),
                            ..next
                        }.flush_and_draw(encoder, scope, indexed, command),
                    }
                }
            },
            _ => Ok(self),
        }
    }

    /// The compilation after one more command of the recorded stream, or the
    /// error that ends the compilation.
    pub open spec fn step(
        self,
        encoder: &RenderBundleEncoder,
        device: &Device,
        tables: &ResourceTables,
        command: RenderCommand,
    ) -> Result<CompilationView, RenderBundleError> {
        match command {
            RenderCommand::SetBindGroup { index, num_dynamic_offsets, bind_group_id } => self.set_bind_group(
                encoder,
                device,
                tables,
                index,
                num_dynamic_offsets,
                bind_group_id,
            ),
            RenderCommand::SetPipeline(pipeline_id) => self.set_pipeline(encoder, tables, pipeline_id),
            RenderCommand::SetIndexBuffer { buffer_id, index_format, offset, size } => self.set_index_buffer(
                encoder,
                tables,
                buffer_id,
                index_format,
                offset,
                size,
            ),
            RenderCommand::SetVertexBuffer { slot, buffer_id, offset, size } => self.set_vertex_buffer(
                encoder,
                tables,
                slot,
                buffer_id,
                offset,
                size,
            ),
            RenderCommand::SetPushConstant { .. } => self.set_push_constant(tables, command),
            RenderCommand::Draw { .. } => self.draw(encoder, command),
            RenderCommand::DrawIndexed { .. } => self.draw_indexed(encoder, command),
            RenderCommand::MultiDrawIndirect { count: None, .. } => self.draw_indirect(
                encoder,
                device,
                tables,
                command,
            ),
            RenderCommand::MultiDrawIndirect { indexed, .. } => Err(
                command_failure(
                    self.draw_scope(indexed, true),
                    RenderCommandError::Unimplemented("multi-draw-indirect"),
                ),
            ),
            RenderCommand::MultiDrawIndirectCount { indexed, .. } => Err(
                command_failure(
                    self.draw_scope(indexed, true),
                    RenderCommandError::Unimplemented("multi-draw-indirect"),
                ),
            ),
            RenderCommand::PushDebugGroup { .. } => Err(
                command_failure(
                    PassErrorScope::PushDebugGroup,
                    RenderCommandError::Unimplemented("debug-markers"),
                ),
            ),
            RenderCommand::InsertDebugMarker { .. } => Err(
                command_failure(
                    PassErrorScope::InsertDebugMarker,
                    RenderCommandError::Unimplemented("debug-markers"),
                ),
            ),
            RenderCommand::PopDebugGroup => Err(
                command_failure(
                    PassErrorScope::PopDebugGroup,
                    RenderCommandError::Unimplemented("debug-markers"),
                ),
            ),
            RenderCommand::WriteTimestamp { .. } => Err(
                command_failure(
                    PassErrorScope::WriteTimestamp,
                    RenderCommandError::Unimplemented("queries"),
                ),
            ),
            RenderCommand::BeginPipelineStatisticsQuery { .. } => Err(
                command_failure(
                    PassErrorScope::BeginPipelineStatisticsQuery,
                    RenderCommandError::Unimplemented("queries"),
                ),
            ),
            RenderCommand::EndPipelineStatisticsQuery => Err(
                command_failure(
                    PassErrorScope::EndPipelineStatisticsQuery,
                    RenderCommandError::Unimplemented("queries"),
                ),
            ),
            RenderCommand::ExecuteBundle(_) => Err(
                command_failure(
                    PassErrorScope::ExecuteBundle,
                    RenderCommandError::Unimplemented("pass-only-commands"),
                ),
            ),
            RenderCommand::SetBlendConstant { .. } => Err(
                command_failure(
                    PassErrorScope::SetBlendConstant,
                    RenderCommandError::Unimplemented("pass-only-commands"),
                ),
            ),
            RenderCommand::SetStencilReference(_) => Err(
                command_failure(
                    PassErrorScope::SetStencilReference,
                    RenderCommandError::Unimplemented("pass-only-commands"),
                ),
            ),
            RenderCommand::SetViewport { .. } => Err(
                command_failure(
                    PassErrorScope::SetViewport,
                    RenderCommandError::Unimplemented("pass-only-commands"),
                ),
            ),
            RenderCommand::SetScissor { .. } => Err(
                command_failure(
                    PassErrorScope::SetScissorRect,
                    RenderCommandError::Unimplemented("pass-only-commands"),
                ),
            ),
        }
    }

    /// The compilation after the commands `commands`, in order, or the first
    /// error among them.
    pub open spec fn run(
        self,
        encoder: &RenderBundleEncoder,
        device: &Device,
        tables: &ResourceTables,
        commands: Seq<RenderCommand>,
    ) -> Result<CompilationView, RenderBundleError>
        decreases commands.len(),
    {
        if commands.len() == 0 {
            Ok(self)
        } else {
            match self.run(encoder, device, tables, commands.drop_last()) {
                Err(e) => Err(e),
                Ok(s) => s.step(encoder, device, tables, commands.last()),
            }
        }
    }
}

impl CompilationView {
    /// What holds of the compilation throughout: the simulated state is well
    /// formed for the dynamic offsets of the encoder, and a dirty index state
    /// holds a buffer.
    pub open spec fn inv(self, encoder: &RenderBundleEncoder) -> bool {
        &&& self.state.wf(encoder.base.dynamic_offsets@.len())
        &&& (self.state.index.is_dirty ==> self.state.index.buffer is Some)
    }

    /// The encoder has the dynamic offsets that the command takes, and the
    /// numbers of the command are in range.
    pub open spec fn admits(self, encoder: &RenderBundleEncoder, command: RenderCommand) -> bool {
        &&& self.next_dynamic_offset + command.offsets_taken() <= encoder.base.dynamic_offsets@.len()
        &&& command.in_range(encoder.base.push_constant_data@.len())
    }
}

impl Compilation {
    /// What the compiler holds before the first command.
    pub fn new() -> (r: Self)
        ensures
            r@ == CompilationView::initial(),
    {
        Compilation {
            state: State::new(),
            commands: Vec::new(),
            pipeline_layout_id: None,
            buffer_memory_init_actions: Vec::new(),
            texture_memory_init_actions: Vec::new(),
            next_dynamic_offset: 0,
        }
    }

    /// Checks a buffer that a command uses, and records the use.
    fn use_buffer(
        &mut self,
        encoder: &RenderBundleEncoder,
        tables: &ResourceTables,
        scope: PassErrorScope,
        id: BufferId,
        tracked_use: u32,
        usage: u32,
    ) -> (r: Result<Buffer, RenderBundleError>)
        ensures
            match old(self)@.use_buffer(encoder, tables, scope, id, tracked_use, usage) {
                Ok((s, buffer)) => r == Ok::<Buffer, RenderBundleError>(buffer) && final(self)@ == s,
                Err(e) => r == Err::<Buffer, RenderBundleError>(e),
            },
    {
        let buffer = match tables.buffers.get(id.0) {
            Some(buffer) => *buffer,
            None => {
                return Err(
                    command_error(
                        scope,
                        RenderCommandError::UsageConflict(UsageConflict::BufferInvalid { id }),
                    ),
                );
            },
        };
        match self.state.trackers.merge_buffer(id, tracked_use) {
            Ok(()) => {},
            Err(e) => {
                return Err(command_error(scope, RenderCommandError::UsageConflict(e)));
            },
        }
        if buffer.device_id != encoder.parent_id {
            return Err(RenderBundleError { scope, inner: RenderBundleErrorInner::NotValidToUse });
        }
        match check_buffer_usage(buffer.usage, BufferUsages { bits: usage }) {
            Ok(()) => {},
            Err(e) => {
                return Err(command_error(scope, RenderCommandError::MissingBufferUsage(e)));
            },
        }
        Ok(buffer)
    }

    /// Compiles a command that sets a bind group.
    #[verifier::loop_isolation(false)]
    fn set_bind_group(
        &mut self,
        encoder: &RenderBundleEncoder,
        device: &Device,
        tables: &ResourceTables,
        index: u8,
        num_dynamic_offsets: u8,
        bind_group_id: BindGroupId,
    ) -> (r: Result<(), RenderBundleError>)
        requires
            old(self)@.inv(encoder),
            device.limits.wf(),
            old(self).next_dynamic_offset + num_dynamic_offsets <= encoder.base.dynamic_offsets@.len(),
        ensures
            match old(self)@.set_bind_group(
                encoder,
                device,
                tables,
                index,
                num_dynamic_offsets,
                bind_group_id,
            ) {
                Ok(s) => r is Ok && final(self)@ == s && s.inv(encoder),
                Err(e) => r == Err::<(), RenderBundleError>(e),
            },
    {
        let scope = PassErrorScope::SetBindGroup(bind_group_id);
        let bind_group = match tables.bind_groups.get(bind_group_id.0) {
            Some(bind_group) => bind_group,
            None => {
                return Err(command_error(scope, RenderCommandError::InvalidBindGroup(bind_group_id)));
            },
        };
        if bind_group.device_id != encoder.parent_id {
            return Err(RenderBundleError { scope, inner: RenderBundleErrorInner::NotValidToUse });
        }
        let max_bind_groups = device.limits.max_bind_groups;
        if (index as u32) >= max_bind_groups {
            return Err(
                command_error(
                    scope,
                    RenderCommandError::BindGroupIndexOutOfRange { index, max: max_bind_groups },
                ),
            );
        }
        let num = num_dynamic_offsets as usize;
        let start = self.next_dynamic_offset;
        let offsets_len = encoder.base.dynamic_offsets.len();
        let offsets_range = OffsetRange { start, end: start + num };
        if bind_group.dynamic_binding_info.len() != num {
            return Err(
                command_error(
                    scope,
                    RenderCommandError::InvalidDynamicOffsetCount {
                        actual: num,
                        expected: bind_group.dynamic_binding_info.len(),
                    },
                ),
            );
        }
        let mut k: usize = 0;
        while k < num
            invariant
                k <= num,
                num == num_dynamic_offsets,
                start + num <= encoder.base.dynamic_offsets@.len() <= usize::MAX,
                bind_group.dynamic_binding_info@.len() == num,
                device.limits.wf(),
                first_unaligned_upto(
                    encoder.base.dynamic_offsets@,
                    start as int,
                    bind_group.dynamic_binding_info@,
                    &device.limits,
                    k as int,
                ) is None,
            decreases num - k,
        {
            let offset = encoder.base.dynamic_offsets[start + k] as u64;
            let info = bind_group.dynamic_binding_info[k];
            let (alignment, limit_name) = buffer_binding_type_alignment(
                &device.limits,
                info.binding_type,
            );
            if offset % (alignment as u64) != 0 {
                proof {
                    assert(first_unaligned_upto(
                        encoder.base.dynamic_offsets@,
                        start as int,
                        bind_group.dynamic_binding_info@,
                        &device.limits,
                        k as int + 1,
                    ) == Some(k as int));
                    lemma_first_unaligned_stays(
                        encoder.base.dynamic_offsets@,
                        start as int,
                        bind_group.dynamic_binding_info@,
                        &device.limits,
                        k as int + 1,
                        num as int,
                    );
                }
                return Err(
                    command_error(
                        scope,
                        RenderCommandError::UnalignedBufferOffset(offset, limit_name, alignment),
                    ),
                );
            }
            k += 1;
        }
        self.next_dynamic_offset = offsets_range.end;
        extend_from_slice(
            &mut self.buffer_memory_init_actions,
            bind_group.used_buffer_ranges.as_slice(),
        );
        extend_from_slice(
            &mut self.texture_memory_init_actions,
            bind_group.used_texture_ranges.as_slice(),
        );
        self.state.trackers.add_bind_group(bind_group_id);
        self.state.set_bind_group(index, bind_group_id, bind_group.layout_id, offsets_range);
        match self.state.trackers.merge_bind_group(&bind_group.used) {
            Ok(()) => {},
            Err(e) => {
                return Err(command_error(scope, RenderCommandError::UsageConflict(e)));
            },
        }
        Ok(())
    }

    /// Compiles a command that sets a pipeline.
    fn set_pipeline(
        &mut self,
        encoder: &RenderBundleEncoder,
        tables: &ResourceTables,
        pipeline_id: RenderPipelineId,
    ) -> (r: Result<(), RenderBundleError>)
        requires
            old(self)@.inv(encoder),
            tables.wf(),
        ensures
            match old(self)@.set_pipeline(encoder, tables, pipeline_id) {
                Ok(s) => r is Ok && final(self)@ == s && s.inv(encoder),
                Err(e) => r == Err::<(), RenderBundleError>(e),
            },
    {
        let scope = PassErrorScope::SetPipelineRender(pipeline_id);
        self.state.pipeline = Some(pipeline_id);
        let pipeline = match tables.render_pipelines.get(pipeline_id.0) {
            Some(pipeline) => pipeline,
            None => {
                return Err(command_error(scope, RenderCommandError::InvalidPipeline(pipeline_id)));
            },
        };
        if pipeline.device_id != encoder.parent_id {
            return Err(RenderBundleError { scope, inner: RenderBundleErrorInner::NotValidToUse });
        }
        match encoder.context.check_compatible(&pipeline.pass_context) {
            Ok(()) => {},
            Err(e) => {
                return Err(command_error(scope, RenderCommandError::IncompatiblePipelineTargets(e)));
            },
        }
        if pipeline.flags.contains(PIPELINE_WRITES_DEPTH_STENCIL) && encoder.is_ds_read_only {
            return Err(command_error(scope, RenderCommandError::IncompatiblePipelineRods));
        }
        let layout = match tables.pipeline_layouts.get(pipeline.layout_id.0) {
            Some(layout) => layout,
            None => {
                return Err(command_error(scope, RenderCommandError::InvalidPipeline(pipeline_id)));
            },
        };
        self.pipeline_layout_id = Some(pipeline.layout_id);
        self.state.trackers.add_render_pipeline(pipeline_id);
        self.state.set_pipeline(
            pipeline.strip_index_format,
            &pipeline.vertex_strides,
            &layout.bind_group_layout_ids,
            &layout.push_constant_ranges,
        );
        self.commands.push(RenderCommand::SetPipeline(pipeline_id));
        match self.state.flush_push_constants() {
            Some(clears) => {
                extend_from_slice(&mut self.commands, clears.as_slice());
            },
            None => {
                proof {
                    assert(self.commands@ + Seq::<RenderCommand>::empty() =~= self.commands@);
                }
            },
        }
        proof {
            assert(tables.pipeline_layouts.lookup(pipeline.layout_id.0) == Some(*layout));
            assert(layout.wf());
        }
        Ok(())
    }

    /// Compiles a command that sets the index buffer.
    fn set_index_buffer(
        &mut self,
        encoder: &RenderBundleEncoder,
        tables: &ResourceTables,
        buffer_id: BufferId,
        index_format: IndexFormat,
        offset: u64,
        size: Option<u64>,
    ) -> (r: Result<(), RenderBundleError>)
        requires
            old(self)@.inv(encoder),
            size matches Some(s) ==> offset + s <= u64::MAX,
        ensures
            match old(self)@.set_index_buffer(encoder, tables, buffer_id, index_format, offset, size) {
                Ok(s) => r is Ok && final(self)@ == s && s.inv(encoder),
                Err(e) => r == Err::<(), RenderBundleError>(e),
            },
    {
        let scope = PassErrorScope::SetIndexBuffer(buffer_id);
        let buffer = match self.use_buffer(
            encoder,
            tables,
            scope,
            buffer_id,
            BUFFER_USE_INDEX,
            BUFFER_USAGE_INDEX,
        ) {
            Ok(buffer) => buffer,
            Err(e) => {
                return Err(e);
            },
        };
        let end = match size {
            Some(s) => offset + s,
            None => buffer.size,
        };
        let range = ByteRange { start: offset, end };
        self.buffer_memory_init_actions.push(
            BufferInitTrackerAction {
                id: buffer_id,
                range,
                kind: MemoryInitKind::NeedsInitializedMemory,
            },
        );
        self.state.index.set_format(index_format);
        self.state.index.set_buffer(buffer_id, range);
        Ok(())
    }

    /// Compiles a command that sets a vertex buffer.
    fn set_vertex_buffer(
        &mut self,
        encoder: &RenderBundleEncoder,
        tables: &ResourceTables,
        slot: u32,
        buffer_id: BufferId,
        offset: u64,
        size: Option<u64>,
    ) -> (r: Result<(), RenderBundleError>)
        requires
            old(self)@.inv(encoder),
            size matches Some(s) ==> offset + s <= u64::MAX,
        ensures
            match old(self)@.set_vertex_buffer(encoder, tables, slot, buffer_id, offset, size) {
                Ok(s) => r is Ok && final(self)@ == s && s.inv(encoder),
                Err(e) => r == Err::<(), RenderBundleError>(e),
            },
    {
        let scope = PassErrorScope::SetVertexBuffer(buffer_id);
        let buffer = match self.use_buffer(
            encoder,
            tables,
            scope,
            buffer_id,
            BUFFER_USE_VERTEX,
            BUFFER_USAGE_VERTEX,
        ) {
            Ok(buffer) => buffer,
            Err(e) => {
                return Err(e);
            },
        };
        if slot as usize >= MAX_VERTEX_BUFFERS {
            return Err(
                command_error(
                    scope,
                    RenderCommandError::VertexBufferIndexOutOfRange {
                        index: slot,
                        max: MAX_VERTEX_BUFFERS as u32,
                    },
                ),
            );
        }
        let end = match size {
            Some(s) => offset + s,
            None => buffer.size,
        };
        let range = ByteRange { start: offset, end };
        self.buffer_memory_init_actions.push(
            BufferInitTrackerAction {
                id: buffer_id,
                range,
                kind: MemoryInitKind::NeedsInitializedMemory,
            },
        );
        let mut vs = self.state.vertex[slot as usize];
        vs.set_buffer(buffer_id, range);
        self.state.vertex[slot as usize] = vs;
        Ok(())
    }

    /// Compiles a command that sets push constants.
    fn set_push_constant(&mut self, tables: &ResourceTables, command: RenderCommand) -> (r: Result<
        (),
        RenderBundleError,
    >)
        requires
            command matches RenderCommand::SetPushConstant { offset, size_bytes, .. } && offset
                + size_bytes <= u32::MAX,
        ensures
            match old(self)@.set_push_constant(tables, command) {
                Ok(s) => r is Ok && final(self)@ == s,
                Err(e) => r == Err::<(), RenderBundleError>(e),
            },
    {
        let scope = PassErrorScope::SetPushConstant;
        match command {
            RenderCommand::SetPushConstant { stages, offset, size_bytes, values_offset: _ } => {
                let end_offset = offset + size_bytes;
                let layout_id = match self.pipeline_layout_id {
                    Some(layout_id) => layout_id,
                    None => {
                        return Err(draw_error(scope, DrawError::MissingPipeline));
                    },
                };
                let layout = match tables.pipeline_layouts.get(layout_id.0) {
                    Some(layout) => layout,
                    None => {
                        return Err(draw_error(scope, DrawError::MissingPipeline));
                    },
                };
                match validate_push_constant_ranges(
                    &layout.push_constant_ranges,
                    stages,
                    offset,
                    end_offset,
                ) {
                    Ok(()) => {},
                    Err(e) => {
                        return Err(command_error(scope, RenderCommandError::PushConstants(e)));
                    },
                }
                self.commands.push(command);
                Ok(())
            },
            _ => Ok(()),
        }
    }

    /// Sets what the compiled stream lacks, and compiles a draw behind it.
    fn flush_and_draw(
        &mut self,
        encoder: &RenderBundleEncoder,
        scope: PassErrorScope,
        indexed: bool,
        command: RenderCommand,
    ) -> (r: Result<(), RenderBundleError>)
        requires
            old(self)@.inv(encoder),
        ensures
            match old(self)@.flush_and_draw(encoder, scope, indexed, command) {
                Ok(s) => r is Ok && final(self)@ == s && s.inv(encoder),
                Err(e) => r == Err::<(), RenderBundleError>(e),
            },
    {
        match self.state.missing_vertex_buffer() {
            Some(index) => {
                return Err(draw_error(scope, DrawError::MissingVertexBuffer { index }));
            },
            None => {},
        }
        let ghost before = self@;
        if indexed {
            match self.state.index.flush() {
                Some(set_index) => {
                    self.commands.push(set_index);
                },
                None => {},
            }
        }
        proof {
            let index_commands = if indexed {
                before.state.index.flush_commands()
            } else {
                Seq::empty()
            };
            assert(self.commands@ =~= before.commands + index_commands);
        }
        let vertices = self.state.flush_vertices();
        extend_from_slice(&mut self.commands, vertices.as_slice());
        let binds = self.state.flush_binds(&encoder.base.dynamic_offsets);
        extend_from_slice(&mut self.commands, binds.as_slice());
        self.commands.push(command);
        Ok(())
    }

    /// Compiles a draw.
    fn draw(&mut self, encoder: &RenderBundleEncoder, command: RenderCommand) -> (r: Result<
        (),
        RenderBundleError,
    >)
        requires
            old(self)@.inv(encoder),
            command is Draw,
        ensures
            match old(self)@.draw(encoder, command) {
                Ok(s) => r is Ok && final(self)@ == s && s.inv(encoder),
                Err(e) => r == Err::<(), RenderBundleError>(e),
            },
    {
        let scope = PassErrorScope::Draw {
            indexed: false,
            indirect: false,
            pipeline: self.state.pipeline,
        };
        match command {
            RenderCommand::Draw { vertex_count, instance_count, first_vertex, first_instance } => {
                let vertex_limits = self.state.vertex_limits();
                let last_vertex = first_vertex as u64 + vertex_count as u64;
                if last_vertex > vertex_limits.vertex_limit {
                    return Err(
                        draw_error(
                            scope,
                            DrawError::VertexBeyondLimit {
                                last_vertex,
                                vertex_limit: vertex_limits.vertex_limit,
                                slot: vertex_limits.vertex_limit_slot,
                            },
                        ),
                    );
                }
                let last_instance = first_instance as u64 + instance_count as u64;
                if last_instance > vertex_limits.instance_limit {
                    return Err(
                        draw_error(
                            scope,
                            DrawError::InstanceBeyondLimit {
                                last_instance,
                                instance_limit: vertex_limits.instance_limit,
                                slot: vertex_limits.instance_limit_slot,
                            },
                        ),
                    );
                }
                self.flush_and_draw(encoder, scope, false, command)
            },
            _ => Ok(()),
        }
    }

    /// Compiles an indexed draw.
    fn draw_indexed(&mut self, encoder: &RenderBundleEncoder, command: RenderCommand) -> (r: Result<
        (),
        RenderBundleError,
    >)
        requires
            old(self)@.inv(encoder),
            command is DrawIndexed,
        ensures
            match old(self)@.draw_indexed(encoder, command) {
                Ok(s) => r is Ok && final(self)@ == s && s.inv(encoder),
                Err(e) => r == Err::<(), RenderBundleError>(e),
            },
    {
        let scope = PassErrorScope::Draw {
            indexed: true,
            indirect: false,
            pipeline: self.state.pipeline,
        };
        match command {
            RenderCommand::DrawIndexed {
                index_count,
                instance_count,
                first_index,
                base_vertex: _,
                first_instance,
            } => {
                let vertex_limits = self.state.vertex_limits();
                if self.state.index.buffer.is_none() {
                    return Err(draw_error(scope, DrawError::MissingIndexBuffer));
                }
                let index_limit = self.state.index.limit();
                let last_index = first_index as u64 + index_count as u64;
                if last_index > index_limit {
                    return Err(
                        draw_error(scope, DrawError::IndexBeyondLimit { last_index, index_limit }),
                    );
                }
                let last_instance = first_instance as u64 + instance_count as u64;
                if last_instance > vertex_limits.instance_limit {
                    return Err(
                        draw_error(
                            scope,
                            DrawError::InstanceBeyondLimit {
                                last_instance,
                                instance_limit: vertex_limits.instance_limit,
                                slot: vertex_limits.instance_limit_slot,
                            },
                        ),
                    );
                }
                self.flush_and_draw(encoder, scope, true, command)
            },
            _ => Ok(()),
        }
    }

    /// Compiles a draw whose arguments lie in a buffer.
    fn draw_indirect(
        &mut self,
        encoder: &RenderBundleEncoder,
        device: &Device,
        tables: &ResourceTables,
        command: RenderCommand,
    ) -> (r: Result<(), RenderBundleError>)
        requires
            old(self)@.inv(encoder),
            command matches RenderCommand::MultiDrawIndirect { offset, .. } && offset
                + DRAW_INDIRECT_ARGS_SIZE <= u64::MAX,
        ensures
            match old(self)@.draw_indirect(encoder, device, tables, command) {
                Ok(s) => r is Ok && final(self)@ == s && s.inv(encoder),
                Err(e) => r == Err::<(), RenderBundleError>(e),
            },
    {
        match command {
            RenderCommand::MultiDrawIndirect { buffer_id, offset, count: _, indexed } => {
                let scope = PassErrorScope::Draw {
                    indexed,
                    indirect: true,
                    pipeline: self.state.pipeline,
                };
                match device.require_downlevel_flags(DOWNLEVEL_INDIRECT_EXECUTION) {
                    Ok(()) => {},
                    Err(e) => {
                        return Err(
                            RenderBundleError {
                                scope,
                                inner: RenderBundleErrorInner::MissingDownlevelFlags(e),
                            },
                        );
                    },
                }
                match self.use_buffer(
                    encoder,
                    tables,
                    scope,
                    buffer_id,
                    BUFFER_USE_INDIRECT,
                    BUFFER_USAGE_INDIRECT,
                ) {
                    Ok(_) => {},
                    Err(e) => {
                        return Err(e);
                    },
                }
                self.buffer_memory_init_actions.push(
                    BufferInitTrackerAction {
                        id: buffer_id,
                        range: ByteRange { start: offset, end: offset + DRAW_INDIRECT_ARGS_SIZE },
                        kind: MemoryInitKind::NeedsInitializedMemory,
                    },
                );
                self.flush_and_draw(encoder, scope, indexed, command)
            },
            _ => Ok(()),
        }
    }

    /// Compiles one more command of the recorded stream.
    pub fn step(
        &mut self,
        encoder: &RenderBundleEncoder,
        device: &Device,
        tables: &ResourceTables,
        command: RenderCommand,
    ) -> (r: Result<(), RenderBundleError>)
        requires
            old(self)@.inv(encoder),
            old(self)@.admits(encoder, command),
            device.limits.wf(),
            tables.wf(),
        ensures
            match old(self)@.step(encoder, device, tables, command) {
                Ok(s) => r is Ok && final(self)@ == s && s.inv(encoder),
                Err(e) => r == Err::<(), RenderBundleError>(e),
            },
    {
        match command {
            RenderCommand::SetBindGroup { index, num_dynamic_offsets, bind_group_id } => self.set_bind_group(
                encoder,
                device,
                tables,
                index,
                num_dynamic_offsets,
                bind_group_id,
            ),
            RenderCommand::SetPipeline(pipeline_id) => self.set_pipeline(encoder, tables, pipeline_id),
            RenderCommand::SetIndexBuffer { buffer_id, index_format, offset, size } => self.set_index_buffer(
                encoder,
                tables,
                buffer_id,
                index_format,
                offset,
                size,
            ),
            RenderCommand::SetVertexBuffer { slot, buffer_id, offset, size } => self.set_vertex_buffer(
                encoder,
                tables,
                slot,
                buffer_id,
                offset,
                size,
            ),
            RenderCommand::SetPushConstant { .. } => self.set_push_constant(tables, command),
            RenderCommand::Draw { .. } => self.draw(encoder, command),
            RenderCommand::DrawIndexed { .. } => self.draw_indexed(encoder, command),
            RenderCommand::MultiDrawIndirect { count: None, .. } => self.draw_indirect(
                encoder,
                device,
                tables,
                command,
            ),
            RenderCommand::MultiDrawIndirect { indexed, .. } => Err(
                command_error(
                    PassErrorScope::Draw { indexed, indirect: true, pipeline: self.state.pipeline },
                    RenderCommandError::Unimplemented("multi-draw-indirect"),
                ),
            ),
            RenderCommand::MultiDrawIndirectCount { indexed, .. } => Err(
                command_error(
                    PassErrorScope::Draw { indexed, indirect: true, pipeline: self.state.pipeline },
                    RenderCommandError::Unimplemented("multi-draw-indirect"),
                ),
            ),
            RenderCommand::PushDebugGroup { .. } => Err(
                command_error(
                    PassErrorScope::PushDebugGroup,
                    RenderCommandError::Unimplemented("debug-markers"),
                ),
            ),
            RenderCommand::InsertDebugMarker { .. } => Err(
                command_error(
                    PassErrorScope::InsertDebugMarker,
                    RenderCommandError::Unimplemented("debug-markers"),
                ),
            ),
            RenderCommand::PopDebugGroup => Err(
                command_error(
                    PassErrorScope::PopDebugGroup,
                    RenderCommandError::Unimplemented("debug-markers"),
                ),
            ),
            RenderCommand::WriteTimestamp { .. } => Err(
                command_error(
                    PassErrorScope::WriteTimestamp,
                    RenderCommandError::Unimplemented("queries"),
                ),
            ),
            RenderCommand::BeginPipelineStatisticsQuery { .. } => Err(
                command_error(
                    PassErrorScope::BeginPipelineStatisticsQuery,
                    RenderCommandError::Unimplemented("queries"),
                ),
            ),
            RenderCommand::EndPipelineStatisticsQuery => Err(
                command_error(
                    PassErrorScope::EndPipelineStatisticsQuery,
                    RenderCommandError::Unimplemented("queries"),
                ),
            ),
            RenderCommand::ExecuteBundle(_) => Err(
                command_error(
                    PassErrorScope::ExecuteBundle,
                    RenderCommandError::Unimplemented("pass-only-commands"),
                ),
            ),
            RenderCommand::SetBlendConstant { .. } => Err(
                command_error(
                    PassErrorScope::SetBlendConstant,
                    RenderCommandError::Unimplemented("pass-only-commands"),
                ),
            ),
            RenderCommand::SetStencilReference(_) => Err(
                command_error(
                    PassErrorScope::SetStencilReference,
                    RenderCommandError::Unimplemented("pass-only-commands"),
                ),
            ),
            RenderCommand::SetViewport { .. } => Err(
                command_error(
                    PassErrorScope::SetViewport,
                    RenderCommandError::Unimplemented("pass-only-commands"),
                ),
            ),
            RenderCommand::SetScissor { .. } => Err(
                command_error(
                    PassErrorScope::SetScissorRect,
                    RenderCommandError::Unimplemented("pass-only-commands"),
                ),
            ),
        }
    }
}

/// The error of a prefix of the commands is the error of them all.
pub proof fn lemma_run_prefix_error(
    s: CompilationView,
    encoder: &RenderBundleEncoder,
    device: &Device,
    tables: &ResourceTables,
    commands: Seq<RenderCommand>,
    n: int,
)
    requires
        0 <= n <= commands.len(),
        s.run(encoder, device, tables, commands.take(n)) is Err,
    ensures
        s.run(encoder, device, tables, commands) == s.run(encoder, device, tables, commands.take(n)),
    decreases commands.len(),
{
    if n < commands.len() {
        assert(commands.drop_last().take(n) =~= commands.take(n));
        lemma_run_prefix_error(s, encoder, device, tables, commands.drop_last(), n);
    } else {
        assert(commands.take(n) =~= commands);
    }
}

/// The dynamic offsets that two streams take, one behind the other.
pub proof fn lemma_offsets_needed_add(a: Seq<RenderCommand>, b: Seq<RenderCommand>)
    ensures
        offsets_needed(a + b) == offsets_needed(a) + offsets_needed(b),
    decreases b.len(),
{
    if b.len() == 0 {
        assert(a + b =~= a);
    } else {
        lemma_offsets_needed_add(a, b.drop_last());
        assert((a + b).drop_last() =~= a + b.drop_last());
    }
}

/// Commands of which none takes a dynamic offset take none together.
pub proof fn lemma_offsets_needed_none(commands: Seq<RenderCommand>)
    requires
        forall|i: int| 0 <= i < commands.len() ==> (#[trigger] commands[i]).offsets_taken() == 0,
    ensures
        offsets_needed(commands) == 0,
    decreases commands.len(),
{
    if commands.len() > 0 {
        assert forall|i: int| 0 <= i < commands.drop_last().len() implies (#[trigger] commands.drop_last()[i]).offsets_taken()
            == 0 by {
            assert(commands.drop_last()[i] == commands[i]);
        }
        lemma_offsets_needed_none(commands.drop_last());
    }
}

/// The commands that a flush of the vertex slots gives set vertex buffers, and
/// their numbers are in range.
pub proof fn lemma_vertex_flush_commands(vertex: Seq<VertexState>, n: int, words: nat)
    requires
        0 <= n <= vertex.len(),
    ensures
        forall|i: int|
            0 <= i < vertex_flush_commands(vertex, n).len() ==> {
                let c = #[trigger] vertex_flush_commands(vertex, n)[i];
                c is SetVertexBuffer && c.in_range(words)
            },
    decreases n,
{
    if n > 0 {
        lemma_vertex_flush_commands(vertex, n - 1, words);
        let before = vertex_flush_commands(vertex, n - 1);
        let out = vertex_flush_commands(vertex, n);
        assert forall|i: int| 0 <= i < out.len() implies {
            let c = #[trigger] out[i];
            c is SetVertexBuffer && c.in_range(words)
        } by {
            if i < before.len() {
                assert(out[i] == before[i]);
            }
        }
    }
}

/// The commands that a flush of the bind groups gives set bind groups, and
/// take as many dynamic offsets as the flush adds to the compiled stream.
pub proof fn lemma_bind_flush_commands(
    bind: Seq<Option<BindState>>,
    offsets: Seq<u32>,
    n: int,
)
    requires
        0 <= n <= bind.len(),
        forall|i: int| 0 <= i < bind.len() ==> (#[trigger] bind[i] matches Some(b) ==> b.wf(offsets.len())),
    ensures
        offsets_needed(bind_flush_commands(bind, n)) == bind_flush_offsets(bind, offsets, n).len(),
        forall|i: int|
            0 <= i < bind_flush_commands(bind, n).len() ==> (#[trigger] bind_flush_commands(
                bind,
                n,
            )[i]) is SetBindGroup,
    decreases n,
{
    if n > 0 {
        lemma_bind_flush_commands(bind, offsets, n - 1);
        let before = bind_flush_commands(bind, n - 1);
        let out = bind_flush_commands(bind, n);
        match bind[n - 1] {
            Some(b) => {
                if b.is_dirty {
                    lemma_offsets_needed_push(before, b.command(n - 1));
                }
            },
            None => {},
        }
        assert forall|i: int| 0 <= i < out.len() implies (#[trigger] out[i]) is SetBindGroup by {
            if i < before.len() {
                assert(out[i] == before[i]);
            }
        }
    }
}

impl CompilationView {
    /// The compiled commands so far can be replayed with a payload blob of
    /// `words` words: they take exactly the dynamic offsets of the compiled
    /// stream, and their numbers are in range.
    pub open spec fn replay_inv(self, words: nat) -> bool {
        &&& offsets_needed(self.commands) == self.state.flat_dynamic_offsets.len()
        &&& all_in_range(self.commands, words)
    }
}

/// The array of dynamic offsets of an encoder has a length that can be told.
pub proof fn lemma_offsets_countable(encoder: &RenderBundleEncoder)
    ensures
        encoder.base.dynamic_offsets@.len() <= usize::MAX,
{
    assert(encoder.base.dynamic_offsets.len() == encoder.base.dynamic_offsets@.len());
}

/// A command that is compiled keeps the compiler's state well formed.
pub proof fn lemma_step_inv(
    s: CompilationView,
    encoder: &RenderBundleEncoder,
    device: &Device,
    tables: &ResourceTables,
    command: RenderCommand,
)
    requires
        s.inv(encoder),
        s.admits(encoder, command),
        device.limits.wf(),
        tables.wf(),
        encoder.base.dynamic_offsets@.len() <= usize::MAX,
        s.step(encoder, device, tables, command) is Ok,
    ensures
        s.step(encoder, device, tables, command).unwrap().inv(encoder),
{
    let t = s.step(encoder, device, tables, command).unwrap();
    match command {
        RenderCommand::SetPipeline(id) => {
            let pipeline = tables.render_pipelines.lookup(id.0).unwrap();
            let layout = tables.pipeline_layouts.lookup(pipeline.layout_id.0).unwrap();
            assert(layout.wf());
        },
        _ => {},
    }
}

/// A command that is compiled takes its dynamic offsets from the recorded stream.
pub proof fn lemma_step_next_offset(
    s: CompilationView,
    encoder: &RenderBundleEncoder,
    device: &Device,
    tables: &ResourceTables,
    command: RenderCommand,
)
    requires
        s.admits(encoder, command),
        encoder.base.dynamic_offsets@.len() <= usize::MAX,
        s.step(encoder, device, tables, command) is Ok,
    ensures
        s.step(encoder, device, tables, command).unwrap().next_dynamic_offset
            == s.next_dynamic_offset + command.offsets_taken(),
{
}

/// The flush before a draw keeps the compiled commands fit for a replay.
proof fn lemma_flush_and_draw_replay_inv(
    s: CompilationView,
    encoder: &RenderBundleEncoder,
    scope: PassErrorScope,
    indexed: bool,
    command: RenderCommand,
)
    requires
        s.inv(encoder),
        s.replay_inv(encoder.base.push_constant_data@.len()),
        command.in_range(encoder.base.push_constant_data@.len()),
        command.offsets_taken() == 0,
        s.flush_and_draw(encoder, scope, indexed, command) is Ok,
    ensures
        s.flush_and_draw(encoder, scope, indexed, command).unwrap().replay_inv(
            encoder.base.push_constant_data@.len(),
        ),
{
    let words = encoder.base.push_constant_data@.len();
    let t = s.flush_and_draw(encoder, scope, indexed, command).unwrap();
    let index_commands = if indexed {
        s.state.index.flush_commands()
    } else {
        Seq::empty()
    };
    let state = StateView {
        index: if indexed {
            s.state.index.flushed()
        } else {
            s.state.index
        },
        ..s.state
    };
    let vertex_commands = state.vertex_commands();
    let bind_commands = state.bind_commands();
    lemma_vertex_flush_commands(state.vertex, state.vertex.len() as int, words);
    lemma_bind_flush_commands(
        state.bind,
        encoder.base.dynamic_offsets@,
        state.used_bind_groups as int,
    );
    lemma_offsets_needed_none(index_commands);
    lemma_offsets_needed_none(vertex_commands);
    let a = s.commands + index_commands;
    let b = a + vertex_commands;
    let c = b + bind_commands;
    lemma_offsets_needed_add(s.commands, index_commands);
    lemma_offsets_needed_add(a, vertex_commands);
    lemma_offsets_needed_add(b, bind_commands);
    lemma_offsets_needed_push(c, command);
    assert(t.commands == c.push(command));
    assert forall|i: int| 0 <= i < t.commands.len() implies (#[trigger] t.commands[i]).in_range(
        words,
    ) by {
        if i < s.commands.len() {
            assert(t.commands[i] == s.commands[i]);
        } else if i < a.len() {
            assert(t.commands[i] == index_commands[i - s.commands.len()]);
        } else if i < b.len() {
            assert(t.commands[i] == vertex_commands[i - a.len()]);
        } else if i < c.len() {
            assert(t.commands[i] == bind_commands[i - b.len()]);
        }
    }
}

/// A command that is compiled keeps the compiled commands fit for a replay.
pub proof fn lemma_step_replay_inv(
    s: CompilationView,
    encoder: &RenderBundleEncoder,
    device: &Device,
    tables: &ResourceTables,
    command: RenderCommand,
)
    requires
        s.inv(encoder),
        s.admits(encoder, command),
        s.replay_inv(encoder.base.push_constant_data@.len()),
        s.step(encoder, device, tables, command) is Ok,
    ensures
        s.step(encoder, device, tables, command).unwrap().replay_inv(
            encoder.base.push_constant_data@.len(),
        ),
{
    let words = encoder.base.push_constant_data@.len();
    let t = s.step(encoder, device, tables, command).unwrap();
    match command {
        RenderCommand::SetPipeline(pipeline_id) => {
            let state = t.state;
            let clears = state.push_constant_commands();
            let first = s.commands.push(command);
            lemma_offsets_needed_push(s.commands, command);
            law_nonoverlapping_ascending(state.push_constant_ranges);
            lemma_offsets_needed_none(clears);
            lemma_offsets_needed_add(first, clears);
            assert forall|i: int| 0 <= i < t.commands.len() implies (#[trigger] t.commands[i]).in_range(
                words,
            ) by {
                if i < s.commands.len() {
                    assert(t.commands[i] == s.commands[i]);
                } else if i >= first.len() {
                    let k = i - first.len();
                    assert(t.commands[i] == clears[k]);
                    let r = nonoverlapping_ranges(state.push_constant_ranges)[k];
                    assert(r.start < r.end);
                }
            }
        },
        RenderCommand::SetPushConstant { .. } => {
            lemma_offsets_needed_push(s.commands, command);
            assert forall|i: int| 0 <= i < t.commands.len() implies (#[trigger] t.commands[i]).in_range(
                words,
            ) by {
                if i < s.commands.len() {
                    assert(t.commands[i] == s.commands[i]);
                }
            }
        },
        RenderCommand::Draw { .. } => {
            lemma_flush_and_draw_replay_inv(s, encoder, s.draw_scope(false, false), false, command);
        },
        RenderCommand::DrawIndexed { .. } => {
            lemma_flush_and_draw_replay_inv(s, encoder, s.draw_scope(true, false), true, command);
        },
        RenderCommand::MultiDrawIndirect { buffer_id, offset, count, indexed } => {
            let scope = s.draw_scope(indexed, true);
            let used = s.use_buffer(
                encoder,
                tables,
                scope,
                buffer_id,
                BUFFER_USE_INDIRECT,
                BUFFER_USAGE_INDIRECT,
            ).unwrap().0;
            let next = CompilationView {
                buffer_memory_init_actions: used.buffer_memory_init_actions.push(
                    init_action(
                        buffer_id,
                        ByteRange {
                            start: offset,
                            end: (offset + DRAW_INDIRECT_ARGS_SIZE) as u64,
                        },
                    ),
                ),
                ..used
            };
            lemma_flush_and_draw_replay_inv(next, encoder, scope, indexed, command);
        },
        _ => {},
    }
}

impl RenderBundleEncoder {
    /// What `finish` returns: the bundle that the commands of the encoder
    /// compile to, one after the other from an empty state, or the first error.
    /// The bundle has the label of `desc`, the compiled commands with the dynamic
    /// offsets that they take, the payload blob of the encoder, the device and the
    /// attachments of the encoder, and what the commands use.
    pub open spec fn compile(
        &self,
        desc: &RenderBundleDescriptor,
        device: &Device,
        tables: &ResourceTables,
    ) -> Result<BundleView, RenderBundleError> {
        match CompilationView::initial().run(self, device, tables, self.base.commands@) {
            Err(e) => Err(e),
            Ok(s) => Ok(
                BundleView {
                    label: label_view(desc.label),
                    commands: s.commands,
                    dynamic_offsets: s.state.flat_dynamic_offsets,
                    push_constant_data: self.base.push_constant_data@,
                    is_ds_read_only: self.is_ds_read_only,
                    device_id: self.parent_id,
                    used: s.state.trackers,
                    buffer_memory_init_actions: s.buffer_memory_init_actions,
                    texture_memory_init_actions: s.texture_memory_init_actions,
                    context: self.context@,
                },
            ),
        }
    }

    /// Compiles the commands of the encoder into a bundle. Every command is
    /// checked; the first that fails ends the compilation with its error, and no
    /// bundle is made. The encoder is used up either way.
    pub fn finish(self, desc: &RenderBundleDescriptor, device: &Device, tables: &ResourceTables) -> (r:
        Result<RenderBundle, RenderBundleError>)
        requires
            self.wf(),
            device.limits.wf(),
            tables.wf(),
        ensures
            match self.compile(desc, device, tables) {
                Ok(bundle) => r is Ok && r.unwrap()@ == bundle,
                Err(e) => r is Err && r.unwrap_err() == e,
            },
    {
        let mut compilation = Compilation::new();
        let offsets_len = self.base.dynamic_offsets.len();
        let words_len = self.base.push_constant_data.len();
        let mut i: usize = 0;
        proof {
            assert(self.base.commands@.take(0) =~= Seq::empty());
        }
        while i < self.base.commands.len()
            invariant
                i <= self.base.commands@.len(),
                self.wf(),
                device.limits.wf(),
                tables.wf(),
                offsets_len == self.base.dynamic_offsets@.len(),
                words_len == self.base.push_constant_data@.len(),
                CompilationView::initial().run(&self, device, tables, self.base.commands@.take(i as int))
                    == Ok::<CompilationView, RenderBundleError>(compilation@),
                compilation@.inv(&self),
                compilation@.replay_inv(self.base.push_constant_data@.len()),
                compilation.next_dynamic_offset == offsets_needed(self.base.commands@.take(i as int)),
            decreases self.base.commands@.len() - i,
        {
            let command = self.base.commands[i];
            let ghost before = compilation@;
            proof {
                assert(self.base.commands@.take(i as int + 1).drop_last() =~= self.base.commands@.take(
                    i as int,
                ));
                assert(self.base.commands@.take(i as int + 1) =~= self.base.commands@.take(
                    i as int,
                ).push(command));
                lemma_offsets_needed_push(self.base.commands@.take(i as int), command);
                lemma_offsets_needed_prefix(self.base.commands@, i as int + 1);
                assert(command.in_range(self.base.push_constant_data@.len()));
            }
            match compilation.step(&self, device, tables, command) {
                Ok(()) => {
                    proof {
                        lemma_step_next_offset(before, &self, device, tables, command);
                        lemma_step_replay_inv(before, &self, device, tables, command);
                    }
                },
                Err(e) => {
                    proof {
                        lemma_run_prefix_error(
                            CompilationView::initial(),
                            &self,
                            device,
                            tables,
                            self.base.commands@,
                            i as int + 1,
                        );
                    }
                    return Err(e);
                },
            }
            i += 1;
        }
        proof {
            assert(self.base.commands@.take(i as int) =~= self.base.commands@);
        }
        let label = match &desc.label {
            Some(s) => Some(s.clone()),
            None => None,
        };
        let RenderBundleEncoder { base, parent_id, context, is_ds_read_only, .. } = self;
        let Compilation {
            state,
            commands,
            buffer_memory_init_actions,
            texture_memory_init_actions,
            ..
        } = compilation;
        let State { trackers, flat_dynamic_offsets, .. } = state;
        Ok(
            RenderBundle::from_parts(
                BasePass {
                    label,
                    commands,
                    dynamic_offsets: flat_dynamic_offsets,
                    string_data: Vec::new(),
                    push_constant_data: base.push_constant_data,
                },
                is_ds_read_only,
                parent_id,
                trackers,
                buffer_memory_init_actions,
                texture_memory_init_actions,
                context,
            ),
        )
    }
}

} // verus!
