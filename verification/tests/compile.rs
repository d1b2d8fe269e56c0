use render_bundle::bundle::RenderBundle;
use render_bundle::command::{
    BasePass, ByteRange, IndexFormat, PushConstantRange, RenderCommand, VertexStepMode,
};
use render_bundle::context::{AttachmentData, RenderPassContext};
use render_bundle::encoder::{
    RenderBundleDepthStencil, RenderBundleDescriptor, RenderBundleEncoder,
    RenderBundleEncoderDescriptor,
};
use render_bundle::error::{
    DeviceError, DrawError, MissingBufferUsageError, MissingDownlevelFlags, PassErrorScope,
    PushConstantUploadError, RenderBundleError, RenderBundleErrorInner, RenderCommandError,
    RenderPassCompatibilityError, UsageConflict,
};
use render_bundle::flags::{
    BufferUsages, DownlevelFlags, PipelineFlags, ShaderStages, BUFFER_USAGE_COPY_SRC,
    BUFFER_USAGE_INDEX, BUFFER_USAGE_INDIRECT, BUFFER_USAGE_VERTEX, DOWNLEVEL_INDIRECT_EXECUTION,
    PIPELINE_WRITES_DEPTH_STENCIL, STAGE_COMPUTE, STAGE_FRAGMENT, STAGE_VERTEX,
};
use render_bundle::id::{
    BindGroupId, BindGroupLayoutId, BufferId, DeviceId, PipelineLayoutId, QuerySetId,
    RenderBundleId, RenderPipelineId, TextureId,
};
use render_bundle::resource::{
    BindGroup, BindGroupDynamicBindingData, Buffer, BufferBindingType, BufferInitTrackerAction,
    Device, Limits, MemoryInitKind, PipelineLayout, RenderPipeline, ResourceTables, Storage,
    TextureInitTrackerAction,
};
use render_bundle::track::{
    BindGroupStates, UsageEntry, BUFFER_USE_INDEX, BUFFER_USE_INDIRECT,
    BUFFER_USE_STORAGE_READ_WRITE, BUFFER_USE_UNIFORM, BUFFER_USE_VERTEX,
    TEXTURE_USE_COLOR_TARGET, TEXTURE_USE_RESOURCE,
};
use wgpu_types::TextureFormat;

const ALL_USAGES: u32 = BUFFER_USAGE_INDEX | BUFFER_USAGE_VERTEX | BUFFER_USAGE_INDIRECT;

fn device() -> Device {
    Device {
        limits: Limits {
            max_bind_groups: 4,
            min_uniform_buffer_offset_alignment: 256,
            min_storage_buffer_offset_alignment: 64,
        },
        downlevel: DownlevelFlags { bits: DOWNLEVEL_INDIRECT_EXECUTION },
    }
}

fn descriptor() -> RenderBundleEncoderDescriptor {
    RenderBundleEncoderDescriptor {
        label: None,
        color_formats: vec![TextureFormat::Rgba8Unorm],
        depth_stencil: None,
        sample_count: 1,
        multiview: None,
    }
}

fn context() -> RenderPassContext {
    RenderPassContext {
        attachments: AttachmentData {
            colors: vec![TextureFormat::Rgba8Unorm],
            resolves: vec![],
            depth_stencil: None,
        },
        sample_count: 1,
        multiview: None,
    }
}

fn buffer(device: u64, usage: u32, size: u64) -> Option<Buffer> {
    Some(Buffer { device_id: DeviceId(device), usage: BufferUsages { bits: usage }, size, raw: true })
}

fn bind_group(device: u64, layout: u64) -> BindGroup {
    BindGroup {
        device_id: DeviceId(device),
        layout_id: BindGroupLayoutId(layout),
        dynamic_binding_info: vec![],
        used_buffer_ranges: vec![],
        used_texture_ranges: vec![],
        used: BindGroupStates { buffers: vec![], textures: vec![] },
    }
}

fn buffer_action() -> BufferInitTrackerAction {
    BufferInitTrackerAction {
        id: BufferId(1),
        range: ByteRange { start: 0, end: 16 },
        kind: MemoryInitKind::NeedsInitializedMemory,
    }
}

fn texture_action() -> TextureInitTrackerAction {
    TextureInitTrackerAction {
        id: TextureId(0),
        mip_start: 0,
        mip_end: 1,
        layer_start: 0,
        layer_end: 6,
        kind: MemoryInitKind::ImplicitlyInitialized,
    }
}

fn dynamic_bind_group() -> BindGroup {
    let mut g = bind_group(1, 9);
    g.dynamic_binding_info = vec![
        BindGroupDynamicBindingData { binding_type: BufferBindingType::Uniform },
        BindGroupDynamicBindingData { binding_type: BufferBindingType::Storage { read_only: true } },
    ];
    g.used_buffer_ranges = vec![buffer_action()];
    g.used_texture_ranges = vec![texture_action()];
    g.used = BindGroupStates {
        buffers: vec![UsageEntry { id: 1, usage: BUFFER_USE_UNIFORM }],
        textures: vec![UsageEntry { id: 0, usage: TEXTURE_USE_RESOURCE }],
    };
    g
}

fn using(buffers: Vec<UsageEntry>, textures: Vec<UsageEntry>) -> BindGroup {
    let mut g = bind_group(1, 7);
    g.used = BindGroupStates { buffers, textures };
    g
}

fn pipeline(device: u64, layout: u64, strides: Vec<(u64, VertexStepMode)>) -> RenderPipeline {
    RenderPipeline {
        device_id: DeviceId(device),
        layout_id: PipelineLayoutId(layout),
        pass_context: context(),
        flags: PipelineFlags { bits: 0 },
        strip_index_format: None,
        vertex_strides: strides,
    }
}

fn layout(groups: Vec<u64>, ranges: Vec<PushConstantRange>) -> Option<PipelineLayout> {
    Some(PipelineLayout {
        device_id: DeviceId(1),
        bind_group_layout_ids: groups.into_iter().map(BindGroupLayoutId).collect(),
        push_constant_ranges: ranges,
    })
}

fn stages(bits: u32) -> ShaderStages {
    ShaderStages::from_bits(bits)
}

fn range(bits: u32, start: u32, end: u32) -> PushConstantRange {
    PushConstantRange { stages: stages(bits), start, end }
}

fn tables() -> ResourceTables {
    let mut other_colors = pipeline(1, 0, vec![]);
    other_colors.pass_context.attachments.colors = vec![TextureFormat::Bgra8Unorm];
    let mut writes_depth = pipeline(1, 0, vec![]);
    writes_depth.flags = PipelineFlags { bits: PIPELINE_WRITES_DEPTH_STENCIL };
    writes_depth.pass_context.attachments.depth_stencil = Some(TextureFormat::Depth32Float);
    let mut other_samples = pipeline(1, 0, vec![]);
    other_samples.pass_context.sample_count = 4;
    let mut other_multiview = pipeline(1, 0, vec![]);
    other_multiview.pass_context.multiview = Some(2);
    let mut other_depth = pipeline(1, 0, vec![]);
    other_depth.pass_context.attachments.depth_stencil = Some(TextureFormat::Depth24Plus);
    ResourceTables {
        buffers: Storage {
            slots: vec![
                buffer(1, ALL_USAGES, 40),
                buffer(1, ALL_USAGES, 20),
                None,
                buffer(2, ALL_USAGES, 40),
                buffer(1, BUFFER_USAGE_COPY_SRC, 40),
                buffer(1, ALL_USAGES, 1000),
            ],
        },
        textures: Storage { slots: vec![] },
        bind_groups: Storage {
            slots: vec![
                Some(bind_group(1, 7)),
                Some(bind_group(1, 8)),
                Some(bind_group(1, 7)),
                Some(bind_group(2, 7)),
                Some(dynamic_bind_group()),
                Some(using(vec![UsageEntry { id: 0, usage: BUFFER_USE_STORAGE_READ_WRITE }], vec![])),
                Some(using(vec![], vec![UsageEntry { id: 1, usage: TEXTURE_USE_COLOR_TARGET }])),
                Some(using(vec![], vec![UsageEntry { id: 1, usage: TEXTURE_USE_RESOURCE }])),
                None,
            ],
        },
        render_pipelines: Storage {
            slots: vec![
                Some(pipeline(1, 0, vec![(0, VertexStepMode::Vertex), (10, VertexStepMode::Vertex)])),
                Some(pipeline(1, 1, vec![])),
                Some(pipeline(2, 0, vec![])),
                Some(other_colors),
                Some(writes_depth),
                Some(pipeline(1, 2, vec![(4, VertexStepMode::Vertex), (8, VertexStepMode::Instance)])),
                Some(other_samples),
                Some(other_multiview),
                Some(other_depth),
                Some(pipeline(1, 3, vec![])),
                Some(pipeline(1, 4, vec![])),
            ],
        },
        pipeline_layouts: Storage {
            slots: vec![
                layout(vec![7, 8], vec![]),
                layout(vec![7, 8, 7], vec![]),
                layout(vec![9], vec![range(STAGE_VERTEX, 0, 16), range(STAGE_FRAGMENT, 8, 32)]),
                layout(vec![], vec![range(STAGE_VERTEX | STAGE_FRAGMENT, 0, 16)]),
                layout(vec![], vec![range(STAGE_VERTEX, 0, 300)]),
            ],
        },
        query_sets: Storage { slots: vec![] },
    }
}

fn encoder() -> RenderBundleEncoder {
    RenderBundleEncoder::new(&descriptor(), DeviceId(1), None).unwrap()
}

fn encoder_with(commands: Vec<RenderCommand>, dynamic_offsets: Vec<u32>) -> RenderBundleEncoder {
    let mut base = BasePass::new(&None);
    base.commands = commands;
    base.dynamic_offsets = dynamic_offsets;
    RenderBundleEncoder::new(&descriptor(), DeviceId(1), Some(base)).unwrap()
}

fn finish_on(
    encoder: RenderBundleEncoder,
    device: &Device,
    tables: &ResourceTables,
) -> Result<RenderBundle, RenderBundleError> {
    assert!(tables.is_well_formed());
    assert!(device.limits.is_well_formed());
    assert!(encoder.base.is_well_formed());
    encoder.finish(&RenderBundleDescriptor { label: Some(String::from("made")) }, device, tables)
}

fn finish(encoder: RenderBundleEncoder) -> Result<RenderBundle, RenderBundleError> {
    finish_on(encoder, &device(), &tables())
}

fn failure(commands: Vec<RenderCommand>) -> RenderBundleError {
    finish(encoder_with(commands, vec![])).unwrap_err()
}

fn command_failure(commands: Vec<RenderCommand>) -> RenderCommandError {
    match failure(commands).inner {
        RenderBundleErrorInner::RenderCommand(e) => e,
        other => panic!("{:?}", other),
    }
}

fn draw_failure(commands: Vec<RenderCommand>) -> DrawError {
    match failure(commands).inner {
        RenderBundleErrorInner::Draw(e) => e,
        other => panic!("{:?}", other),
    }
}

fn set_pipeline(id: u64) -> RenderCommand {
    RenderCommand::SetPipeline(RenderPipelineId(id))
}

fn set_bind_group(index: u8, id: u64) -> RenderCommand {
    RenderCommand::SetBindGroup { index, num_dynamic_offsets: 0, bind_group_id: BindGroupId(id) }
}

fn set_vertex_buffer(slot: u32, id: u64, offset: u64, size: Option<u64>) -> RenderCommand {
    RenderCommand::SetVertexBuffer { slot, buffer_id: BufferId(id), offset, size }
}

fn set_index_buffer(id: u64, format: IndexFormat, offset: u64, size: Option<u64>) -> RenderCommand {
    RenderCommand::SetIndexBuffer { buffer_id: BufferId(id), index_format: format, offset, size }
}

fn draw(vertex_count: u32, instance_count: u32) -> RenderCommand {
    RenderCommand::Draw { vertex_count, instance_count, first_vertex: 0, first_instance: 0 }
}

fn draw_indexed(index_count: u32, first_index: u32) -> RenderCommand {
    RenderCommand::DrawIndexed {
        index_count,
        instance_count: 1,
        first_index,
        base_vertex: 0,
        first_instance: 0,
    }
}

fn draw_indirect(id: u64, offset: u64, indexed: bool) -> RenderCommand {
    RenderCommand::MultiDrawIndirect { buffer_id: BufferId(id), offset, count: None, indexed }
}

fn push_constant(bits: u32, offset: u32, size_bytes: u32) -> RenderCommand {
    RenderCommand::SetPushConstant { stages: stages(bits), offset, size_bytes, values_offset: None }
}

fn clear(bits: u32, offset: u32, size_bytes: u32) -> RenderCommand {
    push_constant(bits, offset, size_bytes)
}

#[test]
fn vertex_beyond_limit_names_last_vertex_limit_and_slot() {
    let mut e = encoder();
    e.set_pipeline(RenderPipelineId(0));
    e.set_vertex_buffer(1, BufferId(0), 0, Some(40));
    e.draw(5, 1, 0, 0);
    let err = finish(e).unwrap_err();
    assert_eq!(
        err.scope,
        PassErrorScope::Draw { indexed: false, indirect: false, pipeline: Some(RenderPipelineId(0)) }
    );
    assert_eq!(
        err.inner,
        RenderBundleErrorInner::Draw(DrawError::VertexBeyondLimit {
            last_vertex: 5,
            vertex_limit: 4,
            slot: 1
        })
    );
}

#[test]
fn draw_up_to_the_limit_compiles() {
    let commands = vec![set_pipeline(0), set_vertex_buffer(1, 0, 0, Some(40)), draw(4, 1)];
    assert!(finish(encoder_with(commands, vec![])).is_ok());
    let commands = vec![
        set_pipeline(0),
        set_vertex_buffer(1, 0, 0, Some(40)),
        RenderCommand::Draw { vertex_count: 2, instance_count: 1, first_vertex: 3, first_instance: 0 },
    ];
    assert_eq!(
        draw_failure(commands),
        DrawError::VertexBeyondLimit { last_vertex: 5, vertex_limit: 4, slot: 1 }
    );
}

#[test]
fn vertex_limit_is_that_of_the_shortest_buffer() {
    let commands = vec![
        set_pipeline(5),
        set_vertex_buffer(0, 0, 0, None),
        set_vertex_buffer(1, 1, 4, None),
        draw(11, 1),
    ];
    assert_eq!(
        draw_failure(commands),
        DrawError::VertexBeyondLimit { last_vertex: 11, vertex_limit: 10, slot: 0 }
    );
    let commands = vec![
        set_pipeline(5),
        set_vertex_buffer(0, 0, 0, None),
        set_vertex_buffer(1, 1, 4, None),
        draw(10, 3),
    ];
    assert_eq!(
        draw_failure(commands),
        DrawError::InstanceBeyondLimit { last_instance: 3, instance_limit: 2, slot: 1 }
    );
}

#[test]
fn sum_beyond_32_bits_is_told_exactly() {
    let commands = vec![RenderCommand::Draw {
        vertex_count: u32::MAX,
        instance_count: 1,
        first_vertex: 2,
        first_instance: 0,
    }];
    assert_eq!(
        draw_failure(commands),
        DrawError::VertexBeyondLimit {
            last_vertex: u32::MAX as u64 + 2,
            vertex_limit: u32::MAX as u64,
            slot: 0
        }
    );
}

#[test]
fn index_beyond_limit_names_last_index_and_limit() {
    let mut e = encoder();
    e.set_pipeline(RenderPipelineId(1));
    e.set_index_buffer(BufferId(1), IndexFormat::Uint16, 0, Some(20));
    e.draw_indexed(10, 1, 1, 0, 0);
    let err = finish(e).unwrap_err();
    assert_eq!(
        err.scope,
        PassErrorScope::Draw { indexed: true, indirect: false, pipeline: Some(RenderPipelineId(1)) }
    );
    assert_eq!(
        err.inner,
        RenderBundleErrorInner::Draw(DrawError::IndexBeyondLimit { last_index: 11, index_limit: 10 })
    );
}

#[test]
fn index_limit_goes_by_the_format() {
    let commands =
        vec![set_pipeline(1), set_index_buffer(1, IndexFormat::Uint32, 0, Some(20)), draw_indexed(6, 0)];
    assert_eq!(
        draw_failure(commands),
        DrawError::IndexBeyondLimit { last_index: 6, index_limit: 5 }
    );
    let commands =
        vec![set_pipeline(1), set_index_buffer(1, IndexFormat::Uint32, 4, None), draw_indexed(4, 0)];
    assert!(finish(encoder_with(commands, vec![])).is_ok());
}

#[test]
fn indexed_draw_without_index_buffer_fails() {
    assert_eq!(draw_failure(vec![set_pipeline(1), draw_indexed(0, 0)]), DrawError::MissingIndexBuffer);
}

#[test]
fn instance_limit_of_indexed_draw() {
    let commands = vec![
        set_pipeline(5),
        set_vertex_buffer(0, 0, 0, None),
        set_vertex_buffer(1, 1, 4, None),
        set_index_buffer(0, IndexFormat::Uint16, 0, None),
        RenderCommand::DrawIndexed {
            index_count: 20,
            instance_count: 2,
            first_index: 0,
            base_vertex: 0,
            first_instance: 1,
        },
    ];
    assert_eq!(
        draw_failure(commands),
        DrawError::InstanceBeyondLimit { last_instance: 3, instance_limit: 2, slot: 1 }
    );
}

#[test]
fn draw_that_reads_a_slot_without_buffer_fails() {
    assert_eq!(
        draw_failure(vec![set_pipeline(0), draw(0, 0)]),
        DrawError::MissingVertexBuffer { index: 1 }
    );
    assert_eq!(
        draw_failure(vec![set_pipeline(0), draw(1, 1)]),
        DrawError::VertexBeyondLimit { last_vertex: 1, vertex_limit: 0, slot: 1 }
    );
    assert_eq!(
        draw_failure(vec![set_pipeline(0), draw_indirect(0, 0, false)]),
        DrawError::MissingVertexBuffer { index: 1 }
    );
}

#[test]
fn redundant_commands_are_left_out() {
    let mut e = encoder();
    e.set_pipeline(RenderPipelineId(1));
    e.set_pipeline(RenderPipelineId(1));
    e.set_bind_group(0, BindGroupId(0), &[]);
    e.set_bind_group(0, BindGroupId(0), &[]);
    e.draw(3, 1, 0, 0);
    let bundle = finish(e).unwrap();
    assert_eq!(bundle.commands(), &vec![set_pipeline(1), set_bind_group(0, 0), draw(3, 1)]);
}

#[test]
fn compiler_leaves_out_what_the_recorder_let_through() {
    let commands = vec![
        set_pipeline(0),
        set_bind_group(0, 0),
        set_bind_group(0, 0),
        set_vertex_buffer(1, 0, 0, Some(40)),
        set_vertex_buffer(1, 0, 0, Some(20)),
        set_vertex_buffer(1, 0, 0, Some(40)),
        draw(4, 1),
        set_vertex_buffer(1, 0, 0, Some(40)),
        draw(4, 1),
        draw(4, 1),
    ];
    let bundle = finish(encoder_with(commands, vec![])).unwrap();
    assert_eq!(
        bundle.commands(),
        &vec![
            set_pipeline(0),
            set_vertex_buffer(1, 0, 0, Some(40)),
            set_bind_group(0, 0),
            draw(4, 1),
            draw(4, 1),
            draw(4, 1),
        ]
    );
}

#[test]
fn buffer_that_is_set_anew_is_set_in_the_bundle_only_if_it_changes() {
    let commands = vec![
        set_pipeline(0),
        set_vertex_buffer(1, 0, 0, None),
        set_index_buffer(1, IndexFormat::Uint16, 0, None),
        draw_indexed(2, 0),
        set_vertex_buffer(1, 0, 0, Some(40)),
        set_index_buffer(1, IndexFormat::Uint16, 0, Some(20)),
        draw_indexed(2, 0),
        set_vertex_buffer(1, 0, 4, None),
        set_index_buffer(1, IndexFormat::Uint32, 0, None),
        draw_indexed(2, 0),
        set_vertex_buffer(1, 1, 4, Some(16)),
        set_index_buffer(0, IndexFormat::Uint32, 0, Some(20)),
        draw_indexed(2, 0),
    ];
    let bundle = finish(encoder_with(commands, vec![])).unwrap();
    assert_eq!(
        bundle.commands(),
        &vec![
            set_pipeline(0),
            set_index_buffer(1, IndexFormat::Uint16, 0, Some(20)),
            set_vertex_buffer(1, 0, 0, Some(40)),
            draw_indexed(2, 0),
            draw_indexed(2, 0),
            set_index_buffer(1, IndexFormat::Uint32, 0, Some(20)),
            set_vertex_buffer(1, 0, 4, Some(36)),
            draw_indexed(2, 0),
            set_index_buffer(0, IndexFormat::Uint32, 0, Some(20)),
            set_vertex_buffer(1, 1, 4, Some(16)),
            draw_indexed(2, 0),
        ]
    );
}

type Seen = (
    RenderCommand,
    Option<RenderPipelineId>,
    Option<(BufferId, IndexFormat, u64, u64)>,
    Vec<Option<(BufferId, u64, u64)>>,
    Vec<Option<(BindGroupId, Vec<u32>)>>,
);

fn bound(tables: &ResourceTables, id: BufferId, offset: u64, size: Option<u64>) -> (u64, u64) {
    let end = match size {
        Some(s) => offset + s,
        None => tables.buffers.get(id.0).unwrap().size,
    };
    (offset, end)
}

fn seen_by_draws(tables: &ResourceTables, commands: &[RenderCommand], offsets: &[u32]) -> Vec<Seen> {
    let mut pipeline = None;
    let mut index = None;
    let mut vertex = vec![None; 16];
    let mut bind: Vec<Option<(BindGroupId, Vec<u32>)>> = vec![None; 8];
    let mut cursor = 0;
    let mut seen = vec![];
    for &command in commands {
        match command {
            RenderCommand::SetPipeline(id) => pipeline = Some(id),
            RenderCommand::SetIndexBuffer { buffer_id, index_format, offset, size } => {
                let (start, end) = bound(tables, buffer_id, offset, size);
                index = Some((buffer_id, index_format, start, end));
            }
            RenderCommand::SetVertexBuffer { slot, buffer_id, offset, size } => {
                let (start, end) = bound(tables, buffer_id, offset, size);
                vertex[slot as usize] = Some((buffer_id, start, end));
            }
            RenderCommand::SetBindGroup { index, num_dynamic_offsets, bind_group_id } => {
                let end = cursor + num_dynamic_offsets as usize;
                bind[index as usize] = Some((bind_group_id, offsets[cursor..end].to_vec()));
                cursor = end;
            }
            RenderCommand::Draw { .. }
            | RenderCommand::DrawIndexed { .. }
            | RenderCommand::MultiDrawIndirect { .. } => {
                let indexed = match command {
                    RenderCommand::Draw { .. } => false,
                    RenderCommand::DrawIndexed { .. } => true,
                    RenderCommand::MultiDrawIndirect { indexed, .. } => indexed,
                    _ => unreachable!(),
                };
                let used = match pipeline {
                    Some(RenderPipelineId(id)) => {
                        let layout = tables.render_pipelines.get(id).unwrap().layout_id;
                        tables.pipeline_layouts.get(layout.0).unwrap().bind_group_layout_ids.len()
                    }
                    None => 0,
                };
                seen.push((
                    command,
                    pipeline,
                    if indexed { index } else { None },
                    vertex.clone(),
                    bind[..used].to_vec(),
                ));
            }
            _ => {}
        }
    }
    seen
}

#[test]
fn draws_of_the_bundle_see_what_the_draws_of_the_stream_see() {
    let group = |index: u8| RenderCommand::SetBindGroup {
        index,
        num_dynamic_offsets: 2,
        bind_group_id: BindGroupId(4),
    };
    let commands = vec![
        group(0),
        set_bind_group(1, 1),
        set_bind_group(2, 2),
        set_vertex_buffer(0, 0, 0, None),
        set_vertex_buffer(1, 1, 4, None),
        set_vertex_buffer(7, 5, 8, Some(100)),
        set_index_buffer(5, IndexFormat::Uint32, 0, None),
        draw(1, 1),
        set_pipeline(5),
        draw(10, 2),
        group(0),
        set_vertex_buffer(0, 0, 0, Some(40)),
        set_vertex_buffer(1, 1, 4, Some(8)),
        draw_indexed(10, 0),
        set_pipeline(1),
        set_bind_group(0, 0),
        draw_indirect(0, 0, true),
        set_bind_group(0, 0),
        set_bind_group(1, 1),
        set_index_buffer(5, IndexFormat::Uint16, 0, None),
        draw_indirect(0, 0, false),
        draw_indexed(1, 1),
        set_pipeline(5),
        group(0),
        draw(1, 1),
        set_pipeline(0),
        set_vertex_buffer(1, 1, 30, None),
        draw(0, 0),
    ];
    let offsets = vec![256, 64, 512, 128, 768, 192];
    let tables = tables();
    let bundle = finish(encoder_with(commands.clone(), offsets.clone())).unwrap();
    assert_ne!(bundle.commands(), &commands);
    let recorded = seen_by_draws(&tables, &commands, &offsets);
    let compiled = seen_by_draws(&tables, bundle.commands(), bundle.dynamic_offsets());
    assert_eq!(recorded.len(), 8);
    assert_eq!(compiled, recorded);
    for (_, pipeline, _, vertex, _) in &compiled {
        if let Some(RenderPipelineId(id)) = pipeline {
            let strides = &tables.render_pipelines.get(*id).unwrap().vertex_strides;
            for (slot, (stride, _)) in strides.iter().enumerate() {
                assert!(*stride == 0 || vertex[slot].is_some());
            }
        }
    }
}

#[test]
fn changed_bind_group_sets_later_slots_again() {
    let commands = vec![
        set_pipeline(1),
        set_bind_group(0, 0),
        set_bind_group(1, 1),
        set_bind_group(2, 2),
        draw(3, 1),
        draw(3, 1),
        set_bind_group(0, 2),
        draw(3, 1),
        set_bind_group(1, 1),
        draw(3, 1),
        set_bind_group(1, 0),
        draw(3, 1),
    ];
    let bundle = finish(encoder_with(commands, vec![])).unwrap();
    assert_eq!(
        bundle.commands(),
        &vec![
            set_pipeline(1),
            set_bind_group(0, 0),
            set_bind_group(1, 1),
            set_bind_group(2, 2),
            draw(3, 1),
            draw(3, 1),
            set_bind_group(0, 2),
            set_bind_group(1, 1),
            set_bind_group(2, 2),
            draw(3, 1),
            draw(3, 1),
            set_bind_group(1, 0),
            set_bind_group(2, 2),
            draw(3, 1),
        ]
    );
}

#[test]
fn slots_beyond_those_in_use_stay_dirty_for_a_later_pipeline() {
    let commands = vec![
        set_bind_group(0, 0),
        set_bind_group(1, 1),
        set_bind_group(2, 2),
        draw(3, 1),
        set_pipeline(0),
        set_vertex_buffer(1, 0, 0, None),
        draw(3, 1),
        set_pipeline(1),
        draw(3, 1),
    ];
    let bundle = finish(encoder_with(commands, vec![])).unwrap();
    assert_eq!(
        bundle.commands(),
        &vec![
            draw(3, 1),
            set_pipeline(0),
            set_vertex_buffer(1, 0, 0, Some(40)),
            set_bind_group(0, 0),
            set_bind_group(1, 1),
            draw(3, 1),
            set_pipeline(1),
            set_bind_group(2, 2),
            draw(3, 1),
        ]
    );
}

#[test]
fn pipeline_with_another_layout_sets_bind_groups_again_from_the_first_that_differs() {
    let commands = vec![
        set_pipeline(1),
        set_bind_group(0, 0),
        set_bind_group(1, 0),
        set_bind_group(2, 2),
        draw(3, 1),
        set_pipeline(9),
        set_pipeline(1),
        draw(3, 1),
    ];
    let bundle = finish(encoder_with(commands, vec![])).unwrap();
    assert_eq!(
        bundle.commands(),
        &vec![
            set_pipeline(1),
            set_bind_group(0, 0),
            set_bind_group(1, 0),
            set_bind_group(2, 2),
            draw(3, 1),
            set_pipeline(9),
            clear(STAGE_VERTEX | STAGE_FRAGMENT, 0, 16),
            set_pipeline(1),
            set_bind_group(0, 0),
            set_bind_group(1, 0),
            set_bind_group(2, 2),
            draw(3, 1),
        ]
    );
}

#[test]
fn pipeline_whose_layout_does_not_fit_a_slot_sets_it_and_the_later_ones_again() {
    let commands = vec![
        set_pipeline(1),
        set_bind_group(0, 0),
        set_bind_group(1, 0),
        set_bind_group(2, 2),
        draw(3, 1),
        set_pipeline(0),
        set_vertex_buffer(1, 0, 0, None),
        draw(3, 1),
        set_pipeline(1),
        draw(3, 1),
    ];
    let bundle = finish(encoder_with(commands, vec![])).unwrap();
    assert_eq!(
        bundle.commands(),
        &vec![
            set_pipeline(1),
            set_bind_group(0, 0),
            set_bind_group(1, 0),
            set_bind_group(2, 2),
            draw(3, 1),
            set_pipeline(0),
            set_vertex_buffer(1, 0, 0, Some(40)),
            set_bind_group(1, 0),
            draw(3, 1),
            set_pipeline(1),
            set_bind_group(1, 0),
            set_bind_group(2, 2),
            draw(3, 1),
        ]
    );
}

#[test]
fn stream_without_redundancy_compiles_to_itself() {
    let commands = vec![
        set_pipeline(0),
        set_vertex_buffer(1, 0, 0, Some(40)),
        set_bind_group(0, 0),
        set_bind_group(1, 1),
        draw(4, 1),
        set_index_buffer(1, IndexFormat::Uint16, 0, Some(20)),
        set_vertex_buffer(1, 1, 0, Some(20)),
        draw_indexed(10, 0),
        draw_indirect(0, 16, false),
        set_pipeline(1),
        set_bind_group(2, 2),
        draw_indirect(0, 0, true),
    ];
    let bundle = finish(encoder_with(commands.clone(), vec![])).unwrap();
    assert_eq!(bundle.commands(), &commands);
    assert_eq!(bundle.commands().len(), 12);
    assert!(bundle.dynamic_offsets().is_empty());
}

#[test]
fn stream_of_pipelines_and_draws_compiles_to_itself() {
    let commands = vec![draw(1, 1), set_pipeline(1), draw(2, 2), set_pipeline(1), draw(3, 3)];
    let bundle = finish(encoder_with(commands.clone(), vec![])).unwrap();
    assert_eq!(bundle.commands(), &commands);
}

#[test]
fn empty_stream_compiles_to_an_empty_bundle() {
    let bundle = finish(encoder()).unwrap();
    assert!(bundle.commands().is_empty());
    assert!(bundle.dynamic_offsets().is_empty());
    assert!(bundle.push_constant_data().is_empty());
    assert!(bundle.buffer_memory_init_actions().is_empty());
    assert!(bundle.texture_memory_init_actions().is_empty());
    assert_eq!(bundle.label(), &Some(String::from("made")));
    assert_eq!(bundle.device_id(), DeviceId(1));
    assert!(!bundle.is_ds_read_only());
    assert_eq!(bundle.context(), &context());
    let used = bundle.used();
    assert!(used.buffers.is_empty());
    assert!(used.textures.is_empty());
    assert!(used.bind_groups.is_empty());
    assert!(used.render_pipelines.is_empty());
    assert!(used.query_sets.is_empty());
}

#[test]
fn same_stream_and_tables_give_the_same_bundle() {
    let commands = vec![
        set_pipeline(5),
        set_vertex_buffer(0, 0, 0, None),
        set_vertex_buffer(1, 1, 4, None),
        RenderCommand::SetBindGroup { index: 0, num_dynamic_offsets: 2, bind_group_id: BindGroupId(4) },
        draw(10, 2),
    ];
    let first = finish(encoder_with(commands.clone(), vec![256, 64])).unwrap();
    let second = finish(encoder_with(commands, vec![256, 64])).unwrap();
    assert_eq!(first.commands(), second.commands());
    assert_eq!(first.dynamic_offsets(), second.dynamic_offsets());
    assert_eq!(first.push_constant_data(), second.push_constant_data());
    assert_eq!(first.used(), second.used());
    assert_eq!(first.buffer_memory_init_actions(), second.buffer_memory_init_actions());
    assert_eq!(first.texture_memory_init_actions(), second.texture_memory_init_actions());
    assert_eq!(first.context(), second.context());
    assert_eq!(first.label(), second.label());
    assert_eq!(first.device_id(), second.device_id());
}

#[test]
fn dynamic_offsets_of_the_bundle_are_those_of_the_bind_groups_that_are_set() {
    let group = |index: u8| RenderCommand::SetBindGroup {
        index,
        num_dynamic_offsets: 2,
        bind_group_id: BindGroupId(4),
    };
    let commands = vec![
        group(0),
        group(0),
        set_pipeline(5),
        set_vertex_buffer(0, 0, 0, None),
        set_vertex_buffer(1, 1, 4, None),
        draw(10, 2),
        group(0),
        draw(10, 2),
    ];
    let offsets = vec![256, 64, 512, 128, 768, 192];
    let bundle = finish(encoder_with(commands, offsets)).unwrap();
    assert_eq!(
        bundle.commands(),
        &vec![
            set_pipeline(5),
            clear(STAGE_VERTEX, 0, 8),
            clear(STAGE_VERTEX | STAGE_FRAGMENT, 8, 8),
            clear(STAGE_FRAGMENT, 16, 16),
            set_vertex_buffer(0, 0, 0, Some(40)),
            set_vertex_buffer(1, 1, 4, Some(16)),
            group(0),
            draw(10, 2),
            group(0),
            draw(10, 2),
        ]
    );
    assert_eq!(bundle.dynamic_offsets(), &vec![512, 128, 768, 192]);
    assert_eq!(
        bundle.buffer_memory_init_actions(),
        &vec![
            buffer_action(),
            buffer_action(),
            BufferInitTrackerAction {
                id: BufferId(0),
                range: ByteRange { start: 0, end: 40 },
                kind: MemoryInitKind::NeedsInitializedMemory
            },
            BufferInitTrackerAction {
                id: BufferId(1),
                range: ByteRange { start: 4, end: 20 },
                kind: MemoryInitKind::NeedsInitializedMemory
            },
            buffer_action(),
        ]
    );
    assert_eq!(
        bundle.texture_memory_init_actions(),
        &vec![texture_action(), texture_action(), texture_action()]
    );
    let used = bundle.used();
    assert_eq!(
        used.buffers,
        vec![
            UsageEntry { id: 1, usage: BUFFER_USE_UNIFORM | BUFFER_USE_VERTEX },
            UsageEntry { id: 0, usage: BUFFER_USE_VERTEX },
        ]
    );
    assert_eq!(used.textures, vec![UsageEntry { id: 0, usage: TEXTURE_USE_RESOURCE }]);
    assert_eq!(used.bind_groups, vec![4]);
    assert_eq!(used.render_pipelines, vec![5]);
}

#[test]
fn indirect_draws_record_their_arguments_and_their_use() {
    let commands = vec![
        set_pipeline(1),
        set_index_buffer(0, IndexFormat::Uint16, 0, None),
        draw_indirect(1, 4, true),
    ];
    let bundle = finish(encoder_with(commands.clone(), vec![])).unwrap();
    assert_eq!(
        bundle.commands(),
        &vec![
            set_pipeline(1),
            set_index_buffer(0, IndexFormat::Uint16, 0, Some(40)),
            draw_indirect(1, 4, true)
        ]
    );
    assert_eq!(
        bundle.buffer_memory_init_actions()[1],
        BufferInitTrackerAction {
            id: BufferId(1),
            range: ByteRange { start: 4, end: 20 },
            kind: MemoryInitKind::NeedsInitializedMemory
        }
    );
    assert_eq!(
        bundle.used().buffers,
        vec![
            UsageEntry { id: 0, usage: BUFFER_USE_INDEX },
            UsageEntry { id: 1, usage: BUFFER_USE_INDIRECT },
        ]
    );
}

#[test]
fn index_buffer_is_set_only_before_indexed_draws() {
    let commands = vec![
        set_pipeline(1),
        set_index_buffer(0, IndexFormat::Uint16, 0, None),
        draw(3, 1),
        draw_indexed(3, 0),
        draw_indexed(3, 0),
        set_index_buffer(0, IndexFormat::Uint16, 0, None),
        draw_indirect(0, 0, false),
        draw_indirect(0, 0, true),
    ];
    let bundle = finish(encoder_with(commands, vec![])).unwrap();
    assert_eq!(
        bundle.commands(),
        &vec![
            set_pipeline(1),
            draw(3, 1),
            set_index_buffer(0, IndexFormat::Uint16, 0, Some(40)),
            draw_indexed(3, 0),
            draw_indexed(3, 0),
            draw_indirect(0, 0, false),
            draw_indirect(0, 0, true),
        ]
    );
    let commands = vec![
        set_pipeline(1),
        set_index_buffer(0, IndexFormat::Uint16, 0, None),
        draw_indexed(3, 0),
        set_index_buffer(1, IndexFormat::Uint16, 0, None),
        draw_indirect(0, 0, false),
        draw_indirect(0, 0, true),
    ];
    let bundle = finish(encoder_with(commands, vec![])).unwrap();
    assert_eq!(
        bundle.commands(),
        &vec![
            set_pipeline(1),
            set_index_buffer(0, IndexFormat::Uint16, 0, Some(40)),
            draw_indexed(3, 0),
            draw_indirect(0, 0, false),
            set_index_buffer(1, IndexFormat::Uint16, 0, Some(20)),
            draw_indirect(0, 0, true),
        ]
    );
}

#[test]
fn binding_that_starts_behind_the_buffer_is_empty() {
    let commands = vec![set_pipeline(1), set_vertex_buffer(0, 1, 30, None), draw(0, 0)];
    let bundle = finish(encoder_with(commands, vec![])).unwrap();
    assert_eq!(
        bundle.commands(),
        &vec![set_pipeline(1), set_vertex_buffer(0, 1, 30, None), draw(0, 0)]
    );
}

#[test]
fn payload_blob_goes_to_the_bundle() {
    let mut e = encoder();
    e.set_pipeline(RenderPipelineId(5));
    e.set_push_constants(stages(STAGE_VERTEX), 0, 8, &[1, 0, 0, 0, 2, 0, 0, 0]);
    let bundle = finish(e).unwrap();
    assert_eq!(
        bundle.push_constant_data(),
        &vec![u32::from_ne_bytes([1, 0, 0, 0]), u32::from_ne_bytes([2, 0, 0, 0])]
    );
    assert_eq!(
        bundle.commands()[4],
        RenderCommand::SetPushConstant {
            stages: stages(STAGE_VERTEX),
            offset: 0,
            size_bytes: 8,
            values_offset: Some(0)
        }
    );
}

#[test]
fn bundle_of_a_read_only_encoder_is_read_only() {
    let mut desc = descriptor();
    desc.depth_stencil = Some(RenderBundleDepthStencil {
        format: TextureFormat::Depth32Float,
        depth_read_only: true,
        stencil_read_only: false,
    });
    let e = RenderBundleEncoder::new(&desc, DeviceId(1), None).unwrap();
    let bundle = finish(e).unwrap();
    assert!(bundle.is_ds_read_only());
    assert_eq!(bundle.context().attachments.depth_stencil, Some(TextureFormat::Depth32Float));
}

#[test]
fn bind_group_that_is_not_there_is_invalid() {
    for id in [8u64, 9, 1000] {
        let err = failure(vec![set_bind_group(0, id)]);
        assert_eq!(err.scope, PassErrorScope::SetBindGroup(BindGroupId(id)));
        assert_eq!(
            err.inner,
            RenderBundleErrorInner::RenderCommand(RenderCommandError::InvalidBindGroup(BindGroupId(id)))
        );
    }
}

#[test]
fn resource_of_another_device_is_not_valid_to_use() {
    let foreign = [
        (set_bind_group(0, 3), PassErrorScope::SetBindGroup(BindGroupId(3))),
        (set_pipeline(2), PassErrorScope::SetPipelineRender(RenderPipelineId(2))),
        (set_vertex_buffer(0, 3, 0, None), PassErrorScope::SetVertexBuffer(BufferId(3))),
        (
            set_index_buffer(3, IndexFormat::Uint16, 0, None),
            PassErrorScope::SetIndexBuffer(BufferId(3)),
        ),
        (
            draw_indirect(3, 0, false),
            PassErrorScope::Draw { indexed: false, indirect: true, pipeline: Some(RenderPipelineId(1)) },
        ),
    ];
    for (command, scope) in foreign {
        for before in [vec![], vec![set_pipeline(1), set_bind_group(0, 0), draw(3, 1)]] {
            if before.is_empty() && matches!(command, RenderCommand::MultiDrawIndirect { .. }) {
                continue;
            }
            let mut commands = before;
            commands.push(command);
            commands.push(draw(3, 1));
            let err = failure(commands);
            assert_eq!(err.scope, scope);
            assert_eq!(err.inner, RenderBundleErrorInner::NotValidToUse);
        }
    }
}

#[test]
fn encoder_of_another_device_can_use_none_of_the_resources() {
    let e = RenderBundleEncoder::new(&descriptor(), DeviceId(2), None).unwrap();
    let mut e2 = e.clone();
    e2.set_pipeline(RenderPipelineId(1));
    assert_eq!(finish(e2).unwrap_err().inner, RenderBundleErrorInner::NotValidToUse);
    let mut e3 = e.clone();
    e3.set_bind_group(0, BindGroupId(3), &[]);
    assert!(finish(e3).is_ok());
}

#[test]
fn bind_group_slot_beyond_the_device_is_out_of_range() {
    assert!(finish(encoder_with(vec![set_bind_group(3, 0)], vec![])).is_ok());
    for index in [4u8, 7, 8, 255] {
        assert_eq!(
            command_failure(vec![set_bind_group(index, 0)]),
            RenderCommandError::BindGroupIndexOutOfRange { index, max: 4 }
        );
    }
}

#[test]
fn vertex_buffer_slot_beyond_the_backend_is_out_of_range() {
    assert!(finish(encoder_with(vec![set_vertex_buffer(15, 0, 0, None)], vec![])).is_ok());
    for slot in [16u32, 17, u32::MAX] {
        let err = failure(vec![set_vertex_buffer(slot, 0, 0, None)]);
        assert_eq!(err.scope, PassErrorScope::SetVertexBuffer(BufferId(0)));
        assert_eq!(
            err.inner,
            RenderBundleErrorInner::RenderCommand(RenderCommandError::VertexBufferIndexOutOfRange {
                index: slot,
                max: 16
            })
        );
    }
}

#[test]
fn count_of_dynamic_offsets_must_be_that_of_the_bind_group() {
    let group = |num: u8, id: u64| RenderCommand::SetBindGroup {
        index: 0,
        num_dynamic_offsets: num,
        bind_group_id: BindGroupId(id),
    };
    assert_eq!(
        finish(encoder_with(vec![group(1, 4)], vec![256])).unwrap_err().inner,
        RenderBundleErrorInner::RenderCommand(RenderCommandError::InvalidDynamicOffsetCount {
            actual: 1,
            expected: 2
        })
    );
    assert_eq!(
        finish(encoder_with(vec![group(0, 4)], vec![])).unwrap_err().inner,
        RenderBundleErrorInner::RenderCommand(RenderCommandError::InvalidDynamicOffsetCount {
            actual: 0,
            expected: 2
        })
    );
    assert_eq!(
        finish(encoder_with(vec![group(3, 0)], vec![0, 0, 0])).unwrap_err().inner,
        RenderBundleErrorInner::RenderCommand(RenderCommandError::InvalidDynamicOffsetCount {
            actual: 3,
            expected: 0
        })
    );
}

#[test]
fn dynamic_offset_must_be_aligned_for_its_binding() {
    let group = RenderCommand::SetBindGroup {
        index: 0,
        num_dynamic_offsets: 2,
        bind_group_id: BindGroupId(4),
    };
    assert!(finish(encoder_with(vec![group], vec![512, 192])).is_ok());
    assert_eq!(
        finish(encoder_with(vec![group], vec![64, 64])).unwrap_err().inner,
        RenderBundleErrorInner::RenderCommand(RenderCommandError::UnalignedBufferOffset(
            64,
            "min_uniform_buffer_offset_alignment",
            256
        ))
    );
    assert_eq!(
        finish(encoder_with(vec![group], vec![256, 100])).unwrap_err().inner,
        RenderBundleErrorInner::RenderCommand(RenderCommandError::UnalignedBufferOffset(
            100,
            "min_storage_buffer_offset_alignment",
            64
        ))
    );
    assert_eq!(
        finish(encoder_with(vec![group, group], vec![256, 64, 256, 32])).unwrap_err().inner,
        RenderBundleErrorInner::RenderCommand(RenderCommandError::UnalignedBufferOffset(
            32,
            "min_storage_buffer_offset_alignment",
            64
        ))
    );
}

#[test]
fn pipeline_that_is_not_there_is_invalid() {
    let err = failure(vec![set_pipeline(11)]);
    assert_eq!(err.scope, PassErrorScope::SetPipelineRender(RenderPipelineId(11)));
    assert_eq!(
        err.inner,
        RenderBundleErrorInner::RenderCommand(RenderCommandError::InvalidPipeline(RenderPipelineId(11)))
    );
}

#[test]
fn pipeline_for_other_attachments_is_incompatible() {
    assert_eq!(
        command_failure(vec![set_pipeline(3)]),
        RenderCommandError::IncompatiblePipelineTargets(
            RenderPassCompatibilityError::IncompatibleColorAttachment
        )
    );
    assert_eq!(
        command_failure(vec![set_pipeline(8)]),
        RenderCommandError::IncompatiblePipelineTargets(
            RenderPassCompatibilityError::IncompatibleDepthStencilAttachment(
                None,
                Some(TextureFormat::Depth24Plus)
            )
        )
    );
    assert_eq!(
        command_failure(vec![set_pipeline(6)]),
        RenderCommandError::IncompatiblePipelineTargets(
            RenderPassCompatibilityError::IncompatibleSampleCount(1, 4)
        )
    );
    assert_eq!(
        command_failure(vec![set_pipeline(7)]),
        RenderCommandError::IncompatiblePipelineTargets(
            RenderPassCompatibilityError::IncompatibleMultiview(None, Some(2))
        )
    );
}

#[test]
fn pipeline_that_writes_depth_does_not_fit_a_read_only_encoder() {
    let encoder_for = |depth_read_only: bool| {
        let mut desc = descriptor();
        desc.depth_stencil = Some(RenderBundleDepthStencil {
            format: TextureFormat::Depth32Float,
            depth_read_only,
            stencil_read_only: false,
        });
        let mut e = RenderBundleEncoder::new(&desc, DeviceId(1), None).unwrap();
        e.set_pipeline(RenderPipelineId(4));
        e
    };
    let err = finish(encoder_for(true)).unwrap_err();
    assert_eq!(err.scope, PassErrorScope::SetPipelineRender(RenderPipelineId(4)));
    assert_eq!(
        err.inner,
        RenderBundleErrorInner::RenderCommand(RenderCommandError::IncompatiblePipelineRods)
    );
    assert!(finish(encoder_for(false)).is_ok());
}

#[test]
fn buffer_that_is_not_there_is_invalid() {
    for command in [
        set_vertex_buffer(0, 2, 0, None),
        set_index_buffer(6, IndexFormat::Uint16, 0, None),
        draw_indirect(2, 0, true),
    ] {
        let id = match command {
            RenderCommand::SetVertexBuffer { buffer_id, .. } => buffer_id,
            RenderCommand::SetIndexBuffer { buffer_id, .. } => buffer_id,
            RenderCommand::MultiDrawIndirect { buffer_id, .. } => buffer_id,
            _ => unreachable!(),
        };
        assert_eq!(
            command_failure(vec![command]),
            RenderCommandError::UsageConflict(UsageConflict::BufferInvalid { id })
        );
    }
}

#[test]
fn buffer_needs_the_usage_of_the_command() {
    let missing = |expected: u32| {
        RenderCommandError::MissingBufferUsage(MissingBufferUsageError {
            actual: BufferUsages { bits: BUFFER_USAGE_COPY_SRC },
            expected: BufferUsages { bits: expected },
        })
    };
    assert_eq!(command_failure(vec![set_vertex_buffer(0, 4, 0, None)]), missing(BUFFER_USAGE_VERTEX));
    assert_eq!(
        command_failure(vec![set_index_buffer(4, IndexFormat::Uint32, 0, None)]),
        missing(BUFFER_USAGE_INDEX)
    );
    assert_eq!(command_failure(vec![draw_indirect(4, 0, false)]), missing(BUFFER_USAGE_INDIRECT));
}

#[test]
fn writing_use_of_a_buffer_stands_alone() {
    assert_eq!(
        command_failure(vec![set_vertex_buffer(0, 0, 0, None), set_bind_group(0, 5)]),
        RenderCommandError::UsageConflict(UsageConflict::Buffer {
            id: BufferId(0),
            combined_use: BUFFER_USE_VERTEX | BUFFER_USE_STORAGE_READ_WRITE
        })
    );
    let err = failure(vec![set_bind_group(0, 5), set_index_buffer(0, IndexFormat::Uint16, 0, None)]);
    assert_eq!(err.scope, PassErrorScope::SetIndexBuffer(BufferId(0)));
    assert_eq!(
        err.inner,
        RenderBundleErrorInner::RenderCommand(RenderCommandError::UsageConflict(
            UsageConflict::Buffer {
                id: BufferId(0),
                combined_use: BUFFER_USE_INDEX | BUFFER_USE_STORAGE_READ_WRITE
            }
        ))
    );
    assert!(finish(encoder_with(vec![set_bind_group(0, 5), set_bind_group(1, 5)], vec![])).is_ok());
    assert!(finish(encoder_with(
        vec![set_vertex_buffer(0, 0, 0, None), set_index_buffer(0, IndexFormat::Uint16, 0, None)],
        vec![]
    ))
    .is_ok());
}

#[test]
fn writing_use_of_a_texture_stands_alone() {
    assert_eq!(
        command_failure(vec![set_bind_group(0, 6), set_bind_group(1, 7)]),
        RenderCommandError::UsageConflict(UsageConflict::Texture {
            id: TextureId(1),
            combined_use: TEXTURE_USE_COLOR_TARGET | TEXTURE_USE_RESOURCE
        })
    );
}

#[test]
fn push_constants_need_a_pipeline() {
    let err = failure(vec![push_constant(STAGE_VERTEX, 0, 4)]);
    assert_eq!(err.scope, PassErrorScope::SetPushConstant);
    assert_eq!(err.inner, RenderBundleErrorInner::Draw(DrawError::MissingPipeline));
}

#[test]
fn push_constants_must_fit_the_layout() {
    let upload = |pipeline: u64, bits: u32, offset: u32, size: u32| {
        finish(encoder_with(vec![set_pipeline(pipeline), push_constant(bits, offset, size)], vec![]))
            .map(|_| ())
            .map_err(|e| match e.inner {
                RenderBundleErrorInner::RenderCommand(RenderCommandError::PushConstants(e)) => e,
                other => panic!("{:?}", other),
            })
    };
    assert_eq!(upload(5, STAGE_VERTEX, 0, 8), Ok(()));
    assert_eq!(upload(5, STAGE_VERTEX | STAGE_FRAGMENT, 8, 8), Ok(()));
    assert_eq!(upload(5, STAGE_FRAGMENT, 16, 16), Ok(()));
    assert_eq!(upload(5, STAGE_VERTEX, 2, 4), Err(PushConstantUploadError::Unaligned(2)));
    assert_eq!(
        upload(5, STAGE_VERTEX, 0, 20),
        Err(PushConstantUploadError::TooLarge {
            offset: 0,
            end_offset: 20,
            idx: 0,
            range: range(STAGE_VERTEX, 0, 16)
        })
    );
    assert_eq!(
        upload(5, STAGE_FRAGMENT, 4, 8),
        Err(PushConstantUploadError::MissingStages {
            actual: stages(STAGE_FRAGMENT),
            idx: 0,
            missing: stages(STAGE_FRAGMENT)
        })
    );
    assert_eq!(
        upload(5, STAGE_VERTEX, 0, 16),
        Err(PushConstantUploadError::MissingStages {
            actual: stages(STAGE_VERTEX),
            idx: 1,
            missing: stages(STAGE_VERTEX)
        })
    );
    assert_eq!(
        upload(5, STAGE_COMPUTE, 32, 4),
        Err(PushConstantUploadError::UnmatchedStages {
            actual: stages(STAGE_COMPUTE),
            unmatched: stages(STAGE_COMPUTE)
        })
    );
    assert_eq!(
        upload(5, STAGE_COMPUTE | STAGE_FRAGMENT, 16, 4),
        Err(PushConstantUploadError::UnmatchedStages {
            actual: stages(STAGE_COMPUTE | STAGE_FRAGMENT),
            unmatched: stages(STAGE_COMPUTE)
        })
    );
    assert_eq!(
        upload(9, STAGE_VERTEX, 0, 4),
        Err(PushConstantUploadError::PartialRangeMatch {
            actual: stages(STAGE_VERTEX),
            idx: 0,
            matched: stages(STAGE_VERTEX | STAGE_FRAGMENT)
        })
    );
    assert_eq!(
        upload(1, STAGE_VERTEX, 0, 4),
        Err(PushConstantUploadError::UnmatchedStages {
            actual: stages(STAGE_VERTEX),
            unmatched: stages(STAGE_VERTEX)
        })
    );
}

#[test]
fn indirect_draw_needs_a_backend_that_runs_it() {
    let mut device = device();
    device.downlevel = DownlevelFlags { bits: 3 };
    let e = encoder_with(vec![set_pipeline(1), draw_indirect(0, 0, true)], vec![]);
    let err = finish_on(e, &device, &tables()).unwrap_err();
    assert_eq!(
        err.scope,
        PassErrorScope::Draw { indexed: true, indirect: true, pipeline: Some(RenderPipelineId(1)) }
    );
    assert_eq!(
        err.inner,
        RenderBundleErrorInner::MissingDownlevelFlags(MissingDownlevelFlags(DownlevelFlags {
            bits: DOWNLEVEL_INDIRECT_EXECUTION
        }))
    );
}

#[test]
fn commands_that_cannot_stand_in_a_bundle_are_refused() {
    let refused = [
        (
            RenderCommand::MultiDrawIndirect {
                buffer_id: BufferId(0),
                offset: 0,
                count: Some(2),
                indexed: false,
            },
            PassErrorScope::Draw { indexed: false, indirect: true, pipeline: None },
            "multi-draw-indirect",
        ),
        (
            RenderCommand::MultiDrawIndirectCount {
                buffer_id: BufferId(0),
                offset: 0,
                count_buffer_id: BufferId(1),
                count_buffer_offset: 0,
                max_count: 4,
                indexed: true,
            },
            PassErrorScope::Draw { indexed: true, indirect: true, pipeline: None },
            "multi-draw-indirect",
        ),
        (
            RenderCommand::PushDebugGroup { color: 0, len: 3 },
            PassErrorScope::PushDebugGroup,
            "debug-markers",
        ),
        (
            RenderCommand::InsertDebugMarker { color: 0, len: 3 },
            PassErrorScope::InsertDebugMarker,
            "debug-markers",
        ),
        (RenderCommand::PopDebugGroup, PassErrorScope::PopDebugGroup, "debug-markers"),
        (
            RenderCommand::WriteTimestamp { query_set_id: QuerySetId(0), query_index: 0 },
            PassErrorScope::WriteTimestamp,
            "queries",
        ),
        (
            RenderCommand::BeginPipelineStatisticsQuery { query_set_id: QuerySetId(0), query_index: 0 },
            PassErrorScope::BeginPipelineStatisticsQuery,
            "queries",
        ),
        (
            RenderCommand::EndPipelineStatisticsQuery,
            PassErrorScope::EndPipelineStatisticsQuery,
            "queries",
        ),
        (
            RenderCommand::ExecuteBundle(RenderBundleId(0)),
            PassErrorScope::ExecuteBundle,
            "pass-only-commands",
        ),
        (
            RenderCommand::SetBlendConstant { r: 0, g: 0, b: 0, a: 0 },
            PassErrorScope::SetBlendConstant,
            "pass-only-commands",
        ),
        (
            RenderCommand::SetStencilReference(1),
            PassErrorScope::SetStencilReference,
            "pass-only-commands",
        ),
        (
            RenderCommand::SetViewport { x: 0, y: 0, w: 0, h: 0, depth_min: 0, depth_max: 0 },
            PassErrorScope::SetViewport,
            "pass-only-commands",
        ),
        (
            RenderCommand::SetScissor { x: 0, y: 0, w: 1, h: 1 },
            PassErrorScope::SetScissorRect,
            "pass-only-commands",
        ),
    ];
    for (command, scope, reason) in refused {
        let err = failure(vec![draw(1, 1), command]);
        assert_eq!(err.scope, scope);
        assert_eq!(
            err.inner,
            RenderBundleErrorInner::RenderCommand(RenderCommandError::Unimplemented(reason))
        );
    }
}

#[test]
fn first_error_ends_the_compilation() {
    let err = failure(vec![set_pipeline(11), set_bind_group(0, 9), draw(u32::MAX, 1)]);
    assert_eq!(err.scope, PassErrorScope::SetPipelineRender(RenderPipelineId(11)));
}

#[test]
fn error_of_an_invalid_device() {
    let err = RenderBundleError::invalid_device();
    assert_eq!(err.scope, PassErrorScope::Bundle);
    assert_eq!(err.inner, RenderBundleErrorInner::Device(DeviceError::Invalid));
}

#[test]
fn tables_with_a_pipeline_without_layout_are_not_well_formed() {
    let mut t = tables();
    assert!(t.is_well_formed());
    t.render_pipelines.slots.push(Some(pipeline(1, 5, vec![])));
    assert!(!t.is_well_formed());
    let mut t = tables();
    t.pipeline_layouts.slots.push(layout(vec![1, 2, 3, 4, 5, 6, 7, 8, 9], vec![]));
    assert!(!t.is_well_formed());
    let mut t = tables();
    t.pipeline_layouts.slots.push(layout(vec![1, 2, 3, 4, 5, 6, 7, 8], vec![range(1, 8, 4)]));
    assert!(t.is_well_formed());
}

#[test]
fn limits_beyond_the_backend_are_not_well_formed() {
    let mut limits = device().limits;
    assert!(limits.is_well_formed());
    limits.max_bind_groups = 8;
    assert!(limits.is_well_formed());
    limits.max_bind_groups = 9;
    assert!(!limits.is_well_formed());
    limits.max_bind_groups = 4;
    limits.min_uniform_buffer_offset_alignment = 0;
    assert!(!limits.is_well_formed());
    limits.min_uniform_buffer_offset_alignment = 1;
    limits.min_storage_buffer_offset_alignment = 0;
    assert!(!limits.is_well_formed());
}
