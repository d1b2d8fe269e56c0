use render_bundle::bundle::{
    check_pipelines_resolve, replay, NativeCall, NativeEncoder, PassBindings, PushConstantData,
    RenderBundle,
};
use render_bundle::command::{
    BasePass, IndexFormat, OffsetRange, PushConstantRange, RenderCommand, VertexStepMode,
};
use render_bundle::context::{AttachmentData, RenderPassContext};
use render_bundle::encoder::{
    RenderBundleDescriptor, RenderBundleEncoder, RenderBundleEncoderDescriptor,
};
use render_bundle::error::ExecutionError;
use render_bundle::flags::{
    BufferUsages, DownlevelFlags, PipelineFlags, ShaderStages, BUFFER_USAGE_INDEX,
    BUFFER_USAGE_INDIRECT, BUFFER_USAGE_VERTEX, DOWNLEVEL_INDIRECT_EXECUTION, STAGE_FRAGMENT,
    STAGE_VERTEX,
};
use render_bundle::id::{
    BindGroupId, BindGroupLayoutId, BufferId, DeviceId, PipelineLayoutId, QuerySetId,
    RenderBundleId, RenderPipelineId,
};
use render_bundle::resource::{
    BindGroup, BindGroupDynamicBindingData, Buffer, BufferBindingType, Device, Limits,
    PipelineLayout, RenderPipeline, ResourceTables, Storage,
};
use render_bundle::track::BindGroupStates;
use wgpu_types::TextureFormat;

fn device() -> Device {
    Device {
        limits: Limits {
            max_bind_groups: 8,
            min_uniform_buffer_offset_alignment: 256,
            min_storage_buffer_offset_alignment: 256,
        },
        downlevel: DownlevelFlags { bits: DOWNLEVEL_INDIRECT_EXECUTION },
    }
}

fn context() -> RenderPassContext {
    RenderPassContext {
        attachments: AttachmentData {
            colors: vec![TextureFormat::Rgba8Unorm],
            resolves: vec![],
            depth_stencil: None,
        },
        sample_count: 1,
        multiview: None,
    }
}

fn buffer(size: u64) -> Option<Buffer> {
    Some(Buffer {
        device_id: DeviceId(1),
        usage: BufferUsages {
            bits: BUFFER_USAGE_INDEX | BUFFER_USAGE_VERTEX | BUFFER_USAGE_INDIRECT,
        },
        size,
        raw: true,
    })
}

fn bind_group(layout: u64, dynamic: usize) -> Option<BindGroup> {
    Some(BindGroup {
        device_id: DeviceId(1),
        layout_id: BindGroupLayoutId(layout),
        dynamic_binding_info: vec![
            BindGroupDynamicBindingData { binding_type: BufferBindingType::Uniform };
            dynamic
        ],
        used_buffer_ranges: vec![],
        used_texture_ranges: vec![],
        used: BindGroupStates { buffers: vec![], textures: vec![] },
    })
}

fn pipeline(layout: u64) -> Option<RenderPipeline> {
    Some(RenderPipeline {
        device_id: DeviceId(1),
        layout_id: PipelineLayoutId(layout),
        pass_context: context(),
        flags: PipelineFlags { bits: 0 },
        strip_index_format: Some(IndexFormat::Uint16),
        vertex_strides: vec![(4, VertexStepMode::Vertex)],
    })
}

fn layout(groups: Vec<u64>, ranges: Vec<PushConstantRange>) -> Option<PipelineLayout> {
    Some(PipelineLayout {
        device_id: DeviceId(1),
        bind_group_layout_ids: groups.into_iter().map(BindGroupLayoutId).collect(),
        push_constant_ranges: ranges,
    })
}

fn stages(bits: u32) -> ShaderStages {
    ShaderStages::from_bits(bits)
}

fn tables() -> ResourceTables {
    ResourceTables {
        buffers: Storage { slots: vec![buffer(400), buffer(200), buffer(64)] },
        textures: Storage { slots: vec![] },
        bind_groups: Storage { slots: vec![bind_group(7, 0), bind_group(8, 2)] },
        render_pipelines: Storage { slots: vec![pipeline(1), None, pipeline(0), pipeline(2)] },
        pipeline_layouts: Storage {
            slots: vec![
                layout(
                    vec![],
                    vec![PushConstantRange { stages: stages(STAGE_VERTEX), start: 0, end: 300 }],
                ),
                layout(vec![7, 8], vec![]),
                layout(
                    vec![],
                    vec![PushConstantRange { stages: stages(STAGE_FRAGMENT), start: 4, end: 1028 }],
                ),
            ],
        },
        query_sets: Storage { slots: vec![] },
    }
}

fn encoder() -> RenderBundleEncoder {
    let desc = RenderBundleEncoderDescriptor {
        label: None,
        color_formats: vec![TextureFormat::Rgba8Unorm],
        depth_stencil: None,
        sample_count: 1,
        multiview: None,
    };
    RenderBundleEncoder::new(&desc, DeviceId(1), None).unwrap()
}

fn compile(e: RenderBundleEncoder, label: Option<&str>) -> RenderBundle {
    let tables = tables();
    assert!(tables.is_well_formed());
    assert!(e.base.is_well_formed());
    e.finish(&RenderBundleDescriptor { label: label.map(String::from) }, &device(), &tables).unwrap()
}

fn run(bundle: &RenderBundle, tables: &ResourceTables) -> (Vec<NativeCall>, Result<(), ExecutionError>) {
    let mut raw = NativeEncoder::new();
    assert!(bundle.resolves_in(tables));
    let result = bundle.execute(&mut raw, tables);
    (raw.calls, result)
}

fn run_stream(commands: Vec<RenderCommand>, offsets: Vec<u32>) -> (Vec<NativeCall>, Result<(), ExecutionError>) {
    let mut base = BasePass::new(&None);
    base.commands = commands;
    base.dynamic_offsets = offsets;
    base.push_constant_data = vec![0; 8];
    let tables = tables();
    assert!(base.is_well_formed());
    assert!(check_pipelines_resolve(&base.commands, &tables));
    let mut raw = NativeEncoder::new();
    let result = replay(&base, &mut raw, &tables);
    (raw.calls, result)
}

fn scene() -> RenderBundleEncoder {
    let mut e = encoder();
    e.set_pipeline(RenderPipelineId(0));
    e.set_bind_group(0, BindGroupId(0), &[]);
    e.set_bind_group(1, BindGroupId(1), &[256, 512]);
    e.set_vertex_buffer(0, BufferId(0), 8, None);
    e.set_index_buffer(BufferId(1), IndexFormat::Uint32, 0, Some(40));
    e.draw(3, 2, 1, 4);
    e.set_bind_group(1, BindGroupId(1), &[768, 1024]);
    e.draw_indexed(6, 1, 2, -1, 0);
    e.draw_indirect(BufferId(2), 16);
    e.draw_indexed_indirect(BufferId(2), 32);
    e
}

fn scene_calls() -> Vec<NativeCall> {
    vec![
        NativeCall::SetRenderPipeline(RenderPipelineId(0)),
        NativeCall::SetVertexBuffer { slot: 0, buffer: BufferId(0), offset: 8, size: Some(392) },
        NativeCall::SetBindGroup {
            layout: PipelineLayoutId(1),
            index: 0,
            group: BindGroupId(0),
            offsets: OffsetRange { start: 0, end: 0 },
        },
        NativeCall::SetBindGroup {
            layout: PipelineLayoutId(1),
            index: 1,
            group: BindGroupId(1),
            offsets: OffsetRange { start: 0, end: 2 },
        },
        NativeCall::Draw { first_vertex: 1, vertex_count: 3, first_instance: 4, instance_count: 2 },
        NativeCall::SetIndexBuffer {
            buffer: BufferId(1),
            offset: 0,
            size: Some(40),
            format: IndexFormat::Uint32,
        },
        NativeCall::SetBindGroup {
            layout: PipelineLayoutId(1),
            index: 1,
            group: BindGroupId(1),
            offsets: OffsetRange { start: 2, end: 4 },
        },
        NativeCall::DrawIndexed {
            first_index: 2,
            index_count: 6,
            base_vertex: -1,
            first_instance: 0,
            instance_count: 1,
        },
        NativeCall::DrawIndirect { buffer: BufferId(2), offset: 16, draw_count: 1 },
        NativeCall::DrawIndexedIndirect { buffer: BufferId(2), offset: 32, draw_count: 1 },
    ]
}

#[test]
fn replay_makes_the_native_calls_in_order() {
    let bundle = compile(scene(), None);
    assert_eq!(bundle.dynamic_offsets(), &vec![256, 512, 768, 1024]);
    let (calls, result) = run(&bundle, &tables());
    assert_eq!(result, Ok(()));
    assert_eq!(calls, scene_calls());
}

#[test]
fn labelled_bundle_is_replayed_between_debug_markers() {
    let bundle = compile(scene(), Some("scene"));
    let (calls, result) = run(&bundle, &tables());
    assert_eq!(result, Ok(()));
    let mut expected = vec![NativeCall::BeginDebugMarker];
    expected.extend(scene_calls());
    expected.push(NativeCall::EndDebugMarker);
    assert_eq!(calls, expected);
}

#[test]
fn replay_adds_to_the_calls_that_the_encoder_holds() {
    let bundle = compile(scene(), None);
    let mut raw = NativeEncoder::new();
    raw.calls.push(NativeCall::EndDebugMarker);
    let tables = tables();
    bundle.execute(&mut raw, &tables).unwrap();
    bundle.execute(&mut raw, &tables).unwrap();
    let mut expected = vec![NativeCall::EndDebugMarker];
    expected.extend(scene_calls());
    expected.extend(scene_calls());
    assert_eq!(raw.calls, expected);
}

#[test]
fn destroyed_buffer_stops_the_replay_and_keeps_the_calls_before() {
    let bundle = compile(scene(), Some("scene"));
    let mut t = tables();
    t.buffers.slots[1] = Some(Buffer { raw: false, ..t.buffers.slots[1].unwrap() });
    let (calls, result) = run(&bundle, &t);
    assert_eq!(result, Err(ExecutionError::DestroyedBuffer(BufferId(1))));
    let mut expected = vec![NativeCall::BeginDebugMarker];
    expected.extend(scene_calls().into_iter().take(5));
    assert_eq!(calls, expected);

    let mut t = tables();
    t.buffers.slots[0] = None;
    let (calls, result) = run(&bundle, &t);
    assert_eq!(result, Err(ExecutionError::DestroyedBuffer(BufferId(0))));
    assert_eq!(
        calls,
        vec![NativeCall::BeginDebugMarker, NativeCall::SetRenderPipeline(RenderPipelineId(0))]
    );

    let mut t = tables();
    t.buffers.slots.truncate(2);
    let (calls, result) = run(&bundle, &t);
    assert_eq!(result, Err(ExecutionError::DestroyedBuffer(BufferId(2))));
    assert_eq!(calls.len(), 9);
}

#[test]
fn bundle_does_not_resolve_in_tables_without_its_pipeline() {
    let bundle = compile(scene(), None);
    let mut t = tables();
    assert!(bundle.resolves_in(&t));
    t.render_pipelines.slots[0] = None;
    assert!(!bundle.resolves_in(&t));
    t.render_pipelines.slots.clear();
    assert!(!bundle.resolves_in(&t));
}

#[test]
fn push_constants_are_cleared_64_words_at_a_time() {
    let mut e = encoder();
    e.set_pipeline(RenderPipelineId(2));
    let bundle = compile(e, None);
    assert_eq!(
        bundle.commands(),
        &vec![
            RenderCommand::SetPipeline(RenderPipelineId(2)),
            RenderCommand::SetPushConstant {
                stages: stages(STAGE_VERTEX),
                offset: 0,
                size_bytes: 300,
                values_offset: None
            },
        ]
    );
    let (calls, result) = run(&bundle, &tables());
    assert_eq!(result, Ok(()));
    let clear = |offset: u32, words: u32| NativeCall::SetPushConstants {
        layout: PipelineLayoutId(0),
        stages: stages(STAGE_VERTEX),
        offset,
        data: PushConstantData::Zeros(words),
    };
    assert_eq!(
        calls,
        vec![NativeCall::SetRenderPipeline(RenderPipelineId(2)), clear(0, 64), clear(256, 11)]
    );
}

#[test]
fn clear_of_a_multiple_of_64_words_makes_full_calls_only() {
    let mut e = encoder();
    e.set_pipeline(RenderPipelineId(3));
    let bundle = compile(e, None);
    let (calls, _) = run(&bundle, &tables());
    let clear = |offset: u32, words: u32| NativeCall::SetPushConstants {
        layout: PipelineLayoutId(2),
        stages: stages(STAGE_FRAGMENT),
        offset,
        data: PushConstantData::Zeros(words),
    };
    assert_eq!(
        calls,
        vec![
            NativeCall::SetRenderPipeline(RenderPipelineId(3)),
            clear(4, 64),
            clear(260, 64),
            clear(516, 64),
            clear(772, 64),
        ]
    );
}

#[test]
fn push_constants_with_values_refer_to_the_blob() {
    let mut e = encoder();
    e.set_pipeline(RenderPipelineId(2));
    e.set_push_constants(stages(STAGE_VERTEX), 0, 4, &[1, 2, 3, 4]);
    e.set_push_constants(stages(STAGE_VERTEX), 8, 12, &[0; 12]);
    let bundle = compile(e, None);
    let (calls, result) = run(&bundle, &tables());
    assert_eq!(result, Ok(()));
    assert_eq!(calls.len(), 5);
    assert_eq!(
        calls[3],
        NativeCall::SetPushConstants {
            layout: PipelineLayoutId(0),
            stages: stages(STAGE_VERTEX),
            offset: 0,
            data: PushConstantData::Values { start: 0, end: 1 },
        }
    );
    assert_eq!(
        calls[4],
        NativeCall::SetPushConstants {
            layout: PipelineLayoutId(0),
            stages: stages(STAGE_VERTEX),
            offset: 8,
            data: PushConstantData::Values { start: 1, end: 4 },
        }
    );
}

#[test]
fn commands_that_cannot_be_replayed_stop_the_replay() {
    let refused = [
        (
            RenderCommand::MultiDrawIndirect {
                buffer_id: BufferId(0),
                offset: 0,
                count: Some(2),
                indexed: false,
            },
            "multi-draw-indirect",
        ),
        (
            RenderCommand::MultiDrawIndirectCount {
                buffer_id: BufferId(0),
                offset: 0,
                count_buffer_id: BufferId(1),
                count_buffer_offset: 0,
                max_count: 4,
                indexed: true,
            },
            "multi-draw-indirect",
        ),
        (RenderCommand::PushDebugGroup { color: 0, len: 3 }, "debug-markers"),
        (RenderCommand::InsertDebugMarker { color: 0, len: 3 }, "debug-markers"),
        (RenderCommand::PopDebugGroup, "debug-markers"),
        (RenderCommand::WriteTimestamp { query_set_id: QuerySetId(0), query_index: 0 }, "queries"),
        (
            RenderCommand::BeginPipelineStatisticsQuery { query_set_id: QuerySetId(0), query_index: 0 },
            "queries",
        ),
        (RenderCommand::EndPipelineStatisticsQuery, "queries"),
        (RenderCommand::ExecuteBundle(RenderBundleId(0)), "pass-only-commands"),
        (RenderCommand::SetBlendConstant { r: 0, g: 0, b: 0, a: 0 }, "pass-only-commands"),
        (RenderCommand::SetStencilReference(1), "pass-only-commands"),
        (
            RenderCommand::SetViewport { x: 0, y: 0, w: 0, h: 0, depth_min: 0, depth_max: 0 },
            "pass-only-commands",
        ),
        (RenderCommand::SetScissor { x: 0, y: 0, w: 1, h: 1 }, "pass-only-commands"),
    ];
    let draw =
        RenderCommand::Draw { vertex_count: 3, instance_count: 1, first_vertex: 0, first_instance: 0 };
    for (command, reason) in refused {
        let (calls, result) = run_stream(vec![draw, command, draw], vec![]);
        assert_eq!(result, Err(ExecutionError::Unimplemented(reason)));
        assert_eq!(
            calls,
            vec![NativeCall::Draw {
                first_vertex: 0,
                vertex_count: 3,
                first_instance: 0,
                instance_count: 1
            }]
        );
    }
}

#[test]
fn commands_that_need_a_layout_make_no_call_before_a_pipeline() {
    let group = RenderCommand::SetBindGroup {
        index: 1,
        num_dynamic_offsets: 2,
        bind_group_id: BindGroupId(1),
    };
    let push = RenderCommand::SetPushConstant {
        stages: stages(STAGE_VERTEX),
        offset: 0,
        size_bytes: 8,
        values_offset: Some(2),
    };
    let (calls, result) = run_stream(
        vec![group, push, RenderCommand::SetPipeline(RenderPipelineId(2)), group, push],
        vec![1, 2, 3, 4],
    );
    assert_eq!(result, Ok(()));
    assert_eq!(
        calls,
        vec![
            NativeCall::SetRenderPipeline(RenderPipelineId(2)),
            NativeCall::SetBindGroup {
                layout: PipelineLayoutId(0),
                index: 1,
                group: BindGroupId(1),
                offsets: OffsetRange { start: 2, end: 4 },
            },
            NativeCall::SetPushConstants {
                layout: PipelineLayoutId(0),
                stages: stages(STAGE_VERTEX),
                offset: 0,
                data: PushConstantData::Values { start: 2, end: 4 },
            },
        ]
    );
}

#[test]
fn stream_does_not_resolve_without_its_pipeline() {
    let t = tables();
    assert!(check_pipelines_resolve(&vec![RenderCommand::SetPipeline(RenderPipelineId(3))], &t));
    assert!(!check_pipelines_resolve(&vec![RenderCommand::SetPipeline(RenderPipelineId(1))], &t));
    assert!(!check_pipelines_resolve(&vec![RenderCommand::SetPipeline(RenderPipelineId(4))], &t));
    assert!(check_pipelines_resolve(&vec![RenderCommand::PopDebugGroup], &t));
}

fn busy_pass() -> PassBindings {
    let mut pass = PassBindings::new(16, 8);
    assert_eq!(pass.vertex_buffers, vec![None; 16]);
    assert_eq!(pass.bind_groups, vec![None; 8]);
    assert_eq!(pass.pipeline, None);
    assert_eq!(pass.index_buffer, None);
    pass.pipeline = Some(RenderPipelineId(2));
    pass.index_buffer = Some(BufferId(1));
    pass.vertex_buffers[3] = Some(BufferId(0));
    pass.bind_groups[0] = Some(BindGroupId(1));
    pass.bind_groups[7] = Some(BindGroupId(0));
    pass
}

#[test]
fn nothing_is_bound_in_the_pass_behind_a_bundle() {
    let tables = tables();
    for bundle in [compile(scene(), None), compile(encoder(), None)] {
        let mut pass = busy_pass();
        let mut raw = NativeEncoder::new();
        assert_eq!(bundle.execute_in_pass(&mut pass, &mut raw, &tables), Ok(()));
        assert_eq!(pass, PassBindings::new(16, 8));
        let mut same = NativeEncoder::new();
        bundle.execute(&mut same, &tables).unwrap();
        assert_eq!(raw.calls, same.calls);
    }
}

#[test]
fn nothing_is_bound_in_the_pass_behind_a_bundle_that_fails() {
    let mut t = tables();
    t.buffers.slots[0] = None;
    let bundle = compile(scene(), None);
    let mut pass = busy_pass();
    let mut raw = NativeEncoder::new();
    assert_eq!(
        bundle.execute_in_pass(&mut pass, &mut raw, &t),
        Err(ExecutionError::DestroyedBuffer(BufferId(0)))
    );
    assert_eq!(pass, PassBindings::new(16, 8));
    assert_eq!(raw.calls, vec![NativeCall::SetRenderPipeline(RenderPipelineId(0))]);
}

#[test]
fn pass_forgets_what_is_bound() {
    let mut pass = busy_pass();
    pass.reset_bundle();
    assert_eq!(pass, PassBindings::new(16, 8));
    let mut small = PassBindings::new(0, 2);
    small.bind_groups[1] = Some(BindGroupId(4));
    small.reset_bundle();
    assert_eq!(small, PassBindings::new(0, 2));
}
