use render_bundle::command::{BasePass, IndexFormat, RenderCommand};
use render_bundle::encoder::{
    depth_stencil_read_only, is_power_of_two_u32, BindGroupStateChange, RenderBundleDepthStencil,
    RenderBundleEncoder, RenderBundleEncoderDescriptor, StateChange,
};
use render_bundle::error::CreateRenderBundleError;
use render_bundle::flags::{ShaderStages, STAGE_FRAGMENT, STAGE_VERTEX};
use render_bundle::id::{BindGroupId, BufferId, DeviceId, RenderPipelineId};
use wgpu_types::TextureFormat;

fn descriptor(sample_count: u32) -> RenderBundleEncoderDescriptor {
    RenderBundleEncoderDescriptor {
        label: Some(String::from("bundle")),
        color_formats: vec![TextureFormat::Rgba8Unorm, TextureFormat::Bgra8Unorm],
        depth_stencil: None,
        sample_count,
        multiview: Some(2),
    }
}

fn encoder() -> RenderBundleEncoder {
    RenderBundleEncoder::new(&descriptor(4), DeviceId(7), None).unwrap()
}

#[test]
fn new_encoder_takes_the_descriptor() {
    let e = encoder();
    assert_eq!(e.parent(), DeviceId(7));
    assert_eq!(e.parent_id, DeviceId(7));
    assert_eq!(e.base.label, Some(String::from("bundle")));
    assert!(e.base.commands.is_empty());
    assert!(e.base.dynamic_offsets.is_empty());
    assert!(e.base.push_constant_data.is_empty());
    assert_eq!(
        e.context.attachments.colors,
        vec![TextureFormat::Rgba8Unorm, TextureFormat::Bgra8Unorm]
    );
    assert!(e.context.attachments.resolves.is_empty());
    assert_eq!(e.context.attachments.depth_stencil, None);
    assert_eq!(e.context.sample_count, 4);
    assert_eq!(e.context.multiview, Some(2));
    assert!(!e.is_ds_read_only);
    assert_eq!(e.current_pipeline.last_state, None);
    assert_eq!(e.current_bind_groups.last_states.len(), 8);
    assert!(e.base.is_well_formed());
}

#[test]
fn new_encoder_keeps_a_given_stream() {
    let mut base = BasePass::new(&Some(String::from("given")));
    base.commands.push(RenderCommand::Draw {
        vertex_count: 3,
        instance_count: 1,
        first_vertex: 0,
        first_instance: 0,
    });
    let e = RenderBundleEncoder::new(&descriptor(1), DeviceId(7), Some(base.clone())).unwrap();
    assert_eq!(e.base, base);
}

#[test]
fn sample_counts_that_are_powers_of_two_up_to_32_are_valid() {
    for sc in [1u32, 2, 4, 8, 16, 32] {
        assert!(RenderBundleEncoder::new(&descriptor(sc), DeviceId(7), None).is_ok());
    }
}

#[test]
fn other_sample_counts_are_invalid() {
    for sc in [0u32, 3, 5, 6, 7, 12, 24, 31, 33, 64, 128, u32::MAX] {
        assert_eq!(
            RenderBundleEncoder::new(&descriptor(sc), DeviceId(7), None).unwrap_err(),
            CreateRenderBundleError::InvalidSampleCount(sc)
        );
    }
}

#[test]
fn more_than_eight_color_attachments_are_too_many() {
    let mut desc = descriptor(1);
    desc.color_formats = vec![TextureFormat::Rgba8Unorm; 8];
    assert!(RenderBundleEncoder::new(&desc, DeviceId(7), None).is_ok());
    desc.color_formats = vec![TextureFormat::Rgba8Unorm; 9];
    assert_eq!(
        RenderBundleEncoder::new(&desc, DeviceId(7), None).unwrap_err(),
        CreateRenderBundleError::TooManyColorAttachments
    );
    desc.sample_count = 3;
    assert_eq!(
        RenderBundleEncoder::new(&desc, DeviceId(7), None).unwrap_err(),
        CreateRenderBundleError::TooManyColorAttachments
    );
}

fn read_only(format: TextureFormat, depth_read_only: bool, stencil_read_only: bool) -> bool {
    let mut desc = descriptor(1);
    desc.depth_stencil =
        Some(RenderBundleDepthStencil { format, depth_read_only, stencil_read_only });
    let e = RenderBundleEncoder::new(&desc, DeviceId(7), None).unwrap();
    assert_eq!(e.context.attachments.depth_stencil, Some(format));
    e.is_ds_read_only
}

#[test]
fn depth_stencil_is_read_only_when_each_aspect_of_the_format_is() {
    assert!(read_only(TextureFormat::Depth32Float, true, false));
    assert!(!read_only(TextureFormat::Depth32Float, false, true));
    assert!(read_only(TextureFormat::Stencil8, false, true));
    assert!(!read_only(TextureFormat::Stencil8, true, false));
    assert!(read_only(TextureFormat::Depth24PlusStencil8, true, true));
    assert!(!read_only(TextureFormat::Depth24PlusStencil8, true, false));
    assert!(!read_only(TextureFormat::Depth24PlusStencil8, false, true));
    assert!(read_only(TextureFormat::Rgba8Unorm, false, false));
}

#[test]
fn read_only_rule_by_aspects() {
    assert!(depth_stencil_read_only(false, false, false, false));
    assert!(depth_stencil_read_only(true, true, false, false));
    assert!(!depth_stencil_read_only(true, false, false, true));
    assert!(depth_stencil_read_only(false, false, true, true));
    assert!(!depth_stencil_read_only(true, true, true, false));
    assert!(depth_stencil_read_only(true, true, true, true));
}

#[test]
fn power_of_two() {
    assert!(!is_power_of_two_u32(0));
    assert!(is_power_of_two_u32(1));
    assert!(is_power_of_two_u32(2));
    assert!(!is_power_of_two_u32(3));
    assert!(is_power_of_two_u32(1 << 31));
    assert!(!is_power_of_two_u32(u32::MAX));
}

#[test]
fn dummy_encoder_stands_for_no_attachments() {
    let e = RenderBundleEncoder::dummy(DeviceId(9));
    assert_eq!(e.parent(), DeviceId(9));
    assert_eq!(e.base.label, None);
    assert!(e.base.commands.is_empty());
    assert!(e.context.attachments.colors.is_empty());
    assert_eq!(e.context.attachments.depth_stencil, None);
    assert_eq!(e.context.sample_count, 0);
    assert_eq!(e.context.multiview, None);
    assert!(!e.is_ds_read_only);
}

#[test]
fn pipeline_recorded_twice_in_a_row_is_recorded_once() {
    let mut e = encoder();
    e.set_pipeline(RenderPipelineId(5));
    e.set_pipeline(RenderPipelineId(5));
    assert_eq!(e.base.commands, vec![RenderCommand::SetPipeline(RenderPipelineId(5))]);
    e.set_pipeline(RenderPipelineId(6));
    e.set_pipeline(RenderPipelineId(5));
    assert_eq!(
        e.base.commands,
        vec![
            RenderCommand::SetPipeline(RenderPipelineId(5)),
            RenderCommand::SetPipeline(RenderPipelineId(6)),
            RenderCommand::SetPipeline(RenderPipelineId(5)),
        ]
    );
}

#[test]
fn bind_group_recorded_twice_in_a_row_without_offsets_is_recorded_once() {
    let mut e = encoder();
    e.set_bind_group(0, BindGroupId(3), &[]);
    e.set_bind_group(0, BindGroupId(3), &[]);
    assert_eq!(
        e.base.commands,
        vec![RenderCommand::SetBindGroup {
            index: 0,
            num_dynamic_offsets: 0,
            bind_group_id: BindGroupId(3)
        }]
    );
    e.set_bind_group(1, BindGroupId(3), &[]);
    assert_eq!(e.base.commands.len(), 2);
}

#[test]
fn bind_group_with_dynamic_offsets_is_always_recorded() {
    let mut e = encoder();
    e.set_bind_group(2, BindGroupId(3), &[256, 512]);
    e.set_bind_group(2, BindGroupId(3), &[256, 512]);
    let set = RenderCommand::SetBindGroup {
        index: 2,
        num_dynamic_offsets: 2,
        bind_group_id: BindGroupId(3),
    };
    assert_eq!(e.base.commands, vec![set, set]);
    assert_eq!(e.base.dynamic_offsets, vec![256, 512, 256, 512]);
    e.set_bind_group(2, BindGroupId(3), &[]);
    assert_eq!(e.base.commands.len(), 3);
    assert!(e.base.is_well_formed());
}

#[test]
fn bind_group_in_a_slot_beyond_the_backend_is_always_recorded() {
    let mut e = encoder();
    e.set_bind_group(8, BindGroupId(3), &[]);
    e.set_bind_group(8, BindGroupId(3), &[]);
    assert_eq!(e.base.commands.len(), 2);
    e.set_bind_group(255, BindGroupId(3), &[]);
    assert_eq!(
        e.base.commands[2],
        RenderCommand::SetBindGroup {
            index: 255,
            num_dynamic_offsets: 0,
            bind_group_id: BindGroupId(3)
        }
    );
}

#[test]
fn state_change_tells_what_was_set_last() {
    let mut s = StateChange::new();
    assert!(!s.set_and_check_redundant(4));
    assert!(s.set_and_check_redundant(4));
    assert!(!s.set_and_check_redundant(5));
    s.reset();
    assert_eq!(s.last_state, None);
    assert!(!s.set_and_check_redundant(5));
}

#[test]
fn bind_group_state_change_forgets_a_slot_set_with_offsets() {
    let mut s = BindGroupStateChange::new();
    let mut offsets = vec![1u32];
    assert!(!s.set_and_check_redundant(BindGroupId(1), 0, &mut offsets, &[]));
    assert!(s.set_and_check_redundant(BindGroupId(1), 0, &mut offsets, &[]));
    assert!(!s.set_and_check_redundant(BindGroupId(1), 0, &mut offsets, &[8, 9]));
    assert_eq!(offsets, vec![1, 8, 9]);
    assert_eq!(s.last_states[0].last_state, None);
    assert!(!s.set_and_check_redundant(BindGroupId(1), 0, &mut offsets, &[]));
    assert!(!s.set_and_check_redundant(BindGroupId(1), 9, &mut offsets, &[]));
    assert!(!s.set_and_check_redundant(BindGroupId(1), 9, &mut offsets, &[]));
}

#[test]
fn buffers_and_draws_are_recorded_as_given() {
    let mut e = encoder();
    e.set_vertex_buffer(3, BufferId(1), 16, Some(64));
    e.set_vertex_buffer(3, BufferId(1), 16, Some(64));
    e.set_index_buffer(BufferId(2), IndexFormat::Uint16, 8, None);
    e.draw(3, 2, 1, 0);
    e.draw_indexed(6, 1, 0, -4, 2);
    e.draw_indirect(BufferId(4), 32);
    e.draw_indexed_indirect(BufferId(4), 64);
    assert_eq!(
        e.base.commands,
        vec![
            RenderCommand::SetVertexBuffer { slot: 3, buffer_id: BufferId(1), offset: 16, size: Some(64) },
            RenderCommand::SetVertexBuffer { slot: 3, buffer_id: BufferId(1), offset: 16, size: Some(64) },
            RenderCommand::SetIndexBuffer {
                buffer_id: BufferId(2),
                index_format: IndexFormat::Uint16,
                offset: 8,
                size: None
            },
            RenderCommand::Draw { vertex_count: 3, instance_count: 2, first_vertex: 1, first_instance: 0 },
            RenderCommand::DrawIndexed {
                index_count: 6,
                instance_count: 1,
                first_index: 0,
                base_vertex: -4,
                first_instance: 2
            },
            RenderCommand::MultiDrawIndirect { buffer_id: BufferId(4), offset: 32, count: None, indexed: false },
            RenderCommand::MultiDrawIndirect { buffer_id: BufferId(4), offset: 64, count: None, indexed: true },
        ]
    );
    assert!(e.base.is_well_formed());
}

#[test]
fn push_constants_are_added_to_the_blob_as_words() {
    let mut e = encoder();
    let stages = ShaderStages::from_bits(STAGE_VERTEX | STAGE_FRAGMENT);
    e.set_push_constants(stages, 4, 8, &[1, 2, 3, 4, 0xff, 0, 0, 0x80]);
    e.set_push_constants(stages, 0, 4, &[9, 0, 0, 0]);
    e.set_push_constants(stages, 0, 0, &[]);
    assert_eq!(
        e.base.push_constant_data,
        vec![
            u32::from_ne_bytes([1, 2, 3, 4]),
            u32::from_ne_bytes([0xff, 0, 0, 0x80]),
            u32::from_ne_bytes([9, 0, 0, 0]),
        ]
    );
    assert_ne!(e.base.push_constant_data[0], 1);
    assert_eq!(
        e.base.commands,
        vec![
            RenderCommand::SetPushConstant { stages, offset: 4, size_bytes: 8, values_offset: Some(0) },
            RenderCommand::SetPushConstant { stages, offset: 0, size_bytes: 4, values_offset: Some(2) },
            RenderCommand::SetPushConstant { stages, offset: 0, size_bytes: 0, values_offset: Some(3) },
        ]
    );
    assert!(e.base.is_well_formed());
}

#[test]
fn stream_with_too_few_dynamic_offsets_is_not_well_formed() {
    let mut base = BasePass::new(&None);
    base.commands.push(RenderCommand::SetBindGroup {
        index: 0,
        num_dynamic_offsets: 2,
        bind_group_id: BindGroupId(0),
    });
    base.dynamic_offsets.push(0);
    assert!(!base.is_well_formed());
    base.dynamic_offsets.push(0);
    assert!(base.is_well_formed());
}

#[test]
fn stream_with_numbers_out_of_range_is_not_well_formed() {
    let mut base = BasePass::new(&None);
    base.commands.push(RenderCommand::SetVertexBuffer {
        slot: 0,
        buffer_id: BufferId(0),
        offset: u64::MAX,
        size: Some(1),
    });
    assert!(!base.is_well_formed());
    base.commands[0] =
        RenderCommand::SetVertexBuffer { slot: 0, buffer_id: BufferId(0), offset: 4, size: Some(0) };
    assert!(!base.is_well_formed());
    base.commands[0] = RenderCommand::SetPushConstant {
        stages: ShaderStages::none(),
        offset: 0,
        size_bytes: 8,
        values_offset: Some(0),
    };
    assert!(!base.is_well_formed());
    base.push_constant_data = vec![0, 0];
    assert!(base.is_well_formed());
    base.commands[0] = RenderCommand::SetPushConstant {
        stages: ShaderStages::none(),
        offset: u32::MAX,
        size_bytes: 4,
        values_offset: None,
    };
    assert!(!base.is_well_formed());
    base.commands[0] = RenderCommand::MultiDrawIndirect {
        buffer_id: BufferId(0),
        offset: u64::MAX - 15,
        count: None,
        indexed: false,
    };
    assert!(!base.is_well_formed());
}
