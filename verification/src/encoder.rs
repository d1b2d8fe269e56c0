//! The recorder: an encoder takes commands one at a time into a raw stream.

use vstd::prelude::*;
use wgpu_types::TextureFormat;
use crate::command::{
    lemma_wf_push, BasePass, IndexFormat, RenderCommand, MAX_BIND_GROUPS, MAX_COLOR_TARGETS,
    PUSH_CONSTANT_ALIGNMENT,
};
use crate::context::{clone_formats, AttachmentData, RenderPassContext};
use crate::error::CreateRenderBundleError;
use crate::flags::ShaderStages;
use crate::format::{format_has_depth, format_has_stencil, has_depth_aspect, has_stencil_aspect};
use crate::id::{BindGroupId, BufferId, DeviceId, RenderPipelineId};

verus! {

/// The depth-stencil attachment that a bundle is made for.
#[derive(Clone, Debug, PartialEq, Eq)]
pub struct RenderBundleDepthStencil {
    pub format: TextureFormat,
    /// The bundle does not write the depth aspect.
    pub depth_read_only: bool,
    /// The bundle does not write the stencil aspect.
    pub stencil_read_only: bool,
}

/// Describes an encoder: the attachments of the passes that its bundle can be replayed in.
#[derive(Clone, Debug, PartialEq, Eq)]
pub struct RenderBundleEncoderDescriptor {
    pub label: Option<String>,
    pub color_formats: Vec<TextureFormat>,
    pub depth_stencil: Option<RenderBundleDepthStencil>,
    pub sample_count: u32,
    pub multiview: Option<u32>,
}

/// Describes a bundle.
#[derive(Clone, Debug, PartialEq, Eq)]
pub struct RenderBundleDescriptor {
    pub label: Option<String>,
}

/// The value that was set last, to tell when it is set again.
#[derive(Clone, Copy, Debug, PartialEq, Eq)]
pub struct StateChange {
    pub last_state: Option<u64>,
}

impl StateChange {
    /// Nothing was set yet.
    pub fn new() -> (r: Self)
        ensures
            r.last_state is None,
    {
        StateChange { last_state: None }
    }

    /// Takes `new_state` as the value set last, and tells whether it was that before.
    pub fn set_and_check_redundant(&mut self, new_state: u64) -> (r: bool)
        ensures
            r == (old(self).last_state == Some(new_state)),
            final(self).last_state == Some(new_state),
    {
        let already_set = match self.last_state {
            Some(s) => s == new_state,
            None => false,
        };
        self.last_state = Some(new_state);
        already_set
    }

    /// Forgets what was set.
    pub fn reset(&mut self)
        ensures
            final(self).last_state is None,
    {
        self.last_state = None;
    }
}

/// The bind group that was set last in each slot.
#[derive(Clone, Debug, PartialEq, Eq)]
pub struct BindGroupStateChange {
    pub last_states: Vec<StateChange>,
}

/// The bind groups set last, by slot, after one more is set. Without dynamic
/// offsets the slot remembers the bind group; with them it forgets what it held.
/// A slot beyond those that a backend offers is not remembered.
pub open spec fn bind_groups_after(
    last: Seq<StateChange>,
    bind_group_id: BindGroupId,
    index: u32,
    offsets: nat,
) -> Seq<StateChange> {
    if index < last.len() {
        if offsets == 0 {
            last.update(index as int, StateChange { last_state: Some(bind_group_id.0) })
        } else {
            last.update(index as int, StateChange { last_state: None })
        }
    } else {
        last
    }
}

/// Whether setting the bind group again changes nothing: it has no dynamic
/// offsets and the slot holds it.
pub open spec fn bind_group_redundant(
    last: Seq<StateChange>,
    bind_group_id: BindGroupId,
    index: u32,
    offsets: nat,
) -> bool {
    offsets == 0 && index < last.len() && last[index as int].last_state == Some(bind_group_id.0)
}

/// The recorded commands after a bind group is set with `offsets` dynamic
/// offsets: one more command, unless setting it changes nothing.
pub open spec fn bind_group_recorded(
    commands: Seq<RenderCommand>,
    last: Seq<StateChange>,
    bind_group_id: BindGroupId,
    index: u32,
    offsets: nat,
) -> Seq<RenderCommand> {
    if bind_group_redundant(last, bind_group_id, index, offsets) {
        commands
    } else {
        commands.push(
            RenderCommand::SetBindGroup {
                index: index as u8,
                num_dynamic_offsets: offsets as u8,
                bind_group_id,
            },
        )
    }
}

/// The recorded commands after a pipeline is set: one more command, unless it
/// is the pipeline that was set last.
pub open spec fn pipeline_recorded(
    commands: Seq<RenderCommand>,
    last: Option<u64>,
    pipeline_id: RenderPipelineId,
) -> Seq<RenderCommand> {
    if last == Some(pipeline_id.0) {
        commands
    } else {
        commands.push(RenderCommand::SetPipeline(pipeline_id))
    }
}

impl BindGroupStateChange {
    /// Nothing was set yet in any slot.
    pub fn new() -> (r: Self)
        ensures
            r.last_states@.len() == MAX_BIND_GROUPS,
            forall|i: int| 0 <= i < MAX_BIND_GROUPS ==> (#[trigger] r.last_states@[i]).last_state is None,
    {
        let mut last_states: Vec<StateChange> = Vec::new();
        let mut i: usize = 0;
        while i < MAX_BIND_GROUPS
            invariant
                i <= MAX_BIND_GROUPS,
                last_states@.len() == i,
                forall|j: int| 0 <= j < i ==> (#[trigger] last_states@[j]).last_state is None,
            decreases MAX_BIND_GROUPS - i,
        {
            last_states.push(StateChange::new());
            i += 1;
        }
        BindGroupStateChange { last_states }
    }

    /// Takes the bind group as the one set last in slot `index`, adds its dynamic
    /// offsets to `dynamic_offsets`, and tells whether setting it changes nothing.
    pub fn set_and_check_redundant(
        &mut self,
        bind_group_id: BindGroupId,
        index: u32,
        dynamic_offsets: &mut Vec<u32>,
        offsets: &[u32],
    ) -> (r: bool)
        ensures
            r == bind_group_redundant(old(self).last_states@, bind_group_id, index, offsets@.len()),
            final(self).last_states@ == bind_groups_after(
                old(self).last_states@,
                bind_group_id,
                index,
                offsets@.len(),
            ),
            final(dynamic_offsets)@ == old(dynamic_offsets)@ + offsets@,
    {
        if offsets.len() == 0 {
            proof {
                assert(old(dynamic_offsets)@ + offsets@ =~= old(dynamic_offsets)@);
            }
            if (index as usize) < self.last_states.len() {
                let mut current = self.last_states[index as usize];
                let redundant = current.set_and_check_redundant(bind_group_id.0);
                self.last_states[index as usize] = current;
                if redundant {
                    return true;
                }
            }
        } else {
            if (index as usize) < self.last_states.len() {
                let mut current = self.last_states[index as usize];
                current.reset();
                self.last_states[index as usize] = current;
            }
            extend_from_slice(dynamic_offsets, offsets);
        }
        false
    }
}

/// Adds the entries of a slice at the end of a list.
pub fn extend_from_slice<T: Copy>(list: &mut Vec<T>, added: &[T])
    ensures
        final(list)@ == old(list)@ + added@,
{
    let mut i: usize = 0;
    while i < added.len()
        invariant
            i <= added@.len(),
            list@ == old(list)@ + added@.take(i as int),
        decreases added@.len() - i,
    {
        list.push(added[i]);
        proof {
            assert(old(list)@ + added@.take(i as int + 1) =~= (old(list)@ + added@.take(
                i as int,
            )).push(added@[i as int]));
        }
        i += 1;
    }
    proof {
        assert(added@.take(i as int) =~= added@);
    }
}

/// Whether exactly one bit of the number is set.
pub open spec fn spec_is_power_of_two_u32(val: u32) -> bool {
    val != 0 && val & ((val - 1) as u32) == 0
}

/// Whether exactly one bit of the number is set.
#[verifier::when_used_as_spec(spec_is_power_of_two_u32)]
pub fn is_power_of_two_u32(val: u32) -> (r: bool)
    ensures
        r == spec_is_power_of_two_u32(val),
{
    val != 0 && val & (val - 1) == 0
}

/// A sample count is valid if it is 1, 2, 4, 8, 16 or 32.
pub open spec fn valid_sample_count(sc: u32) -> bool {
    sc == 1 || sc == 2 || sc == 4 || sc == 8 || sc == 16 || sc == 32
}

/// The valid sample counts are the powers of two from 1 to 32.
pub proof fn lemma_valid_sample_count(sc: u32)
    ensures
        valid_sample_count(sc) <==> !(sc == 0 || sc > 32 || !spec_is_power_of_two_u32(sc)),
{
    if sc != 0 {
        let low = (sc - 1) as u32;
        assert(low == sc - 1);
        assert((sc <= 32 && sc & low == 0) <==> (sc == 1 || sc == 2 || sc == 4 || sc == 8 || sc == 16
            || sc == 32)) by (bit_vector)
            requires
                sc != 0,
                low == sc - 1,
        ;
    }
}

/// Whether a bundle writes neither aspect of its depth-stencil attachment: each
/// aspect that the format has is held read-only.
pub open spec fn spec_depth_stencil_read_only(
    has_depth: bool,
    depth_read_only: bool,
    has_stencil: bool,
    stencil_read_only: bool,
) -> bool {
    (!has_depth || depth_read_only) && (!has_stencil || stencil_read_only)
}

/// Whether a bundle writes neither aspect of its depth-stencil attachment: each
/// aspect that the format has is held read-only.
#[verifier::when_used_as_spec(spec_depth_stencil_read_only)]
pub fn depth_stencil_read_only(
    has_depth: bool,
    depth_read_only: bool,
    has_stencil: bool,
    stencil_read_only: bool,
) -> (r: bool)
    ensures
        r == spec_depth_stencil_read_only(has_depth, depth_read_only, has_stencil, stencil_read_only),
{
    (!has_depth || depth_read_only) && (!has_stencil || stencil_read_only)
}

/// Whether an encoder with this depth-stencil attachment holds it read-only.
pub open spec fn is_read_only(depth_stencil: Option<RenderBundleDepthStencil>) -> bool {
    match depth_stencil {
        Some(ds) => spec_depth_stencil_read_only(
            has_depth_aspect(ds.format),
            ds.depth_read_only,
            has_stencil_aspect(ds.format),
            ds.stencil_read_only,
        ),
        None => false,
    }
}

/// One 32-bit word in the byte order of the machine; the least significant byte first.
pub open spec fn word_le(b0: u8, b1: u8, b2: u8, b3: u8) -> u32 {
    (b0 as u32) | (b1 as u32) << 8 | (b2 as u32) << 16 | (b3 as u32) << 24
}

/// Calls `u32::from_ne_bytes`, which reads the four bytes in the byte order of
/// the machine: the result is the word with the first byte least significant, or
/// the word with the first byte most significant.
#[verifier::external_body]
fn word_from_ne_bytes(b0: u8, b1: u8, b2: u8, b3: u8) -> (r: u32)
    ensures
        r == word_le(b0, b1, b2, b3) || r == word_le(b3, b2, b1, b0),
{
    u32::from_ne_bytes([b0, b1, b2, b3])
}

/// `words` holds the bytes of `data`, four to a word, each word in one of the
/// two byte orders.
pub open spec fn words_of(words: Seq<u32>, data: Seq<u8>) -> bool {
    &&& words.len() * 4 == data.len()
    &&& forall|k: int|
        0 <= k < words.len() ==> {
            let w = #[trigger] words[k];
            ||| w == word_le(data[4 * k], data[4 * k + 1], data[4 * k + 2], data[4 * k + 3])
            ||| w == word_le(data[4 * k + 3], data[4 * k + 2], data[4 * k + 1], data[4 * k])
        }
}

/// An encoder: the stream recorded so far, the device and the attachments that
/// the bundle is made for, and what was set last, to leave out what is set again.
#[derive(Clone, Debug, PartialEq, Eq)]
pub struct RenderBundleEncoder {
    pub base: BasePass,
    pub parent_id: DeviceId,
    pub context: RenderPassContext,
    pub is_ds_read_only: bool,
    pub current_bind_groups: BindGroupStateChange,
    pub current_pipeline: StateChange,
}

impl RenderBundleEncoder {
    /// The encoder can be compiled: its stream is well formed.
    pub open spec fn wf(&self) -> bool {
        self.base.wf()
    }

    /// Creates an encoder for the device `parent_id`, with the stream `base` or
    /// an empty one. More color attachments than a backend offers are refused;
    /// then a sample count other than 1, 2, 4, 8, 16 or 32.
    pub fn new(desc: &RenderBundleEncoderDescriptor, parent_id: DeviceId, base: Option<BasePass>) -> (r:
        Result<Self, CreateRenderBundleError>)
        ensures
            desc.color_formats@.len() > MAX_COLOR_TARGETS ==> r == Err::<Self, CreateRenderBundleError>(
                CreateRenderBundleError::TooManyColorAttachments,
            ),
            desc.color_formats@.len() <= MAX_COLOR_TARGETS && !valid_sample_count(desc.sample_count)
                ==> r == Err::<Self, CreateRenderBundleError>(
                CreateRenderBundleError::InvalidSampleCount(desc.sample_count),
            ),
            desc.color_formats@.len() <= MAX_COLOR_TARGETS && valid_sample_count(desc.sample_count)
                ==> r is Ok && {
                let e = r.unwrap();
                &&& (base matches Some(b) ==> e.base == b)
                &&& (base is None ==> e.base.label == desc.label && e.base.commands@.len() == 0
                    && e.base.dynamic_offsets@.len() == 0 && e.base.string_data@.len() == 0
                    && e.base.push_constant_data@.len() == 0 && e.wf())
                &&& e.parent_id == parent_id
                &&& e.context.attachments.colors@ == desc.color_formats@
                &&& e.context.attachments.resolves@.len() == 0
                &&& e.context.attachments.depth_stencil == match desc.depth_stencil {
                    Some(ds) => Some(ds.format),
                    None => None,
                }
                &&& e.context.sample_count == desc.sample_count
                &&& e.context.multiview == desc.multiview
                &&& e.is_ds_read_only == is_read_only(desc.depth_stencil)
                &&& e.current_pipeline.last_state is None
                &&& e.current_bind_groups.last_states@.len() == MAX_BIND_GROUPS
                &&& forall|i: int|
                    0 <= i < MAX_BIND_GROUPS ==> (#[trigger] e.current_bind_groups.last_states@[i]).last_state is None
            },
    {
        if desc.color_formats.len() > MAX_COLOR_TARGETS {
            return Err(CreateRenderBundleError::TooManyColorAttachments);
        }
        let sc = desc.sample_count;
        proof {
            lemma_valid_sample_count(sc);
        }
        if sc == 0 || sc > 32 || !is_power_of_two_u32(sc) {
            return Err(CreateRenderBundleError::InvalidSampleCount(sc));
        }
        let base = match base {
            Some(b) => b,
            None => BasePass::new(&desc.label),
        };
        let depth_stencil = match &desc.depth_stencil {
            Some(ds) => Some(ds.format.clone()),
            None => None,
        };
        let is_ds_read_only = match &desc.depth_stencil {
            Some(ds) => depth_stencil_read_only(
                format_has_depth(&ds.format),
                ds.depth_read_only,
                format_has_stencil(&ds.format),
                ds.stencil_read_only,
            ),
            None => false,
        };
        Ok(
            RenderBundleEncoder {
                base,
                parent_id,
                context: RenderPassContext {
                    attachments: AttachmentData {
                        colors: clone_formats(&desc.color_formats),
                        resolves: Vec::new(),
                        depth_stencil,
                    },
                    sample_count: sc,
                    multiview: desc.multiview,
                },
                is_ds_read_only,
                current_bind_groups: BindGroupStateChange::new(),
                current_pipeline: StateChange::new(),
            },
        )
    }

    /// An encoder for the device `parent_id` that stands for no attachments.
    pub fn dummy(parent_id: DeviceId) -> (r: Self)
        ensures
            r.parent_id == parent_id,
            r.base.label is None,
            r.base.commands@.len() == 0,
            r.base.dynamic_offsets@.len() == 0,
            r.base.string_data@.len() == 0,
            r.base.push_constant_data@.len() == 0,
            r.wf(),
            r.context.attachments.colors@.len() == 0,
            r.context.attachments.resolves@.len() == 0,
            r.context.attachments.depth_stencil is None,
            r.context.sample_count == 0,
            r.context.multiview is None,
            !r.is_ds_read_only,
            r.current_pipeline.last_state is None,
            r.current_bind_groups.last_states@.len() == MAX_BIND_GROUPS,
            forall|i: int|
                0 <= i < MAX_BIND_GROUPS ==> (#[trigger] r.current_bind_groups.last_states@[i]).last_state is None,
    {
        RenderBundleEncoder {
            base: BasePass::new(&None),
            parent_id,
            context: RenderPassContext {
                attachments: AttachmentData {
                    colors: Vec::new(),
                    resolves: Vec::new(),
                    depth_stencil: None,
                },
                sample_count: 0,
                multiview: None,
            },
            is_ds_read_only: false,
            current_bind_groups: BindGroupStateChange::new(),
            current_pipeline: StateChange::new(),
        }
    }

    /// The device that the encoder was created for.
    pub fn parent(&self) -> (r: DeviceId)
        ensures
            r == self.parent_id,
    {
        self.parent_id
    }

    /// Records that a bind group is set in slot `index` with the given dynamic
    /// offsets. Nothing is recorded where it has no dynamic offsets and the slot
    /// was last set to this bind group.
    pub fn set_bind_group(&mut self, index: u32, bind_group_id: BindGroupId, offsets: &[u32])
        requires
            index <= u8::MAX,
            offsets@.len() <= u8::MAX,
        ensures
            final(self).base.dynamic_offsets@ == old(self).base.dynamic_offsets@ + offsets@,
            final(self).base.commands@ == bind_group_recorded(
                old(self).base.commands@,
                old(self).current_bind_groups.last_states@,
                bind_group_id,
                index,
                offsets@.len(),
            ),
            final(self).current_bind_groups.last_states@ == bind_groups_after(
                old(self).current_bind_groups.last_states@,
                bind_group_id,
                index,
                offsets@.len(),
            ),
            final(self).base.label == old(self).base.label,
            final(self).base.string_data == old(self).base.string_data,
            final(self).base.push_constant_data == old(self).base.push_constant_data,
            final(self).parent_id == old(self).parent_id,
            final(self).context == old(self).context,
            final(self).is_ds_read_only == old(self).is_ds_read_only,
            final(self).current_pipeline == old(self).current_pipeline,
            old(self).wf() ==> final(self).wf(),
    {
        let redundant = self.current_bind_groups.set_and_check_redundant(
            bind_group_id,
            index,
            &mut self.base.dynamic_offsets,
            offsets,
        );
        if redundant {
            return ;
        }
        self.base.commands.push(
            RenderCommand::SetBindGroup {
                index: index as u8,
                num_dynamic_offsets: offsets.len() as u8,
                bind_group_id,
            },
        );
        proof {
            if old(self).wf() {
                lemma_wf_push(
                    &old(self).base,
                    &self.base,
                    RenderCommand::SetBindGroup {
                        index: index as u8,
                        num_dynamic_offsets: offsets@.len() as u8,
                        bind_group_id,
                    },
                );
            }
        }
    }

    /// Records that a pipeline is set, unless it is the pipeline that was set last.
    pub fn set_pipeline(&mut self, pipeline_id: RenderPipelineId)
        ensures
            final(self).base.commands@ == pipeline_recorded(
                old(self).base.commands@,
                old(self).current_pipeline.last_state,
                pipeline_id,
            ),
            final(self).current_pipeline.last_state == Some(pipeline_id.0),
            final(self).base.dynamic_offsets == old(self).base.dynamic_offsets,
            final(self).base.label == old(self).base.label,
            final(self).base.string_data == old(self).base.string_data,
            final(self).base.push_constant_data == old(self).base.push_constant_data,
            final(self).parent_id == old(self).parent_id,
            final(self).context == old(self).context,
            final(self).is_ds_read_only == old(self).is_ds_read_only,
            final(self).current_bind_groups == old(self).current_bind_groups,
            old(self).wf() ==> final(self).wf(),
    {
        if self.current_pipeline.set_and_check_redundant(pipeline_id.0) {
            return ;
        }
        self.base.commands.push(RenderCommand::SetPipeline(pipeline_id));
        proof {
            if old(self).wf() {
                lemma_wf_push(&old(self).base, &self.base, RenderCommand::SetPipeline(pipeline_id));
            }
        }
    }

    /// The encoder after `command` is added to its stream, and nothing else
    /// changes: it is well formed if it was before and the command is in range.
    pub open spec fn recorded(&self, before: &Self, command: RenderCommand) -> bool {
        &&& self.base.commands@ == before.base.commands@.push(command)
        &&& (before.wf() && command.in_range(before.base.push_constant_data@.len()) ==> self.wf())
        &&& self.base.dynamic_offsets == before.base.dynamic_offsets
        &&& self.base.label == before.base.label
        &&& self.base.string_data == before.base.string_data
        &&& self.base.push_constant_data == before.base.push_constant_data
        &&& self.parent_id == before.parent_id
        &&& self.context == before.context
        &&& self.is_ds_read_only == before.is_ds_read_only
        &&& self.current_bind_groups == before.current_bind_groups
        &&& self.current_pipeline == before.current_pipeline
    }

    /// Records that a vertex buffer is set in `slot`: the buffer from `offset`
    /// on, `size` bytes of it or, without a size, the rest.
    pub fn set_vertex_buffer(&mut self, slot: u32, buffer_id: BufferId, offset: u64, size: Option<u64>)
        ensures
            final(self).recorded(
                old(self),
                RenderCommand::SetVertexBuffer { slot, buffer_id, offset, size },
            ),
    {
        let command = RenderCommand::SetVertexBuffer { slot, buffer_id, offset, size };
        self.base.commands.push(command);
        proof {
            if old(self).wf() && command.in_range(old(self).base.push_constant_data@.len()) {
                lemma_wf_push(&old(self).base, &self.base, command);
            }
        }
    }

    /// Records that an index buffer is set: the buffer from `offset` on, `size`
    /// bytes of it or, without a size, the rest.
    pub fn set_index_buffer(
        &mut self,
        buffer_id: BufferId,
        index_format: IndexFormat,
        offset: u64,
        size: Option<u64>,
    )
        ensures
            final(self).recorded(
                old(self),
                RenderCommand::SetIndexBuffer { buffer_id, index_format, offset, size },
            ),
    {
        let command = RenderCommand::SetIndexBuffer { buffer_id, index_format, offset, size };
        self.base.commands.push(command);
        proof {
            if old(self).wf() && command.in_range(old(self).base.push_constant_data@.len()) {
                lemma_wf_push(&old(self).base, &self.base, command);
            }
        }
    }

    /// Records that `size_bytes` bytes of push constants are set at `offset` for
    /// the stages `stages`, to the values `data`, which are added to the payload
    /// blob as words.
    pub fn set_push_constants(&mut self, stages: ShaderStages, offset: u32, size_bytes: u32, data: &[u8])
        requires
            offset % PUSH_CONSTANT_ALIGNMENT == 0,
            size_bytes % PUSH_CONSTANT_ALIGNMENT == 0,
            data@.len() == size_bytes,
            old(self).base.push_constant_data@.len() <= u32::MAX,
        ensures
            final(self).base.commands@ == old(self).base.commands@.push(
                RenderCommand::SetPushConstant {
                    stages,
                    offset,
                    size_bytes,
                    values_offset: Some(old(self).base.push_constant_data@.len() as u32),
                },
            ),
            final(self).base.push_constant_data@.len() == old(self).base.push_constant_data@.len()
                + size_bytes / PUSH_CONSTANT_ALIGNMENT,
            final(self).base.push_constant_data@.take(
                old(self).base.push_constant_data@.len() as int,
            ) == old(self).base.push_constant_data@,
            words_of(
                final(self).base.push_constant_data@.skip(
                    old(self).base.push_constant_data@.len() as int,
                ),
                data@,
            ),
            final(self).base.dynamic_offsets == old(self).base.dynamic_offsets,
            final(self).base.label == old(self).base.label,
            final(self).base.string_data == old(self).base.string_data,
            final(self).parent_id == old(self).parent_id,
            final(self).context == old(self).context,
            final(self).is_ds_read_only == old(self).is_ds_read_only,
            final(self).current_bind_groups == old(self).current_bind_groups,
            final(self).current_pipeline == old(self).current_pipeline,
            old(self).wf() && offset + size_bytes <= u32::MAX ==> final(self).wf(),
    {
        let value_offset: u32 = self.base.push_constant_data.len() as u32;
        let ghost before = self.base.push_constant_data@;
        let mut i: usize = 0;
        while i < data.len()
            invariant
                i % 4 == 0,
                i <= data@.len(),
                data@.len() == size_bytes,
                size_bytes % 4 == 0,
                self.base.push_constant_data@.len() == before.len() + i / 4,
                self.base.push_constant_data@.take(before.len() as int) == before,
                words_of(self.base.push_constant_data@.skip(before.len() as int), data@.take(i as int)),
                self.base.commands == old(self).base.commands,
                self.base.dynamic_offsets == old(self).base.dynamic_offsets,
                self.base.label == old(self).base.label,
                self.base.string_data == old(self).base.string_data,
                self.parent_id == old(self).parent_id,
                self.context == old(self).context,
                self.is_ds_read_only == old(self).is_ds_read_only,
                self.current_bind_groups == old(self).current_bind_groups,
                self.current_pipeline == old(self).current_pipeline,
            decreases data@.len() - i,
        {
            let word = word_from_ne_bytes(data[i], data[i + 1], data[i + 2], data[i + 3]);
            let ghost words_before = self.base.push_constant_data@.skip(before.len() as int);
            self.base.push_constant_data.push(word);
            proof {
                let words = self.base.push_constant_data@.skip(before.len() as int);
                assert(words =~= words_before.push(word));
                assert(self.base.push_constant_data@.take(before.len() as int) =~= before);
                let part = data@.take(i as int + 4);
                assert forall|k: int| 0 <= k < words.len() implies {
                    let w = #[trigger] words[k];
                    ||| w == word_le(part[4 * k], part[4 * k + 1], part[4 * k + 2], part[4 * k + 3])
                    ||| w == word_le(part[4 * k + 3], part[4 * k + 2], part[4 * k + 1], part[4 * k])
                } by {
                    if k < words_before.len() {
                        assert(words[k] == words_before[k]);
                        let prev = data@.take(i as int);
                        assert(prev[4 * k] == part[4 * k]);
                        assert(prev[4 * k + 1] == part[4 * k + 1]);
                        assert(prev[4 * k + 2] == part[4 * k + 2]);
                        assert(prev[4 * k + 3] == part[4 * k + 3]);
                    }
                }
            }
            i += 4;
        }
        proof {
            assert(data@.take(i as int) =~= data@);
        }
        self.base.commands.push(
            RenderCommand::SetPushConstant {
                stages,
                offset,
                size_bytes,
                values_offset: Some(value_offset),
            },
        );
        proof {
            if old(self).wf() && offset + size_bytes <= u32::MAX {
                lemma_wf_push(
                    &old(self).base,
                    &self.base,
                    RenderCommand::SetPushConstant {
                        stages,
                        offset,
                        size_bytes,
                        values_offset: Some(value_offset),
                    },
                );
            }
        }
    }

    /// Records a draw.
    pub fn draw(&mut self, vertex_count: u32, instance_count: u32, first_vertex: u32, first_instance: u32)
        ensures
            final(self).recorded(
                old(self),
                RenderCommand::Draw { vertex_count, instance_count, first_vertex, first_instance },
            ),
    {
        let command = RenderCommand::Draw { vertex_count, instance_count, first_vertex, first_instance };
        self.base.commands.push(command);
        proof {
            if old(self).wf() && command.in_range(old(self).base.push_constant_data@.len()) {
                lemma_wf_push(&old(self).base, &self.base, command);
            }
        }
    }

    /// Records an indexed draw.
    pub fn draw_indexed(
        &mut self,
        index_count: u32,
        instance_count: u32,
        first_index: u32,
        base_vertex: i32,
        first_instance: u32,
    )
        ensures
            final(self).recorded(
                old(self),
                RenderCommand::DrawIndexed {
                    index_count,
                    instance_count,
                    first_index,
                    base_vertex,
                    first_instance,
                },
            ),
    {
        let command = RenderCommand::DrawIndexed {
                index_count,
                instance_count,
                first_index,
                base_vertex,
                first_instance,
            };
        self.base.commands.push(command);
        proof {
            if old(self).wf() && command.in_range(old(self).base.push_constant_data@.len()) {
                lemma_wf_push(&old(self).base, &self.base, command);
            }
        }
    }

    /// Records a draw whose arguments lie in a buffer at `offset`.
    pub fn draw_indirect(&mut self, buffer_id: BufferId, offset: u64)
        ensures
            final(self).recorded(
                old(self),
                RenderCommand::MultiDrawIndirect { buffer_id, offset, count: None, indexed: false },
            ),
    {
        let command = RenderCommand::MultiDrawIndirect { buffer_id, offset, count: None, indexed: false };
        self.base.commands.push(command);
        proof {
            if old(self).wf() && command.in_range(old(self).base.push_constant_data@.len()) {
                lemma_wf_push(&old(self).base, &self.base, command);
            }
        }
    }

    /// Records an indexed draw whose arguments lie in a buffer at `offset`.
    pub fn draw_indexed_indirect(&mut self, buffer_id: BufferId, offset: u64)
        ensures
            final(self).recorded(
                old(self),
                RenderCommand::MultiDrawIndirect { buffer_id, offset, count: None, indexed: true },
            ),
    {
        let command = RenderCommand::MultiDrawIndirect { buffer_id, offset, count: None, indexed: true };
        self.base.commands.push(command);
        proof {
            if old(self).wf() && command.in_range(old(self).base.push_constant_data@.len()) {
                lemma_wf_push(&old(self).base, &self.base, command);
            }
        }
    }
}

} // verus!
