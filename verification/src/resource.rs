//! What the compiler and the interpreter read of the resources of a device: the
//! tables of buffers, textures, bind groups, pipelines and layouts, by handle.

use vstd::prelude::*;
use crate::command::{ByteRange, IndexFormat, PushConstantRange, VertexStepMode, MAX_BIND_GROUPS};
use crate::context::RenderPassContext;
use crate::error::{MissingBufferUsageError, MissingDownlevelFlags};
use crate::flags::{BufferUsages, DownlevelFlags, PipelineFlags};
use crate::id::{BindGroupLayoutId, BufferId, DeviceId, PipelineLayoutId, TextureId};
use crate::track::BindGroupStates;

verus! {

/// The limits of a device that a bundle is checked against.
#[derive(Clone, Copy, Debug, PartialEq, Eq)]
pub struct Limits {
    pub max_bind_groups: u32,
    pub min_uniform_buffer_offset_alignment: u32,
    pub min_storage_buffer_offset_alignment: u32,
}

impl Limits {
    /// The device offers no more bind group slots than a backend can, and its
    /// alignments are not zero.
    pub open spec fn wf(&self) -> bool {
        &&& self.max_bind_groups <= MAX_BIND_GROUPS
        &&& self.min_uniform_buffer_offset_alignment > 0
        &&& self.min_storage_buffer_offset_alignment > 0
    }

    /// Decides `wf`.
    pub fn is_well_formed(&self) -> (r: bool)
        ensures
            r == self.wf(),
    {
        self.max_bind_groups as usize <= MAX_BIND_GROUPS
            && self.min_uniform_buffer_offset_alignment > 0
            && self.min_storage_buffer_offset_alignment > 0
    }
}

/// A device: its limits and the optional abilities of its backend.
#[derive(Clone, Copy, Debug, PartialEq, Eq)]
pub struct Device {
    pub limits: Limits,
    pub downlevel: DownlevelFlags,
}

impl Device {
    /// Checks that the backend has the abilities `flags`.
    pub fn require_downlevel_flags(&self, flags: u32) -> (r: Result<(), MissingDownlevelFlags>)
        ensures
            self.downlevel.contains(flags) ==> r is Ok,
            !self.downlevel.contains(flags) ==> r == Err::<(), MissingDownlevelFlags>(
                MissingDownlevelFlags(DownlevelFlags { bits: flags }),
            ),
    {
        if self.downlevel.contains(flags) {
            Ok(())
        } else {
            Err(MissingDownlevelFlags(DownlevelFlags { bits: flags }))
        }
    }
}

/// How a shader reads a buffer binding.
#[derive(Clone, Copy, Debug, PartialEq, Eq, Structural)]
pub enum BufferBindingType {
    Uniform,
    Storage { read_only: bool },
}

/// A binding of a bind group that takes a dynamic offset.
#[derive(Clone, Copy, Debug, PartialEq, Eq)]
pub struct BindGroupDynamicBindingData {
    pub binding_type: BufferBindingType,
}

/// The alignment that the offsets of a binding of this type must have.
pub open spec fn binding_alignment(limits: &Limits, binding_type: BufferBindingType) -> u32 {
    match binding_type {
        BufferBindingType::Uniform => limits.min_uniform_buffer_offset_alignment,
        BufferBindingType::Storage { .. } => limits.min_storage_buffer_offset_alignment,
    }
}

/// The name of the limit that governs the offsets of a binding of this type.
pub open spec fn binding_limit_name(binding_type: BufferBindingType) -> &'static str {
    match binding_type {
        BufferBindingType::Uniform => "min_uniform_buffer_offset_alignment",
        BufferBindingType::Storage { .. } => "min_storage_buffer_offset_alignment",
    }
}

/// The alignment that the offsets of a binding of this type must have, and the
/// name of the limit that it comes from.
pub fn buffer_binding_type_alignment(limits: &Limits, binding_type: BufferBindingType) -> (r: (
    u32,
    &'static str,
))
    ensures
        r.0 == binding_alignment(limits, binding_type),
        r.1 == binding_limit_name(binding_type),
{
    match binding_type {
        BufferBindingType::Uniform => (
            limits.min_uniform_buffer_offset_alignment,
            "min_uniform_buffer_offset_alignment",
        ),
        BufferBindingType::Storage { .. } => (
            limits.min_storage_buffer_offset_alignment,
            "min_storage_buffer_offset_alignment",
        ),
    }
}

/// Whether memory must hold defined values, or is given them by what uses it.
#[derive(Clone, Copy, Debug, PartialEq, Eq, Structural)]
pub enum MemoryInitKind {
    ImplicitlyInitialized,
    NeedsInitializedMemory,
}

/// A range of a buffer that must be initialized before a bundle is replayed.
#[derive(Clone, Copy, Debug, PartialEq, Eq)]
pub struct BufferInitTrackerAction {
    pub id: BufferId,
    pub range: ByteRange,
    pub kind: MemoryInitKind,
}

/// The mip levels and array layers of a texture that must be initialized before
/// a bundle is replayed.
#[derive(Clone, Copy, Debug, PartialEq, Eq)]
pub struct TextureInitTrackerAction {
    pub id: TextureId,
    pub mip_start: u32,
    pub mip_end: u32,
    pub layer_start: u32,
    pub layer_end: u32,
    pub kind: MemoryInitKind,
}

/// What is read of a buffer.
#[derive(Clone, Copy, Debug, PartialEq, Eq)]
pub struct Buffer {
    pub device_id: DeviceId,
    pub usage: BufferUsages,
    pub size: u64,
    /// Whether the native buffer is still there: it is gone once the buffer is destroyed.
    pub raw: bool,
}

/// What is read of a texture.
#[derive(Clone, Copy, Debug, PartialEq, Eq)]
pub struct Texture {
    pub device_id: DeviceId,
}

/// What is read of a query set.
#[derive(Clone, Copy, Debug, PartialEq, Eq)]
pub struct QuerySet {
    pub device_id: DeviceId,
}

/// What is read of a bind group.
#[derive(Clone, Debug, PartialEq, Eq)]
pub struct BindGroup {
    pub device_id: DeviceId,
    pub layout_id: BindGroupLayoutId,
    pub dynamic_binding_info: Vec<BindGroupDynamicBindingData>,
    pub used_buffer_ranges: Vec<BufferInitTrackerAction>,
    pub used_texture_ranges: Vec<TextureInitTrackerAction>,
    pub used: BindGroupStates,
}

/// What is read of a pipeline layout.
#[derive(Clone, Debug, PartialEq, Eq)]
pub struct PipelineLayout {
    pub device_id: DeviceId,
    pub bind_group_layout_ids: Vec<BindGroupLayoutId>,
    pub push_constant_ranges: Vec<PushConstantRange>,
}

impl PipelineLayout {
    /// The layout has no more bind group slots than a backend offers.
    pub open spec fn wf(&self) -> bool {
        self.bind_group_layout_ids@.len() <= MAX_BIND_GROUPS
    }

    /// Decides `wf`.
    pub fn is_well_formed(&self) -> (r: bool)
        ensures
            r == self.wf(),
    {
        self.bind_group_layout_ids.len() <= MAX_BIND_GROUPS
    }
}

/// What is read of a render pipeline.
#[derive(Clone, Debug, PartialEq, Eq)]
pub struct RenderPipeline {
    pub device_id: DeviceId,
    pub layout_id: PipelineLayoutId,
    pub pass_context: RenderPassContext,
    pub flags: PipelineFlags,
    pub strip_index_format: Option<IndexFormat>,
    /// For each vertex buffer slot that the pipeline reads, in order from slot 0:
    /// the stride of the buffer and how it advances.
    pub vertex_strides: Vec<(u64, VertexStepMode)>,
}

/// A table of resources of one kind. A handle is an index into it; a slot is
/// empty where no resource has that handle.
#[derive(Clone, Debug, PartialEq, Eq)]
pub struct Storage<T> {
    pub slots: Vec<Option<T>>,
}

impl<T> Storage<T> {
    /// The resource with the handle, if there is one.
    pub open spec fn lookup(&self, id: u64) -> Option<T> {
        if id < self.slots@.len() {
            self.slots@[id as int]
        } else {
            None
        }
    }

    /// The resource with the handle, if there is one.
    pub fn get(&self, id: u64) -> (r: Option<&T>)
        ensures
            r is Some <==> self.lookup(id) is Some,
            r matches Some(t) ==> self.lookup(id) == Some(*t),
    {
        if id >= self.slots.len() as u64 {
            return None;
        }
        self.slots[id as usize].as_ref()
    }
}

/// The tables of a device, as they stand during one compile or one replay.
#[derive(Clone, Debug, PartialEq, Eq)]
pub struct ResourceTables {
    pub buffers: Storage<Buffer>,
    pub textures: Storage<Texture>,
    pub bind_groups: Storage<BindGroup>,
    pub render_pipelines: Storage<RenderPipeline>,
    pub pipeline_layouts: Storage<PipelineLayout>,
    pub query_sets: Storage<QuerySet>,
}

impl ResourceTables {
    /// The layout of every pipeline is in the table of layouts, and every layout
    /// is well formed.
    pub open spec fn wf(&self) -> bool {
        &&& forall|id: u64| #[trigger]
            self.render_pipelines.lookup(id) matches Some(p) ==> self.pipeline_layouts.lookup(
                p.layout_id.0,
            ) is Some
        &&& forall|id: u64| #[trigger]
            self.pipeline_layouts.lookup(id) matches Some(l) ==> l.wf()
    }

    /// Decides `wf`.
    pub fn is_well_formed(&self) -> (r: bool)
        ensures
            r == self.wf(),
    {
        let mut i: usize = 0;
        while i < self.render_pipelines.slots.len()
            invariant
                i <= self.render_pipelines.slots@.len(),
                forall|id: u64|
                    id < i ==> (#[trigger] self.render_pipelines.lookup(id) matches Some(p)
                        ==> self.pipeline_layouts.lookup(p.layout_id.0) is Some),
            decreases self.render_pipelines.slots@.len() - i,
        {
            match &self.render_pipelines.slots[i] {
                Some(p) => {
                    if self.pipeline_layouts.get(p.layout_id.0).is_none() {
                        assert(self.render_pipelines.lookup(i as u64) == Some(*p));
                        return false;
                    }
                },
                None => {},
            }
            i += 1;
        }
        let mut k: usize = 0;
        while k < self.pipeline_layouts.slots.len()
            invariant
                k <= self.pipeline_layouts.slots@.len(),
                forall|id: u64|
                    id < k ==> (#[trigger] self.pipeline_layouts.lookup(id) matches Some(l)
                        ==> l.wf()),
            decreases self.pipeline_layouts.slots@.len() - k,
        {
            match &self.pipeline_layouts.slots[k] {
                Some(l) => {
                    if !l.is_well_formed() {
                        assert(self.pipeline_layouts.lookup(k as u64) == Some(*l));
                        return false;
                    }
                },
                None => {},
            }
            k += 1;
        }
        true
    }
}

/// What `check_buffer_usage` returns.
pub open spec fn buffer_usage_check(actual: BufferUsages, expected: BufferUsages) -> Result<
    (),
    MissingBufferUsageError,
> {
    if actual.contains(expected) {
        Ok(())
    } else {
        Err(MissingBufferUsageError { actual, expected })
    }
}

/// Checks that a buffer was created for the usages `expected`.
pub fn check_buffer_usage(actual: BufferUsages, expected: BufferUsages) -> (r: Result<
    (),
    MissingBufferUsageError,
>)
    ensures
        r == buffer_usage_check(actual, expected),
{
    if actual.contains(expected) {
        Ok(())
    } else {
        Err(MissingBufferUsageError { actual, expected })
    }
}

} // verus!
