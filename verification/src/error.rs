//! The errors of creating, compiling and replaying a render bundle.

use vstd::prelude::*;
use wgpu_types::TextureFormat;
use crate::command::PushConstantRange;
use crate::flags::{BufferUsages, DownlevelFlags, ShaderStages};
use crate::id::{BindGroupId, BufferId, RenderPipelineId, TextureId};

verus! {

/// Why no encoder was created.
#[derive(Clone, Copy, Debug, PartialEq, Eq)]
pub enum CreateRenderBundleError {
    /// The sample count is zero, above 32, or no power of two.
    InvalidSampleCount(u32),
    /// There are more color attachments than a backend offers.
    TooManyColorAttachments,
}

/// Why a replay stopped.
#[derive(Clone, Copy, Debug, PartialEq, Eq)]
pub enum ExecutionError {
    /// The buffer has no native buffer any more.
    DestroyedBuffer(BufferId),
    /// A command of this kind cannot be replayed from a bundle.
    Unimplemented(&'static str),
}

/// The command at which compiling failed.
#[derive(Clone, Copy, Debug, PartialEq, Eq)]
pub enum PassErrorScope {
    Bundle,
    SetBindGroup(BindGroupId),
    SetPipelineRender(RenderPipelineId),
    SetPushConstant,
    SetVertexBuffer(BufferId),
    SetIndexBuffer(BufferId),
    SetViewport,
    SetScissorRect,
    SetBlendConstant,
    SetStencilReference,
    Draw { indexed: bool, indirect: bool, pipeline: Option<RenderPipelineId> },
    WriteTimestamp,
    BeginPipelineStatisticsQuery,
    EndPipelineStatisticsQuery,
    ExecuteBundle,
    PushDebugGroup,
    PopDebugGroup,
    InsertDebugMarker,
}

/// What is wrong with a device.
#[derive(Clone, Copy, Debug, PartialEq, Eq)]
pub enum DeviceError {
    /// The device is not valid.
    Invalid,
}

/// How the attachments of a pipeline differ from those of the encoder.
#[derive(Clone, Copy, Debug, PartialEq, Eq)]
pub enum RenderPassCompatibilityError {
    /// The lists of color formats differ.
    IncompatibleColorAttachment,
    /// The depth-stencil formats differ: that of the encoder, then that of the pipeline.
    IncompatibleDepthStencilAttachment(Option<TextureFormat>, Option<TextureFormat>),
    /// The sample counts differ: that of the encoder, then that of the pipeline.
    IncompatibleSampleCount(u32, u32),
    /// The multiview layer counts differ: that of the encoder, then that of the pipeline.
    IncompatibleMultiview(Option<u32>, Option<u32>),
}

/// Two uses of one resource that cannot stand in one bundle, or a resource that is not there.
#[derive(Clone, Copy, Debug, PartialEq, Eq)]
pub enum UsageConflict {
    /// No buffer has this handle.
    BufferInvalid { id: BufferId },
    /// The uses of the buffer, taken together, hold a writing use beside another.
    Buffer { id: BufferId, combined_use: u32 },
    /// The uses of the texture, taken together, hold a writing use beside another.
    Texture { id: TextureId, combined_use: u32 },
}

/// A buffer was not created for the use that a command makes of it.
#[derive(Clone, Copy, Debug, PartialEq, Eq)]
pub struct MissingBufferUsageError {
    pub actual: BufferUsages,
    pub expected: BufferUsages,
}

/// The backend lacks an ability that a command needs.
#[derive(Clone, Copy, Debug, PartialEq, Eq)]
pub struct MissingDownlevelFlags(pub DownlevelFlags);

/// Why push constants cannot be set.
#[derive(Clone, Copy, Debug, PartialEq, Eq)]
pub enum PushConstantUploadError {
    /// The bytes from `offset` to `end_offset` leave the range, at index `idx` of
    /// the layout, of the stages that they are set for.
    TooLarge { offset: u32, end_offset: u32, idx: usize, range: PushConstantRange },
    /// The range at index `idx` has some of the stages `actual`, and not all of
    /// its own, `matched`.
    PartialRangeMatch { actual: ShaderStages, idx: usize, matched: ShaderStages },
    /// The bytes meet the range at index `idx`, whose stages are not all given.
    MissingStages { actual: ShaderStages, idx: usize, missing: ShaderStages },
    /// No range of the layout has the stages `unmatched`.
    UnmatchedStages { actual: ShaderStages, unmatched: ShaderStages },
    /// The offset is no multiple of the alignment of push constants.
    Unaligned(u32),
}

/// Why a draw cannot be made.
#[derive(Clone, Copy, Debug, PartialEq, Eq)]
pub enum DrawError {
    /// No pipeline is set.
    MissingPipeline,
    /// The pipeline reads the vertex buffer slot `index`, which holds no buffer.
    MissingVertexBuffer { index: u32 },
    /// An indexed draw is made and no index buffer is set.
    MissingIndexBuffer,
    /// The draw reads up to vertex `last_vertex`, and the buffer in `slot` holds `vertex_limit`.
    VertexBeyondLimit { last_vertex: u64, vertex_limit: u64, slot: u32 },
    /// The draw reads up to instance `last_instance`, and the buffer in `slot`
    /// holds `instance_limit`.
    InstanceBeyondLimit { last_instance: u64, instance_limit: u64, slot: u32 },
    /// The draw reads up to index `last_index`, and the index buffer holds `index_limit`.
    IndexBeyondLimit { last_index: u64, index_limit: u64 },
}

/// Why a command was refused.
#[derive(Clone, Copy, Debug, PartialEq, Eq)]
pub enum RenderCommandError {
    /// No bind group has this handle.
    InvalidBindGroup(BindGroupId),
    /// The device has only `max` bind group slots.
    BindGroupIndexOutOfRange { index: u8, max: u32 },
    /// There are only `max` vertex buffer slots.
    VertexBufferIndexOutOfRange { index: u32, max: u32 },
    /// The dynamic offset is no multiple of the alignment that the named limit asks for.
    UnalignedBufferOffset(u64, &'static str, u32),
    /// The command gives `actual` dynamic offsets and the bind group has
    /// `expected` dynamic bindings.
    InvalidDynamicOffsetCount { actual: usize, expected: usize },
    /// No render pipeline has this handle.
    InvalidPipeline(RenderPipelineId),
    /// The pipeline was made for other attachments than the encoder.
    IncompatiblePipelineTargets(RenderPassCompatibilityError),
    /// The pipeline writes depth or stencil, which the encoder holds read-only.
    IncompatiblePipelineRods,
    UsageConflict(UsageConflict),
    MissingBufferUsage(MissingBufferUsageError),
    PushConstants(PushConstantUploadError),
    /// A command of this kind cannot stand in a bundle.
    Unimplemented(&'static str),
}

/// Why compiling failed.
#[derive(Clone, Copy, Debug, PartialEq, Eq)]
pub enum RenderBundleErrorInner {
    /// The resource belongs to another device than the encoder.
    NotValidToUse,
    Device(DeviceError),
    RenderCommand(RenderCommandError),
    Draw(DrawError),
    MissingDownlevelFlags(MissingDownlevelFlags),
}

/// An error of compiling, with the command that caused it.
#[derive(Clone, Copy, Debug, PartialEq, Eq)]
pub struct RenderBundleError {
    pub scope: PassErrorScope,
    pub inner: RenderBundleErrorInner,
}

impl RenderBundleError {
    /// The error of a bundle whose device is not valid.
    pub fn invalid_device() -> (r: Self)
        ensures
            r == (RenderBundleError {
                scope: PassErrorScope::Bundle,
                inner: RenderBundleErrorInner::Device(DeviceError::Invalid),
            }),
    {
        RenderBundleError {
            scope: PassErrorScope::Bundle,
            inner: RenderBundleErrorInner::Device(DeviceError::Invalid),
        }
    }
}

/// Puts the command that caused it around the error of a command.
pub fn command_error(scope: PassErrorScope, error: RenderCommandError) -> (r: RenderBundleError)
    ensures
        r == (RenderBundleError { scope, inner: RenderBundleErrorInner::RenderCommand(error) }),
{
    RenderBundleError { scope, inner: RenderBundleErrorInner::RenderCommand(error) }
}

/// Puts the command that caused it around the error of a draw.
pub fn draw_error(scope: PassErrorScope, error: DrawError) -> (r: RenderBundleError)
    ensures
        r == (RenderBundleError { scope, inner: RenderBundleErrorInner::Draw(error) }),
{
    RenderBundleError { scope, inner: RenderBundleErrorInner::Draw(error) }
}

} // verus!
