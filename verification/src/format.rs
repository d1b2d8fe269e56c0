//! Texture formats of attachments, as the graphics type crate defines them.

use vstd::prelude::*;
use wgpu_types::TextureFormat;

verus! {

/// The type `wgpu_types::TextureFormat`: the format of a texture. A value of
/// it is carried, copied and compared, and asked for its aspects; nothing else is
/// known of it here.
#[verifier::external_type_specification]
#[verifier::external_body]
pub struct ExTextureFormat(wgpu_types::TextureFormat);

/// What `TextureFormat::has_depth_aspect` answers for a format: whether the
/// format has a depth aspect.
pub uninterp spec fn has_depth_aspect(format: TextureFormat) -> bool;

/// What `TextureFormat::has_stencil_aspect` answers for a format: whether the
/// format has a stencil aspect.
pub uninterp spec fn has_stencil_aspect(format: TextureFormat) -> bool;

/// Calls `TextureFormat::has_depth_aspect`, which looks the channels of the
/// format up in a table: the answer depends on the format alone.
#[verifier::external_body]
pub(crate) fn format_has_depth(format: &TextureFormat) -> (r: bool)
    ensures
        r == has_depth_aspect(*format),
{
    format.has_depth_aspect()
}

/// Calls `TextureFormat::has_stencil_aspect`, which looks the channels of the
/// format up in a table: the answer depends on the format alone.
#[verifier::external_body]
pub(crate) fn format_has_stencil(format: &TextureFormat) -> (r: bool)
    ensures
        r == has_stencil_aspect(*format),
{
    format.has_stencil_aspect()
}

/// Calls the `==` of `TextureFormat`, which the type derives: it holds of two
/// formats exactly when they are the same format.
#[verifier::external_body]
pub(crate) fn format_eq(a: &TextureFormat, b: &TextureFormat) -> (r: bool)
    ensures
        r == (*a == *b),
{
    a == b
}

/// The `clone` of `TextureFormat`, which the type derives, as it derives
/// `Copy`: the clone is the format itself.
pub assume_specification[ <wgpu_types::TextureFormat as Clone>::clone ](
    format: &wgpu_types::TextureFormat,
) -> (r: wgpu_types::TextureFormat)
    ensures
        r == *format,
;

} // verus!
