//! The attachments that an encoder, or a pipeline, is made for.

use vstd::prelude::*;
use wgpu_types::TextureFormat;
use crate::error::RenderPassCompatibilityError;
use crate::format::format_eq;

verus! {

/// The formats of the attachments of a render pass.
#[derive(Clone, Debug, PartialEq, Eq)]
pub struct AttachmentData {
    pub colors: Vec<TextureFormat>,
    pub resolves: Vec<TextureFormat>,
    pub depth_stencil: Option<TextureFormat>,
}

/// What a render pass offers: its attachments, sample count and multiview layer count.
#[derive(Clone, Debug, PartialEq, Eq)]
pub struct RenderPassContext {
    pub attachments: AttachmentData,
    pub sample_count: u32,
    pub multiview: Option<u32>,
}

/// The contents of a `RenderPassContext`.
pub struct ContextView {
    pub colors: Seq<TextureFormat>,
    pub resolves: Seq<TextureFormat>,
    pub depth_stencil: Option<TextureFormat>,
    pub sample_count: u32,
    pub multiview: Option<u32>,
}

impl View for RenderPassContext {
    type V = ContextView;

    open spec fn view(&self) -> ContextView {
        ContextView {
            colors: self.attachments.colors@,
            resolves: self.attachments.resolves@,
            depth_stencil: self.attachments.depth_stencil,
            sample_count: self.sample_count,
            multiview: self.multiview,
        }
    }
}

/// The label as a sequence of characters.
pub open spec fn label_view(label: Option<String>) -> Option<Seq<char>> {
    match label {
        Some(s) => Some(s@),
        None => None,
    }
}

/// Copies a list of formats.
pub fn clone_formats(formats: &Vec<TextureFormat>) -> (r: Vec<TextureFormat>)
    ensures
        r@ == formats@,
{
    let mut out: Vec<TextureFormat> = Vec::new();
    let mut i: usize = 0;
    while i < formats.len()
        invariant
            i <= formats@.len(),
            out@ == formats@.take(i as int),
        decreases formats@.len() - i,
    {
        out.push(formats[i].clone());
        proof {
            assert(formats@.take(i as int + 1) =~= formats@.take(i as int).push(formats@[i as int]));
        }
        i += 1;
    }
    proof {
        assert(formats@.take(i as int) =~= formats@);
    }
    out
}

/// Copies a format that may be absent.
pub fn clone_format_option(format: &Option<TextureFormat>) -> (r: Option<TextureFormat>)
    ensures
        r == *format,
{
    match format {
        Some(f) => Some(f.clone()),
        None => None,
    }
}

/// Whether two lists of formats are equal.
pub fn formats_equal(a: &Vec<TextureFormat>, b: &Vec<TextureFormat>) -> (r: bool)
    ensures
        r == (a@ == b@),
{
    if a.len() != b.len() {
        return false;
    }
    let mut i: usize = 0;
    while i < a.len()
        invariant
            i <= a@.len(),
            a@.len() == b@.len(),
            a@.take(i as int) == b@.take(i as int),
        decreases a@.len() - i,
    {
        if !format_eq(&a[i], &b[i]) {
            assert(a@[i as int] != b@[i as int]);
            return false;
        }
        proof {
            assert(a@.take(i as int + 1) =~= a@.take(i as int).push(a@[i as int]));
            assert(b@.take(i as int + 1) =~= b@.take(i as int).push(b@[i as int]));
        }
        i += 1;
    }
    proof {
        assert(a@.take(i as int) =~= a@);
        assert(b@.take(i as int) =~= b@);
    }
    true
}

/// Whether two formats that may be absent are equal.
pub fn format_options_equal(a: &Option<TextureFormat>, b: &Option<TextureFormat>) -> (r: bool)
    ensures
        r == (*a == *b),
{
    match a {
        Some(x) => match b {
            Some(y) => format_eq(x, y),
            None => false,
        },
        None => match b {
            Some(_) => false,
            None => true,
        },
    }
}

impl RenderPassContext {
    /// What `check_compatible` returns: the first difference between the two, in
    /// the order colors, depth-stencil, sample count, multiview.
    pub open spec fn compatibility(&self, other: &Self) -> Result<(), RenderPassCompatibilityError> {
        if self@.colors != other@.colors {
            Err(RenderPassCompatibilityError::IncompatibleColorAttachment)
        } else if self@.depth_stencil != other@.depth_stencil {
            Err(
                RenderPassCompatibilityError::IncompatibleDepthStencilAttachment(
                    self@.depth_stencil,
                    other@.depth_stencil,
                ),
            )
        } else if self.sample_count != other.sample_count {
            Err(
                RenderPassCompatibilityError::IncompatibleSampleCount(
                    self.sample_count,
                    other.sample_count,
                ),
            )
        } else if self.multiview != other.multiview {
            Err(RenderPassCompatibilityError::IncompatibleMultiview(self.multiview, other.multiview))
        } else {
            Ok(())
        }
    }

    /// Checks that a pipeline made for `other` can be used in a pass that offers `self`.
    pub fn check_compatible(&self, other: &Self) -> (r: Result<(), RenderPassCompatibilityError>)
        ensures
            r == self.compatibility(other),
    {
        if !formats_equal(&self.attachments.colors, &other.attachments.colors) {
            return Err(RenderPassCompatibilityError::IncompatibleColorAttachment);
        }
        if !format_options_equal(&self.attachments.depth_stencil, &other.attachments.depth_stencil) {
            return Err(
                RenderPassCompatibilityError::IncompatibleDepthStencilAttachment(
                    clone_format_option(&self.attachments.depth_stencil),
                    clone_format_option(&other.attachments.depth_stencil),
                ),
            );
        }
        if self.sample_count != other.sample_count {
            return Err(
                RenderPassCompatibilityError::IncompatibleSampleCount(
                    self.sample_count,
                    other.sample_count,
                ),
            );
        }
        let same_multiview = match self.multiview {
            Some(a) => match other.multiview {
                Some(b) => a == b,
                None => false,
            },
            None => other.multiview.is_none(),
        };
        if !same_multiview {
            return Err(
                RenderPassCompatibilityError::IncompatibleMultiview(self.multiview, other.multiview),
            );
        }
        Ok(())
    }
}

} // verus!
