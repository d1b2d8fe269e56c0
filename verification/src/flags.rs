//! Sets of flags held as bits of a `u32`.

use vstd::prelude::*;

verus! {

/// Every bit of `b` is a bit of `a`.
pub open spec fn bits_contain(a: u32, b: u32) -> bool {
    a & b == b
}

/// `a` and `b` share a bit.
pub open spec fn bits_intersect(a: u32, b: u32) -> bool {
    a & b != 0
}

/// The bits of `a` that are not bits of `b`.
pub open spec fn bits_without(a: u32, b: u32) -> u32 {
    a & !b
}

/// The vertex shader stage.
pub const STAGE_VERTEX: u32 = 1;

/// The fragment shader stage.
pub const STAGE_FRAGMENT: u32 = 2;

/// The compute shader stage.
pub const STAGE_COMPUTE: u32 = 4;

/// A set of shader stages.
#[derive(Clone, Copy, Debug, PartialEq, Eq, Hash, Structural)]
pub struct ShaderStages {
    pub bits: u32,
}

impl ShaderStages {
    /// The empty set of stages.
    pub fn none() -> (r: Self)
        ensures
            r.bits == 0,
    {
        ShaderStages { bits: 0 }
    }

    /// The set with the given bits.
    pub fn from_bits(bits: u32) -> (r: Self)
        ensures
            r.bits == bits,
    {
        ShaderStages { bits }
    }

    /// No stage is in the set.
    pub open spec fn spec_is_empty(self) -> bool {
        self.bits == 0
    }

    /// No stage is in the set.
    #[verifier::when_used_as_spec(spec_is_empty)]
    pub fn is_empty(self) -> (r: bool)
        ensures
            r == self.spec_is_empty(),
    {
        self.bits == 0
    }

    /// Every stage of `other` is in the set.
    pub open spec fn spec_contains(self, other: ShaderStages) -> bool {
        bits_contain(self.bits, other.bits)
    }

    /// Every stage of `other` is in the set.
    #[verifier::when_used_as_spec(spec_contains)]
    pub fn contains(self, other: ShaderStages) -> (r: bool)
        ensures
            r == self.spec_contains(other),
    {
        self.bits & other.bits == other.bits
    }

    /// Some stage of `other` is in the set.
    pub open spec fn spec_intersects(self, other: ShaderStages) -> bool {
        bits_intersect(self.bits, other.bits)
    }

    /// Some stage of `other` is in the set.
    #[verifier::when_used_as_spec(spec_intersects)]
    pub fn intersects(self, other: ShaderStages) -> (r: bool)
        ensures
            r == self.spec_intersects(other),
    {
        self.bits & other.bits != 0
    }

    /// The stages of either set.
    pub open spec fn spec_union(self, other: ShaderStages) -> ShaderStages {
        ShaderStages { bits: self.bits | other.bits }
    }

    /// The stages of either set.
    #[verifier::when_used_as_spec(spec_union)]
    pub fn union(self, other: ShaderStages) -> (r: ShaderStages)
        ensures
            r == self.spec_union(other),
    {
        ShaderStages { bits: self.bits | other.bits }
    }

    /// The stages of the set that are not in `other`.
    pub open spec fn spec_difference(self, other: ShaderStages) -> ShaderStages {
        ShaderStages { bits: bits_without(self.bits, other.bits) }
    }

    /// The stages of the set that are not in `other`.
    #[verifier::when_used_as_spec(spec_difference)]
    pub fn difference(self, other: ShaderStages) -> (r: ShaderStages)
        ensures
            r == self.spec_difference(other),
    {
        ShaderStages { bits: self.bits & !other.bits }
    }
}

/// A buffer may be the source of a copy.
pub const BUFFER_USAGE_COPY_SRC: u32 = 1 << 2;

/// A buffer may be the destination of a copy.
pub const BUFFER_USAGE_COPY_DST: u32 = 1 << 3;

/// A buffer may be bound as an index buffer.
pub const BUFFER_USAGE_INDEX: u32 = 1 << 4;

/// A buffer may be bound as a vertex buffer.
pub const BUFFER_USAGE_VERTEX: u32 = 1 << 5;

/// A buffer may be bound as a uniform buffer.
pub const BUFFER_USAGE_UNIFORM: u32 = 1 << 6;

/// A buffer may be bound as a storage buffer.
pub const BUFFER_USAGE_STORAGE: u32 = 1 << 7;

/// A buffer may hold the arguments of an indirect draw.
pub const BUFFER_USAGE_INDIRECT: u32 = 1 << 8;

/// The usages that a buffer was created for.
#[derive(Clone, Copy, Debug, PartialEq, Eq, Hash, Structural)]
pub struct BufferUsages {
    pub bits: u32,
}

impl BufferUsages {
    /// The set with the given bits.
    pub fn from_bits(bits: u32) -> (r: Self)
        ensures
            r.bits == bits,
    {
        BufferUsages { bits }
    }

    /// Every usage of `other` is in the set.
    pub open spec fn spec_contains(self, other: BufferUsages) -> bool {
        bits_contain(self.bits, other.bits)
    }

    /// Every usage of `other` is in the set.
    #[verifier::when_used_as_spec(spec_contains)]
    pub fn contains(self, other: BufferUsages) -> (r: bool)
        ensures
            r == self.spec_contains(other),
    {
        self.bits & other.bits == other.bits
    }
}

/// The pipeline reads the blend constant.
pub const PIPELINE_BLEND_CONSTANT: u32 = 1;

/// The pipeline reads the stencil reference.
pub const PIPELINE_STENCIL_REFERENCE: u32 = 2;

/// The pipeline writes the depth or stencil attachment.
pub const PIPELINE_WRITES_DEPTH_STENCIL: u32 = 4;

/// What a render pipeline needs of the pass that it is used in.
#[derive(Clone, Copy, Debug, PartialEq, Eq, Hash, Structural)]
pub struct PipelineFlags {
    pub bits: u32,
}

impl PipelineFlags {
    /// Every flag of `bits` is set.
    pub open spec fn spec_contains(self, bits: u32) -> bool {
        bits_contain(self.bits, bits)
    }

    /// Every flag of `bits` is set.
    #[verifier::when_used_as_spec(spec_contains)]
    pub fn contains(self, bits: u32) -> (r: bool)
        ensures
            r == self.spec_contains(bits),
    {
        self.bits & bits == bits
    }
}

/// The backend can run draws whose arguments lie in a buffer.
pub const DOWNLEVEL_INDIRECT_EXECUTION: u32 = 1 << 2;

/// The optional abilities of the backend of a device.
#[derive(Clone, Copy, Debug, PartialEq, Eq, Hash, Structural)]
pub struct DownlevelFlags {
    pub bits: u32,
}

impl DownlevelFlags {
    /// Every flag of `bits` is set.
    pub open spec fn spec_contains(self, bits: u32) -> bool {
        bits_contain(self.bits, bits)
    }

    /// Every flag of `bits` is set.
    #[verifier::when_used_as_spec(spec_contains)]
    pub fn contains(self, bits: u32) -> (r: bool)
        ensures
            r == self.spec_contains(bits),
    {
        self.bits & bits == bits
    }
}

} // verus!
