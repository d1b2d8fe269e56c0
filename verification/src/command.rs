//! The commands of a render bundle and the raw stream that records them.

use vstd::prelude::*;
use crate::flags::ShaderStages;
use crate::id::{BindGroupId, BufferId, QuerySetId, RenderBundleId, RenderPipelineId};

verus! {

/// The number of bind group slots that a backend offers at most.
pub const MAX_BIND_GROUPS: usize = 8;

/// The number of vertex buffer slots that a backend offers at most.
pub const MAX_VERTEX_BUFFERS: usize = 16;

/// The number of color attachments that a backend offers at most.
pub const MAX_COLOR_TARGETS: usize = 8;

/// Offsets and sizes of push constants are multiples of this many bytes.
pub const PUSH_CONSTANT_ALIGNMENT: u32 = 4;

/// The size in bytes of the arguments of an indirect draw.
pub const DRAW_INDIRECT_ARGS_SIZE: u64 = 16;

/// The width of the entries of an index buffer.
#[derive(Clone, Copy, Debug, PartialEq, Eq, Hash, Structural)]
pub enum IndexFormat {
    /// Indices of 16 bits.
    Uint16,
    /// Indices of 32 bits.
    Uint32,
}

impl IndexFormat {
    /// The number of bytes of one index.
    pub open spec fn spec_byte_size(self) -> u64 {
        match self {
            IndexFormat::Uint16 => 2,
            IndexFormat::Uint32 => 4,
        }
    }

    /// The number of bytes of one index.
    #[verifier::when_used_as_spec(spec_byte_size)]
    pub fn byte_size(self) -> (r: u64)
        ensures
            r == self.spec_byte_size(),
    {
        match self {
            IndexFormat::Uint16 => 2,
            IndexFormat::Uint32 => 4,
        }
    }
}

impl Default for IndexFormat {
    /// Indices of 32 bits.
    fn default() -> (r: Self)
        ensures
            r == IndexFormat::Uint32,
    {
        IndexFormat::Uint32
    }
}

/// Whether a vertex buffer advances per vertex or per instance.
#[derive(Clone, Copy, Debug, PartialEq, Eq, Hash, Structural)]
pub enum VertexStepMode {
    /// The buffer advances with every vertex.
    Vertex,
    /// The buffer advances with every instance.
    Instance,
}

/// A range of bytes, from `start` up to and without `end`.
#[derive(Clone, Copy, Debug, PartialEq, Eq, Hash, Structural)]
pub struct ByteRange {
    pub start: u64,
    pub end: u64,
}

impl ByteRange {
    /// The number of bytes in the range; a range whose end lies before its start has none.
    pub open spec fn spec_len(self) -> u64 {
        if self.start <= self.end {
            (self.end - self.start) as u64
        } else {
            0
        }
    }

    /// The number of bytes in the range.
    #[verifier::when_used_as_spec(spec_len)]
    pub fn len(self) -> (r: u64)
        ensures
            r == self.spec_len(),
    {
        if self.start <= self.end {
            self.end - self.start
        } else {
            0
        }
    }
}

/// A range of entries of the array of dynamic offsets.
#[derive(Clone, Copy, Debug, PartialEq, Eq, Hash, Structural)]
pub struct OffsetRange {
    pub start: usize,
    pub end: usize,
}

impl OffsetRange {
    /// The range holds no entry.
    pub open spec fn spec_is_empty(self) -> bool {
        self.start >= self.end
    }

    /// The range holds no entry.
    #[verifier::when_used_as_spec(spec_is_empty)]
    pub fn is_empty(self) -> (r: bool)
        ensures
            r == self.spec_is_empty(),
    {
        self.start >= self.end
    }
}

/// A range of push constant bytes that the given shader stages can read.
#[derive(Clone, Copy, Debug, PartialEq, Eq, Hash, Structural)]
pub struct PushConstantRange {
    pub stages: ShaderStages,
    pub start: u32,
    pub end: u32,
}

/// The size of a buffer binding: `None` for an empty size, else the size.
pub open spec fn spec_buffer_size(bytes: u64) -> Option<u64> {
    if bytes == 0 {
        None
    } else {
        Some(bytes)
    }
}

/// The size of a buffer binding: `None` for an empty size, else the size.
#[verifier::when_used_as_spec(spec_buffer_size)]
pub fn buffer_size(bytes: u64) -> (r: Option<u64>)
    ensures
        r == spec_buffer_size(bytes),
{
    if bytes == 0 {
        None
    } else {
        Some(bytes)
    }
}

/// One recorded command.
#[derive(Clone, Copy, Debug, PartialEq, Eq)]
pub enum RenderCommand {
    SetBindGroup { index: u8, num_dynamic_offsets: u8, bind_group_id: BindGroupId },
    SetPipeline(RenderPipelineId),
    SetIndexBuffer { buffer_id: BufferId, index_format: IndexFormat, offset: u64, size: Option<u64> },
    SetVertexBuffer { slot: u32, buffer_id: BufferId, offset: u64, size: Option<u64> },
    /// The four channels of the blend constant, each as the bits of a 64-bit float.
    SetBlendConstant { r: u64, g: u64, b: u64, a: u64 },
    SetStencilReference(u32),
    /// The viewport, each number as the bits of a 32-bit float.
    SetViewport { x: u32, y: u32, w: u32, h: u32, depth_min: u32, depth_max: u32 },
    SetScissor { x: u32, y: u32, w: u32, h: u32 },
    /// Sets `size_bytes` bytes of push constants at `offset`. With `values_offset`
    /// the values are the words of the payload blob from that index on; without,
    /// the bytes are cleared to zero.
    SetPushConstant { stages: ShaderStages, offset: u32, size_bytes: u32, values_offset: Option<u32> },
    Draw { vertex_count: u32, instance_count: u32, first_vertex: u32, first_instance: u32 },
    DrawIndexed {
        index_count: u32,
        instance_count: u32,
        first_index: u32,
        base_vertex: i32,
        first_instance: u32,
    },
    /// A draw whose arguments lie in a buffer; `count` is `None` for a single draw.
    MultiDrawIndirect { buffer_id: BufferId, offset: u64, count: Option<u32>, indexed: bool },
    MultiDrawIndirectCount {
        buffer_id: BufferId,
        offset: u64,
        count_buffer_id: BufferId,
        count_buffer_offset: u64,
        max_count: u32,
        indexed: bool,
    },
    PushDebugGroup { color: u32, len: usize },
    PopDebugGroup,
    InsertDebugMarker { color: u32, len: usize },
    WriteTimestamp { query_set_id: QuerySetId, query_index: u32 },
    BeginPipelineStatisticsQuery { query_set_id: QuerySetId, query_index: u32 },
    EndPipelineStatisticsQuery,
    ExecuteBundle(RenderBundleId),
}

impl RenderCommand {
    /// The number of dynamic offsets that the command takes from the array of the stream.
    pub open spec fn offsets_taken(self) -> nat {
        match self {
            RenderCommand::SetBindGroup { num_dynamic_offsets, .. } => num_dynamic_offsets as nat,
            _ => 0,
        }
    }

    /// The numbers of the command stay in the range of their types when the
    /// command is compiled and replayed, with a payload blob of `words` words: a
    /// size that is given is not zero, the end of every range can be told, and
    /// the payload of push constants lies in the blob.
    pub open spec fn in_range(self, words: nat) -> bool {
        match self {
            RenderCommand::SetIndexBuffer { offset, size, .. } => size matches Some(s) ==> 0 < s
                && offset + s <= u64::MAX,
            RenderCommand::SetVertexBuffer { offset, size, .. } => size matches Some(s) ==> 0 < s
                && offset + s <= u64::MAX,
            RenderCommand::SetPushConstant { offset, size_bytes, values_offset, .. } => {
                &&& offset + size_bytes <= u32::MAX
                &&& values_offset matches Some(v) ==> v + size_bytes / PUSH_CONSTANT_ALIGNMENT
                    <= words
            },
            RenderCommand::MultiDrawIndirect { offset, count: None, .. } => offset
                + DRAW_INDIRECT_ARGS_SIZE <= u64::MAX,
            _ => true,
        }
    }

    /// Decides `in_range`.
    pub fn check_in_range(&self, words: usize) -> (r: bool)
        ensures
            r == self.in_range(words as nat),
    {
        match *self {
            RenderCommand::SetIndexBuffer { offset, size, .. } => match size {
                Some(s) => 0 < s && s <= u64::MAX - offset,
                None => true,
            },
            RenderCommand::SetVertexBuffer { offset, size, .. } => match size {
                Some(s) => 0 < s && s <= u64::MAX - offset,
                None => true,
            },
            RenderCommand::SetPushConstant { offset, size_bytes, values_offset, .. } => {
                if size_bytes > u32::MAX - offset {
                    false
                } else {
                    match values_offset {
                        Some(v) => {
                            let need: u64 = v as u64 + (size_bytes / PUSH_CONSTANT_ALIGNMENT) as u64;
                            need <= words as u64
                        },
                        None => true,
                    }
                }
            },
            RenderCommand::MultiDrawIndirect { offset, count: None, .. } => offset <= u64::MAX
                - DRAW_INDIRECT_ARGS_SIZE,
            _ => true,
        }
    }
}

/// The number of dynamic offsets that the commands take together.
pub open spec fn offsets_needed(commands: Seq<RenderCommand>) -> nat
    decreases commands.len(),
{
    if commands.len() == 0 {
        0
    } else {
        offsets_needed(commands.drop_last()) + commands.last().offsets_taken()
    }
}

/// Every command is in range, with a payload blob of `words` words.
pub open spec fn all_in_range(commands: Seq<RenderCommand>, words: nat) -> bool {
    forall|i: int| 0 <= i < commands.len() ==> (#[trigger] commands[i]).in_range(words)
}

/// `offsets_needed` of a stream with one more command.
pub proof fn lemma_offsets_needed_push(commands: Seq<RenderCommand>, command: RenderCommand)
    ensures
        offsets_needed(commands.push(command)) == offsets_needed(commands)
            + command.offsets_taken(),
{
    assert(commands.push(command).drop_last() =~= commands);
}

/// A prefix of a stream needs no more dynamic offsets than the stream.
pub proof fn lemma_offsets_needed_prefix(commands: Seq<RenderCommand>, n: int)
    requires
        0 <= n <= commands.len(),
    ensures
        offsets_needed(commands.take(n)) <= offsets_needed(commands),
    decreases commands.len(),
{
    if n < commands.len() {
        lemma_offsets_needed_prefix(commands.drop_last(), n);
        assert(commands.drop_last().take(n) =~= commands.take(n));
    } else {
        assert(commands.take(n) =~= commands);
    }
}

/// A command that is in range stays so when the payload blob grows.
pub proof fn lemma_in_range_grows(command: RenderCommand, words: nat, more: nat)
    requires
        command.in_range(words),
        words <= more,
    ensures
        command.in_range(more),
{
}

/// A well-formed stream stays so when a command that is in range is added with
/// the dynamic offsets that it takes, and the payload blob grows.
pub proof fn lemma_wf_push(before: &BasePass, after: &BasePass, command: RenderCommand)
    requires
        before.wf(),
        after.commands@ == before.commands@.push(command),
        after.dynamic_offsets@.len() >= before.dynamic_offsets@.len() + command.offsets_taken(),
        after.push_constant_data@.len() >= before.push_constant_data@.len(),
        command.in_range(after.push_constant_data@.len()),
    ensures
        after.wf(),
{
    lemma_offsets_needed_push(before.commands@, command);
    assert forall|i: int| 0 <= i < after.commands@.len() implies (#[trigger] after.commands@[i]).in_range(
        after.push_constant_data@.len(),
    ) by {
        if i < before.commands@.len() {
            assert(after.commands@[i] == before.commands@[i]);
            lemma_in_range_grows(
                before.commands@[i],
                before.push_constant_data@.len(),
                after.push_constant_data@.len(),
            );
        }
    }
}

/// A recorded stream: the commands in order and the side data that they refer to.
#[derive(Clone, Debug, PartialEq, Eq)]
pub struct BasePass {
    pub label: Option<String>,
    pub commands: Vec<RenderCommand>,
    pub dynamic_offsets: Vec<u32>,
    pub string_data: Vec<u8>,
    pub push_constant_data: Vec<u32>,
}

impl BasePass {
    /// An empty stream with the given label.
    pub fn new(label: &Option<String>) -> (r: Self)
        ensures
            r.label == *label,
            r.commands@.len() == 0,
            r.dynamic_offsets@.len() == 0,
            r.string_data@.len() == 0,
            r.push_constant_data@.len() == 0,
            r.wf(),
    {
        let label = match label {
            Some(s) => Some(s.clone()),
            None => None,
        };
        BasePass {
            label,
            commands: Vec::new(),
            dynamic_offsets: Vec::new(),
            string_data: Vec::new(),
            push_constant_data: Vec::new(),
        }
    }

    /// The stream can be compiled: its commands are in range, and the array of
    /// dynamic offsets holds as many as they take.
    pub open spec fn wf(&self) -> bool {
        &&& all_in_range(self.commands@, self.push_constant_data@.len())
        &&& offsets_needed(self.commands@) <= self.dynamic_offsets@.len()
    }

    /// Decides `wf`.
    pub fn is_well_formed(&self) -> (r: bool)
        ensures
            r == self.wf(),
    {
        let mut needed: usize = 0;
        let mut i: usize = 0;
        while i < self.commands.len()
            invariant
                i <= self.commands@.len(),
                needed == offsets_needed(self.commands@.take(i as int)),
                needed <= self.dynamic_offsets@.len(),
                all_in_range(self.commands@.take(i as int), self.push_constant_data@.len()),
            decreases self.commands@.len() - i,
        {
            let command = self.commands[i];
            proof {
                assert(self.commands@.take(i as int + 1) =~= self.commands@.take(i as int).push(
                    command,
                ));
                lemma_offsets_needed_push(self.commands@.take(i as int), command);
                lemma_offsets_needed_prefix(self.commands@, i as int + 1);
            }
            if !command.check_in_range(self.push_constant_data.len()) {
                assert(!self.commands@[i as int].in_range(self.push_constant_data@.len()));
                return false;
            }
            let taken: usize = match command {
                RenderCommand::SetBindGroup { num_dynamic_offsets, .. } => num_dynamic_offsets as usize,
                _ => 0,
            };
            if taken > self.dynamic_offsets.len() - needed {
                return false;
            }
            needed = needed + taken;
            i += 1;
        }
        proof {
            assert(self.commands@.take(i as int) =~= self.commands@);
        }
        true
    }
}

} // verus!
