//! The state that the compiler simulates while it walks a recorded stream: what
//! is bound to each slot, and whether the compiled stream has set it yet.

use vstd::prelude::*;
use crate::command::{
    buffer_size, spec_buffer_size, ByteRange, IndexFormat, OffsetRange, PushConstantRange,
    RenderCommand, VertexStepMode, MAX_BIND_GROUPS, MAX_VERTEX_BUFFERS,
};
use crate::id::{BindGroupId, BindGroupLayoutId, BufferId, RenderPipelineId};
use crate::push_constant::{
    compute_nonoverlapping_ranges, law_nonoverlapping_ascending, nonoverlapping_ranges,
};
use crate::track::{RenderBundleScope, ScopeView};

verus! {

/// The index buffer that is set, and whether the compiled stream has it.
#[derive(Clone, Copy, Debug, PartialEq, Eq)]
pub struct IndexState {
    pub buffer: Option<BufferId>,
    pub format: IndexFormat,
    pub pipeline_format: Option<IndexFormat>,
    pub range: ByteRange,
    pub is_dirty: bool,
}

impl IndexState {
    /// The state in which no index buffer is set.
    pub open spec fn spec_new() -> IndexState {
        IndexState {
            buffer: None,
            format: IndexFormat::Uint32,
            pipeline_format: None,
            range: ByteRange { start: 0, end: 0 },
            is_dirty: false,
        }
    }

    /// The state in which no index buffer is set.
    pub fn new() -> (r: Self)
        ensures
            r == Self::spec_new(),
    {
        IndexState {
            buffer: None,
            format: IndexFormat::Uint32,
            pipeline_format: None,
            range: ByteRange { start: 0, end: 0 },
            is_dirty: false,
        }
    }

    /// The number of indices that the bound range holds.
    pub open spec fn spec_limit(self) -> u64 {
        self.range.len() / self.format.byte_size()
    }

    /// The number of indices that the bound range holds.
    pub fn limit(&self) -> (r: u64)
        requires
            self.buffer is Some,
        ensures
            r == self.spec_limit(),
    {
        self.range.len() / self.format.byte_size()
    }

    /// The command that sets the buffer of this state.
    pub open spec fn command(self) -> RenderCommand {
        RenderCommand::SetIndexBuffer {
            buffer_id: self.buffer.unwrap(),
            index_format: self.format,
            offset: self.range.start,
            size: spec_buffer_size(self.range.len()),
        }
    }

    /// The state after a flush.
    pub open spec fn flushed(self) -> IndexState {
        IndexState { is_dirty: false, ..self }
    }

    /// The commands that a flush gives: the one that sets the buffer, if the state is dirty.
    pub open spec fn flush_commands(self) -> Seq<RenderCommand> {
        if self.is_dirty {
            seq![self.command()]
        } else {
            Seq::empty()
        }
    }

    /// Prepares an indexed draw: gives the command that sets the index buffer if
    /// the compiled stream lacks it, and has the state clean.
    pub fn flush(&mut self) -> (r: Option<RenderCommand>)
        requires
            old(self).is_dirty ==> old(self).buffer is Some,
        ensures
            *final(self) == old(self).flushed(),
            old(self).is_dirty ==> r == Some(old(self).command()),
            !old(self).is_dirty ==> r is None,
    {
        if self.is_dirty {
            self.is_dirty = false;
            Some(
                RenderCommand::SetIndexBuffer {
                    buffer_id: self.buffer.unwrap(),
                    index_format: self.format,
                    offset: self.range.start,
                    size: buffer_size(self.range.len()),
                },
            )
        } else {
            None
        }
    }

    /// The state after the format is set: dirty if the format is another.
    pub open spec fn with_format(self, format: IndexFormat) -> IndexState {
        if self.format != format {
            IndexState { format, is_dirty: true, ..self }
        } else {
            self
        }
    }

    /// Sets the format of the indices.
    pub fn set_format(&mut self, format: IndexFormat)
        ensures
            *final(self) == old(self).with_format(format),
    {
        if self.format != format {
            self.format = format;
            self.is_dirty = true;
        }
    }

    /// The state after a buffer is set: dirty if the buffer or the range is another.
    pub open spec fn with_buffer(self, id: BufferId, range: ByteRange) -> IndexState {
        if self.buffer == Some(id) && self.range == range {
            self
        } else {
            IndexState { buffer: Some(id), range, is_dirty: true, ..self }
        }
    }

    /// Sets the index buffer and the range of it that is bound.
    pub fn set_buffer(&mut self, id: BufferId, range: ByteRange)
        ensures
            *final(self) == old(self).with_buffer(id, range),
    {
        let same = match self.buffer {
            Some(held) => held == id && self.range == range,
            None => false,
        };
        if !same {
            self.buffer = Some(id);
            self.range = range;
            self.is_dirty = true;
        }
    }
}

/// The buffer that is set in one vertex buffer slot, how the pipeline reads it,
/// and whether the compiled stream has it.
#[derive(Clone, Copy, Debug, PartialEq, Eq)]
pub struct VertexState {
    pub buffer: Option<BufferId>,
    pub range: ByteRange,
    pub stride: u64,
    pub rate: VertexStepMode,
    pub is_dirty: bool,
}

impl VertexState {
    /// The state of a slot in which no buffer is set.
    pub open spec fn spec_new() -> VertexState {
        VertexState {
            buffer: None,
            range: ByteRange { start: 0, end: 0 },
            stride: 0,
            rate: VertexStepMode::Vertex,
            is_dirty: false,
        }
    }

    /// The state of a slot in which no buffer is set.
    pub fn new() -> (r: Self)
        ensures
            r == Self::spec_new(),
    {
        VertexState {
            buffer: None,
            range: ByteRange { start: 0, end: 0 },
            stride: 0,
            rate: VertexStepMode::Vertex,
            is_dirty: false,
        }
    }

    /// The state after a buffer is set: dirty if the buffer or the range is another.
    pub open spec fn with_buffer(self, id: BufferId, range: ByteRange) -> VertexState {
        if self.buffer == Some(id) && self.range == range {
            self
        } else {
            VertexState { buffer: Some(id), range, is_dirty: true, ..self }
        }
    }

    /// Sets the buffer of the slot and the range of it that is bound.
    pub fn set_buffer(&mut self, buffer_id: BufferId, range: ByteRange)
        ensures
            *final(self) == old(self).with_buffer(buffer_id, range),
    {
        let same = match self.buffer {
            Some(held) => held == buffer_id && self.range == range,
            None => false,
        };
        if !same {
            self.buffer = Some(buffer_id);
            self.range = range;
            self.is_dirty = true;
        }
    }

    /// The state after a pipeline is set that reads the slot with this stride
    /// and rate: dirty if either is another.
    pub open spec fn with_stride(self, stride: u64, rate: VertexStepMode) -> VertexState {
        if self.stride != stride || self.rate != rate {
            VertexState { stride, rate, is_dirty: true, ..self }
        } else {
            self
        }
    }

    /// The number of vertices, or instances, that the bound range holds.
    pub open spec fn capacity(self) -> u64
        recommends
            self.stride != 0,
    {
        self.range.len() / self.stride
    }

    /// The command that sets the buffer of this state in `slot`.
    pub open spec fn command(self, slot: u32) -> RenderCommand {
        RenderCommand::SetVertexBuffer {
            slot,
            buffer_id: self.buffer.unwrap(),
            offset: self.range.start,
            size: spec_buffer_size(self.range.len()),
        }
    }

    /// The state after a flush.
    pub open spec fn flushed(self) -> VertexState {
        VertexState { is_dirty: false, ..self }
    }

    /// Gives the command that sets the buffer of this slot if the compiled
    /// stream lacks it, and has the state clean.
    pub fn flush(&mut self, slot: u32) -> (r: Option<RenderCommand>)
        requires
            old(self).is_dirty ==> old(self).buffer is Some,
        ensures
            *final(self) == old(self).flushed(),
            old(self).is_dirty ==> r == Some(old(self).command(slot)),
            !old(self).is_dirty ==> r is None,
    {
        if self.is_dirty {
            self.is_dirty = false;
            Some(
                RenderCommand::SetVertexBuffer {
                    slot,
                    buffer_id: self.buffer.unwrap(),
                    offset: self.range.start,
                    size: buffer_size(self.range.len()),
                },
            )
        } else {
            None
        }
    }
}

/// The bind group that is set in one slot.
#[derive(Clone, Copy, Debug, PartialEq, Eq)]
pub struct BindState {
    pub bind_group_id: BindGroupId,
    /// The layout of the bind group.
    pub layout_id: BindGroupLayoutId,
    /// The dynamic offsets of the bind group, as a range of the array of the recorded stream.
    pub dynamic_offsets: OffsetRange,
    /// Whether the slot has changed since the compiled stream last set it.
    pub is_dirty: bool,
}

impl BindState {
    /// The range of dynamic offsets lies in an array of `offsets` entries and
    /// holds at most 255.
    pub open spec fn wf(self, offsets: nat) -> bool {
        &&& self.dynamic_offsets.start <= self.dynamic_offsets.end <= offsets
        &&& self.dynamic_offsets.end - self.dynamic_offsets.start <= u8::MAX
    }

    /// The command that sets this bind group in slot `index`.
    pub open spec fn command(self, index: int) -> RenderCommand {
        RenderCommand::SetBindGroup {
            index: index as u8,
            num_dynamic_offsets: (self.dynamic_offsets.end - self.dynamic_offsets.start) as u8,
            bind_group_id: self.bind_group_id,
        }
    }
}

/// A slot as it is once the slots from `from` on are invalidated.
pub open spec fn invalidated(entry: Option<BindState>, at: int, from: int) -> Option<BindState> {
    match entry {
        Some(b) => if at >= from {
            Some(BindState { is_dirty: true, ..b })
        } else {
            entry
        },
        None => None,
    }
}

/// A slot as it is once it is flushed with `used` slots in use.
pub open spec fn flushed_bind(entry: Option<BindState>, at: int, used: int) -> Option<BindState> {
    match entry {
        Some(b) => if at < used {
            Some(BindState { is_dirty: false, ..b })
        } else {
            entry
        },
        None => None,
    }
}

/// The push constant ranges of the pipeline layout that was set last.
#[derive(Clone, Debug, PartialEq, Eq)]
pub struct PushConstantState {
    pub ranges: Vec<PushConstantRange>,
    pub is_dirty: bool,
}

/// Whether two lists of ranges are equal.
pub fn ranges_equal(a: &Vec<PushConstantRange>, b: &Vec<PushConstantRange>) -> (r: bool)
    ensures
        r == (a@ == b@),
{
    if a.len() != b.len() {
        return false;
    }
    let mut i: usize = 0;
    while i < a.len()
        invariant
            i <= a@.len(),
            a@.len() == b@.len(),
            forall|j: int| 0 <= j < i ==> a@[j] == b@[j],
        decreases a@.len() - i,
    {
        let x = a[i];
        let y = b[i];
        if !(x.stages == y.stages && x.start == y.start && x.end == y.end) {
            assert(a@[i as int] != b@[i as int]);
            return false;
        }
        i += 1;
    }
    proof {
        assert(a@ =~= b@);
    }
    true
}

impl PushConstantState {
    /// The state before any pipeline is set.
    pub fn new() -> (r: Self)
        ensures
            r.ranges@ == Seq::<PushConstantRange>::empty(),
            !r.is_dirty,
    {
        PushConstantState { ranges: Vec::new(), is_dirty: false }
    }

    /// Takes the ranges of a new layout. If they are other ranges than before,
    /// the state is dirty and the answer is `true`.
    pub fn set_push_constants(&mut self, new_ranges: &Vec<PushConstantRange>) -> (r: bool)
        ensures
            r == (old(self).ranges@ != new_ranges@),
            final(self).ranges@ == new_ranges@,
            final(self).is_dirty == (old(self).is_dirty || r),
    {
        if !ranges_equal(&self.ranges, new_ranges) {
            let mut copy: Vec<PushConstantRange> = Vec::new();
            let mut i: usize = 0;
            while i < new_ranges.len()
                invariant
                    i <= new_ranges@.len(),
                    copy@ == new_ranges@.take(i as int),
                decreases new_ranges@.len() - i,
            {
                copy.push(new_ranges[i]);
                proof {
                    assert(new_ranges@.take(i as int + 1) =~= new_ranges@.take(i as int).push(
                        new_ranges@[i as int],
                    ));
                }
                i += 1;
            }
            proof {
                assert(new_ranges@.take(i as int) =~= new_ranges@);
            }
            self.ranges = copy;
            self.is_dirty = true;
            true
        } else {
            false
        }
    }
}

/// How many vertices and instances a draw can read: the capacity of the
/// shortest bound buffer of each rate, and the slot that it is bound to.
#[derive(Clone, Copy, Debug, PartialEq, Eq)]
pub struct VertexLimitState {
    /// The capacity of the shortest buffer that advances per vertex.
    pub vertex_limit: u64,
    /// The slot of that buffer.
    pub vertex_limit_slot: u32,
    /// The capacity of the shortest buffer that advances per instance.
    pub instance_limit: u64,
    /// The slot of that buffer.
    pub instance_limit_slot: u32,
}

/// The limits that the first `n` slots set. A slot whose stride is zero sets
/// none. Of two slots of one rate and one capacity, the lower slot is named.
/// Without any buffer the limit is the greatest number that a draw can name.
pub open spec fn vertex_limits_upto(vertex: Seq<VertexState>, n: int) -> VertexLimitState
    decreases n,
{
    if n <= 0 {
        VertexLimitState {
            vertex_limit: u32::MAX as u64,
            vertex_limit_slot: 0,
            instance_limit: u32::MAX as u64,
            instance_limit_slot: 0,
        }
    } else {
        let before = vertex_limits_upto(vertex, n - 1);
        let vbs = vertex[n - 1];
        if vbs.stride == 0 {
            before
        } else {
            match vbs.rate {
                VertexStepMode::Vertex => if vbs.capacity() < before.vertex_limit {
                    VertexLimitState {
                        vertex_limit: vbs.capacity(),
                        vertex_limit_slot: (n - 1) as u32,
                        ..before
                    }
                } else {
                    before
                },
                VertexStepMode::Instance => if vbs.capacity() < before.instance_limit {
                    VertexLimitState {
                        instance_limit: vbs.capacity(),
                        instance_limit_slot: (n - 1) as u32,
                        ..before
                    }
                } else {
                    before
                },
            }
        }
    }
}

/// The commands that flushing the first `n` vertex slots gives, in ascending slot order.
pub open spec fn vertex_flush_commands(vertex: Seq<VertexState>, n: int) -> Seq<RenderCommand>
    decreases n,
{
    if n <= 0 {
        Seq::empty()
    } else {
        let before = vertex_flush_commands(vertex, n - 1);
        if vertex[n - 1].is_dirty {
            before.push(vertex[n - 1].command((n - 1) as u32))
        } else {
            before
        }
    }
}

/// The lowest of the first `n` vertex slots that is dirty and holds no buffer.
pub open spec fn missing_vertex_buffer_upto(vertex: Seq<VertexState>, n: int) -> Option<u32>
    decreases n,
{
    if n <= 0 {
        None
    } else {
        match missing_vertex_buffer_upto(vertex, n - 1) {
            Some(slot) => Some(slot),
            None => if vertex[n - 1].is_dirty && vertex[n - 1].buffer is None {
                Some((n - 1) as u32)
            } else {
                None
            },
        }
    }
}

/// The commands that flushing the first `n` bind group slots gives, in ascending slot order.
pub open spec fn bind_flush_commands(bind: Seq<Option<BindState>>, n: int) -> Seq<RenderCommand>
    decreases n,
{
    if n <= 0 {
        Seq::empty()
    } else {
        let before = bind_flush_commands(bind, n - 1);
        match bind[n - 1] {
            Some(b) => if b.is_dirty {
                before.push(b.command(n - 1))
            } else {
                before
            },
            None => before,
        }
    }
}

/// The dynamic offsets of the dirty ones of the first `n` bind group slots, in
/// ascending slot order, taken from the array `offsets` of the recorded stream.
pub open spec fn bind_flush_offsets(bind: Seq<Option<BindState>>, offsets: Seq<u32>, n: int) -> Seq<
    u32,
>
    decreases n,
{
    if n <= 0 {
        Seq::empty()
    } else {
        let before = bind_flush_offsets(bind, offsets, n - 1);
        match bind[n - 1] {
            Some(b) => if b.is_dirty {
                before + offsets.subrange(
                    b.dynamic_offsets.start as int,
                    b.dynamic_offsets.end as int,
                )
            } else {
                before
            },
            None => before,
        }
    }
}

/// The lowest of the first `n` slots whose bind group has another layout than
/// the pipeline layout gives to the slot.
pub open spec fn first_mismatch_upto(
    bind: Seq<Option<BindState>>,
    layout_ids: Seq<BindGroupLayoutId>,
    n: int,
) -> Option<int>
    decreases n,
{
    if n <= 0 {
        None
    } else {
        match first_mismatch_upto(bind, layout_ids, n - 1) {
            Some(i) => Some(i),
            None => match bind[n - 1] {
                Some(b) => if b.layout_id != layout_ids[n - 1] {
                    Some(n - 1)
                } else {
                    None
                },
                None => None,
            },
        }
    }
}

/// The commands that clear the given ranges of push constants.
pub open spec fn clear_commands(ranges: Seq<PushConstantRange>) -> Seq<RenderCommand> {
    Seq::new(
        ranges.len(),
        |i: int|
            RenderCommand::SetPushConstant {
                stages: ranges[i].stages,
                offset: ranges[i].start,
                size_bytes: (ranges[i].end - ranges[i].start) as u32,
                values_offset: None,
            },
    )
}

/// The state that the compiler simulates.
#[derive(Clone, Debug, PartialEq, Eq)]
pub struct State {
    /// The resources that the bundle uses.
    pub trackers: RenderBundleScope,
    /// The index buffer.
    pub index: IndexState,
    /// The vertex buffer slots.
    pub vertex: Vec<VertexState>,
    /// The bind group slots.
    pub bind: Vec<Option<BindState>>,
    pub push_constant_ranges: PushConstantState,
    /// The dynamic offsets of the compiled stream.
    pub flat_dynamic_offsets: Vec<u32>,
    /// The number of bind group slots that the layout of the current pipeline has.
    pub used_bind_groups: usize,
    /// The current pipeline.
    pub pipeline: Option<RenderPipelineId>,
}

/// The contents of a `State`.
pub struct StateView {
    pub trackers: ScopeView,
    pub index: IndexState,
    pub vertex: Seq<VertexState>,
    pub bind: Seq<Option<BindState>>,
    pub push_constant_ranges: Seq<PushConstantRange>,
    pub push_constants_dirty: bool,
    pub flat_dynamic_offsets: Seq<u32>,
    pub used_bind_groups: usize,
    pub pipeline: Option<RenderPipelineId>,
}

impl StateView {
    /// The state before the first command.
    pub open spec fn initial() -> StateView {
        StateView {
            trackers: ScopeView::empty(),
            index: IndexState::spec_new(),
            vertex: Seq::new(MAX_VERTEX_BUFFERS as nat, |i: int| VertexState::spec_new()),
            bind: Seq::new(MAX_BIND_GROUPS as nat, |i: int| None),
            push_constant_ranges: Seq::empty(),
            push_constants_dirty: false,
            flat_dynamic_offsets: Seq::empty(),
            used_bind_groups: 0,
            pipeline: None,
        }
    }

    /// The state has all its slots, no more slots in use than it has, and the
    /// range of every bind group lies in an array of `offsets` dynamic offsets.
    pub open spec fn wf(self, offsets: nat) -> bool {
        &&& self.vertex.len() == MAX_VERTEX_BUFFERS
        &&& self.bind.len() == MAX_BIND_GROUPS
        &&& self.used_bind_groups <= MAX_BIND_GROUPS
        &&& forall|i: int|
            0 <= i < self.bind.len() ==> (#[trigger] self.bind[i] matches Some(b) ==> b.wf(offsets))
    }

    /// The limits on the vertices and instances of a draw.
    pub open spec fn vertex_limits(self) -> VertexLimitState {
        vertex_limits_upto(self.vertex, self.vertex.len() as int)
    }

    /// The state with every bind group from slot `index` on dirty.
    pub open spec fn invalidate_group_from(self, index: int) -> StateView {
        StateView {
            bind: Seq::new(self.bind.len(), |i: int| invalidated(self.bind[i], i, index)),
            ..self
        }
    }

    /// The state after a bind group is set in `slot`. Nothing changes where the
    /// slot holds this bind group and no dynamic offsets are given. Else the slot
    /// is dirty, and so is every bind group in a later slot.
    pub open spec fn set_bind_group(
        self,
        slot: u8,
        bind_group_id: BindGroupId,
        layout_id: BindGroupLayoutId,
        dynamic_offsets: OffsetRange,
    ) -> StateView {
        if dynamic_offsets.is_empty() && (self.bind[slot as int] matches Some(b)
            && b.bind_group_id == bind_group_id) {
            self
        } else {
            StateView {
                bind: self.bind.update(
                    slot as int,
                    Some(BindState { bind_group_id, layout_id, dynamic_offsets, is_dirty: true }),
                ),
                ..self
            }.invalidate_group_from(slot + 1)
        }
    }

    /// The slot from which the bind groups are dirty once a pipeline is set: the
    /// first if the push constant ranges are other ones, else the first whose
    /// bind group does not have the layout that the pipeline gives to the slot.
    pub open spec fn invalid_from(
        self,
        layout_ids: Seq<BindGroupLayoutId>,
        push_constant_layouts: Seq<PushConstantRange>,
    ) -> Option<int> {
        if self.push_constant_ranges != push_constant_layouts {
            Some(0)
        } else {
            first_mismatch_upto(
                self.bind,
                layout_ids,
                if layout_ids.len() < self.bind.len() {
                    layout_ids.len() as int
                } else {
                    self.bind.len() as int
                },
            )
        }
    }

    /// The state after a pipeline is set, of which the arguments are what the
    /// pipeline and its layout declare.
    pub open spec fn set_pipeline(
        self,
        index_format: Option<IndexFormat>,
        vertex_strides: Seq<(u64, VertexStepMode)>,
        layout_ids: Seq<BindGroupLayoutId>,
        push_constant_layouts: Seq<PushConstantRange>,
    ) -> StateView {
        let next = StateView {
            index: IndexState { pipeline_format: index_format, ..self.index },
            vertex: Seq::new(
                self.vertex.len(),
                |i: int|
                    if i < vertex_strides.len() {
                        self.vertex[i].with_stride(vertex_strides[i].0, vertex_strides[i].1)
                    } else {
                        self.vertex[i]
                    },
            ),
            push_constant_ranges: push_constant_layouts,
            push_constants_dirty: self.push_constants_dirty || self.push_constant_ranges
                != push_constant_layouts,
            used_bind_groups: layout_ids.len() as usize,
            ..self
        };
        match self.invalid_from(layout_ids, push_constant_layouts) {
            Some(slot) => next.invalidate_group_from(slot),
            None => next,
        }
    }

    /// The commands that a flush of the push constants gives: one that clears
    /// each of the ranges, taken apart so that they do not overlap; none while
    /// the ranges are not dirty.
    pub open spec fn push_constant_commands(self) -> Seq<RenderCommand> {
        if self.push_constants_dirty {
            clear_commands(nonoverlapping_ranges(self.push_constant_ranges))
        } else {
            Seq::empty()
        }
    }

    /// The lowest vertex slot that is dirty and holds no buffer.
    pub open spec fn missing_vertex_buffer(self) -> Option<u32> {
        missing_vertex_buffer_upto(self.vertex, self.vertex.len() as int)
    }

    /// The commands that a flush of the vertex slots gives.
    pub open spec fn vertex_commands(self) -> Seq<RenderCommand> {
        vertex_flush_commands(self.vertex, self.vertex.len() as int)
    }

    /// The state after a flush of the vertex slots: all are clean.
    pub open spec fn flush_vertices(self) -> StateView {
        StateView { vertex: Seq::new(self.vertex.len(), |i: int| self.vertex[i].flushed()), ..self }
    }

    /// The commands that a flush of the bind groups gives: one for each dirty
    /// bind group in a slot that is in use, in ascending slot order.
    pub open spec fn bind_commands(self) -> Seq<RenderCommand> {
        bind_flush_commands(self.bind, self.used_bind_groups as int)
    }

    /// The state after a flush of the bind groups: those in a slot that is in
    /// use are clean, and the dynamic offsets of those that were dirty are added
    /// to the offsets of the compiled stream, in ascending slot order.
    pub open spec fn flush_binds(self, dynamic_offsets: Seq<u32>) -> StateView {
        StateView {
            bind: Seq::new(
                self.bind.len(),
                |i: int| flushed_bind(self.bind[i], i, self.used_bind_groups as int),
            ),
            flat_dynamic_offsets: self.flat_dynamic_offsets + bind_flush_offsets(
                self.bind,
                dynamic_offsets,
                self.used_bind_groups as int,
            ),
            ..self
        }
    }
}

impl View for State {
    type V = StateView;

    open spec fn view(&self) -> StateView {
        StateView {
            trackers: self.trackers@,
            index: self.index,
            vertex: self.vertex@,
            bind: self.bind@,
            push_constant_ranges: self.push_constant_ranges.ranges@,
            push_constants_dirty: self.push_constant_ranges.is_dirty,
            flat_dynamic_offsets: self.flat_dynamic_offsets@,
            used_bind_groups: self.used_bind_groups,
            pipeline: self.pipeline,
        }
    }
}

impl State {
    /// The state before the first command.
    pub fn new() -> (r: Self)
        ensures
            r@ == StateView::initial(),
            r@.wf(0),
    {
        let mut vertex: Vec<VertexState> = Vec::new();
        let mut i: usize = 0;
        while i < MAX_VERTEX_BUFFERS
            invariant
                i <= MAX_VERTEX_BUFFERS,
                vertex@.len() == i,
                forall|j: int| 0 <= j < i ==> vertex@[j] == VertexState::spec_new(),
            decreases MAX_VERTEX_BUFFERS - i,
        {
            vertex.push(VertexState::new());
            i += 1;
        }
        let mut bind: Vec<Option<BindState>> = Vec::new();
        let mut k: usize = 0;
        while k < MAX_BIND_GROUPS
            invariant
                k <= MAX_BIND_GROUPS,
                bind@.len() == k,
                forall|j: int| 0 <= j < k ==> bind@[j] is None,
            decreases MAX_BIND_GROUPS - k,
        {
            bind.push(None);
            k += 1;
        }
        let r = State {
            trackers: RenderBundleScope::new(),
            index: IndexState::new(),
            vertex,
            bind,
            push_constant_ranges: PushConstantState::new(),
            flat_dynamic_offsets: Vec::new(),
            used_bind_groups: 0,
            pipeline: None,
        };
        proof {
            assert(r@.vertex =~= StateView::initial().vertex);
            assert(r@.bind =~= StateView::initial().bind);
        }
        r
    }

    /// The limits on the vertices and instances of a draw.
    pub fn vertex_limits(&self) -> (r: VertexLimitState)
        requires
            self@.vertex.len() <= u32::MAX,
        ensures
            r == self@.vertex_limits(),
    {
        let mut vert_state = VertexLimitState {
            vertex_limit: u32::MAX as u64,
            vertex_limit_slot: 0,
            instance_limit: u32::MAX as u64,
            instance_limit_slot: 0,
        };
        let mut idx: usize = 0;
        while idx < self.vertex.len()
            invariant
                idx <= self.vertex@.len(),
                self.vertex@.len() <= u32::MAX,
                vert_state == vertex_limits_upto(self.vertex@, idx as int),
            decreases self.vertex@.len() - idx,
        {
            let vbs = self.vertex[idx];
            if vbs.stride != 0 {
                let limit = vbs.range.len() / vbs.stride;
                match vbs.rate {
                    VertexStepMode::Vertex => {
                        if limit < vert_state.vertex_limit {
                            vert_state.vertex_limit = limit;
                            vert_state.vertex_limit_slot = idx as u32;
                        }
                    },
                    VertexStepMode::Instance => {
                        if limit < vert_state.instance_limit {
                            vert_state.instance_limit = limit;
                            vert_state.instance_limit_slot = idx as u32;
                        }
                    },
                }
            }
            idx += 1;
        }
        vert_state
    }

    /// Marks every bind group from slot `index` on as dirty.
    pub fn invalidate_group_from(&mut self, index: usize)
        ensures
            final(self)@ == old(self)@.invalidate_group_from(index as int),
    {
        let mut i: usize = index;
        while i < self.bind.len()
            invariant
                index <= i,
                self.bind@.len() == old(self).bind@.len(),
                forall|j: int|
                    0 <= j < self.bind@.len() ==> #[trigger] self.bind@[j] == if j < i {
                        invalidated(old(self).bind@[j], j, index as int)
                    } else {
                        old(self).bind@[j]
                    },
                self.trackers == old(self).trackers,
                self.index == old(self).index,
                self.vertex == old(self).vertex,
                self.push_constant_ranges == old(self).push_constant_ranges,
                self.flat_dynamic_offsets == old(self).flat_dynamic_offsets,
                self.used_bind_groups == old(self).used_bind_groups,
                self.pipeline == old(self).pipeline,
            decreases self.bind@.len() - i,
        {
            match self.bind[i] {
                Some(contents) => {
                    self.bind[i] = Some(BindState { is_dirty: true, ..contents });
                },
                None => {},
            }
            i += 1;
        }
        proof {
            assert(self@.bind =~= old(self)@.invalidate_group_from(index as int).bind);
        }
    }

    /// Sets a bind group in `slot`, with its layout and the range of its dynamic
    /// offsets in the array of the recorded stream.
    pub fn set_bind_group(
        &mut self,
        slot: u8,
        bind_group_id: BindGroupId,
        layout_id: BindGroupLayoutId,
        dynamic_offsets: OffsetRange,
    )
        requires
            slot < old(self)@.bind.len(),
        ensures
            final(self)@ == old(self)@.set_bind_group(slot, bind_group_id, layout_id, dynamic_offsets),
    {
        if dynamic_offsets.is_empty() {
            match self.bind[slot as usize] {
                Some(contents) => {
                    if contents.bind_group_id == bind_group_id {
                        return ;
                    }
                },
                None => {},
            }
        }
        self.bind[slot as usize] = Some(
            BindState { bind_group_id, layout_id, dynamic_offsets, is_dirty: true },
        );
        self.invalidate_group_from(slot as usize + 1);
    }

    /// The lowest slot whose bind group has another layout than the pipeline
    /// layout gives to the slot.
    fn first_mismatch(&self, layout_ids: &Vec<BindGroupLayoutId>) -> (r: Option<usize>)
        ensures
            first_mismatch_upto(
                self.bind@,
                layout_ids@,
                if layout_ids@.len() < self.bind@.len() {
                    layout_ids@.len() as int
                } else {
                    self.bind@.len() as int
                },
            ) == match r {
                Some(k) => Some(k as int),
                None => None,
            },
    {
        let n = if layout_ids.len() < self.bind.len() {
            layout_ids.len()
        } else {
            self.bind.len()
        };
        let mut i: usize = 0;
        while i < n
            invariant
                i <= n,
                n == if layout_ids@.len() < self.bind@.len() {
                    layout_ids@.len()
                } else {
                    self.bind@.len()
                },
                first_mismatch_upto(self.bind@, layout_ids@, i as int) is None,
            decreases n - i,
        {
            match self.bind[i] {
                Some(contents) => {
                    if contents.layout_id != layout_ids[i] {
                        proof {
                            assert(first_mismatch_upto(self.bind@, layout_ids@, i as int + 1) == Some(
                                i as int,
                            ));
                            lemma_first_mismatch_stays(self.bind@, layout_ids@, i as int + 1, n as int);
                        }
                        return Some(i);
                    }
                },
                None => {},
            }
            i += 1;
        }
        None
    }

    /// Sets a pipeline, of which the arguments are what the pipeline and its
    /// layout declare: vertex slots whose stride or rate changes are dirty, and
    /// the bind groups from the first that the new layout may not fit.
    pub fn set_pipeline(
        &mut self,
        index_format: Option<IndexFormat>,
        vertex_strides: &Vec<(u64, VertexStepMode)>,
        layout_ids: &Vec<BindGroupLayoutId>,
        push_constant_layouts: &Vec<PushConstantRange>,
    )
        ensures
            final(self)@ == old(self)@.set_pipeline(
                index_format,
                vertex_strides@,
                layout_ids@,
                push_constant_layouts@,
            ),
    {
        self.index.pipeline_format = index_format;
        let mut i: usize = 0;
        while i < self.vertex.len() && i < vertex_strides.len()
            invariant
                self.vertex@.len() == old(self).vertex@.len(),
                forall|j: int|
                    0 <= j < self.vertex@.len() ==> #[trigger] self.vertex@[j] == if j < i {
                        old(self).vertex@[j].with_stride(vertex_strides@[j].0, vertex_strides@[j].1)
                    } else {
                        old(self).vertex@[j]
                    },
                i <= self.vertex@.len(),
                i <= vertex_strides@.len(),
                self.trackers == old(self).trackers,
                self.index == (IndexState { pipeline_format: index_format, ..old(self).index }),
                self.bind == old(self).bind,
                self.push_constant_ranges == old(self).push_constant_ranges,
                self.flat_dynamic_offsets == old(self).flat_dynamic_offsets,
                self.used_bind_groups == old(self).used_bind_groups,
                self.pipeline == old(self).pipeline,
            decreases self.vertex@.len() - i,
        {
            let (stride, step_mode) = vertex_strides[i];
            let vs = self.vertex[i];
            if vs.stride != stride || !step_mode_eq(vs.rate, step_mode) {
                self.vertex[i] = VertexState { stride, rate: step_mode, is_dirty: true, ..vs };
            }
            i += 1;
        }
        let mismatch = self.first_mismatch(layout_ids);
        let changed = self.push_constant_ranges.set_push_constants(push_constant_layouts);
        let invalid_from: Option<usize> = if changed {
            Some(0)
        } else {
            mismatch
        };
        self.used_bind_groups = layout_ids.len();
        proof {
            assert(self.bind@ == old(self).bind@);
        }
        let ghost pre = self@;
        let ghost target = old(self)@.set_pipeline(
            index_format,
            vertex_strides@,
            layout_ids@,
            push_constant_layouts@,
        );
        proof {
            assert(pre.vertex =~= target.vertex);
        }
        match invalid_from {
            Some(slot) => {
                self.invalidate_group_from(slot);
                proof {
                    assert(self@.bind =~= target.bind);
                }
            },
            None => {
                proof {
                    assert(self@.bind =~= target.bind);
                }
            },
        }
    }

    /// The commands that clear the push constants of a newly set layout:
    /// `None` while the ranges are not dirty.
    pub fn flush_push_constants(&mut self) -> (r: Option<Vec<RenderCommand>>)
        ensures
            final(self)@ == old(self)@,
            old(self)@.push_constants_dirty ==> r is Some && r.unwrap()@ == old(
                self,
            )@.push_constant_commands(),
            !old(self)@.push_constants_dirty ==> r is None,
    {
        if self.push_constant_ranges.is_dirty {
            let ranges = compute_nonoverlapping_ranges(&self.push_constant_ranges.ranges);
            proof {
                law_nonoverlapping_ascending(self.push_constant_ranges.ranges@);
            }
            let mut out: Vec<RenderCommand> = Vec::new();
            let mut i: usize = 0;
            while i < ranges.len()
                invariant
                    i <= ranges@.len(),
                    out@ == clear_commands(ranges@).take(i as int),
                    forall|j: int|
                        0 <= j < ranges@.len() ==> (#[trigger] ranges@[j]).start <= ranges@[j].end,
                decreases ranges@.len() - i,
            {
                let range = ranges[i];
                out.push(
                    RenderCommand::SetPushConstant {
                        stages: range.stages,
                        offset: range.start,
                        size_bytes: range.end - range.start,
                        values_offset: None,
                    },
                );
                proof {
                    assert(clear_commands(ranges@).take(i as int + 1) =~= clear_commands(
                        ranges@,
                    ).take(i as int).push(clear_commands(ranges@)[i as int]));
                }
                i += 1;
            }
            proof {
                assert(clear_commands(ranges@).take(i as int) =~= clear_commands(ranges@));
            }
            Some(out)
        } else {
            None
        }
    }

    /// The lowest vertex slot that is dirty and holds no buffer.
    pub fn missing_vertex_buffer(&self) -> (r: Option<u32>)
        requires
            self@.vertex.len() <= u32::MAX,
        ensures
            r == self@.missing_vertex_buffer(),
    {
        let mut i: usize = 0;
        while i < self.vertex.len()
            invariant
                i <= self.vertex@.len(),
                self@.vertex.len() <= u32::MAX,
                missing_vertex_buffer_upto(self.vertex@, i as int) is None,
            decreases self.vertex@.len() - i,
        {
            let vs = self.vertex[i];
            if vs.is_dirty && vs.buffer.is_none() {
                proof {
                    lemma_missing_vertex_buffer_stays(
                        self.vertex@,
                        i as int + 1,
                        self.vertex@.len() as int,
                    );
                }
                return Some(i as u32);
            }
            i += 1;
        }
        None
    }

    /// Gives the commands that set the vertex buffers which the compiled stream
    /// lacks, in ascending slot order, and has every slot clean.
    pub fn flush_vertices(&mut self) -> (r: Vec<RenderCommand>)
        requires
            old(self)@.vertex.len() <= u32::MAX,
            old(self)@.missing_vertex_buffer() is None,
        ensures
            final(self)@ == old(self)@.flush_vertices(),
            r@ == old(self)@.vertex_commands(),
    {
        let mut out: Vec<RenderCommand> = Vec::new();
        let mut i: usize = 0;
        while i < self.vertex.len()
            invariant
                i <= self.vertex@.len(),
                self.vertex@.len() == old(self).vertex@.len(),
                self.vertex@.len() <= u32::MAX,
                missing_vertex_buffer_upto(old(self).vertex@, self.vertex@.len() as int) is None,
                forall|j: int|
                    0 <= j < self.vertex@.len() ==> #[trigger] self.vertex@[j] == if j < i {
                        old(self).vertex@[j].flushed()
                    } else {
                        old(self).vertex@[j]
                    },
                out@ == vertex_flush_commands(old(self).vertex@, i as int),
                self.trackers == old(self).trackers,
                self.index == old(self).index,
                self.bind == old(self).bind,
                self.push_constant_ranges == old(self).push_constant_ranges,
                self.flat_dynamic_offsets == old(self).flat_dynamic_offsets,
                self.used_bind_groups == old(self).used_bind_groups,
                self.pipeline == old(self).pipeline,
            decreases self.vertex@.len() - i,
        {
            let mut vs = self.vertex[i];
            proof {
                lemma_missing_vertex_buffer_none(old(self).vertex@, self.vertex@.len() as int, i as int);
            }
            match vs.flush(i as u32) {
                Some(command) => {
                    out.push(command);
                },
                None => {},
            }
            self.vertex[i] = vs;
            i += 1;
        }
        proof {
            assert(self@.vertex =~= old(self)@.flush_vertices().vertex);
        }
        out
    }

    /// Gives the commands that set the bind groups which the compiled stream
    /// lacks, in ascending slot order, for the slots that are in use; adds their
    /// dynamic offsets, taken from the array `dynamic_offsets` of the recorded
    /// stream, to those of the compiled stream; and has those slots clean.
    pub fn flush_binds(&mut self, dynamic_offsets: &Vec<u32>) -> (r: Vec<RenderCommand>)
        requires
            old(self)@.wf(dynamic_offsets@.len()),
        ensures
            final(self)@ == old(self)@.flush_binds(dynamic_offsets@),
            r@ == old(self)@.bind_commands(),
    {
        let used = self.used_bind_groups;
        let mut out: Vec<RenderCommand> = Vec::new();
        let mut i: usize = 0;
        while i < used
            invariant
                i <= used,
                used == old(self).used_bind_groups,
                old(self)@.wf(dynamic_offsets@.len()),
                self.bind@.len() == old(self).bind@.len(),
                forall|j: int|
                    0 <= j < self.bind@.len() ==> #[trigger] self.bind@[j] == if j < i {
                        flushed_bind(old(self).bind@[j], j, used as int)
                    } else {
                        old(self).bind@[j]
                    },
                out@ == bind_flush_commands(old(self).bind@, i as int),
                self.flat_dynamic_offsets@ == old(self).flat_dynamic_offsets@ + bind_flush_offsets(
                    old(self).bind@,
                    dynamic_offsets@,
                    i as int,
                ),
                self.trackers == old(self).trackers,
                self.index == old(self).index,
                self.vertex == old(self).vertex,
                self.push_constant_ranges == old(self).push_constant_ranges,
                self.used_bind_groups == old(self).used_bind_groups,
                self.pipeline == old(self).pipeline,
            decreases used - i,
        {
            match self.bind[i] {
                Some(contents) => {
                    if contents.is_dirty {
                        let offsets = contents.dynamic_offsets;
                        let ghost before = self.flat_dynamic_offsets@;
                        let mut k: usize = offsets.start;
                        while k < offsets.end
                            invariant
                                offsets.start <= k <= offsets.end,
                                offsets.end <= dynamic_offsets@.len(),
                                self.flat_dynamic_offsets@ == before + dynamic_offsets@.subrange(
                                    offsets.start as int,
                                    k as int,
                                ),
                                self.bind@.len() == old(self).bind@.len(),
                                forall|j: int|
                                    0 <= j < self.bind@.len() ==> #[trigger] self.bind@[j] == if j
                                        < i {
                                        flushed_bind(old(self).bind@[j], j, used as int)
                                    } else {
                                        old(self).bind@[j]
                                    },
                                self.trackers == old(self).trackers,
                                self.index == old(self).index,
                                self.vertex == old(self).vertex,
                                self.push_constant_ranges == old(self).push_constant_ranges,
                                self.used_bind_groups == old(self).used_bind_groups,
                                self.pipeline == old(self).pipeline,
                            decreases offsets.end - k,
                        {
                            self.flat_dynamic_offsets.push(dynamic_offsets[k]);
                            proof {
                                assert(dynamic_offsets@.subrange(offsets.start as int, k as int + 1)
                                    =~= dynamic_offsets@.subrange(
                                    offsets.start as int,
                                    k as int,
                                ).push(dynamic_offsets@[k as int]));
                                assert(before + dynamic_offsets@.subrange(
                                    offsets.start as int,
                                    k as int,
                                ).push(dynamic_offsets@[k as int]) =~= (before
                                    + dynamic_offsets@.subrange(
                                    offsets.start as int,
                                    k as int,
                                )).push(dynamic_offsets@[k as int]));
                            }
                            k += 1;
                        }
                        proof {
                            assert(before + dynamic_offsets@.subrange(
                                offsets.start as int,
                                offsets.start as int,
                            ) =~= before);
                            assert(old(self).flat_dynamic_offsets@ + (bind_flush_offsets(
                                old(self).bind@,
                                dynamic_offsets@,
                                i as int,
                            ) + dynamic_offsets@.subrange(
                                offsets.start as int,
                                offsets.end as int,
                            )) =~= before + dynamic_offsets@.subrange(
                                offsets.start as int,
                                offsets.end as int,
                            ));
                        }
                        self.bind[i] = Some(BindState { is_dirty: false, ..contents });
                        out.push(
                            RenderCommand::SetBindGroup {
                                index: i as u8,
                                bind_group_id: contents.bind_group_id,
                                num_dynamic_offsets: (offsets.end - offsets.start) as u8,
                            },
                        );
                    }
                },
                None => {},
            }
            i += 1;
        }
        proof {
            assert(self@.bind =~= old(self)@.flush_binds(dynamic_offsets@).bind);
        }
        out
    }
}

/// Whether two step modes are equal.
pub fn step_mode_eq(a: VertexStepMode, b: VertexStepMode) -> (r: bool)
    ensures
        r == (a == b),
{
    match a {
        VertexStepMode::Vertex => match b {
            VertexStepMode::Vertex => true,
            VertexStepMode::Instance => false,
        },
        VertexStepMode::Instance => match b {
            VertexStepMode::Vertex => false,
            VertexStepMode::Instance => true,
        },
    }
}

/// Whether a slot limits the draws at the given rate: it is read with a stride.
pub open spec fn limits_rate(v: VertexState, rate: VertexStepMode) -> bool {
    v.stride != 0 && v.rate == rate
}

/// The limits are those of the shortest buffers. The limit of a rate is no
/// more than the capacity of any slot that limits the rate, and no more than the
/// greatest number that a draw can name. Where it is less than that, the slot
/// that is named limits the rate, has that capacity, and is the lowest that has it.
pub proof fn law_vertex_limits_shortest(vertex: Seq<VertexState>, n: int)
    requires
        0 <= n <= vertex.len() <= u32::MAX,
    ensures
        ({
            let l = vertex_limits_upto(vertex, n);
            &&& l.vertex_limit <= u32::MAX
            &&& l.instance_limit <= u32::MAX
            &&& forall|i: int|
                0 <= i < n && limits_rate(#[trigger] vertex[i], VertexStepMode::Vertex)
                    ==> l.vertex_limit <= vertex[i].capacity()
            &&& forall|i: int|
                0 <= i < n && limits_rate(#[trigger] vertex[i], VertexStepMode::Instance)
                    ==> l.instance_limit <= vertex[i].capacity()
            &&& l.vertex_limit < u32::MAX ==> {
                &&& l.vertex_limit_slot < n
                &&& limits_rate(vertex[l.vertex_limit_slot as int], VertexStepMode::Vertex)
                &&& vertex[l.vertex_limit_slot as int].capacity() == l.vertex_limit
                &&& forall|i: int|
                    0 <= i < l.vertex_limit_slot && limits_rate(
                        #[trigger] vertex[i],
                        VertexStepMode::Vertex,
                    ) ==> l.vertex_limit < vertex[i].capacity()
            }
            &&& l.instance_limit < u32::MAX ==> {
                &&& l.instance_limit_slot < n
                &&& limits_rate(vertex[l.instance_limit_slot as int], VertexStepMode::Instance)
                &&& vertex[l.instance_limit_slot as int].capacity() == l.instance_limit
                &&& forall|i: int|
                    0 <= i < l.instance_limit_slot && limits_rate(
                        #[trigger] vertex[i],
                        VertexStepMode::Instance,
                    ) ==> l.instance_limit < vertex[i].capacity()
            }
        }),
    decreases n,
{
    if n > 0 {
        law_vertex_limits_shortest(vertex, n - 1);
        let before = vertex_limits_upto(vertex, n - 1);
        let l = vertex_limits_upto(vertex, n);
        let v = vertex[n - 1];
        assert(((n - 1) as u32) as int == n - 1);
        if limits_rate(v, VertexStepMode::Vertex) && v.capacity() < before.vertex_limit {
            assert(l.vertex_limit == v.capacity());
            assert(l.vertex_limit_slot == n - 1);
        } else {
            assert(l.vertex_limit == before.vertex_limit);
            assert(l.vertex_limit_slot == before.vertex_limit_slot);
        }
        if limits_rate(v, VertexStepMode::Instance) && v.capacity() < before.instance_limit {
            assert(l.instance_limit == v.capacity());
            assert(l.instance_limit_slot == n - 1);
        } else {
            assert(l.instance_limit == before.instance_limit);
            assert(l.instance_limit_slot == before.instance_limit_slot);
        }
    }
}

/// A mismatch among the first `n` slots is the first among the first `m`.
proof fn lemma_first_mismatch_stays(
    bind: Seq<Option<BindState>>,
    layout_ids: Seq<BindGroupLayoutId>,
    n: int,
    m: int,
)
    requires
        0 <= n <= m,
        first_mismatch_upto(bind, layout_ids, n) is Some,
    ensures
        first_mismatch_upto(bind, layout_ids, m) == first_mismatch_upto(bind, layout_ids, n),
        0 <= first_mismatch_upto(bind, layout_ids, n).unwrap() < n,
    decreases m,
{
    if n < m {
        lemma_first_mismatch_stays(bind, layout_ids, n, m - 1);
    } else {
        lemma_first_mismatch_bound(bind, layout_ids, n);
    }
}

/// A mismatch among the first `n` slots lies among them.
proof fn lemma_first_mismatch_bound(
    bind: Seq<Option<BindState>>,
    layout_ids: Seq<BindGroupLayoutId>,
    n: int,
)
    requires
        first_mismatch_upto(bind, layout_ids, n) is Some,
    ensures
        0 <= first_mismatch_upto(bind, layout_ids, n).unwrap() < n,
    decreases n,
{
    if n > 0 && first_mismatch_upto(bind, layout_ids, n - 1) is Some {
        lemma_first_mismatch_bound(bind, layout_ids, n - 1);
    }
}

/// A missing buffer among the first `n` slots is the first among the first `m`.
proof fn lemma_missing_vertex_buffer_stays(vertex: Seq<VertexState>, n: int, m: int)
    requires
        0 <= n <= m,
        missing_vertex_buffer_upto(vertex, n) is Some,
    ensures
        missing_vertex_buffer_upto(vertex, m) == missing_vertex_buffer_upto(vertex, n),
    decreases m,
{
    if n < m {
        lemma_missing_vertex_buffer_stays(vertex, n, m - 1);
    }
}

/// Where no buffer is missing among the first `n` slots, each dirty one holds a buffer.
pub proof fn lemma_missing_vertex_buffer_none(vertex: Seq<VertexState>, n: int, i: int)
    requires
        0 <= i < n,
        missing_vertex_buffer_upto(vertex, n) is None,
    ensures
        vertex[i].is_dirty ==> vertex[i].buffer is Some,
    decreases n,
{
    if i < n - 1 {
        lemma_missing_vertex_buffer_none(vertex, n - 1, i);
    }
}

} // verus!
