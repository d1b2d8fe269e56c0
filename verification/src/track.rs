//! The accumulator of the resources that a bundle uses, and how it uses them.

use vstd::prelude::*;
use crate::error::UsageConflict;
use crate::flags::{bits_contain, bits_intersect};
use crate::id::{BindGroupId, BufferId, RenderPipelineId, TextureId};

verus! {

/// A buffer is read by the host.
pub const BUFFER_USE_MAP_READ: u32 = 1 << 0;

/// A buffer is written by the host.
pub const BUFFER_USE_MAP_WRITE: u32 = 1 << 1;

/// A buffer is the source of a copy.
pub const BUFFER_USE_COPY_SRC: u32 = 1 << 2;

/// A buffer is the destination of a copy.
pub const BUFFER_USE_COPY_DST: u32 = 1 << 3;

/// A buffer is read as an index buffer.
pub const BUFFER_USE_INDEX: u32 = 1 << 4;

/// A buffer is read as a vertex buffer.
pub const BUFFER_USE_VERTEX: u32 = 1 << 5;

/// A buffer is read as a uniform buffer.
pub const BUFFER_USE_UNIFORM: u32 = 1 << 6;

/// A buffer is read as a storage buffer.
pub const BUFFER_USE_STORAGE_READ: u32 = 1 << 7;

/// A buffer is read and written as a storage buffer.
pub const BUFFER_USE_STORAGE_READ_WRITE: u32 = 1 << 8;

/// A buffer is read for the arguments of an indirect draw.
pub const BUFFER_USE_INDIRECT: u32 = 1 << 9;

/// The uses of a buffer that write it: each stands alone.
pub const BUFFER_USES_EXCLUSIVE: u32 = BUFFER_USE_MAP_WRITE | BUFFER_USE_COPY_DST
    | BUFFER_USE_STORAGE_READ_WRITE;

/// A texture is the source of a copy.
pub const TEXTURE_USE_COPY_SRC: u32 = 1 << 2;

/// A texture is the destination of a copy.
pub const TEXTURE_USE_COPY_DST: u32 = 1 << 3;

/// A texture is sampled.
pub const TEXTURE_USE_RESOURCE: u32 = 1 << 4;

/// A texture is a color attachment.
pub const TEXTURE_USE_COLOR_TARGET: u32 = 1 << 5;

/// A texture is a depth-stencil attachment that is only read.
pub const TEXTURE_USE_DEPTH_STENCIL_READ: u32 = 1 << 6;

/// A texture is a depth-stencil attachment that is written.
pub const TEXTURE_USE_DEPTH_STENCIL_WRITE: u32 = 1 << 7;

/// A texture is read as a storage texture.
pub const TEXTURE_USE_STORAGE_READ: u32 = 1 << 8;

/// A texture is read and written as a storage texture.
pub const TEXTURE_USE_STORAGE_READ_WRITE: u32 = 1 << 9;

/// The uses of a texture that stand alone.
pub const TEXTURE_USES_EXCLUSIVE: u32 = TEXTURE_USE_COPY_DST | TEXTURE_USE_COLOR_TARGET
    | TEXTURE_USE_DEPTH_STENCIL_WRITE | TEXTURE_USE_STORAGE_READ | TEXTURE_USE_STORAGE_READ_WRITE;

/// The uses that a resource is put to, by its handle.
#[derive(Clone, Copy, Debug, PartialEq, Eq, Structural)]
pub struct UsageEntry {
    pub id: u64,
    pub usage: u32,
}

/// Exactly one bit is set.
pub open spec fn spec_is_single_use(usage: u32) -> bool {
    usage != 0 && usage & ((usage - 1) as u32) == 0
}

/// Exactly one bit is set.
#[verifier::when_used_as_spec(spec_is_single_use)]
pub fn is_single_use(usage: u32) -> (r: bool)
    ensures
        r == spec_is_single_use(usage),
{
    usage != 0 && usage & (usage - 1) == 0
}

/// The uses cannot stand together: one of them is exclusive and it is not alone.
pub open spec fn spec_invalid_resource_state(usage: u32, exclusive: u32) -> bool {
    bits_intersect(usage, exclusive) && !spec_is_single_use(usage)
}

/// The uses cannot stand together: one of them is exclusive and it is not alone.
#[verifier::when_used_as_spec(spec_invalid_resource_state)]
pub fn invalid_resource_state(usage: u32, exclusive: u32) -> (r: bool)
    ensures
        r == spec_invalid_resource_state(usage, exclusive),
{
    usage & exclusive != 0 && !is_single_use(usage)
}

/// The index of the first entry for the handle.
pub open spec fn first_index(entries: Seq<UsageEntry>, id: u64) -> Option<int>
    decreases entries.len(),
{
    if entries.len() == 0 {
        None
    } else {
        match first_index(entries.drop_last(), id) {
            Some(i) => Some(i),
            None => if entries.last().id == id {
                Some(entries.len() - 1)
            } else {
                None
            },
        }
    }
}

/// What `first_index` finds is an entry for the handle, and none stands before it;
/// it finds none only where there is none.
pub proof fn lemma_first_index(entries: Seq<UsageEntry>, id: u64)
    ensures
        match first_index(entries, id) {
            Some(i) => 0 <= i < entries.len() && entries[i].id == id && forall|j: int|
                0 <= j < i ==> (#[trigger] entries[j]).id != id,
            None => forall|j: int| 0 <= j < entries.len() ==> (#[trigger] entries[j]).id != id,
        },
    decreases entries.len(),
{
    if entries.len() > 0 {
        let front = entries.drop_last();
        lemma_first_index(front, id);
        assert forall|j: int| 0 <= j < front.len() implies #[trigger] entries[j] == front[j] by {}
        match first_index(front, id) {
            Some(i) => {
                assert(entries[i] == front[i]);
            },
            None => {
                assert forall|j: int| 0 <= j < front.len() implies (#[trigger] entries[j]).id
                    != id by {
                    assert(front[j].id != id);
                }
            },
        }
    }
}

/// The first index with the handle is what `first_index` finds.
pub proof fn lemma_first_index_is(entries: Seq<UsageEntry>, id: u64, i: int)
    requires
        0 <= i < entries.len(),
        entries[i].id == id,
        forall|j: int| 0 <= j < i ==> (#[trigger] entries[j]).id != id,
    ensures
        first_index(entries, id) == Some(i),
{
    lemma_first_index(entries, id);
}

/// The entries after one more use of a resource: a new entry at the end for a
/// resource that has none, else the uses together in its entry; or, where those
/// cannot stand together, the uses together as the error.
pub open spec fn merge_usage(entries: Seq<UsageEntry>, id: u64, usage: u32, exclusive: u32) -> Result<
    Seq<UsageEntry>,
    u32,
> {
    match first_index(entries, id) {
        None => Ok(entries.push(UsageEntry { id, usage })),
        Some(i) => {
            let combined = entries[i].usage | usage;
            if spec_invalid_resource_state(combined, exclusive) {
                Err(combined)
            } else {
                Ok(entries.update(i, UsageEntry { id, usage: combined }))
            }
        },
    }
}

/// The entries after each of the uses `added`, in order; or the first that cannot
/// be merged, with the uses together.
pub open spec fn merge_usages(entries: Seq<UsageEntry>, added: Seq<UsageEntry>, exclusive: u32) -> Result<
    Seq<UsageEntry>,
    UsageEntry,
>
    decreases added.len(),
{
    if added.len() == 0 {
        Ok(entries)
    } else {
        match merge_usages(entries, added.drop_last(), exclusive) {
            Err(e) => Err(e),
            Ok(merged) => match merge_usage(merged, added.last().id, added.last().usage, exclusive) {
                Ok(s) => Ok(s),
                Err(combined) => Err(UsageEntry { id: added.last().id, usage: combined }),
            },
        }
    }
}

/// An error in merging a prefix of the uses is the error of merging them all.
pub proof fn lemma_merge_usages_prefix_error(
    entries: Seq<UsageEntry>,
    added: Seq<UsageEntry>,
    exclusive: u32,
    n: int,
)
    requires
        0 <= n <= added.len(),
        merge_usages(entries, added.take(n), exclusive) is Err,
    ensures
        merge_usages(entries, added, exclusive) == merge_usages(entries, added.take(n), exclusive),
    decreases added.len(),
{
    if n < added.len() {
        assert(added.drop_last().take(n) =~= added.take(n));
        lemma_merge_usages_prefix_error(entries, added.drop_last(), exclusive, n);
    } else {
        assert(added.take(n) =~= added);
    }
}

/// No resource has two entries.
pub open spec fn unique_ids(entries: Seq<UsageEntry>) -> bool {
    forall|i: int, j: int| 0 <= i < j < entries.len() ==> entries[i].id != entries[j].id
}

/// The entries hold the resource with at least the uses `usage`.
pub open spec fn uses(entries: Seq<UsageEntry>, id: u64, usage: u32) -> bool {
    exists|i: int|
        0 <= i < entries.len() && (#[trigger] entries[i]).id == id && bits_contain(
            entries[i].usage,
            usage,
        )
}

/// Merging a use keeps what the entries hold, adds the use, and gives no
/// resource a second entry.
pub proof fn lemma_merge_usage_keeps(entries: Seq<UsageEntry>, id: u64, usage: u32, exclusive: u32)
    requires
        merge_usage(entries, id, usage, exclusive) is Ok,
    ensures
        uses(merge_usage(entries, id, usage, exclusive).unwrap(), id, usage),
        forall|other: u64, held: u32|
            uses(entries, other, held) ==> uses(
                merge_usage(entries, id, usage, exclusive).unwrap(),
                other,
                held,
            ),
        unique_ids(entries) ==> unique_ids(merge_usage(entries, id, usage, exclusive).unwrap()),
{
    let out = merge_usage(entries, id, usage, exclusive).unwrap();
    lemma_first_index(entries, id);
    match first_index(entries, id) {
        None => {
            assert(usage & usage == usage) by (bit_vector);
            assert(out[entries.len() as int].id == id);
            assert forall|other: u64, held: u32| uses(entries, other, held) implies uses(
                out,
                other,
                held,
            ) by {
                let w = choose|w: int|
                    0 <= w < entries.len() && (#[trigger] entries[w]).id == other && bits_contain(
                        entries[w].usage,
                        held,
                    );
                assert(out[w] == entries[w]);
            }
        },
        Some(i) => {
            let old_usage = entries[i].usage;
            assert((old_usage | usage) & usage == usage) by (bit_vector);
            assert(out[i].id == id);
            assert forall|other: u64, held: u32| uses(entries, other, held) implies uses(
                out,
                other,
                held,
            ) by {
                let w = choose|w: int|
                    0 <= w < entries.len() && (#[trigger] entries[w]).id == other && bits_contain(
                        entries[w].usage,
                        held,
                    );
                if w == i {
                    assert(old_usage & held == held ==> (old_usage | usage) & held == held)
                        by (bit_vector);
                    assert(out[i].id == other);
                } else {
                    assert(out[w] == entries[w]);
                }
            }
        },
    }
}

/// Merging uses keeps what the entries hold, adds the uses, and gives no
/// resource a second entry.
pub proof fn lemma_merge_usages_keeps(
    entries: Seq<UsageEntry>,
    added: Seq<UsageEntry>,
    exclusive: u32,
)
    requires
        merge_usages(entries, added, exclusive) is Ok,
    ensures
        forall|k: int|
            0 <= k < added.len() ==> uses(
                merge_usages(entries, added, exclusive).unwrap(),
                (#[trigger] added[k]).id,
                added[k].usage,
            ),
        forall|other: u64, held: u32|
            uses(entries, other, held) ==> uses(
                merge_usages(entries, added, exclusive).unwrap(),
                other,
                held,
            ),
        unique_ids(entries) ==> unique_ids(merge_usages(entries, added, exclusive).unwrap()),
    decreases added.len(),
{
    if added.len() > 0 {
        let front = added.drop_last();
        let last = added.last();
        lemma_merge_usages_keeps(entries, front, exclusive);
        let mid = merge_usages(entries, front, exclusive).unwrap();
        lemma_merge_usage_keeps(mid, last.id, last.usage, exclusive);
        let out = merge_usages(entries, added, exclusive).unwrap();
        assert forall|k: int| 0 <= k < added.len() implies uses(
            out,
            (#[trigger] added[k]).id,
            added[k].usage,
        ) by {
            if k < front.len() {
                assert(front[k] == added[k]);
                assert(uses(mid, front[k].id, front[k].usage));
            }
        }
        assert forall|other: u64, held: u32| uses(entries, other, held) implies uses(
            out,
            other,
            held,
        ) by {
            assert(uses(mid, other, held));
        }
    }
}

/// A handle that is added is held, what was held stays, and none is held twice.
pub proof fn lemma_add_id_keeps(ids: Seq<u64>, id: u64)
    ensures
        add_id(ids, id).contains(id),
        forall|other: u64| ids.contains(other) ==> add_id(ids, id).contains(other),
        ids.no_duplicates() ==> add_id(ids, id).no_duplicates(),
{
    let out = add_id(ids, id);
    if !ids.contains(id) {
        assert(out[ids.len() as int] == id);
        assert forall|other: u64| ids.contains(other) implies out.contains(other) by {
            let w = choose|w: int| 0 <= w < ids.len() && ids[w] == other;
            assert(out[w] == other);
        }
        if ids.no_duplicates() {
            assert forall|i: int, j: int| 0 <= i < out.len() && 0 <= j < out.len() && i
                != j implies out[i] != out[j] by {
                if i < ids.len() && j < ids.len() {
                    assert(ids[i] != ids[j]);
                } else if i < ids.len() {
                    assert(ids.contains(ids[i]));
                } else {
                    assert(ids.contains(ids[j]));
                }
            }
        }
    }
}

/// Records one more use of a resource.
pub fn merge_usage_into(entries: &mut Vec<UsageEntry>, id: u64, usage: u32, exclusive: u32) -> (r:
    Result<(), u32>)
    ensures
        match merge_usage(old(entries)@, id, usage, exclusive) {
            Ok(s) => r is Ok && final(entries)@ == s,
            Err(combined) => r == Err::<(), u32>(combined) && final(entries)@ == old(entries)@,
        },
{
    let mut i: usize = 0;
    while i < entries.len()
        invariant
            i <= entries@.len(),
            entries@ == old(entries)@,
            forall|j: int| 0 <= j < i ==> (#[trigger] entries@[j]).id != id,
        decreases entries@.len() - i,
    {
        if entries[i].id == id {
            proof {
                lemma_first_index_is(entries@, id, i as int);
            }
            let combined = entries[i].usage | usage;
            if invalid_resource_state(combined, exclusive) {
                return Err(combined);
            }
            entries[i] = UsageEntry { id, usage: combined };
            return Ok(());
        }
        i += 1;
    }
    proof {
        lemma_first_index(entries@, id);
    }
    entries.push(UsageEntry { id, usage });
    Ok(())
}

/// Records each of the uses `added`, in order, up to the first that cannot be merged.
pub fn merge_usages_into(entries: &mut Vec<UsageEntry>, added: &Vec<UsageEntry>, exclusive: u32) -> (r:
    Result<(), UsageEntry>)
    ensures
        match merge_usages(old(entries)@, added@, exclusive) {
            Ok(s) => r is Ok && final(entries)@ == s,
            Err(e) => r == Err::<(), UsageEntry>(e),
        },
{
    let mut i: usize = 0;
    while i < added.len()
        invariant
            i <= added@.len(),
            merge_usages(old(entries)@, added@.take(i as int), exclusive) == Ok::<
                Seq<UsageEntry>,
                UsageEntry,
            >(entries@),
        decreases added@.len() - i,
    {
        let entry = added[i];
        proof {
            assert(added@.take(i as int + 1).drop_last() =~= added@.take(i as int));
        }
        match merge_usage_into(entries, entry.id, entry.usage, exclusive) {
            Ok(()) => {},
            Err(combined) => {
                proof {
                    lemma_merge_usages_prefix_error(old(entries)@, added@, exclusive, i as int + 1);
                }
                return Err(UsageEntry { id: entry.id, usage: combined });
            },
        }
        i += 1;
    }
    proof {
        assert(added@.take(i as int) =~= added@);
    }
    Ok(())
}

/// The handles after one more is used: it is added at the end unless it is there.
pub open spec fn add_id(ids: Seq<u64>, id: u64) -> Seq<u64> {
    if ids.contains(id) {
        ids
    } else {
        ids.push(id)
    }
}

/// Records that a resource is used.
pub fn add_id_into(ids: &mut Vec<u64>, id: u64)
    ensures
        final(ids)@ == add_id(old(ids)@, id),
{
    let mut i: usize = 0;
    while i < ids.len()
        invariant
            i <= ids@.len(),
            ids@ == old(ids)@,
            forall|j: int| 0 <= j < i ==> ids@[j] != id,
        decreases ids@.len() - i,
    {
        if ids[i] == id {
            assert(ids@.contains(id));
            return ;
        }
        i += 1;
    }
    ids.push(id);
}

/// The buffers and textures that a bind group uses, each with its uses.
#[derive(Clone, Debug, PartialEq, Eq)]
pub struct BindGroupStates {
    pub buffers: Vec<UsageEntry>,
    pub textures: Vec<UsageEntry>,
}

/// Every resource that a bundle refers to: buffers and textures with their uses,
/// bind groups, pipelines and query sets by their handles.
#[derive(Clone, Debug, PartialEq, Eq)]
pub struct RenderBundleScope {
    pub buffers: Vec<UsageEntry>,
    pub textures: Vec<UsageEntry>,
    pub bind_groups: Vec<u64>,
    pub render_pipelines: Vec<u64>,
    pub query_sets: Vec<u64>,
}

/// The contents of a `RenderBundleScope`.
pub struct ScopeView {
    pub buffers: Seq<UsageEntry>,
    pub textures: Seq<UsageEntry>,
    pub bind_groups: Seq<u64>,
    pub render_pipelines: Seq<u64>,
    pub query_sets: Seq<u64>,
}

impl ScopeView {
    /// No resource occurs twice in a list.
    pub open spec fn wf(self) -> bool {
        &&& unique_ids(self.buffers)
        &&& unique_ids(self.textures)
        &&& self.bind_groups.no_duplicates()
        &&& self.render_pipelines.no_duplicates()
        &&& self.query_sets.no_duplicates()
    }

    /// The scope that holds nothing.
    pub open spec fn empty() -> ScopeView {
        ScopeView {
            buffers: Seq::empty(),
            textures: Seq::empty(),
            bind_groups: Seq::empty(),
            render_pipelines: Seq::empty(),
            query_sets: Seq::empty(),
        }
    }

    /// The scope after a bind group is used.
    pub open spec fn add_bind_group(self, id: BindGroupId) -> ScopeView {
        ScopeView { bind_groups: add_id(self.bind_groups, id.0), ..self }
    }

    /// The scope after a pipeline is used.
    pub open spec fn add_render_pipeline(self, id: RenderPipelineId) -> ScopeView {
        ScopeView { render_pipelines: add_id(self.render_pipelines, id.0), ..self }
    }

    /// The scope after one more use of a buffer, or the conflict.
    pub open spec fn merge_buffer(self, id: BufferId, usage: u32) -> Result<ScopeView, UsageConflict> {
        match merge_usage(self.buffers, id.0, usage, BUFFER_USES_EXCLUSIVE) {
            Ok(buffers) => Ok(ScopeView { buffers, ..self }),
            Err(combined_use) => Err(UsageConflict::Buffer { id, combined_use }),
        }
    }

    /// The scope after the uses of a bind group, first of its buffers, then of
    /// its textures; or the first conflict.
    pub open spec fn merge_bind_group(self, used: &BindGroupStates) -> Result<
        ScopeView,
        UsageConflict,
    > {
        match merge_usages(self.buffers, used.buffers@, BUFFER_USES_EXCLUSIVE) {
            Err(e) => Err(UsageConflict::Buffer { id: BufferId(e.id), combined_use: e.usage }),
            Ok(buffers) => match merge_usages(self.textures, used.textures@, TEXTURE_USES_EXCLUSIVE) {
                Err(e) => Err(
                    UsageConflict::Texture { id: TextureId(e.id), combined_use: e.usage },
                ),
                Ok(textures) => Ok(ScopeView { buffers, textures, ..self }),
            },
        }
    }
}

impl View for RenderBundleScope {
    type V = ScopeView;

    open spec fn view(&self) -> ScopeView {
        ScopeView {
            buffers: self.buffers@,
            textures: self.textures@,
            bind_groups: self.bind_groups@,
            render_pipelines: self.render_pipelines@,
            query_sets: self.query_sets@,
        }
    }
}

impl RenderBundleScope {
    /// A scope that holds nothing.
    pub fn new() -> (r: Self)
        ensures
            r@ == ScopeView::empty(),
    {
        RenderBundleScope {
            buffers: Vec::new(),
            textures: Vec::new(),
            bind_groups: Vec::new(),
            render_pipelines: Vec::new(),
            query_sets: Vec::new(),
        }
    }

    /// Records that a bind group is used.
    pub fn add_bind_group(&mut self, id: BindGroupId)
        ensures
            final(self)@ == old(self)@.add_bind_group(id),
    {
        add_id_into(&mut self.bind_groups, id.0);
    }

    /// Records that a pipeline is used.
    pub fn add_render_pipeline(&mut self, id: RenderPipelineId)
        ensures
            final(self)@ == old(self)@.add_render_pipeline(id),
    {
        add_id_into(&mut self.render_pipelines, id.0);
    }

    /// Records one more use of a buffer.
    pub fn merge_buffer(&mut self, id: BufferId, usage: u32) -> (r: Result<(), UsageConflict>)
        ensures
            match old(self)@.merge_buffer(id, usage) {
                Ok(s) => r is Ok && final(self)@ == s,
                Err(e) => r == Err::<(), UsageConflict>(e),
            },
    {
        match merge_usage_into(&mut self.buffers, id.0, usage, BUFFER_USES_EXCLUSIVE) {
            Ok(()) => Ok(()),
            Err(combined_use) => Err(UsageConflict::Buffer { id, combined_use }),
        }
    }

    /// Records the uses of a bind group.
    pub fn merge_bind_group(&mut self, used: &BindGroupStates) -> (r: Result<(), UsageConflict>)
        ensures
            match old(self)@.merge_bind_group(used) {
                Ok(s) => r is Ok && final(self)@ == s,
                Err(e) => r == Err::<(), UsageConflict>(e),
            },
    {
        match merge_usages_into(&mut self.buffers, &used.buffers, BUFFER_USES_EXCLUSIVE) {
            Ok(()) => {},
            Err(e) => {
                return Err(UsageConflict::Buffer { id: BufferId(e.id), combined_use: e.usage });
            },
        }
        match merge_usages_into(&mut self.textures, &used.textures, TEXTURE_USES_EXCLUSIVE) {
            Ok(()) => Ok(()),
            Err(e) => Err(UsageConflict::Texture { id: TextureId(e.id), combined_use: e.usage }),
        }
    }
}

} // verus!
