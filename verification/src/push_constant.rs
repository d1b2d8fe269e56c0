//! Push constant ranges: the ranges that a layout declares taken apart into
//! ranges that do not overlap, and the check of an upload against a layout.

use vstd::prelude::*;
use crate::command::{PushConstantRange, PUSH_CONSTANT_ALIGNMENT};
use crate::error::PushConstantUploadError;
use crate::flags::ShaderStages;

verus! {

/// The stages that can read the byte at `at`: those of every range that holds it.
pub open spec fn covering_stages(ranges: Seq<PushConstantRange>, at: u32) -> u32
    decreases ranges.len(),
{
    if ranges.len() == 0 {
        0
    } else {
        let rest = covering_stages(ranges.drop_last(), at);
        let r = ranges.last();
        if r.start <= at && at < r.end {
            rest | r.stages.bits
        } else {
            rest
        }
    }
}

/// The ascending points `points` with `x` among them.
pub open spec fn insert_point(points: Seq<u32>, x: u32) -> Seq<u32>
    decreases points.len(),
{
    if points.len() == 0 {
        seq![x]
    } else if points.last() < x {
        points.push(x)
    } else if points.last() == x {
        points
    } else {
        insert_point(points.drop_last(), x).push(points.last())
    }
}

/// The offsets at which a range starts or ends, ascending, each once.
pub open spec fn break_points(ranges: Seq<PushConstantRange>) -> Seq<u32>
    decreases ranges.len(),
{
    if ranges.len() == 0 {
        Seq::empty()
    } else {
        insert_point(
            insert_point(break_points(ranges.drop_last()), ranges.last().start),
            ranges.last().end,
        )
    }
}

/// For each of the first `n` gaps between neighbouring points, in order, the
/// range from the one point to the next with the stages that can read it; a gap
/// that no stage can read is left out.
pub open spec fn ranges_between(ranges: Seq<PushConstantRange>, points: Seq<u32>, n: int) -> Seq<
    PushConstantRange,
>
    decreases n,
{
    if n <= 0 {
        Seq::empty()
    } else {
        let before = ranges_between(ranges, points, n - 1);
        let stages = covering_stages(ranges, points[n - 1]);
        if stages != 0 {
            before.push(
                PushConstantRange {
                    stages: ShaderStages { bits: stages },
                    start: points[n - 1],
                    end: points[n],
                },
            )
        } else {
            before
        }
    }
}

/// The greatest of the first `n + 1` points that is not behind the byte `at`.
pub open spec fn piece_start(points: Seq<u32>, n: int, at: u32) -> u32
    decreases n,
{
    if n <= 0 {
        points[0]
    } else if points[n - 1] <= at {
        points[n - 1]
    } else {
        piece_start(points, n - 1, at)
    }
}

/// The ranges taken apart at every offset where one of them starts or ends: the
/// pieces in ascending order, each with the stages of all the ranges that hold it.
pub open spec fn nonoverlapping_ranges(ranges: Seq<PushConstantRange>) -> Seq<PushConstantRange> {
    let points = break_points(ranges);
    ranges_between(ranges, points, points.len() - 1)
}

/// The points ascend strictly.
pub open spec fn ascending(points: Seq<u32>) -> bool {
    forall|i: int, j: int| 0 <= i < j < points.len() ==> points[i] < points[j]
}

/// Putting a point among ascending points leaves them ascending, and adds no
/// other point.
proof fn lemma_insert_point_ascending(points: Seq<u32>, x: u32)
    requires
        ascending(points),
    ensures
        ascending(insert_point(points, x)),
        forall|k: int|
            0 <= k < insert_point(points, x).len() ==> (#[trigger] insert_point(points, x)[k]) == x
                || points.contains(insert_point(points, x)[k]),
    decreases points.len(),
{
    let out = insert_point(points, x);
    if points.len() == 0 {
    } else if points.last() < x {
        assert forall|k: int| 0 <= k < out.len() implies (#[trigger] out[k]) == x
            || points.contains(out[k]) by {
            if k < points.len() {
                assert(points[k] == out[k]);
            }
        }
    } else if points.last() == x {
    } else {
        let front = points.drop_last();
        let inner = insert_point(front, x);
        assert(ascending(front));
        lemma_insert_point_ascending(front, x);
        assert forall|k: int| 0 <= k < out.len() implies (#[trigger] out[k]) == x
            || points.contains(out[k]) by {
            if k < inner.len() {
                if inner[k] != x {
                    let w = choose|w: int| 0 <= w < front.len() && front[w] == inner[k];
                    assert(points[w] == out[k]);
                }
            } else {
                assert(points[points.len() - 1] == out[k]);
            }
        }
        assert forall|i: int, j: int| 0 <= i < j < out.len() implies out[i] < out[j] by {
            if j == inner.len() {
                if inner[i] != x {
                    let w = choose|w: int| 0 <= w < front.len() && front[w] == inner[i];
                    assert(points[w] < points[points.len() - 1]);
                }
            }
        }
    }
}

/// The break points of ranges ascend strictly.
proof fn lemma_break_points_ascending(ranges: Seq<PushConstantRange>)
    ensures
        ascending(break_points(ranges)),
    decreases ranges.len(),
{
    if ranges.len() > 0 {
        lemma_break_points_ascending(ranges.drop_last());
        let first = insert_point(break_points(ranges.drop_last()), ranges.last().start);
        lemma_insert_point_ascending(break_points(ranges.drop_last()), ranges.last().start);
        lemma_insert_point_ascending(first, ranges.last().end);
    }
}

/// The pieces between ascending points lie one behind the other, none is empty,
/// and each has a stage.
proof fn lemma_ranges_between_ascending(ranges: Seq<PushConstantRange>, points: Seq<u32>, n: int)
    requires
        ascending(points),
        n < points.len(),
    ensures
        forall|k: int|
            0 <= k < ranges_between(ranges, points, n).len() ==> {
                let e = #[trigger] ranges_between(ranges, points, n)[k];
                e.start < e.end && e.end <= points[n] && e.stages.bits != 0
            },
        forall|i: int, j: int|
            0 <= i < j < ranges_between(ranges, points, n).len() ==> ranges_between(
                ranges,
                points,
                n,
            )[i].end <= ranges_between(ranges, points, n)[j].start,
    decreases n,
{
    if n > 0 {
        lemma_ranges_between_ascending(ranges, points, n - 1);
        let before = ranges_between(ranges, points, n - 1);
        let out = ranges_between(ranges, points, n);
        assert forall|k: int| 0 <= k < out.len() implies {
            let e = #[trigger] out[k];
            e.start < e.end && e.end <= points[n] && e.stages.bits != 0
        } by {
            if k < before.len() {
                assert(out[k] == before[k]);
                if n - 1 > 0 {
                    assert(before[k].end <= points[n - 1]);
                }
            }
        }
        assert forall|i: int, j: int| 0 <= i < j < out.len() implies out[i].end
            <= out[j].start by {
            assert(out[i] == before[i]);
            if j < before.len() {
                assert(out[j] == before[j]);
            } else {
                assert(before[i].end <= points[n - 1]);
            }
        }
    }
}

/// Every byte keeps its stages: the stages that can read a byte under the
/// ranges that `compute_nonoverlapping_ranges` gives are the stages that can read
/// it under the ranges that it was given.
pub proof fn law_nonoverlapping_keeps_stages(ranges: Seq<PushConstantRange>, at: u32)
    ensures
        covering_stages(nonoverlapping_ranges(ranges), at) == covering_stages(ranges, at),
{
    let points = break_points(ranges);
    lemma_break_points_ascending(ranges);
    if points.len() == 0 {
        assert forall|i: int| 0 <= i < ranges.len() implies !((#[trigger] ranges[i]).start <= at
            < ranges[i].end) by {
            lemma_break_points_contain(ranges, i);
        }
        lemma_covering_outside(ranges, at);
    } else {
        let n = points.len() - 1;
        lemma_covering_pieces(ranges, points, n, at);
        if points[0] <= at < points[n] {
            let low = piece_start(points, n, at);
            let k = choose|k: int|
                0 <= k < n && points[k] == piece_start(points, n, at) && at < #[trigger] points[k
                    + 1];
            assert forall|i: int| 0 <= i < ranges.len() implies !(low < (#[trigger] ranges[i]).start
                <= at) && !(low < ranges[i].end <= at) by {
                lemma_break_points_contain(ranges, i);
                let a = choose|a: int| 0 <= a < points.len() && points[a] == ranges[i].start;
                let b = choose|b: int| 0 <= b < points.len() && points[b] == ranges[i].end;
                if a <= k {
                    if a < k {
                        assert(points[a] < points[k]);
                    }
                } else {
                    if k + 1 < a {
                        assert(points[k + 1] < points[a]);
                    }
                }
                if b <= k {
                    if b < k {
                        assert(points[b] < points[k]);
                    }
                } else {
                    if k + 1 < b {
                        assert(points[k + 1] < points[b]);
                    }
                }
            }
            lemma_covering_between(ranges, low, at);
        } else {
            assert forall|i: int| 0 <= i < ranges.len() implies !((#[trigger] ranges[i]).start <= at
                < ranges[i].end) by {
                lemma_break_points_contain(ranges, i);
                let a = choose|a: int| 0 <= a < points.len() && points[a] == ranges[i].start;
                let b = choose|b: int| 0 <= b < points.len() && points[b] == ranges[i].end;
                if 0 < a {
                    assert(points[0] < points[a]);
                }
                if b < n {
                    assert(points[b] < points[n]);
                }
            }
            lemma_covering_outside(ranges, at);
        }
    }
}

/// The ranges that `compute_nonoverlapping_ranges` gives do not overlap: they
/// lie one behind the other in ascending order, none is empty, and each has a stage.
pub proof fn law_nonoverlapping_ascending(ranges: Seq<PushConstantRange>)
    ensures
        forall|k: int|
            0 <= k < nonoverlapping_ranges(ranges).len() ==> {
                let e = #[trigger] nonoverlapping_ranges(ranges)[k];
                e.start < e.end && e.stages.bits != 0
            },
        forall|i: int, j: int|
            0 <= i < j < nonoverlapping_ranges(ranges).len() ==> nonoverlapping_ranges(ranges)[i].end
                <= nonoverlapping_ranges(ranges)[j].start,
{
    let points = break_points(ranges);
    lemma_break_points_ascending(ranges);
    if points.len() > 0 {
        lemma_ranges_between_ascending(ranges, points, points.len() - 1);
    }
}

/// A point that is put among points is among them afterwards, and so are
/// the points that were.
proof fn lemma_insert_point_contains(points: Seq<u32>, x: u32)
    ensures
        insert_point(points, x).contains(x),
        forall|y: u32| points.contains(y) ==> insert_point(points, x).contains(y),
    decreases points.len(),
{
    let out = insert_point(points, x);
    if points.len() == 0 {
        assert(out[0] == x);
    } else if points.last() < x {
        assert(out[points.len() as int] == x);
        assert forall|y: u32| points.contains(y) implies out.contains(y) by {
            let w = choose|w: int| 0 <= w < points.len() && points[w] == y;
            assert(out[w] == y);
        }
    } else if points.last() == x {
        assert(points[points.len() - 1] == x);
    } else {
        let front = points.drop_last();
        let inner = insert_point(front, x);
        lemma_insert_point_contains(front, x);
        let w = choose|w: int| 0 <= w < inner.len() && inner[w] == x;
        assert(out[w] == x);
        assert forall|y: u32| points.contains(y) implies out.contains(y) by {
            let v = choose|v: int| 0 <= v < points.len() && points[v] == y;
            if v < front.len() {
                assert(front[v] == y);
                assert(front.contains(y));
                assert(inner.contains(y));
                let u = choose|u: int| 0 <= u < inner.len() && inner[u] == y;
                assert(out[u] == y);
            } else {
                assert(out[inner.len() as int] == y);
            }
        }
    }
}

/// The start and the end of every range are among the break points.
proof fn lemma_break_points_contain(ranges: Seq<PushConstantRange>, i: int)
    requires
        0 <= i < ranges.len(),
    ensures
        break_points(ranges).contains(ranges[i].start),
        break_points(ranges).contains(ranges[i].end),
    decreases ranges.len(),
{
    let front = ranges.drop_last();
    let first = insert_point(break_points(front), ranges.last().start);
    lemma_insert_point_contains(break_points(front), ranges.last().start);
    lemma_insert_point_contains(first, ranges.last().end);
    if i < ranges.len() - 1 {
        lemma_break_points_contain(front, i);
        assert(front[i] == ranges[i]);
    }
}

/// Two bytes between which no range starts or ends are read by the same stages.
proof fn lemma_covering_between(ranges: Seq<PushConstantRange>, low: u32, at: u32)
    requires
        low <= at,
        forall|i: int|
            0 <= i < ranges.len() ==> !(low < (#[trigger] ranges[i]).start <= at) && !(low
                < ranges[i].end <= at),
    ensures
        covering_stages(ranges, at) == covering_stages(ranges, low),
    decreases ranges.len(),
{
    if ranges.len() > 0 {
        let front = ranges.drop_last();
        assert forall|i: int| 0 <= i < front.len() implies !(low < (#[trigger] front[i]).start
            <= at) && !(low < front[i].end <= at) by {
            assert(front[i] == ranges[i]);
        }
        lemma_covering_between(front, low, at);
        assert(!(low < ranges[ranges.len() - 1].start <= at));
        assert(!(low < ranges[ranges.len() - 1].end <= at));
    }
}

/// A byte that lies in none of the ranges is read by no stage.
proof fn lemma_covering_outside(ranges: Seq<PushConstantRange>, at: u32)
    requires
        forall|i: int| 0 <= i < ranges.len() ==> !((#[trigger] ranges[i]).start <= at < ranges[i].end),
    ensures
        covering_stages(ranges, at) == 0,
    decreases ranges.len(),
{
    if ranges.len() > 0 {
        let front = ranges.drop_last();
        assert forall|i: int| 0 <= i < front.len() implies !((#[trigger] front[i]).start <= at
            < front[i].end) by {
            assert(front[i] == ranges[i]);
        }
        lemma_covering_outside(front, at);
        assert(!(ranges[ranges.len() - 1].start <= at < ranges[ranges.len() - 1].end));
    }
}

/// The stages that read a byte of the pieces between the first `n + 1`
/// ascending points: those that read the point before it, if the byte lies
/// between two of them, and none elsewhere.
proof fn lemma_covering_pieces(ranges: Seq<PushConstantRange>, points: Seq<u32>, n: int, at: u32)
    requires
        ascending(points),
        0 <= n < points.len(),
    ensures
        covering_stages(ranges_between(ranges, points, n), at) == if points[0] <= at < points[n] {
            covering_stages(ranges, piece_start(points, n, at))
        } else {
            0
        },
        points[0] <= at < points[n] ==> piece_start(points, n, at) <= at && exists|k: int|
            0 <= k < n && points[k] == piece_start(points, n, at) && at < #[trigger] points[k + 1],
    decreases n,
{
    if n > 0 {
        lemma_covering_pieces(ranges, points, n - 1, at);
        let before = ranges_between(ranges, points, n - 1);
        let stages = covering_stages(ranges, points[n - 1]);
        assert(points[n - 1] < points[n]);
        assert(points[0] <= points[n - 1]) by {
            if n - 1 > 0 {
                assert(points[0] < points[n - 1]);
            }
        }
        if stages != 0 {
            let piece = PushConstantRange {
                stages: ShaderStages { bits: stages },
                start: points[n - 1],
                end: points[n],
            };
            assert(before.push(piece).drop_last() =~= before);
            let rest = covering_stages(before, at);
            if points[n - 1] <= at < points[n] {
                assert(rest == 0);
                assert(0u32 | stages == stages) by (bit_vector);
            }
        }
        if points[n - 1] <= at < points[n] {
            assert(points[n - 1] == piece_start(points, n, at));
            assert(at < points[(n - 1) + 1]);
        } else if points[0] <= at < points[n - 1] {
            let k = choose|k: int|
                0 <= k < n - 1 && points[k] == piece_start(points, n - 1, at) && at
                    < #[trigger] points[k + 1];
            assert(at < points[k + 1]);
        }
    }
}

/// Where `x` goes among the points: behind the first `i`, when those behind are
/// all greater and the one before is not.
proof fn lemma_insert_point_at(points: Seq<u32>, x: u32, i: int)
    requires
        0 <= i <= points.len(),
        forall|j: int| i <= j < points.len() ==> points[j] > x,
        i > 0 ==> points[i - 1] <= x,
    ensures
        insert_point(points, x) == if i > 0 && points[i - 1] == x {
            points
        } else {
            points.take(i).push(x) + points.skip(i)
        },
    decreases points.len(),
{
    if points.len() == 0 {
        assert(points.take(0).push(x) + points.skip(0) =~= seq![x]);
    } else if i == points.len() {
        if points.last() != x {
            assert(points.take(i).push(x) + points.skip(i) =~= points.push(x));
        }
    } else {
        let front = points.drop_last();
        lemma_insert_point_at(front, x, i);
        assert(front.take(i) =~= points.take(i));
        if i > 0 && points[i - 1] == x {
            assert(front.push(points.last()) =~= points);
        } else {
            assert((front.take(i).push(x) + front.skip(i)).push(points.last()) =~= points.take(
                i,
            ).push(x) + points.skip(i));
        }
    }
}

/// Puts `x` among the ascending points, unless it is there.
fn insert_point_into(points: &mut Vec<u32>, x: u32)
    ensures
        final(points)@ == insert_point(old(points)@, x),
{
    let mut i: usize = points.len();
    while i > 0 && points[i - 1] > x
        invariant
            i <= points@.len(),
            points@ == old(points)@,
            forall|j: int| i <= j < points@.len() ==> points@[j] > x,
        decreases i,
    {
        i -= 1;
    }
    proof {
        lemma_insert_point_at(points@, x, i as int);
    }
    if i > 0 && points[i - 1] == x {
        return ;
    }
    points.insert(i, x);
    proof {
        assert(points@ =~= old(points)@.take(i as int).push(x) + old(points)@.skip(i as int));
    }
}

/// The stages that can read the byte at `at`.
fn covering_stages_of(ranges: &Vec<PushConstantRange>, at: u32) -> (r: u32)
    ensures
        r == covering_stages(ranges@, at),
{
    let mut stages: u32 = 0;
    let mut i: usize = 0;
    while i < ranges.len()
        invariant
            i <= ranges@.len(),
            stages == covering_stages(ranges@.take(i as int), at),
        decreases ranges@.len() - i,
    {
        proof {
            assert(ranges@.take(i as int + 1).drop_last() =~= ranges@.take(i as int));
        }
        let r = ranges[i];
        if r.start <= at && at < r.end {
            stages = stages | r.stages.bits;
        }
        i += 1;
    }
    proof {
        assert(ranges@.take(i as int) =~= ranges@);
    }
    stages
}

/// Takes ranges that may overlap apart into ranges that do not, such that every
/// byte keeps the stages of all the ranges that held it.
pub fn compute_nonoverlapping_ranges(ranges: &Vec<PushConstantRange>) -> (r: Vec<PushConstantRange>)
    ensures
        r@ == nonoverlapping_ranges(ranges@),
{
    let mut points: Vec<u32> = Vec::new();
    let mut i: usize = 0;
    while i < ranges.len()
        invariant
            i <= ranges@.len(),
            points@ == break_points(ranges@.take(i as int)),
        decreases ranges@.len() - i,
    {
        proof {
            assert(ranges@.take(i as int + 1).drop_last() =~= ranges@.take(i as int));
        }
        insert_point_into(&mut points, ranges[i].start);
        insert_point_into(&mut points, ranges[i].end);
        i += 1;
    }
    proof {
        assert(ranges@.take(i as int) =~= ranges@);
    }
    let mut out: Vec<PushConstantRange> = Vec::new();
    let mut n: usize = 1;
    while n < points.len()
        invariant
            1 <= n,
            n <= points@.len() || (points@.len() == 0 && n == 1),
            points@ == break_points(ranges@),
            out@ == ranges_between(ranges@, points@, n as int - 1),
        decreases points@.len() - n,
    {
        let stages = covering_stages_of(ranges, points[n - 1]);
        if stages != 0 {
            out.push(
                PushConstantRange {
                    stages: ShaderStages { bits: stages },
                    start: points[n - 1],
                    end: points[n],
                },
            );
        }
        n += 1;
    }
    proof {
        if points@.len() == 0 {
            assert(ranges_between(ranges@, points@, 0) =~= Seq::empty());
            assert(ranges_between(ranges@, points@, -1) =~= Seq::empty());
        }
    }
    out
}

/// What is wrong with setting the bytes from `offset` to `end_offset` for the
/// stages `stages`, as far as the range at index `idx` of a layout shows. A
/// range whose stages are all among `stages` must hold the bytes. A range that
/// has some of `stages` must have all its stages among them. A range that the
/// bytes meet must have all its stages among `stages`.
pub open spec fn range_violation(
    stages: ShaderStages,
    offset: u32,
    end_offset: u32,
    idx: usize,
    range: PushConstantRange,
) -> Option<PushConstantUploadError> {
    if stages.contains(range.stages) {
        if !(range.start <= offset && end_offset <= range.end) {
            Some(PushConstantUploadError::TooLarge { offset, end_offset, idx, range })
        } else {
            None
        }
    } else if stages.intersects(range.stages) {
        Some(
            PushConstantUploadError::PartialRangeMatch {
                actual: stages,
                idx,
                matched: range.stages,
            },
        )
    } else if offset < range.end && range.start < end_offset {
        Some(PushConstantUploadError::MissingStages { actual: stages, idx, missing: stages })
    } else {
        None
    }
}

/// The stages of the ranges whose stages are all among `stages`.
pub open spec fn matched_stages(ranges: Seq<PushConstantRange>, stages: ShaderStages) -> u32
    decreases ranges.len(),
{
    if ranges.len() == 0 {
        0
    } else {
        let rest = matched_stages(ranges.drop_last(), stages);
        if stages.contains(ranges.last().stages) {
            rest | ranges.last().stages.bits
        } else {
            rest
        }
    }
}

/// The violation of the first of the first `n` ranges that has one.
pub open spec fn first_violation(
    ranges: Seq<PushConstantRange>,
    stages: ShaderStages,
    offset: u32,
    end_offset: u32,
    n: int,
) -> Option<PushConstantUploadError>
    decreases n,
{
    if n <= 0 {
        None
    } else {
        match first_violation(ranges, stages, offset, end_offset, n - 1) {
            Some(e) => Some(e),
            None => range_violation(stages, offset, end_offset, (n - 1) as usize, ranges[n - 1]),
        }
    }
}

/// The first violation among the first `n` ranges is the first among them all.
proof fn lemma_first_violation_stays(
    ranges: Seq<PushConstantRange>,
    stages: ShaderStages,
    offset: u32,
    end_offset: u32,
    n: int,
    m: int,
)
    requires
        0 <= n <= m,
        first_violation(ranges, stages, offset, end_offset, n) is Some,
    ensures
        first_violation(ranges, stages, offset, end_offset, m) == first_violation(
            ranges,
            stages,
            offset,
            end_offset,
            n,
        ),
    decreases m,
{
    if n < m {
        lemma_first_violation_stays(ranges, stages, offset, end_offset, n, m - 1);
    }
}

/// What `validate_push_constant_ranges` returns: an offset that is not aligned
/// is refused; else the first range of the layout that is violated decides;
/// else every stage of `stages` must belong to a range of the layout.
pub open spec fn push_constant_validation(
    ranges: Seq<PushConstantRange>,
    stages: ShaderStages,
    offset: u32,
    end_offset: u32,
) -> Result<(), PushConstantUploadError> {
    if offset % PUSH_CONSTANT_ALIGNMENT != 0 {
        Err(PushConstantUploadError::Unaligned(offset))
    } else {
        match first_violation(ranges, stages, offset, end_offset, ranges.len() as int) {
            Some(e) => Err(e),
            None => {
                let used = ShaderStages { bits: matched_stages(ranges, stages) };
                if used != stages {
                    Err(
                        PushConstantUploadError::UnmatchedStages {
                            actual: stages,
                            unmatched: stages.difference(used),
                        },
                    )
                } else {
                    Ok(())
                }
            },
        }
    }
}

/// Checks that the bytes from `offset` to `end_offset` can be set for the stages
/// `stages` under a layout with the push constant ranges `ranges`.
pub fn validate_push_constant_ranges(
    ranges: &Vec<PushConstantRange>,
    stages: ShaderStages,
    offset: u32,
    end_offset: u32,
) -> (r: Result<(), PushConstantUploadError>)
    ensures
        r == push_constant_validation(ranges@, stages, offset, end_offset),
{
    if offset % PUSH_CONSTANT_ALIGNMENT != 0 {
        return Err(PushConstantUploadError::Unaligned(offset));
    }
    let mut used_stages = ShaderStages::none();
    let mut idx: usize = 0;
    while idx < ranges.len()
        invariant
            idx <= ranges@.len(),
            offset % PUSH_CONSTANT_ALIGNMENT == 0,
            first_violation(ranges@, stages, offset, end_offset, idx as int) is None,
            used_stages.bits == matched_stages(ranges@.take(idx as int), stages),
        decreases ranges@.len() - idx,
    {
        proof {
            assert(ranges@.take(idx as int + 1).drop_last() =~= ranges@.take(idx as int));
        }
        let range = ranges[idx];
        proof {
            assert(first_violation(ranges@, stages, offset, end_offset, idx as int + 1)
                == range_violation(stages, offset, end_offset, idx, range));
        }
        if stages.contains(range.stages) {
            if !(range.start <= offset && end_offset <= range.end) {
                proof {
                    lemma_first_violation_stays(
                        ranges@,
                        stages,
                        offset,
                        end_offset,
                        idx as int + 1,
                        ranges@.len() as int,
                    );
                }
                return Err(PushConstantUploadError::TooLarge { offset, end_offset, idx, range });
            }
            used_stages = used_stages.union(range.stages);
        } else if stages.intersects(range.stages) {
            proof {
                lemma_first_violation_stays(
                    ranges@,
                    stages,
                    offset,
                    end_offset,
                    idx as int + 1,
                    ranges@.len() as int,
                );
            }
            return Err(
                PushConstantUploadError::PartialRangeMatch {
                    actual: stages,
                    idx,
                    matched: range.stages,
                },
            );
        }
        if offset < range.end && range.start < end_offset {
            if !stages.contains(range.stages) {
                proof {
                    lemma_first_violation_stays(
                        ranges@,
                        stages,
                        offset,
                        end_offset,
                        idx as int + 1,
                        ranges@.len() as int,
                    );
                }
                return Err(
                    PushConstantUploadError::MissingStages { actual: stages, idx, missing: stages },
                );
            }
        }
        idx += 1;
    }
    proof {
        assert(ranges@.take(idx as int) =~= ranges@);
    }
    if used_stages != stages {
        return Err(
            PushConstantUploadError::UnmatchedStages {
                actual: stages,
                unmatched: stages.difference(used_stages),
            },
        );
    }
    Ok(())
}

} // verus!
