//! What a curve is, and what one round of subdivision makes of it.

use vstd::prelude::*;

verus! {

/// The four points that take the place of one segment: its `start`, the
/// point `a` a third of the way along, the apex `b` of the bulge and the
/// point `c` two thirds along. The far end of the segment is not part of the
/// run: it opens the next one.
pub struct Run<P> {
    pub start: P,
    pub a: P,
    pub b: P,
    pub c: P,
}

/// The seed: a triangle `a`, `b`, `c`, closed by `a` once more.
pub open spec fn seed_of<P>(a: P, b: P, c: P) -> Seq<P> {
    seq![a, b, c, a]
}

/// A curve is closed when it ends where it starts.
pub open spec fn is_closed<P>(curve: Seq<P>) -> bool {
    curve.len() > 0 && curve.first() == curve.last()
}

/// How many segments join `points` consecutive points.
pub open spec fn segment_count(points: nat) -> nat {
    if points == 0 {
        0
    } else {
        (points - 1) as nat
    }
}

/// The segments of a curve: each point paired with its successor.
pub open spec fn segments_of<P>(curve: Seq<P>) -> Seq<(P, P)> {
    Seq::new(segment_count(curve.len()), |i: int| (curve[i], curve[i + 1]))
}

/// The point of `run` at position `k`, counted from 0.
pub open spec fn run_point<P>(run: Run<P>, k: int) -> P {
    if k == 0 {
        run.start
    } else if k == 1 {
        run.a
    } else if k == 2 {
        run.b
    } else {
        run.c
    }
}

/// The runs laid end to end, in their order.
pub open spec fn unrolled<P>(runs: Seq<Run<P>>) -> Seq<P> {
    Seq::new(4 * runs.len(), |j: int| run_point(runs[j / 4], j % 4))
}

/// The runs laid end to end and closed by `closing`.
pub open spec fn assembled<P>(runs: Seq<Run<P>>, closing: P) -> Seq<P> {
    unrolled(runs).push(closing)
}

/// `run` starts where `segment` starts, and its other three points are a
/// result that `divide` may give for that segment.
pub open spec fn subdivides<P, F: Fn(P, P) -> (P, P, P)>(
    divide: F,
    segment: (P, P),
    run: Run<P>,
) -> bool {
    &&& run.start == segment.0
    &&& call_ensures(divide, segment, (run.a, run.b, run.c))
}

/// `runs` holds one run for each segment, in the segments' order.
pub open spec fn subdivides_all<P, F: Fn(P, P) -> (P, P, P)>(
    divide: F,
    segments: Seq<(P, P)>,
    runs: Seq<Run<P>>,
) -> bool {
    &&& runs.len() == segments.len()
    &&& forall|i: int|
        0 <= i < segments.len() ==> subdivides(divide, segments[i], #[trigger] runs[i])
}

/// At segment `i` of `prev`, `next` holds the segment's first point and then
/// three points that `divide` may give for the segment.
pub open spec fn refines_at<P, F: Fn(P, P) -> (P, P, P)>(
    divide: F,
    prev: Seq<P>,
    next: Seq<P>,
    i: int,
) -> bool {
    &&& next[4 * i] == prev[i]
    &&& call_ensures(
        divide,
        (prev[i], prev[i + 1]),
        (next[4 * i + 1], next[4 * i + 2], next[4 * i + 3]),
    )
}

/// `next` is one round after `prev`: every point of `prev` but the last is
/// followed by three points that `divide` may give for the segment it
/// starts, and the last point of `prev` closes `next`. An empty curve stays
/// empty.
pub open spec fn refines<P, F: Fn(P, P) -> (P, P, P)>(
    divide: F,
    prev: Seq<P>,
    next: Seq<P>,
) -> bool {
    if prev.len() == 0 {
        next.len() == 0
    } else {
        &&& next.len() == 4 * (prev.len() - 1) + 1
        &&& next.last() == prev.last()
        &&& forall|i: int| 0 <= i < prev.len() - 1 ==> #[trigger] refines_at(divide, prev, next, i)
    }
}

/// `curve` can be reached from `seed` in exactly `rounds` rounds.
pub open spec fn derives<P, F: Fn(P, P) -> (P, P, P)>(
    divide: F,
    seed: Seq<P>,
    rounds: nat,
    curve: Seq<P>,
) -> bool
    decreases rounds,
{
    if rounds == 0 {
        curve == seed
    } else {
        exists|mid: Seq<P>|
            derives(divide, seed, (rounds - 1) as nat, mid) && #[trigger] refines(
                divide,
                mid,
                curve,
            )
    }
}

/// `divide` is deterministic: for each segment it has one result.
pub open spec fn is_deterministic<P, F: Fn(P, P) -> (P, P, P)>(divide: F) -> bool {
    forall|segment: (P, P), r1: (P, P, P), r2: (P, P, P)|
        call_ensures(divide, segment, r1) && call_ensures(divide, segment, r2) ==> r1 == r2
}

/// The number of points after `rounds` rounds on the seed: 4 at first, and
/// from `n` points `4 * (n - 1) + 1` in the next round.
pub open spec fn point_count(rounds: nat) -> nat
    decreases rounds,
{
    if rounds == 0 {
        4
    } else {
        (4 * (point_count((rounds - 1) as nat) - 1) + 1) as nat
    }
}

} // verus!
