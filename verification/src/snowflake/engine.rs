//! The executable engine: seed, segments, subdivision by either strategy,
//! assembly, and the loop over the rounds.

use crate::snowflake::laws::lemma_closed_after_round;
use crate::snowflake::laws::lemma_count_after_round;
use crate::snowflake::model::assembled;
use crate::snowflake::model::derives;
use crate::snowflake::model::is_closed;
use crate::snowflake::model::point_count;
use crate::snowflake::model::refines;
use crate::snowflake::model::refines_at;
use crate::snowflake::model::run_point;
use crate::snowflake::model::seed_of;
use crate::snowflake::model::segments_of;
use crate::snowflake::model::subdivides;
use crate::snowflake::model::subdivides_all;
use crate::snowflake::model::unrolled;
use crate::snowflake::model::Run;
use rayon::iter::IntoParallelRefIterator;
use rayon::iter::ParallelIterator;
use vstd::prelude::*;

verus! {

/// The seed curve of the triangle `a`, `b`, `c`: the three vertices, and `a`
/// again to close the loop.
pub fn seed_curve<P: Copy>(a: P, b: P, c: P) -> (curve: Vec<P>)
    ensures
        curve@ == seed_of(a, b, c),
        is_closed(curve@),
{
    let mut curve: Vec<P> = Vec::new();
    curve.push(a);
    curve.push(b);
    curve.push(c);
    curve.push(a);
    assert(curve@ =~= seed_of(a, b, c));
    curve
}

/// The segments of `curve`, in order: one for each point but the last.
pub fn segments<P: Copy>(curve: &Vec<P>) -> (out: Vec<(P, P)>)
    ensures
        out@ == segments_of(curve@),
{
    let mut out: Vec<(P, P)> = Vec::new();
    if curve.len() == 0 {
        assert(out@ =~= segments_of(curve@));
        return out;
    }
    let mut i: usize = 1;
    while i < curve.len()
        invariant
            1 <= i <= curve.len(),
            out@.len() == i - 1,
            forall|k: int| 0 <= k < i - 1 ==> #[trigger] out@[k] == (curve@[k], curve@[k + 1]),
        decreases curve.len() - i,
    {
        out.push((curve[i - 1], curve[i]));
        i = i + 1;
    }
    assert(out@ =~= segments_of(curve@));
    out
}

/// Subdivides one segment: the run starts at the segment's first point, and
/// `divide` supplies the three points that follow it.
pub fn subdivide_segment<P: Copy, F: Fn(P, P) -> (P, P, P)>(
    segment: &(P, P),
    divide: &F,
) -> (run: Run<P>)
    requires
        call_requires(*divide, *segment),
    ensures
        subdivides(*divide, *segment, run),
{
    let (a, b, c) = divide(segment.0, segment.1);
    Run { start: segment.0, a, b, c }
}

/// Subdivides the segments one after the other.
pub fn subdivide_sequential<P: Copy, F: Fn(P, P) -> (P, P, P)>(
    segments: &Vec<(P, P)>,
    divide: &F,
) -> (runs: Vec<Run<P>>)
    requires
        forall|i: int| 0 <= i < segments@.len() ==> call_requires(*divide, #[trigger] segments@[i]),
    ensures
        subdivides_all(*divide, segments@, runs@),
{
    let mut runs: Vec<Run<P>> = Vec::new();
    let mut i: usize = 0;
    while i < segments.len()
        invariant
            i <= segments.len(),
            forall|k: int|
                0 <= k < segments@.len() ==> call_requires(*divide, #[trigger] segments@[k]),
            runs@.len() == i,
            forall|k: int| 0 <= k < i ==> subdivides(*divide, segments@[k], #[trigger] runs@[k]),
        decreases segments.len() - i,
    {
        let run = subdivide_segment(&segments[i], divide);
        runs.push(run);
        i = i + 1;
    }
    runs
}

/// Subdivides the segments on rayon's thread pool.
///
/// Trusted: the body is `par_iter().map(..).collect()` of rayon on a slice.
/// That parallel iterator is indexed, and collecting it into a `Vec` writes
/// the item made from the segment at index `i` to index `i`, whichever worker
/// made it and whenever. Each item is what one call of `subdivide_segment`
/// returned for that segment. Where rayon cannot start its threads it
/// panics; that lies with the machine and not with the arguments, so no
/// precondition rules it out.
#[verifier::external_body]
fn subdivide_parallel<P: Copy + Send + Sync, F: Fn(P, P) -> (P, P, P) + Sync>(
    segments: &Vec<(P, P)>,
    divide: &F,
) -> (runs: Vec<Run<P>>)
    requires
        forall|i: int| 0 <= i < segments@.len() ==> call_requires(*divide, #[trigger] segments@[i]),
    ensures
        subdivides_all(*divide, segments@, runs@),
{
    segments.par_iter().map(|segment| subdivide_segment(segment, divide)).collect()
}

/// Subdivides every segment by the chosen strategy. Either way the runs come
/// back in the order of their segments.
pub fn subdivide<P: Copy + Send + Sync, F: Fn(P, P) -> (P, P, P) + Sync>(
    segments: &Vec<(P, P)>,
    parallel: bool,
    divide: &F,
) -> (runs: Vec<Run<P>>)
    requires
        forall|i: int| 0 <= i < segments@.len() ==> call_requires(*divide, #[trigger] segments@[i]),
    ensures
        subdivides_all(*divide, segments@, runs@),
{
    if parallel {
        subdivide_parallel(segments, divide)
    } else {
        subdivide_sequential(segments, divide)
    }
}

/// Lays the runs end to end, in their order, and closes the curve with
/// `closing`.
pub fn assemble<P: Copy>(runs: &Vec<Run<P>>, closing: P) -> (curve: Vec<P>)
    ensures
        curve@ == assembled(runs@, closing),
        curve@.len() == 4 * runs@.len() + 1,
{
    let mut curve: Vec<P> = Vec::new();
    let mut i: usize = 0;
    while i < runs.len()
        invariant
            i <= runs.len(),
            curve@.len() == 4 * i,
            forall|j: int|
                0 <= j < 4 * i ==> #[trigger] curve@[j] == run_point(runs@[j / 4], j % 4),
        decreases runs.len() - i,
    {
        let run = &runs[i];
        curve.push(run.start);
        curve.push(run.a);
        curve.push(run.b);
        curve.push(run.c);
        i = i + 1;
    }
    assert(curve@ =~= unrolled(runs@));
    curve.push(closing);
    curve
}

/// One round: every segment of `curve` gives way to its run, and the last
/// point of `curve` is carried over to close the new curve.
pub fn step<P: Copy + Send + Sync, F: Fn(P, P) -> (P, P, P) + Sync>(
    curve: &Vec<P>,
    parallel: bool,
    divide: &F,
) -> (next: Vec<P>)
    requires
        forall|i: int|
            0 <= i < segments_of(curve@).len() ==> call_requires(
                *divide,
                #[trigger] segments_of(curve@)[i],
            ),
    ensures
        refines(*divide, curve@, next@),
        curve@.len() > 0 ==> next@.len() == 4 * (curve@.len() - 1) + 1,
        is_closed(curve@) ==> is_closed(next@) && next@.first() == curve@.first(),
{
    if curve.len() == 0 {
        return Vec::new();
    }
    let pairs = segments(curve);
    let runs = subdivide(&pairs, parallel, divide);
    let next = assemble(&runs, curve[curve.len() - 1]);
    proof {
        assert forall|i: int| 0 <= i < curve@.len() - 1 implies #[trigger] refines_at(
            *divide,
            curve@,
            next@,
            i,
        ) by {
            assert(subdivides(*divide, pairs@[i], runs@[i]));
        }
        if is_closed(curve@) {
            lemma_closed_after_round(*divide, curve@, next@);
        }
    }
    next
}

/// The curve after `iterations` rounds on the seed triangle `a`, `b`, `c`,
/// each round subdividing every segment by `divide`, in parallel or one by
/// one. Which segments later rounds will meet is not known beforehand, so
/// `divide` has to accept every segment.
///
/// With no rounds asked for, the result is the seed itself.
pub fn generate<P: Copy + Send + Sync, F: Fn(P, P) -> (P, P, P) + Sync>(
    a: P,
    b: P,
    c: P,
    iterations: u32,
    parallel: bool,
    divide: &F,
) -> (curve: Vec<P>)
    requires
        forall|p: P, q: P| call_requires(*divide, (p, q)),
    ensures
        derives(*divide, seed_of(a, b, c), iterations as nat, curve@),
        iterations == 0 ==> curve@ == seed_of(a, b, c),
        curve@.len() == point_count(iterations as nat),
        is_closed(curve@),
        curve@.first() == a,
{
    let mut curve = seed_curve(a, b, c);
    let mut done: u32 = 0;
    while done < iterations
        invariant
            done <= iterations,
            forall|p: P, q: P| call_requires(*divide, (p, q)),
            derives(*divide, seed_of(a, b, c), done as nat, curve@),
            curve@.len() == point_count(done as nat),
            is_closed(curve@),
            curve@.first() == a,
        decreases iterations - done,
    {
        let next = step(&curve, parallel, divide);
        proof {
            lemma_count_after_round(*divide, seed_of(a, b, c), done as nat, curve@, next@);
        }
        curve = next;
        done = done + 1;
    }
    curve
}

} // verus!
