use parallel_snowflakes::snowflake::engine::assemble;
use parallel_snowflakes::snowflake::engine::generate;
use parallel_snowflakes::snowflake::engine::seed_curve;
use parallel_snowflakes::snowflake::engine::segments;
use parallel_snowflakes::snowflake::engine::step;
use parallel_snowflakes::snowflake::engine::subdivide;
use parallel_snowflakes::snowflake::engine::subdivide_segment;
use parallel_snowflakes::snowflake::engine::subdivide_sequential;
use std::f64::consts::PI;

type Point = (f64, f64);

const TOLERANCE: f64 = 1e-9;

/// The three points that go into a segment: a third of the way, the apex of
/// the bulge, two thirds of the way.
fn koch(from: Point, to: Point) -> (Point, Point, Point) {
    let dx = to.0 - from.0;
    let dy = to.1 - from.1;
    let a = (from.0 + dx / 3.0, from.1 + dy / 3.0);
    let b = (
        from.0 + dx / 2.0 - (dy * (3.0f64.sqrt() / 6.0)),
        from.1 + dy / 2.0 + (dx * (3.0f64.sqrt() / 6.0)),
    );
    let c = (from.0 + 2.0 * dx / 3.0, from.1 + 2.0 * dy / 3.0);
    (a, b, c)
}

fn top() -> Point {
    (0.0, 1.0)
}

fn left() -> Point {
    ((2.0 * PI / 3.0).cos(), (2.0 * PI / 3.0).sin())
}

fn right() -> Point {
    ((4.0 * PI / 3.0).cos(), (4.0 * PI / 3.0).sin())
}

fn snowflake(iterations: u32, parallel: bool) -> Vec<Point> {
    generate(top(), left(), right(), iterations, parallel, &koch)
}

fn close(p: Point, q: Point) -> bool {
    (p.0 - q.0).abs() <= TOLERANCE && (p.1 - q.1).abs() <= TOLERANCE
}

#[test]
fn closed_after_every_round_by_both_strategies() {
    for n in 0..=6u32 {
        for parallel in [false, true] {
            let curve = snowflake(n, parallel);
            assert!(!curve.is_empty());
            assert_eq!(curve[0], curve[curve.len() - 1]);
            assert_eq!(curve[0], top());
        }
    }
}

#[test]
fn each_round_grows_the_curve_fourfold() {
    let mut expected = 4usize;
    for n in 0..=7u32 {
        assert_eq!(snowflake(n, false).len(), expected);
        assert_eq!(snowflake(n, true).len(), expected);
        expected = 4 * (expected - 1) + 1;
    }
}

#[test]
fn point_counts_of_the_first_rounds() {
    let counts: Vec<usize> = (0..5u32).map(|n| snowflake(n, false).len()).collect();
    assert_eq!(counts, vec![4, 13, 49, 193, 769]);
}

#[test]
fn strategies_agree_point_by_point() {
    for n in 0..=6u32 {
        let sequential = snowflake(n, false);
        let parallel = snowflake(n, true);
        assert_eq!(sequential.len(), parallel.len());
        for (p, q) in sequential.iter().zip(parallel.iter()) {
            assert!(close(*p, *q));
        }
        assert_eq!(sequential, parallel);
    }
}

#[test]
fn no_rounds_give_the_seed_triangle() {
    for parallel in [false, true] {
        let curve = snowflake(0, parallel);
        assert_eq!(curve.len(), 4);
        assert!(close(curve[0], (0.0, 1.0)));
        assert!(close(curve[1], (-0.5, 0.8660254037844386)));
        assert!(close(curve[2], (-0.5, -0.8660254037844386)));
        assert!(close(curve[3], (0.0, 1.0)));
        assert_eq!(curve, vec![top(), left(), right(), top()]);
    }
}

#[test]
fn seed_curve_repeats_its_first_vertex() {
    assert_eq!(seed_curve(1u8, 2u8, 3u8), vec![1, 2, 3, 1]);
}

#[test]
fn rightward_segment_bulges_to_positive_y() {
    let run = subdivide_segment(&((0.0, 0.0), (3.0, 0.0)), &koch);
    assert_eq!(run.start, (0.0, 0.0));
    assert!(close(run.a, (1.0, 0.0)));
    assert!(close(run.b, (1.5, 0.8660254037844386)));
    assert!(close(run.b, (1.5, 3.0f64.sqrt() / 2.0)));
    assert!(close(run.c, (2.0, 0.0)));
    assert!(run.b.1 > 0.0);
}

#[test]
fn zero_length_segment_gives_four_coincident_points() {
    let p = (0.25, -4.0);
    let run = subdivide_segment(&(p, p), &koch);
    assert_eq!(run.start, p);
    assert_eq!(run.a, p);
    assert_eq!(run.b, p);
    assert_eq!(run.c, p);
}

#[test]
fn one_round_gives_thirteen_points() {
    assert_eq!(snowflake(1, false).len(), 13);
    assert_eq!(snowflake(1, true).len(), 13);
}

#[test]
fn one_round_keeps_the_old_points_every_fourth() {
    let seed = snowflake(0, false);
    let curve = snowflake(1, false);
    for i in 0..3 {
        let (a, b, c) = koch(seed[i], seed[i + 1]);
        assert_eq!(curve[4 * i], seed[i]);
        assert_eq!(curve[4 * i + 1], a);
        assert_eq!(curve[4 * i + 2], b);
        assert_eq!(curve[4 * i + 3], c);
    }
    assert_eq!(curve[12], seed[3]);
}

#[test]
fn repeated_calls_give_the_same_curve() {
    for parallel in [false, true] {
        let first = snowflake(5, parallel);
        let second = snowflake(5, parallel);
        let third = snowflake(5, parallel);
        assert_eq!(first, second);
        assert_eq!(second, third);
    }
}

#[test]
fn segments_pair_each_point_with_the_next() {
    assert_eq!(segments(&vec![1u8, 2, 3, 1]), vec![(1, 2), (2, 3), (3, 1)]);
    assert_eq!(segments(&vec![7u8, 9]), vec![(7, 9)]);
}

#[test]
fn segments_of_nothing_or_one_point_are_none() {
    assert_eq!(segments(&Vec::<u8>::new()), Vec::<(u8, u8)>::new());
    assert_eq!(segments(&vec![5u8]), Vec::<(u8, u8)>::new());
}

/// A subdivision on integers whose results tell the segment they came from.
fn tagged(p: u64, q: u64) -> (u64, u64, u64) {
    (1000 * p + q, 2000 * p + q, 3000 * p + q)
}

#[test]
fn parallel_runs_come_back_in_segment_order() {
    let pairs: Vec<(u64, u64)> = (0..20_000u64).map(|i| (i, i + 1)).collect();
    let runs = subdivide(&pairs, true, &tagged);
    assert_eq!(runs.len(), pairs.len());
    for (i, run) in runs.iter().enumerate() {
        let p = i as u64;
        assert_eq!(run.start, p);
        assert_eq!(run.a, 1000 * p + p + 1);
        assert_eq!(run.b, 2000 * p + p + 1);
        assert_eq!(run.c, 3000 * p + p + 1);
    }
}

#[test]
fn parallel_and_sequential_runs_are_the_same() {
    let pairs: Vec<(u64, u64)> = (0..5_000u64).map(|i| (i * 3, i * 7)).collect();
    let parallel = subdivide(&pairs, true, &tagged);
    let sequential = subdivide_sequential(&pairs, &tagged);
    let chosen = subdivide(&pairs, false, &tagged);
    assert_eq!(parallel.len(), sequential.len());
    for i in 0..pairs.len() {
        assert_eq!(parallel[i].start, sequential[i].start);
        assert_eq!(parallel[i].a, sequential[i].a);
        assert_eq!(parallel[i].b, sequential[i].b);
        assert_eq!(parallel[i].c, sequential[i].c);
        assert_eq!(chosen[i].b, sequential[i].b);
    }
}

#[test]
fn assemble_lays_runs_end_to_end_and_closes() {
    let pairs = vec![(1u64, 2u64), (2, 3)];
    let runs = subdivide_sequential(&pairs, &tagged);
    assert_eq!(
        assemble(&runs, 3),
        vec![1, 1002, 2002, 3002, 2, 2003, 4003, 6003, 3]
    );
    assert_eq!(assemble(&Vec::new(), 9u64), vec![9]);
}

#[test]
fn step_on_integers() {
    for parallel in [false, true] {
        assert_eq!(
            step(&vec![1u64, 2, 1], parallel, &tagged),
            vec![1, 1002, 2002, 3002, 2, 2001, 4001, 6001, 1]
        );
    }
}

#[test]
fn step_on_degenerate_curves() {
    for parallel in [false, true] {
        assert_eq!(step(&Vec::<u64>::new(), parallel, &tagged), Vec::<u64>::new());
        assert_eq!(step(&vec![4u64], parallel, &tagged), vec![4]);
    }
}

#[test]
fn generate_on_integers_by_both_strategies() {
    let sequential = generate(1u64, 2, 3, 4, false, &tagged);
    let parallel = generate(1u64, 2, 3, 4, true, &tagged);
    assert_eq!(sequential.len(), 769);
    assert_eq!(sequential, parallel);
    assert_eq!(sequential[0], 1);
    assert_eq!(sequential[768], 1);
}
