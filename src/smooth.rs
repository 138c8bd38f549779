use vstd::prelude::*;

use crate::arith::{ease, ease_milli, floor_div, sine, sine_milli};
use crate::geometry::Point;
use crate::trajectory::saturate;

verus! {

/// Peak of the optional tremor of a smooth move, in thousandths of a pixel.
pub const SMOOTH_JITTER_MILLI_PX: i64 = 400;

/// Period of that tremor, in microseconds.
pub const SMOOTH_JITTER_PERIOD_US: u64 = 10_000;

/// Linear progress of a timed move, in thousandths, at `elapsed_us`.
pub open spec fn smooth_progress(elapsed_us: int, duration_us: int) -> int {
    if duration_us == 0 || elapsed_us >= duration_us {
        1000
    } else {
        elapsed_us * 1000 / duration_us
    }
}

/// `a + d * e / 1000`, rounded to the nearest whole number.
pub open spec fn along(a: int, d: int, e: int) -> int {
    a + (2 * d * e + 1000) / 2000
}

/// Position of a timed move from `start` to `end` after `elapsed_us`:
/// eased in and out, with an optional tremor while the move lasts.
pub open spec fn smooth_at(
    start: Point,
    end: Point,
    elapsed_us: int,
    duration_us: int,
    tremor: bool,
) -> Point {
    let e = ease_milli(smooth_progress(elapsed_us, duration_us));
    let done = duration_us == 0 || elapsed_us >= duration_us;
    let deg = (elapsed_us % SMOOTH_JITTER_PERIOD_US as int) * 360 / SMOOTH_JITTER_PERIOD_US as int;
    let j = if tremor && !done {
        SMOOTH_JITTER_MILLI_PX * sine_milli(deg % 360) / 1000
    } else {
        0
    };
    Point {
        x: saturate((along(start.x as int * 1000 + j, (end.x - start.x) * 1000, e) + 500) / 1000),
        y: saturate((along(start.y as int * 1000 + j, (end.y - start.y) * 1000, e) + 500) / 1000),
    }
}

fn along_exec(a: i128, d: i128, e: u64) -> (r: i128)
    requires
        -0x1_0000_0000_0000 <= a <= 0x1_0000_0000_0000,
        -0x1_0000_0000_0000 <= d <= 0x1_0000_0000_0000,
        e <= 1000,
    ensures
        r == along(a as int, d as int, e as int),
        -0x1_0000_0000_0001 <= r - a <= 0x1_0000_0000_0001,
{
    assert(-0x1_0000_0000_0000 * 2000 <= 2 * d * e <= 0x1_0000_0000_0000 * 2000) by (nonlinear_arith)
        requires
            -0x1_0000_0000_0000 <= d <= 0x1_0000_0000_0000,
            0 <= e <= 1000,
    ;
    let q = floor_div(2 * d * (e as i128) + 1000, 2000);
    proof {
        vstd::arithmetic::div_mod::lemma_div_is_ordered(2 * d * e + 1000, 0x1_0000_0000_0000int * 2000 + 1000, 2000);
        vstd::arithmetic::div_mod::lemma_div_is_ordered(-0x1_0000_0000_0000int * 2000, 2 * d * e + 1000, 2000);
        assert((0x1_0000_0000_0000int * 2000 + 1000) / 2000 == 0x1_0000_0000_0000int);
        assert((-0x1_0000_0000_0000int * 2000) / 2000 == -0x1_0000_0000_0000int);
    }
    a + q
}

/// Where a timed, eased move from `start` to `end` stands after
/// `elapsed_us` of `duration_us`; at or past the end it is exactly `end`.
pub fn smooth_point(start: Point, end: Point, elapsed_us: u64, duration_us: u64, tremor: bool) -> (r:
    Point)
    ensures
        r == smooth_at(start, end, elapsed_us as int, duration_us as int, tremor),
        elapsed_us >= duration_us ==> r == end,
{
    let done: bool = duration_us == 0 || elapsed_us >= duration_us;
    let u: u64 = if done {
        1000
    } else {
        assert(elapsed_us * 1000 <= duration_us * 1000) by (nonlinear_arith)
            requires
                elapsed_us < duration_us,
        ;
        assert(elapsed_us as int * 1000 / duration_us as int <= 1000) by {
            vstd::arithmetic::div_mod::lemma_div_is_ordered(
                elapsed_us as int * 1000,
                duration_us as int * 1000,
                duration_us as int,
            );
            vstd::arithmetic::div_mod::lemma_div_by_multiple(1000, duration_us as int);
            assert(duration_us as int * 1000 == 1000 * duration_us as int) by (nonlinear_arith);
        }
        ((elapsed_us as u128) * 1000 / (duration_us as u128)) as u64
    };
    let e = ease(u);
    let deg: u64 = (elapsed_us % SMOOTH_JITTER_PERIOD_US) * 360 / SMOOTH_JITTER_PERIOD_US;
    let j: i128 = if tremor && !done {
        let s = sine(deg);
        floor_div((SMOOTH_JITTER_MILLI_PX * s) as i128, 1000)
    } else {
        0
    };
    let ax = along_exec(start.x as i128 * 1000 + j, (end.x as i128 - start.x as i128) * 1000, e);
    let ay = along_exec(start.y as i128 * 1000 + j, (end.y as i128 - start.y as i128) * 1000, e);
    proof {
        if done {
            assert(e == 1000);
            assert(ax == end.x as int * 1000);
            assert(ay == end.y as int * 1000);
        }
    }
    let x = floor_div(ax + 500, 1000);
    let y = floor_div(ay + 500, 1000);
    proof {
        vstd::arithmetic::div_mod::lemma_div_is_ordered(ax + 500, 0x1_0000_0000_0000int * 3, 1000);
        vstd::arithmetic::div_mod::lemma_div_is_ordered(-0x1_0000_0000_0000int * 3, ax + 500, 1000);
        vstd::arithmetic::div_mod::lemma_div_is_ordered(ay + 500, 0x1_0000_0000_0000int * 3, 1000);
        vstd::arithmetic::div_mod::lemma_div_is_ordered(-0x1_0000_0000_0000int * 3, ay + 500, 1000);
    }
    Point { x: sat(x), y: sat(y) }
}

fn sat(v: i128) -> (r: i32)
    ensures
        r == saturate(v as int),
{
    if v < i32::MIN as i128 {
        i32::MIN
    } else if v > i32::MAX as i128 {
        i32::MAX
    } else {
        v as i32
    }
}

} // verus!
