use vstd::prelude::*;

use crate::arith::{ease, ease_milli, floor_div, isqrt, root, sine, sine_milli};
use crate::chance::{draw_fresh, draw_seeded, pick, pick_in, seeded_words};
use crate::geometry::{clamp_int, Bounds, Point};

verus! {

/// Shortest total travel time of one path, in milliseconds.
pub const MIN_TRAVEL_MS: u64 = 60;

/// Longest total travel time of one path, in milliseconds.
pub const MAX_TRAVEL_MS: u64 = 1600;

/// Bounds of the per-step tick, in milliseconds.
pub const MIN_TICK_MS: u64 = 8;

pub const MAX_TICK_MS: u64 = 12;

/// Fewest steps of one path.
pub const MIN_STEPS: u64 = 3;

/// Chance, in percent, that a path hesitates once in its middle third.
pub const HESITATION_PERCENT: u64 = 25;

/// Greatest curvature: control points stray from the straight line by up to
/// this many thousandths of the travel distance.
pub const CURVE_PERMILLE: u64 = 120;

/// Random words that one path may consume.
pub const PATH_WORDS: usize = 256;

/// Configuration of human-like motion. Speeds are in pixels per second,
/// fractions in thousandths, tremor amplitude in thousandths of a pixel.
#[derive(Clone, Copy, Debug, PartialEq, Eq, Structural)]
pub struct MotionProfile {
    pub avg_speed: u32,
    pub speed_jitter_permille: u32,
    pub jitter_milli_px: u32,
    pub jitter_hz: u32,
    pub overshoot_percent: u32,
    pub overshoot_px: u32,
    pub min_pause_ms: u32,
    pub max_pause_ms: u32,
    pub seed: Option<u64>,
}

/// One timed position of a path: move there, then wait `delay_ms`.
#[derive(Clone, Copy, Debug, PartialEq, Eq, Structural)]
pub struct MotionStep {
    pub point: Point,
    pub delay_ms: u64,
}

/// A synthesized path. After step `pause_after` the pointer rests
/// `pause_ms` more (no hesitation when it is zero); after the last step it
/// rests `settle_ms`.
#[derive(Clone, Debug)]
pub struct Path {
    pub steps: Vec<MotionStep>,
    pub pause_after: u64,
    pub pause_ms: u64,
    pub settle_ms: u64,
}

/// The random parameters of one path, drawn before its steps.
#[derive(Clone, Copy, Debug, PartialEq, Eq, Structural)]
pub struct Shape {
    pub c1x: i128,
    pub c1y: i128,
    pub c2x: i128,
    pub c2y: i128,
    pub travel: u64,
    pub n: u64,
    pub phase0: u64,
    pub pause_after: u64,
    pub pause_ms: u64,
}

/// Magnitude bound on curve coordinates.
pub open spec fn reach() -> int {
    0x2_0000_0000
}

pub open spec fn max_int(a: int, b: int) -> int {
    if a >= b {
        a
    } else {
        b
    }
}

pub open spec fn saturate(v: int) -> i32 {
    clamp_int(v, i32::MIN as int, i32::MAX as int) as i32
}

/// The screen point for curve coordinates `(x, y)`: saturated to the pixel
/// range, then kept inside `region` when one is given.
pub open spec fn settle_into(region: Option<Bounds>, x: int, y: int) -> Point {
    let p = Point { x: saturate(x), y: saturate(y) };
    match region {
        Some(b) => b.clamped(p),
        None => p,
    }
}

/// Coordinate of a control point a `k`-th third along the chord, pushed by
/// `f` thousandths of the chord length along the perpendicular.
pub open spec fn control_coord(from: int, d: int, perp: int, f: int, k: int) -> int {
    from + (k * 1000 * d + 3 * f * perp) / 3000
}

/// Cubic curve coordinate at eased time `e` (thousandths).
pub open spec fn bezier_coord(p0: int, c1: int, c2: int, p3: int, e: int) -> int {
    let s = 1000 - e;
    (s * s * s * p0 + 3 * (s * s * e) * c1 + 3 * (s * e * e) * c2 + e * e * e * p3) / 1000000000
}

/// Straight-line distance, at least one pixel.
pub open spec fn span(from: Point, to: Point) -> int {
    let dx = to.x - from.x;
    let dy = to.y - from.y;
    max_int(1, root(dx * dx + dy * dy))
}

/// Total travel time for a distance at a speed, within the duration bounds.
pub open spec fn travel_of(dist: int, speed: int) -> int {
    clamp_int(dist * 1000 / speed, MIN_TRAVEL_MS as int, MAX_TRAVEL_MS as int)
}

pub open spec fn shape_of(
    from: Point,
    to: Point,
    profile: MotionProfile,
    ws: Seq<u64>,
    base: int,
) -> Shape {
    let dx = to.x - from.x;
    let dy = to.y - from.y;
    let f1 = pick(ws, base, 0, 2 * CURVE_PERMILLE) - CURVE_PERMILLE;
    let f2 = pick(ws, base + 1, 0, 2 * CURVE_PERMILLE) - CURVE_PERMILLE;
    let sj: int = if profile.speed_jitter_permille > 1000 {
        1000
    } else {
        profile.speed_jitter_permille as int
    };
    let jit = pick(ws, base + 2, 0, 2 * sj) - sj;
    let speed = max_int(1, profile.avg_speed * (1000 + jit) / 1000);
    let travel = travel_of(span(from, to), speed);
    let tick = pick(ws, base + 3, MIN_TICK_MS as int, MAX_TICK_MS as int);
    let n = max_int(MIN_STEPS as int, travel / tick);
    let hesitate = pick(ws, base + 4, 0, 99) < HESITATION_PERCENT;
    let (plo, phi) = if profile.min_pause_ms <= profile.max_pause_ms {
        (profile.min_pause_ms as int, profile.max_pause_ms as int)
    } else {
        (profile.max_pause_ms as int, profile.min_pause_ms as int)
    };
    Shape {
        c1x: control_coord(from.x as int, dx, -dy, f1, 1) as i128,
        c1y: control_coord(from.y as int, dy, dx, f1, 1) as i128,
        c2x: control_coord(from.x as int, dx, -dy, f2, 2) as i128,
        c2y: control_coord(from.y as int, dy, dx, f2, 2) as i128,
        travel: travel as u64,
        n: n as u64,
        phase0: pick(ws, base + 7, 0, 359) as u64,
        pause_after: pick(ws, base + 5, n / 3, 2 * n / 3 - 1) as u64,
        pause_ms: if hesitate {
            pick(ws, base + 6, plo, phi) as u64
        } else {
            0
        },
    }
}

/// The shape's parameters lie within the ranges the steps rely on.
pub open spec fn shape_ok(s: Shape) -> bool {
    &&& -reach() <= s.c1x <= reach()
    &&& -reach() <= s.c1y <= reach()
    &&& -reach() <= s.c2x <= reach()
    &&& -reach() <= s.c2y <= reach()
    &&& MIN_TRAVEL_MS <= s.travel <= MAX_TRAVEL_MS
    &&& MIN_STEPS <= s.n <= MAX_TRAVEL_MS / MIN_TICK_MS
    &&& s.phase0 < 360
    &&& s.pause_after < s.n
}

/// Position along the curve, in thousandths, reached at step `i`.
pub open spec fn progress(s: Shape, i: int) -> int {
    (i + 1) * 1000 / (s.n as int)
}

pub open spec fn raw_x(s: Shape, from: Point, to: Point, i: int) -> int {
    bezier_coord(from.x as int, s.c1x as int, s.c2x as int, to.x as int, ease_milli(progress(s, i)))
}

pub open spec fn raw_y(s: Shape, from: Point, to: Point, i: int) -> int {
    bezier_coord(from.y as int, s.c1y as int, s.c2y as int, to.y as int, ease_milli(progress(s, i)))
}

/// Local direction of travel at step `i`: from the previous curve point.
pub open spec fn tangent_x(s: Shape, from: Point, to: Point, i: int) -> int {
    raw_x(s, from, to, i) - (if i == 0 { from.x as int } else { raw_x(s, from, to, i - 1) })
}

pub open spec fn tangent_y(s: Shape, from: Point, to: Point, i: int) -> int {
    raw_y(s, from, to, i) - (if i == 0 { from.y as int } else { raw_y(s, from, to, i - 1) })
}

/// Time into the path at the end of step `i`.
pub open spec fn elapsed(s: Shape, i: int) -> int {
    (i + 1) * (s.travel as int) / (s.n as int)
}

/// Tremor at step `i`, in thousandths of a pixel: a sinusoid of the
/// configured frequency plus a random component of half its amplitude.
pub open spec fn wobble(s: Shape, profile: MotionProfile, ws: Seq<u64>, base: int, i: int) -> int {
    let amp = profile.jitter_milli_px as int;
    let deg = (s.phase0 + elapsed(s, i) * profile.jitter_hz * 360 / 1000) % 360;
    amp * sine_milli(deg) / 1000 + pick(ws, base + 8 + i, 0, amp) - amp / 2
}

/// Tremor displacement, orthogonal to the local direction of travel.
pub open spec fn shift(tx: int, ty: int, w: int) -> (int, int) {
    let len = root(tx * tx + ty * ty);
    if len == 0 {
        (0, 0)
    } else {
        ((-ty) * w / (len * 1000), tx * w / (len * 1000))
    }
}

pub open spec fn delay_at(s: Shape, i: int) -> int {
    (s.travel as int) / (s.n as int) + (if i < (s.travel as int) % (s.n as int) { 1int } else { 0int })
}

/// Step `i` of the path from `from` to `to`; the last one lands on the target.
pub open spec fn step_at(
    s: Shape,
    from: Point,
    to: Point,
    region: Option<Bounds>,
    profile: MotionProfile,
    ws: Seq<u64>,
    base: int,
    i: int,
) -> MotionStep {
    let (sx, sy) = shift(
        tangent_x(s, from, to, i),
        tangent_y(s, from, to, i),
        wobble(s, profile, ws, base, i),
    );
    MotionStep {
        point: if i == s.n - 1 {
            settle_into(region, to.x as int, to.y as int)
        } else {
            settle_into(region, raw_x(s, from, to, i) + sx, raw_y(s, from, to, i) + sy)
        },
        delay_ms: delay_at(s, i) as u64,
    }
}

/// `path` is the one synthesized from the words `ws`, starting at `base`.
pub open spec fn path_from(
    path: Path,
    from: Point,
    to: Point,
    region: Option<Bounds>,
    profile: MotionProfile,
    ws: Seq<u64>,
    base: int,
) -> bool {
    let s = shape_of(from, to, profile, ws, base);
    &&& path.steps@.len() == s.n
    &&& forall|i: int|
        0 <= i < s.n ==> #[trigger] path.steps@[i] == step_at(s, from, to, region, profile, ws, base, i)
    &&& path.pause_after == s.pause_after
    &&& path.pause_ms == s.pause_ms
}

/// Sum of the step delays.
pub open spec fn total_delay(steps: Seq<MotionStep>) -> int
    decreases steps.len(),
{
    if steps.len() == 0 {
        0
    } else {
        total_delay(steps.drop_last()) + steps.last().delay_ms
    }
}

proof fn lemma_div_within(a: int, b: int, m: int)
    requires
        b > 0,
        m >= 0,
        -(m * b) <= a <= m * b,
    ensures
        -m <= a / b <= m,
{
    vstd::arithmetic::div_mod::lemma_div_is_ordered(a, m * b, b);
    vstd::arithmetic::div_mod::lemma_div_is_ordered(-(m * b), a, b);
    vstd::arithmetic::div_mod::lemma_div_by_multiple(m, b);
    assert(-(m * b) == (-m) * b) by (nonlinear_arith);
    vstd::arithmetic::div_mod::lemma_fundamental_div_mod_converse(-(m * b), b, -m, 0);
}

fn saturate_i32(v: i128) -> (r: i32)
    ensures
        r == saturate(v as int),
{
    if v < i32::MIN as i128 {
        i32::MIN
    } else if v > i32::MAX as i128 {
        i32::MAX
    } else {
        v as i32
    }
}

fn settle(region: Option<Bounds>, x: i128, y: i128) -> (r: Point)
    ensures
        r == settle_into(region, x as int, y as int),
{
    let p = Point { x: saturate_i32(x), y: saturate_i32(y) };
    match region {
        Some(b) => b.clamp(p),
        None => p,
    }
}

fn control(from: i32, d: i128, perp: i128, f: i128, k: i128) -> (r: i128)
    requires
        -0x1_0000_0000 <= d <= 0x1_0000_0000,
        -0x1_0000_0000 <= perp <= 0x1_0000_0000,
        -120 <= f <= 120,
        1 <= k <= 2,
    ensures
        r == control_coord(from as int, d as int, perp as int, f as int, k as int),
        -reach() <= r <= reach(),
{
    let ghost m: int = 4_000_000_000;
    assert(-2000 * 0x1_0000_0000 <= k * 1000 * d <= 2000 * 0x1_0000_0000 && -360 * 0x1_0000_0000
        <= 3 * f * perp <= 360 * 0x1_0000_0000) by (nonlinear_arith)
        requires
            -0x1_0000_0000 <= d <= 0x1_0000_0000,
            -0x1_0000_0000 <= perp <= 0x1_0000_0000,
            -120 <= f <= 120,
            1 <= k <= 2,
    ;
    assert(-(m * 3000) <= k * 1000 * d + 3 * f * perp <= m * 3000) by (nonlinear_arith)
        requires
            -0x1_0000_0000 <= d <= 0x1_0000_0000,
            -0x1_0000_0000 <= perp <= 0x1_0000_0000,
            -120 <= f <= 120,
            1 <= k <= 2,
            m == 4_000_000_000,
    ;
    let num: i128 = k * 1000 * d + 3 * f * perp;
    let q: i128 = floor_div(num, 3000);
    proof {
        lemma_div_within(num as int, 3000, m);
    }
    from as i128 + q
}

fn bezier(p0: i128, c1: i128, c2: i128, p3: i128, e: u64) -> (r: i128)
    requires
        -reach() <= p0 <= reach(),
        -reach() <= c1 <= reach(),
        -reach() <= c2 <= reach(),
        -reach() <= p3 <= reach(),
        e <= 1000,
    ensures
        r == bezier_coord(p0 as int, c1 as int, c2 as int, p3 as int, e as int),
        -reach() <= r <= reach(),
{
    let ei: i128 = e as i128;
    let s: i128 = 1000 - ei;
    let ghost big: int = 1_000_000_000;
    assert(0 <= s * s <= 1000000 && 0 <= s * ei <= 1000000 && 0 <= ei * ei <= 1000000)
        by (nonlinear_arith)
        requires
            0 <= s <= 1000,
            0 <= ei <= 1000,
    ;
    assert(0 <= s * s * s <= big && 0 <= s * s * ei <= big && 0 <= s * ei * ei <= big
        && 0 <= ei * ei * ei <= big) by (nonlinear_arith)
        requires
            0 <= s <= 1000,
            0 <= ei <= 1000,
            big == 1_000_000_000,
    ;
    assert(s * s * s + 3 * (s * s * ei) + 3 * (s * ei * ei) + ei * ei * ei == big)
        by (nonlinear_arith)
        requires
            s == 1000 - ei,
            big == 1_000_000_000,
    ;
    let w0: i128 = s * s * s;
    let w1: i128 = 3 * (s * s * ei);
    let w2: i128 = 3 * (s * ei * ei);
    let w3: i128 = ei * ei * ei;
    let ghost r: int = reach();
    assert(-(w0 * r) <= w0 * p0 <= w0 * r) by (nonlinear_arith)
        requires
            0 <= w0,
            -r <= p0 <= r,
    ;
    assert(-(w1 * r) <= w1 * c1 <= w1 * r) by (nonlinear_arith)
        requires
            0 <= w1,
            -r <= c1 <= r,
    ;
    assert(-(w2 * r) <= w2 * c2 <= w2 * r) by (nonlinear_arith)
        requires
            0 <= w2,
            -r <= c2 <= r,
    ;
    assert(-(w3 * r) <= w3 * p3 <= w3 * r) by (nonlinear_arith)
        requires
            0 <= w3,
            -r <= p3 <= r,
    ;
    assert(w0 * r + w1 * r + w2 * r + w3 * r == r * big) by (nonlinear_arith)
        requires
            w0 + w1 + w2 + w3 == big,
    ;
    assert(w0 * r <= 3 * big * r && w1 * r <= 3 * big * r && w2 * r <= 3 * big * r
        && w3 * r <= 3 * big * r) by (nonlinear_arith)
        requires
            0 <= w0 <= 3 * big,
            0 <= w1 <= 3 * big,
            0 <= w2 <= 3 * big,
            0 <= w3 <= 3 * big,
            r == reach(),
    ;
    let num: i128 = w0 * p0 + w1 * c1 + w2 * c2 + w3 * p3;
    proof {
        lemma_div_within(num as int, big, r);
    }
    floor_div(num, 1_000_000_000)
}

/// Straight-line distance between two points, at least one pixel.
fn distance(from: Point, to: Point) -> (r: u64)
    ensures
        r == span(from, to),
        1 <= r <= 0x2_0000_0000,
{
    let dx: i128 = to.x as i128 - from.x as i128;
    let dy: i128 = to.y as i128 - from.y as i128;
    assert(0 <= dx * dx <= 0x1_0000_0000_0000_0000 && 0 <= dy * dy <= 0x1_0000_0000_0000_0000)
        by (nonlinear_arith)
        requires
            -0x1_0000_0000 <= dx <= 0x1_0000_0000,
            -0x1_0000_0000 <= dy <= 0x1_0000_0000,
    ;
    let sq: u128 = (dx * dx + dy * dy) as u128;
    let r: u128 = isqrt(sq);
    proof {
        if r > 0x2_0000_0000 {
            assert(r * r > 0x2_0000_0000 * 0x2_0000_0000) by (nonlinear_arith)
                requires
                    r > 0x2_0000_0000,
            ;
        }
    }
    if r == 0 {
        1
    } else {
        r as u64
    }
}

/// Draws the random parameters of the path from `from` to `to` out of the
/// words `ws[base..base + PATH_WORDS]`.
pub fn shape(from: Point, to: Point, profile: &MotionProfile, ws: &Vec<u64>, base: usize) -> (r:
    Shape)
    requires
        base + PATH_WORDS <= usize::MAX,
    ensures
        r == shape_of(from, to, *profile, ws@, base as int),
        shape_ok(r),
{
    let dx: i128 = to.x as i128 - from.x as i128;
    let dy: i128 = to.y as i128 - from.y as i128;
    let f1: i128 = pick_in(ws, base, 0, 2 * CURVE_PERMILLE) as i128 - CURVE_PERMILLE as i128;
    let f2: i128 = pick_in(ws, base + 1, 0, 2 * CURVE_PERMILLE) as i128 - CURVE_PERMILLE as i128;
    let sj: u64 = if profile.speed_jitter_permille > 1000 {
        1000
    } else {
        profile.speed_jitter_permille as u64
    };
    let jit: i128 = pick_in(ws, base + 2, 0, 2 * sj) as i128 - sj as i128;
    assert(0 <= profile.avg_speed * (1000 + jit) <= 2000 * 0x1_0000_0000) by (nonlinear_arith)
        requires
            0 <= 1000 + jit <= 2000,
            0 <= profile.avg_speed <= 0xffff_ffff,
    ;
    let raw_speed: i128 = (profile.avg_speed as i128) * (1000 + jit) / 1000;
    let speed: u64 = if raw_speed < 1 {
        1
    } else {
        raw_speed as u64
    };
    let dist: u64 = distance(from, to);
    let t: u64 = dist * 1000 / speed;
    let travel: u64 = if t < MIN_TRAVEL_MS {
        MIN_TRAVEL_MS
    } else if t > MAX_TRAVEL_MS {
        MAX_TRAVEL_MS
    } else {
        t
    };
    let tick: u64 = pick_in(ws, base + 3, MIN_TICK_MS, MAX_TICK_MS);
    let n: u64 = if travel / tick < MIN_STEPS {
        MIN_STEPS
    } else {
        travel / tick
    };
    assert(travel / tick <= MAX_TRAVEL_MS / MIN_TICK_MS) by {
        vstd::arithmetic::div_mod::lemma_div_is_ordered(travel as int, MAX_TRAVEL_MS as int, tick as int);
        vstd::arithmetic::div_mod::lemma_div_is_ordered_by_denominator(MAX_TRAVEL_MS as int, MIN_TICK_MS as int, tick as int);
    }
    let hesitate: bool = pick_in(ws, base + 4, 0, 99) < HESITATION_PERCENT;
    let (plo, phi) = if profile.min_pause_ms <= profile.max_pause_ms {
        (profile.min_pause_ms as u64, profile.max_pause_ms as u64)
    } else {
        (profile.max_pause_ms as u64, profile.min_pause_ms as u64)
    };
    assert(n / 3 <= 2 * n / 3 - 1 && 2 * n / 3 - 1 < n) by {
        vstd::arithmetic::div_mod::lemma_fundamental_div_mod(n as int, 3);
        vstd::arithmetic::div_mod::lemma_fundamental_div_mod(2 * n as int, 3);
    }
    let pause_after: u64 = pick_in(ws, base + 5, n / 3, 2 * n / 3 - 1);
    let pause_ms: u64 = if hesitate {
        pick_in(ws, base + 6, plo, phi)
    } else {
        0
    };
    let c1x = control(from.x, dx, -dy, f1, 1);
    let c1y = control(from.y, dy, dx, f1, 1);
    let c2x = control(from.x, dx, -dy, f2, 2);
    let c2y = control(from.y, dy, dx, f2, 2);
    Shape {
        c1x,
        c1y,
        c2x,
        c2y,
        travel,
        n,
        phase0: pick_in(ws, base + 7, 0, 359),
        pause_after,
        pause_ms,
    }
}

fn wobble_at(s: Shape, profile: &MotionProfile, ws: &Vec<u64>, base: usize, i: u64) -> (r: i128)
    requires
        shape_ok(s),
        i < s.n,
        base + PATH_WORDS <= usize::MAX,
    ensures
        r == wobble(s, *profile, ws@, base as int, i as int),
        -0x4_0000_0000 <= r <= 0x4_0000_0000,
{
    assert((i + 1) * s.travel <= s.n * MAX_TRAVEL_MS) by (nonlinear_arith)
        requires
            i + 1 <= s.n,
            s.travel <= MAX_TRAVEL_MS,
    ;
    let el: u64 = (i + 1) * s.travel / s.n;
    assert(el <= MAX_TRAVEL_MS) by {
        vstd::arithmetic::div_mod::lemma_div_is_ordered(
            (i + 1) * s.travel as int,
            s.n * MAX_TRAVEL_MS as int,
            s.n as int,
        );
        vstd::arithmetic::div_mod::lemma_div_by_multiple(MAX_TRAVEL_MS as int, s.n as int);
        assert(s.n * MAX_TRAVEL_MS == MAX_TRAVEL_MS * s.n) by (nonlinear_arith);
    }
    assert(el * profile.jitter_hz <= MAX_TRAVEL_MS * 0x1_0000_0000) by (nonlinear_arith)
        requires
            el <= MAX_TRAVEL_MS,
            profile.jitter_hz <= 0xffff_ffff,
    ;
    let deg: u64 = s.phase0 + el * (profile.jitter_hz as u64) * 360 / 1000;
    let sn: i64 = sine(deg);
    let amp: i128 = profile.jitter_milli_px as i128;
    assert(-0x1_0000_0000 * 1000 <= amp * sn <= 0x1_0000_0000 * 1000) by (nonlinear_arith)
        requires
            0 <= amp <= 0xffff_ffff,
            -1000 <= sn <= 1000,
    ;
    let wave: i128 = floor_div(amp * (sn as i128), 1000);
    proof {
        lemma_div_within(amp * sn, 1000, 0x1_0000_0000);
    }
    let noise: u64 = pick_in(ws, base + 8 + i as usize, 0, profile.jitter_milli_px as u64);
    wave + noise as i128 - amp / 2
}

fn shift_of(tx: i128, ty: i128, w: i128) -> (r: (i128, i128))
    requires
        -0x4_0000_0000 <= tx <= 0x4_0000_0000,
        -0x4_0000_0000 <= ty <= 0x4_0000_0000,
        -0x4_0000_0000 <= w <= 0x4_0000_0000,
    ensures
        r.0 == shift(tx as int, ty as int, w as int).0,
        r.1 == shift(tx as int, ty as int, w as int).1,
        -0x10_0000_0000_0000_0000 <= r.0 <= 0x10_0000_0000_0000_0000,
        -0x10_0000_0000_0000_0000 <= r.1 <= 0x10_0000_0000_0000_0000,
{
    assert(0 <= tx * tx <= 0x10_0000_0000_0000_0000 && 0 <= ty * ty <= 0x10_0000_0000_0000_0000)
        by (nonlinear_arith)
        requires
            -0x4_0000_0000 <= tx <= 0x4_0000_0000,
            -0x4_0000_0000 <= ty <= 0x4_0000_0000,
    ;
    let len: u128 = isqrt((tx * tx + ty * ty) as u128);
    if len == 0 {
        (0, 0)
    } else {
        let ghost m: int = 0x10_0000_0000_0000_0000;
        assert(-m <= (-ty) * w <= m && -m <= tx * w <= m) by (nonlinear_arith)
            requires
                -0x4_0000_0000 <= tx <= 0x4_0000_0000,
                -0x4_0000_0000 <= ty <= 0x4_0000_0000,
                -0x4_0000_0000 <= w <= 0x4_0000_0000,
                m == 0x10_0000_0000_0000_0000,
        ;
        let d: i128 = (len as i128) * 1000;
        proof {
            assert(-(m * d) <= (-ty) * w <= m * d && -(m * d) <= tx * w <= m * d) by (nonlinear_arith)
                requires
                    d >= 1000,
                    -m <= (-ty) * w <= m,
                    -m <= tx * w <= m,
                    m >= 0,
            ;
            lemma_div_within((-ty) * w, d as int, m);
            lemma_div_within(tx * w, d as int, m);
        }
        (floor_div((-ty) * w, d), floor_div(tx * w, d))
    }
}

/// Step `i` of the path with shape `s`.
fn step(
    s: Shape,
    from: Point,
    to: Point,
    region: Option<Bounds>,
    profile: &MotionProfile,
    ws: &Vec<u64>,
    base: usize,
    i: u64,
) -> (r: MotionStep)
    requires
        shape_ok(s),
        i < s.n,
        base + PATH_WORDS <= usize::MAX,
    ensures
        r == step_at(s, from, to, region, *profile, ws@, base as int, i as int),
{
    let delay: u64 = s.travel / s.n + if i < s.travel % s.n {
        1
    } else {
        0
    };
    if i == s.n - 1 {
        return MotionStep { point: settle(region, to.x as i128, to.y as i128), delay_ms: delay };
    }
    let u: u64 = (i + 1) * 1000 / s.n;
    assert(u <= 1000) by {
        assert((i + 1) * 1000 <= s.n * 1000) by (nonlinear_arith)
            requires
                i + 1 <= s.n,
        ;
        vstd::arithmetic::div_mod::lemma_div_is_ordered((i + 1) * 1000, s.n * 1000, s.n as int);
        vstd::arithmetic::div_mod::lemma_div_by_multiple(1000, s.n as int);
        assert(s.n * 1000 == 1000 * s.n) by (nonlinear_arith);
    }
    let e: u64 = ease(u);
    let x: i128 = bezier(from.x as i128, s.c1x, s.c2x, to.x as i128, e);
    let y: i128 = bezier(from.y as i128, s.c1y, s.c2y, to.y as i128, e);
    let (px, py): (i128, i128) = if i == 0 {
        (from.x as i128, from.y as i128)
    } else {
        let pu: u64 = i * 1000 / s.n;
        assert(pu <= 1000) by {
            assert(i * 1000 <= s.n * 1000) by (nonlinear_arith)
                requires
                    i <= s.n,
            ;
            vstd::arithmetic::div_mod::lemma_div_is_ordered(i * 1000, s.n * 1000, s.n as int);
            vstd::arithmetic::div_mod::lemma_div_by_multiple(1000, s.n as int);
            assert(s.n * 1000 == 1000 * s.n) by (nonlinear_arith);
        }
        let pe: u64 = ease(pu);
        (
            bezier(from.x as i128, s.c1x, s.c2x, to.x as i128, pe),
            bezier(from.y as i128, s.c1y, s.c2y, to.y as i128, pe),
        )
    };
    let w: i128 = wobble_at(s, profile, ws, base, i);
    let (sx, sy) = shift_of(x - px, y - py, w);
    MotionStep { point: settle(region, x + sx, y + sy), delay_ms: delay }
}

pub open spec fn min_int(a: int, b: int) -> int {
    if a <= b {
        a
    } else {
        b
    }
}

/// The path that the words `ws[base..base + PATH_WORDS]` select: a curve from
/// `from` to `to` (kept inside `region` when one is given), eased, with tremor,
/// whose step delays add up to its travel time.
pub fn path_from_words(
    from: Point,
    to: Point,
    region: Option<Bounds>,
    profile: &MotionProfile,
    ws: &Vec<u64>,
    base: usize,
) -> (r: Path)
    requires
        base + PATH_WORDS <= usize::MAX,
    ensures
        path_from(r, from, to, region, *profile, ws@, base as int),
        r.settle_ms == 0,
        r.steps@.len() >= MIN_STEPS,
        r.steps@.last().point == settle_into(region, to.x as int, to.y as int),
        total_delay(r.steps@) == shape_of(from, to, *profile, ws@, base as int).travel,
        MIN_TRAVEL_MS <= total_delay(r.steps@) <= MAX_TRAVEL_MS,
{
    let s = shape(from, to, profile, ws, base);
    let ghost q: int = s.travel as int / s.n as int;
    let ghost rem: int = s.travel as int % s.n as int;
    let mut steps: Vec<MotionStep> = Vec::new();
    let mut i: u64 = 0;
    while i < s.n
        invariant
            s == shape_of(from, to, *profile, ws@, base as int),
            shape_ok(s),
            base + PATH_WORDS <= usize::MAX,
            q == s.travel as int / s.n as int,
            rem == s.travel as int % s.n as int,
            i <= s.n,
            steps@.len() == i,
            forall|j: int|
                0 <= j < i ==> #[trigger] steps@[j] == step_at(
                    s,
                    from,
                    to,
                    region,
                    *profile,
                    ws@,
                    base as int,
                    j,
                ),
            total_delay(steps@) == i * q + min_int(i as int, rem),
        decreases s.n - i,
    {
        let st = step(s, from, to, region, profile, ws, base, i);
        let ghost before = steps@;
        steps.push(st);
        proof {
            assert(steps@.drop_last() == before);
            assert(st.delay_ms == delay_at(s, i as int));
            assert((i + 1) * q == i * q + q) by (nonlinear_arith);
        }
        i = i + 1;
    }
    proof {
        vstd::arithmetic::div_mod::lemma_fundamental_div_mod(s.travel as int, s.n as int);
        assert(s.n * q == q * s.n) by (nonlinear_arith);
        assert(steps@[s.n - 1] == step_at(s, from, to, region, *profile, ws@, base as int, s.n - 1));
    }
    Path { steps, pause_after: s.pause_after, pause_ms: s.pause_ms, settle_ms: 0 }
}

/// Synthesizes the timed path from `from` to `to`, kept inside `region`
/// when one is given. With a seed in the profile the path depends on the
/// arguments alone; without one the random choices are fresh.
pub fn synthesize(from: Point, to: Point, region: Option<Bounds>, profile: &MotionProfile) -> (r:
    Path)
    ensures
        profile.seed is Some ==> path_from(
            r,
            from,
            to,
            region,
            *profile,
            seeded_words(profile.seed->0, PATH_WORDS as nat),
            0,
        ),
        r.settle_ms == 0,
        r.steps@.len() >= MIN_STEPS,
        r.steps@.last().point == settle_into(region, to.x as int, to.y as int),
        MIN_TRAVEL_MS <= total_delay(r.steps@) <= MAX_TRAVEL_MS,
{
    let ws = match profile.seed {
        Some(seed) => draw_seeded(seed, PATH_WORDS),
        None => draw_fresh(PATH_WORDS),
    };
    path_from_words(from, to, region, profile, &ws, 0)
}

/// Random words one move consumes: a few for the move itself, then room for
/// its three paths.
pub const MOVE_WORDS: usize = 16 + 3 * PATH_WORDS;

/// Bounds of the rest after an overshoot, in milliseconds.
pub const MIN_SETTLE_MS: u64 = 20;

pub const MAX_SETTLE_MS: u64 = 40;

/// Bounds of how long a button is held down, in milliseconds.
pub const MIN_HOLD_MS: u64 = 20;

pub const MAX_HOLD_MS: u64 = 70;

/// A whole pointer move: its paths in order, then a click held `hold_ms`.
#[derive(Clone, Debug)]
pub struct Motion {
    pub legs: Vec<Path>,
    pub hold_ms: u64,
}

/// One planned path of a move: its ends, its region, where its words start,
/// and the rest after it.
pub struct Leg {
    pub from: Point,
    pub to: Point,
    pub region: Option<Bounds>,
    pub base: int,
    pub settle: int,
}

/// Where a move towards `to` really ends.
pub open spec fn landing(to: Point, region: Option<Bounds>) -> Point {
    settle_into(region, to.x as int, to.y as int)
}

/// `from` lies outside a configured region, so the move first enters it.
pub open spec fn enters(from: Point, region: Option<Bounds>) -> bool {
    match region {
        Some(b) => b.ordered() && !b.holds(from),
        None => false,
    }
}

/// Where the move proper starts: on the region's edge when entering it.
pub open spec fn entry_point(from: Point, region: Option<Bounds>) -> Point {
    match region {
        Some(b) => if enters(from, region) {
            b.clamped(from)
        } else {
            from
        },
        None => from,
    }
}

pub open spec fn overshoots(profile: MotionProfile, ws: Seq<u64>) -> bool {
    profile.overshoot_px > 0 && pick(ws, 0, 0, 99) < profile.overshoot_percent
}

/// The point past the target, along the direction of travel, that an
/// overshoot reaches.
pub open spec fn beyond(
    start: Point,
    target: Point,
    region: Option<Bounds>,
    profile: MotionProfile,
    ws: Seq<u64>,
) -> Point {
    let mag = pick(ws, 1, 1, profile.overshoot_px as int);
    let d = span(start, target);
    settle_into(
        region,
        target.x + (target.x - start.x) * mag / d,
        target.y + (target.y - start.y) * mag / d,
    )
}

/// The paths of a move, in order.
pub open spec fn legs_of(
    from: Point,
    to: Point,
    region: Option<Bounds>,
    profile: MotionProfile,
    ws: Seq<u64>,
) -> Seq<Leg> {
    let start = entry_point(from, region);
    let target = landing(to, region);
    let entry: Seq<Leg> = if enters(from, region) {
        seq![Leg { from, to: start, region: None, base: 16, settle: 0 }]
    } else {
        seq![]
    };
    let main: Seq<Leg> = if overshoots(profile, ws) {
        let past = beyond(start, target, region, profile, ws);
        seq![
            Leg {
                from: start,
                to: past,
                region,
                base: 16 + PATH_WORDS,
                settle: pick(ws, 2, MIN_SETTLE_MS as int, MAX_SETTLE_MS as int),
            },
            Leg { from: past, to: target, region, base: 16 + 2 * PATH_WORDS, settle: 0 },
        ]
    } else {
        seq![Leg { from: start, to: target, region, base: 16 + 2 * PATH_WORDS, settle: 0 }]
    };
    entry + main
}

/// `m` is the move that the words `ws` select.
pub open spec fn motion_from(
    m: Motion,
    from: Point,
    to: Point,
    region: Option<Bounds>,
    profile: MotionProfile,
    ws: Seq<u64>,
) -> bool {
    let legs = legs_of(from, to, region, profile, ws);
    &&& m.legs@.len() == legs.len()
    &&& forall|k: int|
        0 <= k < legs.len() ==> {
            &&& path_from(
                #[trigger] m.legs@[k],
                legs[k].from,
                legs[k].to,
                legs[k].region,
                profile,
                ws,
                legs[k].base,
            )
            &&& m.legs@[k].settle_ms == legs[k].settle
        }
    &&& m.hold_ms == pick(ws, 3, MIN_HOLD_MS as int, MAX_HOLD_MS as int)
}

/// A path that is non-empty, lands on `to` (kept in `region`), and whose
/// travel time lies within the duration bounds.
pub open spec fn path_sound(p: Path, to: Point, region: Option<Bounds>) -> bool {
    &&& p.steps@.len() >= MIN_STEPS
    &&& p.steps@.last().point == settle_into(region, to.x as int, to.y as int)
    &&& MIN_TRAVEL_MS <= total_delay(p.steps@) <= MAX_TRAVEL_MS
}

/// Every path of `m` is sound, and the last one ends where the move lands.
pub open spec fn motion_sound(m: Motion, to: Point, region: Option<Bounds>) -> bool {
    &&& m.legs@.len() >= 1
    &&& forall|k: int| 0 <= k < m.legs@.len() ==> #[trigger] m.legs@[k].steps@.len() >= MIN_STEPS
    &&& forall|k: int|
        0 <= k < m.legs@.len() ==> MIN_TRAVEL_MS <= total_delay(#[trigger] m.legs@[k].steps@)
            <= MAX_TRAVEL_MS
    &&& m.legs@.last().steps@.last().point == landing(to, region)
}

/// Clamping a second time changes nothing in a region that is not inverted.
pub proof fn lemma_landing_stable(to: Point, region: Option<Bounds>)
    requires
        region matches Some(b) ==> b.ordered(),
    ensures
        settle_into(
            region,
            landing(to, region).x as int,
            landing(to, region).y as int,
        ) == landing(to, region),
{
}

/// Plans the move that the words `ws` select: into the region first when
/// `from` lies outside it, past the target and back when overshooting, then
/// the click.
pub fn plan_move_with(
    from: Point,
    to: Point,
    region: Option<Bounds>,
    profile: &MotionProfile,
    ws: &Vec<u64>,
) -> (r: Motion)
    ensures
        motion_from(r, from, to, region, *profile, ws@),
        forall|k: int|
            0 <= k < r.legs@.len() ==> path_sound(
                #[trigger] r.legs@[k],
                legs_of(from, to, region, *profile, ws@)[k].to,
                legs_of(from, to, region, *profile, ws@)[k].region,
            ),
        (region matches Some(b) ==> b.ordered()) ==> motion_sound(r, to, region),
{
    let ghost legs = legs_of(from, to, region, *profile, ws@);
    let target = settle(region, to.x as i128, to.y as i128);
    let mut paths: Vec<Path> = Vec::new();
    let mut start = from;
    if let Some(b) = region {
        if b.min_x <= b.max_x && b.min_y <= b.max_y && !b.contains(from) {
            start = b.clamp(from);
            paths.push(path_from_words(from, start, None, profile, ws, 16));
        }
    }
    assert(start == entry_point(from, region));
    let over: bool = profile.overshoot_px > 0 && pick_in(ws, 0, 0, 99) < profile.overshoot_percent
        as u64;
    if over {
        let mag: i128 = pick_in(ws, 1, 1, profile.overshoot_px as u64) as i128;
        let d: i128 = distance(start, target) as i128;
        let ddx: i128 = target.x as i128 - start.x as i128;
        let ddy: i128 = target.y as i128 - start.y as i128;
        assert(-0x1_0000_0000_0000_0000 <= ddx * mag <= 0x1_0000_0000_0000_0000 && -0x1_0000_0000_0000_0000
            <= ddy * mag <= 0x1_0000_0000_0000_0000) by (nonlinear_arith)
            requires
                -0x1_0000_0000 <= ddx <= 0x1_0000_0000,
                -0x1_0000_0000 <= ddy <= 0x1_0000_0000,
                1 <= mag <= 0xffff_ffff,
        ;
        let qx: i128 = floor_div(ddx * mag, d);
        let qy: i128 = floor_div(ddy * mag, d);
        proof {
            let m: int = 0x1_0000_0000_0000_0000;
            assert(m <= m * d) by (nonlinear_arith)
                requires
                    d >= 1,
                    m >= 0,
            ;
            lemma_div_within(ddx * mag, d as int, m);
            lemma_div_within(ddy * mag, d as int, m);
        }
        let past = settle(region, target.x as i128 + qx, target.y as i128 + qy);
        let mut first = path_from_words(start, past, region, profile, ws, 16 + PATH_WORDS);
        first.settle_ms = pick_in(ws, 2, MIN_SETTLE_MS, MAX_SETTLE_MS);
        paths.push(first);
        paths.push(path_from_words(past, target, region, profile, ws, 16 + 2 * PATH_WORDS));
    } else {
        paths.push(path_from_words(start, target, region, profile, ws, 16 + 2 * PATH_WORDS));
    }
    let hold_ms: u64 = pick_in(ws, 3, MIN_HOLD_MS, MAX_HOLD_MS);
    let r = Motion { legs: paths, hold_ms };
    assert(r.legs@.len() == legs.len());
    assert forall|k: int| 0 <= k < legs.len() implies {
        &&& path_from(
            #[trigger] r.legs@[k],
            legs[k].from,
            legs[k].to,
            legs[k].region,
            *profile,
            ws@,
            legs[k].base,
        )
        &&& r.legs@[k].settle_ms == legs[k].settle
    } by {}
    assert forall|k: int| 0 <= k < r.legs@.len() implies path_sound(
        #[trigger] r.legs@[k],
        legs[k].to,
        legs[k].region,
    ) by {}
    proof {
        if region matches Some(b) ==> b.ordered() {
            lemma_landing_stable(to, region);
            assert forall|k: int| 0 <= k < r.legs@.len() implies #[trigger] r.legs@[k].steps@.len()
                >= MIN_STEPS by {
                assert(path_sound(r.legs@[k], legs[k].to, legs[k].region));
            }
            assert forall|k: int| 0 <= k < r.legs@.len() implies MIN_TRAVEL_MS <= total_delay(
                #[trigger] r.legs@[k].steps@,
            ) <= MAX_TRAVEL_MS by {
                assert(path_sound(r.legs@[k], legs[k].to, legs[k].region));
            }
            let last = r.legs@.len() - 1;
            assert(path_sound(r.legs@[last], legs[last].to, legs[last].region));
        }
    }
    r
}

/// Plans a whole move from `from` to `to`. With a seed in the profile the
/// plan depends on the arguments alone; without one the random choices are
/// fresh.
pub fn plan_move(from: Point, to: Point, region: Option<Bounds>, profile: &MotionProfile) -> (r:
    Motion)
    ensures
        profile.seed is Some ==> motion_from(
            r,
            from,
            to,
            region,
            *profile,
            seeded_words(profile.seed->0, MOVE_WORDS as nat),
        ),
        (region matches Some(b) ==> b.ordered()) ==> motion_sound(r, to, region),
{
    let ws = match profile.seed {
        Some(seed) => draw_seeded(seed, MOVE_WORDS),
        None => draw_fresh(MOVE_WORDS),
    };
    plan_move_with(from, to, region, profile, &ws)
}

/// Synthesis is deterministic under a seed: two paths synthesized from the
/// same arguments with the same seed are identical.
pub proof fn lemma_seeded_paths_agree(
    from: Point,
    to: Point,
    region: Option<Bounds>,
    profile: MotionProfile,
    a: Path,
    b: Path,
)
    requires
        profile.seed is Some,
        path_from(a, from, to, region, profile, seeded_words(profile.seed->0, PATH_WORDS as nat), 0),
        path_from(b, from, to, region, profile, seeded_words(profile.seed->0, PATH_WORDS as nat), 0),
    ensures
        a.steps@ == b.steps@,
        a.pause_after == b.pause_after,
        a.pause_ms == b.pause_ms,
{
    assert(a.steps@ =~= b.steps@);
}

/// Move planning is deterministic under a seed: two moves planned from the
/// same arguments with the same seed have identical paths and hold time.
pub proof fn lemma_seeded_moves_agree(
    from: Point,
    to: Point,
    region: Option<Bounds>,
    profile: MotionProfile,
    a: Motion,
    b: Motion,
)
    requires
        profile.seed is Some,
        motion_from(a, from, to, region, profile, seeded_words(profile.seed->0, MOVE_WORDS as nat)),
        motion_from(b, from, to, region, profile, seeded_words(profile.seed->0, MOVE_WORDS as nat)),
    ensures
        a.legs@.len() == b.legs@.len(),
        forall|k: int|
            0 <= k < a.legs@.len() ==> {
                &&& (#[trigger] a.legs@[k]).steps@ == b.legs@[k].steps@
                &&& a.legs@[k].pause_after == b.legs@[k].pause_after
                &&& a.legs@[k].pause_ms == b.legs@[k].pause_ms
                &&& a.legs@[k].settle_ms == b.legs@[k].settle_ms
            },
        a.hold_ms == b.hold_ms,
{
    let ws = seeded_words(profile.seed->0, MOVE_WORDS as nat);
    let legs = legs_of(from, to, region, profile, ws);
    assert forall|k: int| 0 <= k < a.legs@.len() implies {
        &&& (#[trigger] a.legs@[k]).steps@ == b.legs@[k].steps@
        &&& a.legs@[k].pause_after == b.legs@[k].pause_after
        &&& a.legs@[k].pause_ms == b.legs@[k].pause_ms
        &&& a.legs@[k].settle_ms == b.legs@[k].settle_ms
    } by {
        assert(path_from(a.legs@[k], legs[k].from, legs[k].to, legs[k].region, profile, ws, legs[k].base));
        assert(path_from(b.legs@[k], legs[k].from, legs[k].to, legs[k].region, profile, ws, legs[k].base));
        assert(a.legs@[k].steps@ =~= b.legs@[k].steps@);
    }
}

} // verus!
