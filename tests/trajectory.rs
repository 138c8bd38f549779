use area_clicker::executor::{script, Op};
use area_clicker::job::ClickButton;
use area_clicker::chance::pick_in;
use area_clicker::geometry::{Bounds, Point};
use area_clicker::trajectory::{
    path_from_words, plan_move, plan_move_with, synthesize, MotionProfile, MotionStep, Path,
    MOVE_WORDS,
};

fn profile(seed: Option<u64>) -> MotionProfile {
    MotionProfile {
        avg_speed: 1400,
        speed_jitter_permille: 250,
        jitter_milli_px: 600,
        jitter_hz: 9,
        overshoot_percent: 25,
        overshoot_px: 4,
        min_pause_ms: 22,
        max_pause_ms: 55,
        seed,
    }
}

fn calm() -> MotionProfile {
    MotionProfile {
        avg_speed: 1000,
        speed_jitter_permille: 0,
        jitter_milli_px: 0,
        jitter_hz: 9,
        overshoot_percent: 0,
        overshoot_px: 0,
        min_pause_ms: 30,
        max_pause_ms: 30,
        seed: None,
    }
}

fn total(p: &Path) -> u64 {
    p.steps.iter().map(|s| s.delay_ms).sum()
}

#[test]
fn pick_reduces_words_into_range() {
    let ws = vec![17u64, 5, u64::MAX];
    assert_eq!(pick_in(&ws, 0, 10, 14), 12);
    assert_eq!(pick_in(&ws, 1, 0, 99), 5);
    assert_eq!(pick_in(&ws, 2, 0, u64::MAX), u64::MAX);
    assert_eq!(pick_in(&ws, 9, 3, 8), 3);
}

#[test]
fn zero_words_give_an_exact_path() {
    let ws = vec![0u64; 256];
    let p = path_from_words(Point::new(0, 0), Point::new(100, 0), None, &calm(), &ws, 0);
    // 100 px at 1000 px/s is 100 ms; a tick of 8 ms gives 12 steps.
    assert_eq!(p.steps.len(), 12);
    let delays: Vec<u64> = p.steps.iter().map(|s| s.delay_ms).collect();
    assert_eq!(delays, vec![9, 9, 9, 9, 8, 8, 8, 8, 8, 8, 8, 8]);
    assert_eq!(total(&p), 100);
    // Half way in time the eased curve is half way along, bent off the line.
    assert_eq!(p.steps[5].point, Point::new(49, -9));
    assert_eq!(p.steps[11].point, Point::new(100, 0));
    // A zero word always hesitates, in the middle third, for the shortest pause.
    assert_eq!(p.pause_after, 4);
    assert_eq!(p.pause_ms, 30);
    assert_eq!(p.settle_ms, 0);
}

#[test]
fn seeded_synthesis_is_deterministic() {
    let from = Point::new(10, 20);
    let to = Point::new(640, 480);
    let a = synthesize(from, to, None, &profile(Some(42)));
    let b = synthesize(from, to, None, &profile(Some(42)));
    assert_eq!(a.steps, b.steps);
    assert_eq!(a.pause_after, b.pause_after);
    assert_eq!(a.pause_ms, b.pause_ms);
}

#[test]
fn different_seeds_give_different_paths() {
    let from = Point::new(10, 20);
    let to = Point::new(640, 480);
    let a = synthesize(from, to, None, &profile(Some(1)));
    let b = synthesize(from, to, None, &profile(Some(2)));
    assert_ne!(a.steps, b.steps);
}

#[test]
fn seeded_move_planning_is_deterministic() {
    let region = Some(Bounds::new(100, 400, 100, 400));
    let a = plan_move(Point::new(0, 0), Point::new(250, 260), region, &profile(Some(7)));
    let b = plan_move(Point::new(0, 0), Point::new(250, 260), region, &profile(Some(7)));
    assert_eq!(a.legs.len(), b.legs.len());
    for (x, y) in a.legs.iter().zip(b.legs.iter()) {
        assert_eq!(x.steps, y.steps);
        assert_eq!(x.settle_ms, y.settle_ms);
    }
    assert_eq!(a.hold_ms, b.hold_ms);
}

#[test]
fn path_ends_on_target_and_is_not_empty() {
    for seed in 0..50u64 {
        let to = Point::new(300 + seed as i32, 200);
        let p = synthesize(Point::new(0, 0), to, None, &profile(Some(seed)));
        assert!(p.steps.len() >= 3);
        assert_eq!(p.steps.last().unwrap().point, to);
    }
    let p = synthesize(Point::new(5, 5), Point::new(900, 10), None, &profile(None));
    assert_eq!(p.steps.last().unwrap().point, Point::new(900, 10));
}

#[test]
fn path_inside_region_is_clamped() {
    let b = Bounds::new(0, 50, 0, 50);
    for seed in 0..20u64 {
        let p = synthesize(Point::new(10, 10), Point::new(200, 200), Some(b), &profile(Some(seed)));
        assert_eq!(p.steps.last().unwrap().point, Point::new(50, 50));
        assert!(p.steps.iter().all(|s: &MotionStep| b.contains(s.point)));
    }
}

#[test]
fn travel_time_is_bounded_for_short_and_long_moves() {
    for seed in 0..30u64 {
        let short = synthesize(Point::new(100, 100), Point::new(101, 100), None, &profile(Some(seed)));
        let long = synthesize(Point::new(0, 0), Point::new(3000, 0), None, &profile(Some(seed)));
        let same = synthesize(Point::new(7, 7), Point::new(7, 7), None, &profile(Some(seed)));
        for p in [&short, &long, &same] {
            assert!(total(p) >= 60 && total(p) <= 1600);
        }
        assert_eq!(total(&short), 60);
    }
    let slow = MotionProfile { avg_speed: 1, ..calm() };
    let p = synthesize(Point::new(0, 0), Point::new(3000, 0), None, &slow);
    assert_eq!(total(&p), 1600);
    assert!(p.steps.len() >= 1600 / 12 && p.steps.len() <= 1600 / 8);
}

#[test]
fn extreme_coordinates_are_handled() {
    let p = synthesize(
        Point::new(i32::MIN, i32::MIN),
        Point::new(i32::MAX, i32::MAX),
        None,
        &profile(Some(3)),
    );
    assert_eq!(p.steps.last().unwrap().point, Point::new(i32::MAX, i32::MAX));
    assert!(total(&p) <= 1600);
}

#[test]
fn move_from_outside_enters_region_first() {
    let b = Bounds::new(100, 400, 100, 400);
    let ws = vec![99u64; MOVE_WORDS];
    let m = plan_move_with(Point::new(60, 60), Point::new(250, 250), Some(b), &calm(), &ws);
    assert_eq!(m.legs.len(), 2);
    assert_eq!(m.legs[0].steps.last().unwrap().point, Point::new(100, 100));
    assert_eq!(m.legs[1].steps.last().unwrap().point, Point::new(250, 250));
    assert!(m.legs[1].steps.iter().all(|s| b.contains(s.point)));
    // 99 reduced into [20, 70] is 20 + 99 % 51.
    assert_eq!(m.hold_ms, 68);
}

#[test]
fn overshoot_passes_the_target_then_returns() {
    let b = Bounds::new(0, 1000, 0, 1000);
    let eager = MotionProfile { overshoot_percent: 100, overshoot_px: 4, ..calm() };
    let ws = vec![3u64; MOVE_WORDS];
    let m = plan_move_with(Point::new(100, 500), Point::new(500, 500), Some(b), &eager, &ws);
    assert_eq!(m.legs.len(), 2);
    // magnitude 1 + 3 % 4 = 4 px past the target along the travel direction.
    assert_eq!(m.legs[0].steps.last().unwrap().point, Point::new(504, 500));
    assert_eq!(m.legs[0].settle_ms, 23);
    assert_eq!(m.legs[1].steps.last().unwrap().point, Point::new(500, 500));
    assert_eq!(m.legs[1].settle_ms, 0);
}

#[test]
fn no_overshoot_when_disabled() {
    let b = Bounds::new(0, 1000, 0, 1000);
    for seed in 0..20u64 {
        let quiet = MotionProfile { seed: Some(seed), ..calm() };
        let m = plan_move(Point::new(10, 10), Point::new(900, 900), Some(b), &quiet);
        assert_eq!(m.legs.len(), 1);
        assert!(m.hold_ms >= 20 && m.hold_ms <= 70);
    }
}

#[test]
fn script_plays_paths_then_clicks_once() {
    let b = Bounds::new(0, 1000, 0, 1000);
    let eager = MotionProfile { overshoot_percent: 100, overshoot_px: 4, ..calm() };
    let ws = vec![3u64; MOVE_WORDS];
    let m = plan_move_with(Point::new(100, 500), Point::new(500, 500), Some(b), &eager, &ws);
    let ops = script(&m, ClickButton::Left);
    assert_eq!(ops.last(), Some(&Op::Press { button: ClickButton::Left, hold_ms: m.hold_ms }));
    assert_eq!(ops.iter().filter(|o| matches!(o, Op::Press { .. })).count(), 1);
    let moves: Vec<Point> = ops
        .iter()
        .filter_map(|o| match o {
            Op::MoveTo { point } => Some(*point),
            _ => None,
        })
        .collect();
    let expected: Vec<Point> = m.legs.iter().flat_map(|l| l.steps.iter().map(|s| s.point)).collect();
    assert_eq!(moves, expected);
    // the rest after the overshoot comes right after the first path's last wait
    let steps0 = m.legs[0].steps.len();
    let waits: u64 = ops
        .iter()
        .map(|o| match o {
            Op::Wait { ms } => *ms,
            _ => 0,
        })
        .sum();
    let delays: u64 = m.legs.iter().flat_map(|l| l.steps.iter().map(|s| s.delay_ms)).sum();
    let pauses: u64 = m.legs.iter().map(|l| l.pause_ms + l.settle_ms).sum();
    assert!(steps0 >= 3);
    assert_eq!(waits, delays + pauses);
}
