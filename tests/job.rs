use area_clicker::geometry::{Bounds, Point};
use area_clicker::job::{
    next_action, next_slice, sample_point, sample_wait, Action, ClickButton, ClickConfig, ClickJob,
    Decision, JobMode, JobStatus, Progress, SequenceStep,
};
use area_clicker::trajectory::MotionProfile;

fn profile() -> MotionProfile {
    MotionProfile {
        avg_speed: 1400,
        speed_jitter_permille: 250,
        jitter_milli_px: 600,
        jitter_hz: 9,
        overshoot_percent: 25,
        overshoot_px: 4,
        min_pause_ms: 22,
        max_pause_ms: 55,
        seed: None,
    }
}

fn single(bounds: Option<Bounds>, min_ms: u32, max_ms: u32, finite: Option<u32>) -> ClickConfig {
    ClickConfig {
        mode: JobMode::Single {
            bounds,
            button: ClickButton::Left,
            min_ms,
            max_ms,
            finite_clicks: finite,
        },
    }
}

fn step(name: &str, bounds: Bounds, clicks: u32) -> SequenceStep {
    SequenceStep {
        name: name.to_string(),
        bounds,
        clicks,
        button: ClickButton::Right,
        min_ms: 10,
        max_ms: 20,
    }
}

/// Runs decisions until the job finishes; returns the clicks, or None if it
/// has not finished after `limit` iterations.
fn count_clicks(cfg: &ClickConfig, limit: usize) -> Option<usize> {
    let mut p = Progress::new(cfg);
    let mut clicks = 0;
    for _ in 0..limit {
        match p.decide(cfg) {
            Decision::Click { .. } => clicks += 1,
            Decision::Finish => return Some(clicks),
            _ => {}
        }
    }
    None
}

#[test]
fn sampled_points_stay_in_region() {
    let b = Bounds::new(100, 200, 300, 310);
    let mut seen_other = false;
    for _ in 0..2000 {
        let p = sample_point(&b);
        assert!(b.contains(p));
        if p.x != 100 || p.y != 300 {
            seen_other = true;
        }
    }
    assert!(seen_other);
}

#[test]
fn sampled_wait_stays_in_interval_either_way() {
    let mut seen_other = false;
    for _ in 0..500 {
        let w = sample_wait(500, 100);
        assert!((100..=500).contains(&w));
        if w != 100 {
            seen_other = true;
        }
    }
    assert!(seen_other);
}

#[test]
fn degenerate_interval_waits_exactly() {
    let cfg = single(Some(Bounds::new(100, 200, 100, 200)), 2000, 2000, None);
    let mut p = Progress::new(&cfg);
    for _ in 0..5 {
        match next_action(&mut p, &cfg, &profile()) {
            Action::Click { wait_ms, target, .. } => {
                assert_eq!(wait_ms, 2000);
                assert!(Bounds::new(100, 200, 100, 200).contains(target));
            }
            other => panic!("expected a click, got {:?}", other),
        }
    }
}

#[test]
fn sequence_two_steps_three_clicks_two_cycles_clicks_twelve_times() {
    let cfg = ClickConfig {
        mode: JobMode::Sequence {
            steps: vec![
                step("a", Bounds::new(0, 100, 0, 100), 3),
                step("b", Bounds::new(200, 300, 0, 100), 3),
            ],
            cycles: Some(2),
        },
    };
    assert_eq!(count_clicks(&cfg, 1000), Some(12));
}

#[test]
fn sequence_visits_steps_in_order() {
    let a = Bounds::new(0, 100, 0, 100);
    let b = Bounds::new(200, 300, 0, 100);
    let cfg = ClickConfig {
        mode: JobMode::Sequence { steps: vec![step("a", a, 2), step("b", b, 1)], cycles: Some(1) },
    };
    let mut p = Progress::new(&cfg);
    let mut regions = vec![];
    loop {
        match p.decide(&cfg) {
            Decision::Click { region, button, min_ms, max_ms } => {
                assert_eq!(button, ClickButton::Right);
                assert_eq!((min_ms, max_ms), (10, 20));
                regions.push(region);
            }
            Decision::Finish => break,
            _ => {}
        }
    }
    assert_eq!(regions, vec![a, a, b]);
}

#[test]
fn sequence_skips_invalid_steps() {
    let cfg = ClickConfig {
        mode: JobMode::Sequence {
            steps: vec![
                step("bad", Bounds::new(200, 100, 0, 100), 5),
                step("good", Bounds::new(0, 100, 0, 100), 2),
            ],
            cycles: Some(3),
        },
    };
    assert_eq!(count_clicks(&cfg, 1000), Some(6));
}

#[test]
fn empty_sequence_idles() {
    let cfg = ClickConfig { mode: JobMode::Sequence { steps: vec![], cycles: Some(1) } };
    let mut p = Progress::new(&cfg);
    let before = p;
    assert_eq!(p.decide(&cfg), Decision::Idle);
    assert_eq!(p, before);
    assert!(matches!(next_action(&mut p, &cfg, &profile()), Action::Idle { ms: 150 }));
}

#[test]
fn infinite_sequence_keeps_going() {
    let cfg = ClickConfig {
        mode: JobMode::Sequence { steps: vec![step("a", Bounds::new(0, 9, 0, 9), 1)], cycles: None },
    };
    assert_eq!(count_clicks(&cfg, 1000), None);
}

#[test]
fn finite_single_mode_stops_after_its_clicks() {
    let cfg = single(Some(Bounds::new(0, 10, 0, 10)), 5, 1, Some(4));
    assert_eq!(count_clicks(&cfg, 100), Some(4));
    let none = single(Some(Bounds::new(0, 10, 0, 10)), 5, 1, Some(0));
    assert_eq!(count_clicks(&none, 100), Some(0));
}

#[test]
fn single_mode_swaps_reversed_interval() {
    let cfg = single(Some(Bounds::new(0, 10, 0, 10)), 900, 300, None);
    let mut p = Progress::new(&cfg);
    match p.decide(&cfg) {
        Decision::Click { min_ms, max_ms, .. } => assert_eq!((min_ms, max_ms), (300, 900)),
        other => panic!("expected a click, got {:?}", other),
    }
}

#[test]
fn inverted_region_idles_instead_of_sampling() {
    let inverted = Bounds { min_x: 200, max_x: 100, min_y: 100, max_y: 200 };
    assert!(!inverted.is_valid());
    let cfg = single(Some(inverted), 100, 200, Some(3));
    let mut p = Progress::new(&cfg);
    let before = p;
    assert!(matches!(next_action(&mut p, &cfg, &profile()), Action::Idle { ms: 150 }));
    assert_eq!(p, before);
}

#[test]
fn region_removed_mid_run_idles_then_resumes() {
    let b = Bounds::new(100, 200, 100, 200);
    let good = single(Some(b), 10, 20, Some(5));
    let mut p = Progress::new(&good);
    assert!(matches!(next_action(&mut p, &good, &profile()), Action::Click { .. }));
    assert_eq!(p.remaining, Some(4));
    let gone = single(None, 10, 20, Some(5));
    for _ in 0..3 {
        assert!(matches!(next_action(&mut p, &gone, &profile()), Action::Idle { .. }));
    }
    assert_eq!(p.remaining, Some(4));
    match next_action(&mut p, &good, &profile()) {
        Action::Click { target, button, motion, .. } => {
            assert!(b.contains(target));
            assert_eq!(button, ClickButton::Left);
            assert_eq!(motion.legs.last().unwrap().steps.last().unwrap().point, target);
        }
        other => panic!("expected a click, got {:?}", other),
    }
    assert_eq!(p.remaining, Some(3));
}

#[test]
fn first_move_starts_outside_region() {
    let b = Bounds::new(100, 200, 100, 200);
    let cfg = single(Some(b), 10, 20, None);
    let mut p = Progress::new(&cfg);
    match next_action(&mut p, &cfg, &profile()) {
        Action::Click { motion, target, .. } => {
            // the first path enters the region from (60, 60)
            assert!(motion.legs.len() >= 2);
            assert_eq!(motion.legs[0].steps.last().unwrap().point, Point::new(100, 100));
            assert_eq!(p.last_pos, Some(target));
        }
        other => panic!("expected a click, got {:?}", other),
    }
}

#[test]
fn stop_twice_stays_stopped() {
    let mut job = ClickJob::new();
    assert_eq!(job.status, JobStatus::Idle);
    assert!(job.start());
    assert!(job.is_running());
    assert!(!job.start());
    job.stop();
    assert_eq!(job.status, JobStatus::Stopped);
    job.stop();
    assert_eq!(job.status, JobStatus::Stopped);
    assert!(!job.is_running());
}

#[test]
fn finishing_a_run_stops_it() {
    let mut job = ClickJob::new();
    job.finish();
    assert_eq!(job.status, JobStatus::Idle);
    job.start();
    job.finish();
    assert_eq!(job.status, JobStatus::Stopped);
}

#[test]
fn sleeps_are_sliced() {
    assert_eq!(next_slice(2000), 50);
    assert_eq!(next_slice(50), 50);
    assert_eq!(next_slice(12), 12);
    assert_eq!(next_slice(0), 0);
}
