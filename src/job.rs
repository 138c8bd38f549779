use vstd::prelude::*;

use crate::chance::random_between;
use crate::geometry::{Bounds, Point};
use crate::chance::seeded_words;
use crate::trajectory::{motion_from, motion_sound, plan_move, Motion, MotionProfile, MOVE_WORDS};

verus! {

/// How long the job rests before reading an unusable configuration again.
pub const IDLE_MS: u32 = 150;

/// Longest single sleep, so that a stop request is seen promptly.
pub const SLICE_MS: u64 = 50;

/// How far outside the region the very first move starts, in pixels.
pub const FIRST_MOVE_OFFSET: i32 = 40;

#[derive(Clone, Copy, Debug, PartialEq, Eq, Structural)]
pub enum ClickButton {
    Left,
    Right,
}

/// One step of a sequence: `clicks` clicks inside `bounds`, each followed by
/// a wait drawn from the interval (milliseconds).
#[derive(Clone, Debug)]
pub struct SequenceStep {
    pub name: String,
    pub bounds: Bounds,
    pub clicks: u32,
    pub button: ClickButton,
    pub min_ms: u32,
    pub max_ms: u32,
}

/// What the job does. `None` for a limit means no limit.
#[derive(Clone, Debug)]
pub enum JobMode {
    Single {
        bounds: Option<Bounds>,
        button: ClickButton,
        min_ms: u32,
        max_ms: u32,
        finite_clicks: Option<u32>,
    },
    Sequence { steps: Vec<SequenceStep>, cycles: Option<u32> },
}

/// The job description shared between the editor and the running job.
#[derive(Clone, Debug)]
pub struct ClickConfig {
    pub mode: JobMode,
}

/// What the running job itself remembers between iterations.
#[derive(Clone, Copy, Debug, PartialEq, Eq, Structural)]
pub struct Progress {
    /// Clicks left in single mode.
    pub remaining: Option<u32>,
    /// Position in the sequence.
    pub step: usize,
    /// Clicks done in the current step.
    pub done: u32,
    /// Passes left over the sequence.
    pub cycles_left: Option<u32>,
    /// Whether the current pass has clicked at all.
    pub clicked_in_pass: bool,
    /// Where the last click landed.
    pub last_pos: Option<Point>,
}

/// The outcome of one iteration, before any random choice.
#[derive(Clone, Copy, Debug, PartialEq, Eq, Structural)]
pub enum Decision {
    /// Nothing usable to click: rest, then read the configuration again.
    Idle,
    /// Bookkeeping only: decide again at once.
    Advance,
    /// Click somewhere in `region`, then wait within `[min_ms, max_ms]`.
    Click { region: Bounds, button: ClickButton, min_ms: u32, max_ms: u32 },
    /// The configured limit is reached.
    Finish,
}

/// The interval with its bounds in order.
pub open spec fn ordered_interval(a: u32, b: u32) -> (u32, u32) {
    if a <= b {
        (a, b)
    } else {
        (b, a)
    }
}

pub open spec fn count_down(c: Option<u32>) -> Option<u32> {
    match c {
        Some(n) => Some(if n == 0 { 0 } else { (n - 1) as u32 }),
        None => None,
    }
}

/// The progress a run starts with under `cfg`.
pub open spec fn initial_progress(cfg: ClickConfig) -> Progress {
    Progress {
        remaining: match cfg.mode {
            JobMode::Single { finite_clicks, .. } => finite_clicks,
            JobMode::Sequence { .. } => None,
        },
        step: 0,
        done: 0,
        cycles_left: match cfg.mode {
            JobMode::Single { .. } => None,
            JobMode::Sequence { cycles, .. } => cycles,
        },
        clicked_in_pass: false,
        last_pos: None,
    }
}

/// One iteration of the job over a snapshot of the configuration: the new
/// progress and what to do.
pub open spec fn decide_spec(p: Progress, cfg: ClickConfig) -> (Progress, Decision) {
    match cfg.mode {
        JobMode::Single { bounds, button, min_ms, max_ms, .. } => {
            if p.remaining == Some(0u32) {
                (p, Decision::Finish)
            } else {
                match bounds {
                    Some(b) => if b.valid() {
                        let (lo, hi) = ordered_interval(min_ms, max_ms);
                        (
                            Progress { remaining: count_down(p.remaining), ..p },
                            Decision::Click { region: b, button, min_ms: lo, max_ms: hi },
                        )
                    } else {
                        (p, Decision::Idle)
                    },
                    None => (p, Decision::Idle),
                }
            }
        },
        JobMode::Sequence { steps, .. } => {
            if steps@.len() == 0 {
                (p, Decision::Idle)
            } else if p.cycles_left == Some(0u32) {
                (p, Decision::Finish)
            } else if p.step >= steps@.len() {
                let left = count_down(p.cycles_left);
                let q = Progress { step: 0, done: 0, cycles_left: left, clicked_in_pass: false, ..p };
                if left == Some(0u32) {
                    (q, Decision::Finish)
                } else if !p.clicked_in_pass {
                    (q, Decision::Idle)
                } else {
                    (q, Decision::Advance)
                }
            } else {
                let st = steps@[p.step as int];
                if !st.bounds.valid() || p.done >= st.clicks {
                    (Progress { step: (p.step + 1) as usize, done: 0, ..p }, Decision::Advance)
                } else {
                    let (lo, hi) = ordered_interval(st.min_ms, st.max_ms);
                    (
                        Progress { done: (p.done + 1) as u32, clicked_in_pass: true, ..p },
                        Decision::Click {
                            region: st.bounds,
                            button: st.button,
                            min_ms: lo,
                            max_ms: hi,
                        },
                    )
                }
            }
        },
    }
}

impl Progress {
    /// The progress of a run that starts under `cfg`: the click and cycle
    /// limits are taken from it once.
    pub fn new(cfg: &ClickConfig) -> (r: Progress)
        ensures
            r == initial_progress(*cfg),
    {
        let (remaining, cycles_left) = match &cfg.mode {
            JobMode::Single { finite_clicks, .. } => (*finite_clicks, None),
            JobMode::Sequence { cycles, .. } => (None, *cycles),
        };
        Progress { remaining, step: 0, done: 0, cycles_left, clicked_in_pass: false, last_pos: None }
    }

    /// One iteration over a snapshot of the configuration.
    pub fn decide(&mut self, cfg: &ClickConfig) -> (r: Decision)
        ensures
            (*final(self), r) == decide_spec(*old(self), *cfg),
    {
        match &cfg.mode {
            JobMode::Single { bounds, button, min_ms, max_ms, .. } => {
                if self.remaining == Some(0u32) {
                    return Decision::Finish;
                }
                match bounds {
                    Some(b) => {
                        if b.is_valid() {
                            self.remaining = match self.remaining {
                                Some(n) => Some(n - 1),
                                None => None,
                            };
                            let (lo, hi) = if *min_ms <= *max_ms {
                                (*min_ms, *max_ms)
                            } else {
                                (*max_ms, *min_ms)
                            };
                            Decision::Click { region: *b, button: *button, min_ms: lo, max_ms: hi }
                        } else {
                            Decision::Idle
                        }
                    },
                    None => Decision::Idle,
                }
            },
            JobMode::Sequence { steps, .. } => {
                if steps.len() == 0 {
                    Decision::Idle
                } else if self.cycles_left == Some(0u32) {
                    Decision::Finish
                } else if self.step >= steps.len() {
                    let clicked = self.clicked_in_pass;
                    self.cycles_left = match self.cycles_left {
                        Some(n) => Some(n - 1),
                        None => None,
                    };
                    self.step = 0;
                    self.done = 0;
                    self.clicked_in_pass = false;
                    if self.cycles_left == Some(0u32) {
                        Decision::Finish
                    } else if !clicked {
                        Decision::Idle
                    } else {
                        Decision::Advance
                    }
                } else {
                    let st = &steps[self.step];
                    if !st.bounds.is_valid() || self.done >= st.clicks {
                        self.step = self.step + 1;
                        self.done = 0;
                        Decision::Advance
                    } else {
                        self.done = self.done + 1;
                        self.clicked_in_pass = true;
                        let (lo, hi) = if st.min_ms <= st.max_ms {
                            (st.min_ms, st.max_ms)
                        } else {
                            (st.max_ms, st.min_ms)
                        };
                        Decision::Click { region: st.bounds, button: st.button, min_ms: lo, max_ms: hi }
                    }
                }
            },
        }
    }
}

/// What the runner does next.
#[derive(Clone, Debug)]
pub enum Action {
    /// Rest `ms`, then read the configuration again.
    Idle { ms: u32 },
    /// Decide again at once.
    Proceed,
    /// Play `motion`, click `button` at `target`, then wait `wait_ms`.
    Click { motion: Motion, target: Point, button: ClickButton, wait_ms: u32 },
    /// The run is over.
    Finish,
}

/// A uniformly drawn point of the region.
pub fn sample_point(b: &Bounds) -> (r: Point)
    requires
        b.ordered(),
    ensures
        b.holds(r),
{
    let x = random_between(b.min_x as i64, b.max_x as i64);
    let y = random_between(b.min_y as i64, b.max_y as i64);
    Point { x: x as i32, y: y as i32 }
}

/// A uniformly drawn wait within the interval, its bounds taken in either order.
pub fn sample_wait(a: u32, b: u32) -> (r: u32)
    ensures
        ordered_interval(a, b).0 <= r <= ordered_interval(a, b).1,
{
    let (lo, hi) = if a <= b {
        (a, b)
    } else {
        (b, a)
    };
    random_between(lo as i64, hi as i64) as u32
}

/// Where the first move of a run starts: a little above and left of the region.
pub open spec fn first_start(b: Bounds) -> Point {
    Point {
        x: if b.min_x >= i32::MIN + FIRST_MOVE_OFFSET {
            (b.min_x - FIRST_MOVE_OFFSET) as i32
        } else {
            i32::MIN
        },
        y: if b.min_y >= i32::MIN + FIRST_MOVE_OFFSET {
            (b.min_y - FIRST_MOVE_OFFSET) as i32
        } else {
            i32::MIN
        },
    }
}

/// Where the next move starts: the last click, or outside the region on the
/// first move of a run.
pub open spec fn move_start(p: Progress, region: Bounds) -> Point {
    match p.last_pos {
        Some(q) => q,
        None => first_start(region),
    }
}

fn first_start_of(b: &Bounds) -> (r: Point)
    ensures
        r == first_start(*b),
{
    let x = if b.min_x >= i32::MIN + FIRST_MOVE_OFFSET {
        b.min_x - FIRST_MOVE_OFFSET
    } else {
        i32::MIN
    };
    let y = if b.min_y >= i32::MIN + FIRST_MOVE_OFFSET {
        b.min_y - FIRST_MOVE_OFFSET
    } else {
        i32::MIN
    };
    Point { x, y }
}

/// One iteration of the job: decides over the snapshot `cfg`, and for a
/// click draws the target, the move towards it and the wait after it.
pub fn next_action(p: &mut Progress, cfg: &ClickConfig, profile: &MotionProfile) -> (r: Action)
    ensures
        ({
            let (q, d) = decide_spec(*old(p), *cfg);
            match d {
                Decision::Idle => r == (Action::Idle { ms: IDLE_MS }) && *final(p) == q,
                Decision::Advance => r == Action::Proceed && *final(p) == q,
                Decision::Finish => r == Action::Finish && *final(p) == q,
                Decision::Click { region, button, min_ms, max_ms } => match r {
                    Action::Click { motion, target, button: b, wait_ms } => {
                        &&& region.holds(target)
                        &&& b == button
                        &&& min_ms <= wait_ms <= max_ms
                        &&& motion_sound(motion, target, Some(region))
                        &&& profile.seed is Some ==> motion_from(
                            motion,
                            move_start(*old(p), region),
                            target,
                            Some(region),
                            *profile,
                            seeded_words(profile.seed->0, MOVE_WORDS as nat),
                        )
                        &&& *final(p) == (Progress { last_pos: Some(target), ..q })
                    },
                    _ => false,
                },
            }
        }),
{
    let d = p.decide(cfg);
    match d {
        Decision::Idle => Action::Idle { ms: IDLE_MS },
        Decision::Advance => Action::Proceed,
        Decision::Finish => Action::Finish,
        Decision::Click { region, button, min_ms, max_ms } => {
            let target = sample_point(&region);
            let from = match p.last_pos {
                Some(q) => q,
                None => first_start_of(&region),
            };
            let motion = plan_move(from, target, Some(region), profile);
            let wait_ms = sample_wait(min_ms, max_ms);
            p.last_pos = Some(target);
            Action::Click { motion, target, button, wait_ms }
        },
    }
}

/// The next sleep of a wait with `left_ms` to go.
pub fn next_slice(left_ms: u64) -> (r: u64)
    ensures
        r == if left_ms < SLICE_MS {
            left_ms
        } else {
            SLICE_MS
        },
{
    if left_ms < SLICE_MS {
        left_ms
    } else {
        SLICE_MS
    }
}

/// Life cycle of a job: not started, running, stopped.
#[derive(Clone, Copy, Debug, PartialEq, Eq, Structural)]
pub enum JobStatus {
    Idle,
    Running,
    Stopped,
}

/// The control surface of a click job.
#[derive(Clone, Copy, Debug, PartialEq, Eq, Structural)]
pub struct ClickJob {
    pub status: JobStatus,
}

impl ClickJob {
    pub fn new() -> (r: ClickJob)
        ensures
            r.status == JobStatus::Idle,
    {
        ClickJob { status: JobStatus::Idle }
    }

    /// Starts a run; returns whether one began (starting a running job does nothing).
    pub fn start(&mut self) -> (r: bool)
        ensures
            r == (old(self).status != JobStatus::Running),
            final(self).status == JobStatus::Running,
    {
        if self.status == JobStatus::Running {
            false
        } else {
            self.status = JobStatus::Running;
            true
        }
    }

    /// Stops the job, whatever its state.
    pub fn stop(&mut self)
        ensures
            *final(self) == stopped(*old(self)),
            final(self).status == JobStatus::Stopped,
    {
        self.status = JobStatus::Stopped;
    }

    /// Records that the run ended by itself (its limit was reached).
    pub fn finish(&mut self)
        ensures
            final(self).status == (if old(self).status == JobStatus::Running {
                JobStatus::Stopped
            } else {
                old(self).status
            }),
    {
        if self.status == JobStatus::Running {
            self.status = JobStatus::Stopped;
        }
    }

    pub fn is_running(&self) -> (r: bool)
        ensures
            r == (self.status == JobStatus::Running),
    {
        self.status == JobStatus::Running
    }
}

/// The job after a stop request.
pub open spec fn stopped(j: ClickJob) -> ClickJob {
    ClickJob { status: JobStatus::Stopped }
}

/// Stopping is idempotent: a second stop leaves the job stopped, as the
/// first did.
pub proof fn lemma_stop_twice(j: ClickJob)
    ensures
        stopped(stopped(j)) == stopped(j),
        stopped(stopped(j)).status == JobStatus::Stopped,
{
}

/// In single mode a missing or unusable region never yields a click: the job
/// rests with its progress untouched, and once a usable region is written the
/// very next iteration clicks inside it.
pub proof fn lemma_idles_until_region_usable(
    p: Progress,
    missing: Option<Bounds>,
    usable: Bounds,
    button: ClickButton,
    min_ms: u32,
    max_ms: u32,
    finite_clicks: Option<u32>,
)
    requires
        p.remaining != Some(0u32),
        missing matches Some(b) ==> !b.valid(),
        usable.valid(),
    ensures
        decide_spec(
            p,
            ClickConfig { mode: JobMode::Single { bounds: missing, button, min_ms, max_ms, finite_clicks } },
        ) == (p, Decision::Idle),
        decide_spec(
            p,
            ClickConfig {
                mode: JobMode::Single { bounds: Some(usable), button, min_ms, max_ms, finite_clicks },
            },
        ).1 == (Decision::Click {
            region: usable,
            button,
            min_ms: ordered_interval(min_ms, max_ms).0,
            max_ms: ordered_interval(min_ms, max_ms).1,
        }),
{
}

/// The steps of a sequence configuration.
pub open spec fn steps_of(cfg: ClickConfig) -> Seq<SequenceStep> {
    match cfg.mode {
        JobMode::Sequence { steps, .. } => steps@,
        JobMode::Single { .. } => seq![],
    }
}

/// Clicks one step makes in a pass: none when its region is unusable.
pub open spec fn step_clicks(st: SequenceStep) -> nat {
    if st.bounds.valid() {
        st.clicks as nat
    } else {
        0
    }
}

/// Clicks of a pass over the steps from `i` on.
pub open spec fn pass_clicks(steps: Seq<SequenceStep>, i: int) -> nat
    decreases steps.len() - i,
{
    if i >= steps.len() || i < 0 {
        0
    } else {
        step_clicks(steps[i]) + pass_clicks(steps, i + 1)
    }
}

/// Iterations of a pass over the steps from `i` on: each click, and one to
/// leave each step.
pub open spec fn pass_moves(steps: Seq<SequenceStep>, i: int) -> nat
    decreases steps.len() - i,
{
    if i >= steps.len() || i < 0 {
        0
    } else {
        step_clicks(steps[i]) + 1 + pass_moves(steps, i + 1)
    }
}

/// Runs `fuel` iterations from `p` under a fixed configuration: the clicks
/// decided, and whether the run finished.
pub open spec fn run(p: Progress, cfg: ClickConfig, fuel: nat) -> (nat, bool)
    decreases fuel,
{
    if fuel == 0 {
        (0, false)
    } else {
        let (q, d) = decide_spec(p, cfg);
        match d {
            Decision::Finish => (0, true),
            Decision::Click { .. } => {
                let (c, f) = run(q, cfg, (fuel - 1) as nat);
                (c + 1, f)
            },
            _ => run(q, cfg, (fuel - 1) as nat),
        }
    }
}

/// The rest of step `p.step`: its remaining clicks, then on to the next step.
proof fn lemma_rest_of_step(p: Progress, cfg: ClickConfig, rem: nat, fuel: nat)
    requires
        cfg.mode is Sequence,
        0 < steps_of(cfg).len() <= usize::MAX,
        p.step < steps_of(cfg).len(),
        p.cycles_left != Some(0u32),
        rem == (if steps_of(cfg)[p.step as int].bounds.valid() {
            steps_of(cfg)[p.step as int].clicks - p.done
        } else {
            0
        }),
        steps_of(cfg)[p.step as int].bounds.valid() ==> p.done <= steps_of(cfg)[p.step as int].clicks,
    ensures
        ({
            let next = Progress {
                step: (p.step + 1) as usize,
                done: 0,
                clicked_in_pass: p.clicked_in_pass || rem > 0,
                ..p
            };
            run(p, cfg, fuel + rem + 1) == (rem + run(next, cfg, fuel).0, run(next, cfg, fuel).1)
        }),
    decreases rem,
{
    if rem > 0 {
        let q = Progress { done: (p.done + 1) as u32, clicked_in_pass: true, ..p };
        lemma_rest_of_step(q, cfg, (rem - 1) as nat, fuel);
        assert(fuel + rem + 1 - 1 == fuel + (rem - 1) + 1);
    }
}

/// A pass from step `p.step` (with no click done in it yet) to the end of the steps.
proof fn lemma_rest_of_pass(p: Progress, cfg: ClickConfig, fuel: nat)
    requires
        cfg.mode is Sequence,
        0 < steps_of(cfg).len() <= usize::MAX,
        p.step <= steps_of(cfg).len(),
        p.done == 0,
        p.cycles_left != Some(0u32),
    ensures
        ({
            let end = Progress {
                step: steps_of(cfg).len() as usize,
                done: 0,
                clicked_in_pass: p.clicked_in_pass || pass_clicks(steps_of(cfg), p.step as int) > 0,
                ..p
            };
            run(p, cfg, fuel + pass_moves(steps_of(cfg), p.step as int)) == (
                pass_clicks(steps_of(cfg), p.step as int) + run(end, cfg, fuel).0,
                run(end, cfg, fuel).1,
            )
        }),
    decreases steps_of(cfg).len() - p.step,
{
    let steps = steps_of(cfg);
    if p.step < steps.len() {
        let st = steps[p.step as int];
        let rem = step_clicks(st);
        let rest = pass_moves(steps, p.step + 1);
        lemma_rest_of_step(p, cfg, rem, fuel + rest);
        let next = Progress {
            step: (p.step + 1) as usize,
            done: 0,
            clicked_in_pass: p.clicked_in_pass || rem > 0,
            ..p
        };
        lemma_rest_of_pass(next, cfg, fuel);
        assert(fuel + rest + rem + 1 == fuel + pass_moves(steps, p.step as int));
    } else {
        assert(p == Progress {
            step: steps_of(cfg).len() as usize,
            done: 0,
            clicked_in_pass: p.clicked_in_pass || pass_clicks(steps_of(cfg), p.step as int) > 0,
            ..p
        });
    }
}

/// `c` passes from the first step with `c` passes left.
proof fn lemma_passes(p: Progress, cfg: ClickConfig, c: u32)
    requires
        cfg.mode is Sequence,
        0 < steps_of(cfg).len() <= usize::MAX,
        c >= 1,
        p.step == 0,
        p.done == 0,
        p.cycles_left == Some(c),
        !p.clicked_in_pass,
    ensures
        run(p, cfg, (c * (pass_moves(steps_of(cfg), 0) + 1)) as nat) == (
            (c * pass_clicks(steps_of(cfg), 0)) as nat,
            true,
        ),
    decreases c,
{
    let steps = steps_of(cfg);
    let m = pass_moves(steps, 0);
    let k = pass_clicks(steps, 0);
    let rest: nat = ((c - 1) * (m + 1)) as nat;
    assert(c * (m + 1) == rest + 1 + m) by (nonlinear_arith)
        requires
            rest == (c - 1) * (m + 1),
    ;
    lemma_rest_of_pass(p, cfg, rest + 1);
    let end = Progress {
        step: steps.len() as usize,
        done: 0,
        clicked_in_pass: p.clicked_in_pass || k > 0,
        ..p
    };
    if c == 1 {
        assert((c - 1) * (m + 1) == 0) by (nonlinear_arith)
            requires
                c == 1,
        ;
        assert(run(end, cfg, 1) == (0nat, true));
        assert(c * k == k) by (nonlinear_arith)
            requires
                c == 1,
        ;
    } else {
        let again = Progress {
            step: 0,
            done: 0,
            cycles_left: Some((c - 1) as u32),
            clicked_in_pass: false,
            ..p
        };
        assert(run(end, cfg, rest + 1) == run(again, cfg, rest));
        lemma_passes(again, cfg, (c - 1) as u32);
        assert(k + (c - 1) * k == c * k) by (nonlinear_arith);
    }
}

/// A sequence run limited to `c` passes clicks exactly `c` times the clicks
/// of one pass (each usable step's click count), then finishes; a limit of
/// zero passes finishes at once.
pub proof fn lemma_sequence_click_count(cfg: ClickConfig, c: u32)
    requires
        cfg.mode matches JobMode::Sequence { cycles, .. } && cycles == Some(c),
        0 < steps_of(cfg).len() <= usize::MAX,
    ensures
        c >= 1 ==> run(initial_progress(cfg), cfg, (c * (pass_moves(steps_of(cfg), 0) + 1)) as nat) == (
            (c * pass_clicks(steps_of(cfg), 0)) as nat,
            true,
        ),
        c == 0 ==> run(initial_progress(cfg), cfg, 1) == (0nat, true),
{
    if c >= 1 {
        lemma_passes(initial_progress(cfg), cfg, c);
    }
}

} // verus!
