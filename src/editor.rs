use vstd::prelude::*;

use crate::geometry::{Bounds, Point};
use crate::job::{ClickButton, ClickConfig, JobMode, SequenceStep};

verus! {

/// A display: its top-left corner and size, in physical pixels.
#[derive(Clone, Copy, Debug, PartialEq, Eq, Structural)]
pub struct Screen {
    pub origin: Point,
    pub width: i32,
    pub height: i32,
}

/// The far corner of a display fits the pixel range.
pub open spec fn screen_fits(s: Screen) -> bool {
    &&& s.origin.x + s.width <= i32::MAX
    &&& s.origin.y + s.height <= i32::MAX
    &&& s.origin.x + s.width >= i32::MIN
    &&& s.origin.y + s.height >= i32::MIN
}

/// The smallest region covering the displays; all zero when there are none.
pub open spec fn union_of(screens: Seq<Screen>) -> Bounds
    decreases screens.len(),
{
    if screens.len() == 0 {
        Bounds { min_x: 0, max_x: 0, min_y: 0, max_y: 0 }
    } else if screens.len() == 1 {
        let s = screens[0];
        Bounds {
            min_x: s.origin.x,
            max_x: (s.origin.x + s.width) as i32,
            min_y: s.origin.y,
            max_y: (s.origin.y + s.height) as i32,
        }
    } else {
        let u = union_of(screens.drop_last());
        let s = screens.last();
        let far_x = (s.origin.x + s.width) as i32;
        let far_y = (s.origin.y + s.height) as i32;
        Bounds {
            min_x: if s.origin.x < u.min_x { s.origin.x } else { u.min_x },
            max_x: if far_x > u.max_x { far_x } else { u.max_x },
            min_y: if s.origin.y < u.min_y { s.origin.y } else { u.min_y },
            max_y: if far_y > u.max_y { far_y } else { u.max_y },
        }
    }
}

/// The region covering all `screens`.
pub fn union_rect(screens: &Vec<Screen>) -> (r: Bounds)
    requires
        forall|i: int| 0 <= i < screens@.len() ==> screen_fits(#[trigger] screens@[i]),
    ensures
        r == union_of(screens@),
{
    if screens.len() == 0 {
        return Bounds { min_x: 0, max_x: 0, min_y: 0, max_y: 0 };
    }
    let s0 = screens[0];
    let mut u = Bounds {
        min_x: s0.origin.x,
        max_x: s0.origin.x + s0.width,
        min_y: s0.origin.y,
        max_y: s0.origin.y + s0.height,
    };
    let mut i: usize = 1;
    proof {
        assert(screens@.subrange(0, 1).drop_last() =~= seq![]);
    }
    assert(union_of(screens@.subrange(0, 1)) == u);
    while i < screens.len()
        invariant
            1 <= i <= screens@.len(),
            forall|j: int| 0 <= j < screens@.len() ==> screen_fits(#[trigger] screens@[j]),
            u == union_of(screens@.subrange(0, i as int)),
        decreases screens@.len() - i,
    {
        let s = screens[i];
        assert(screen_fits(screens@[i as int]));
        let far_x = s.origin.x + s.width;
        let far_y = s.origin.y + s.height;
        u = Bounds {
            min_x: if s.origin.x < u.min_x { s.origin.x } else { u.min_x },
            max_x: if far_x > u.max_x { far_x } else { u.max_x },
            min_y: if s.origin.y < u.min_y { s.origin.y } else { u.min_y },
            max_y: if far_y > u.max_y { far_y } else { u.max_y },
        };
        proof {
            assert(screens@.subrange(0, i + 1).drop_last() =~= screens@.subrange(0, i as int));
        }
        i = i + 1;
    }
    assert(screens@.subrange(0, screens@.len() as int) =~= screens@);
    u
}

/// The region spanned by two dragged corners, in the coordinates of a display
/// whose top-left corner is `origin`.
pub open spec fn drag_bounds(a: Point, b: Point, origin: Point) -> Bounds {
    Bounds {
        min_x: ((if a.x <= b.x { a.x } else { b.x }) + origin.x) as i32,
        max_x: ((if a.x <= b.x { b.x } else { a.x }) + origin.x) as i32,
        min_y: ((if a.y <= b.y { a.y } else { b.y }) + origin.y) as i32,
        max_y: ((if a.y <= b.y { b.y } else { a.y }) + origin.y) as i32,
    }
}

/// The sequence editor: the steps, the one being edited, and the form.
#[derive(Clone, Debug)]
pub struct StepEditor {
    pub steps: Vec<SequenceStep>,
    pub editing: Option<usize>,
    /// The region typed in or last dragged.
    pub bounds_input: Bounds,
    pub edit_name: String,
    pub edit_clicks: u32,
    pub edit_min_ms: u32,
    pub edit_max_ms: u32,
    pub edit_button_left: bool,
    /// Take the region from `bounds_input` when applying the form.
    pub edit_bounds_from_current: bool,
}

pub open spec fn button_of(left: bool) -> ClickButton {
    if left {
        ClickButton::Left
    } else {
        ClickButton::Right
    }
}

/// The step that the form describes.
pub open spec fn form_step(e: StepEditor) -> SequenceStep {
    SequenceStep {
        name: e.edit_name,
        bounds: if e.edit_bounds_from_current {
            e.bounds_input
        } else {
            match e.editing {
                Some(idx) => if idx < e.steps@.len() {
                    e.steps@[idx as int].bounds
                } else {
                    e.bounds_input
                },
                None => e.bounds_input,
            }
        },
        clicks: if e.edit_clicks == 0 { 1 } else { e.edit_clicks },
        button: button_of(e.edit_button_left),
        min_ms: e.edit_min_ms,
        max_ms: e.edit_max_ms,
    }
}

/// Where the selection goes when the steps at `a` and `b` trade places.
pub open spec fn follow_swap(sel: Option<usize>, a: usize, b: usize) -> Option<usize> {
    match sel {
        Some(s) => if s == a {
            Some(b)
        } else if s == b {
            Some(a)
        } else {
            Some(s)
        },
        None => None,
    }
}

impl StepEditor {
    /// The configuration of a sequence run over a copy of the steps, or
    /// `None` when there is no step to run.
    pub fn sequence_config(&self, cycles: Option<u32>) -> (r: Option<ClickConfig>)
        ensures
            self.steps@.len() == 0 ==> r is None,
            self.steps@.len() > 0 ==> (r matches Some(c) && (c.mode matches JobMode::Sequence {
                steps,
                cycles: k,
            } && steps@ == self.steps@ && k == cycles)),
    {
        if self.steps.len() == 0 {
            return None;
        }
        let mut steps: Vec<SequenceStep> = Vec::new();
        let mut i: usize = 0;
        while i < self.steps.len()
            invariant
                i <= self.steps@.len(),
                steps@ == self.steps@.subrange(0, i as int),
            decreases self.steps@.len() - i,
        {
            let s = &self.steps[i];
            steps.push(
                SequenceStep {
                    name: s.name.clone(),
                    bounds: s.bounds,
                    clicks: s.clicks,
                    button: s.button,
                    min_ms: s.min_ms,
                    max_ms: s.max_ms,
                },
            );
            proof {
                assert(steps@ =~= self.steps@.subrange(0, i + 1));
            }
            i = i + 1;
        }
        assert(steps@ =~= self.steps@);
        Some(ClickConfig { mode: JobMode::Sequence { steps, cycles } })
    }

    /// The configuration of a single-region run over the typed region.
    pub fn single_config(
        &self,
        button_left: bool,
        min_ms: u32,
        max_ms: u32,
        finite_clicks: Option<u32>,
    ) -> (r: ClickConfig)
        ensures
            r.mode == (JobMode::Single {
                bounds: Some(self.bounds_input),
                button: button_of(button_left),
                min_ms,
                max_ms,
                finite_clicks,
            }),
    {
        ClickConfig {
            mode: JobMode::Single {
                bounds: Some(self.bounds_input),
                button: if button_left {
                    ClickButton::Left
                } else {
                    ClickButton::Right
                },
                min_ms,
                max_ms,
                finite_clicks,
            },
        }
    }

    /// Applies the form: replaces the step being edited, or appends a new one.
    pub fn push_or_update_step_from_editor(&mut self)
        ensures
            final(self).editing is None,
            ({
                let step = form_step(*old(self));
                match old(self).editing {
                    Some(idx) => if idx < old(self).steps@.len() {
                        final(self).steps@ == old(self).steps@.update(idx as int, step)
                    } else {
                        final(self).steps@ == old(self).steps@
                    },
                    None => final(self).steps@ == old(self).steps@.push(step),
                }
            }),
            final(self).bounds_input == old(self).bounds_input,
    {
        let bounds = if self.edit_bounds_from_current {
            self.bounds_input
        } else {
            match self.editing {
                Some(idx) => if idx < self.steps.len() {
                    self.steps[idx].bounds
                } else {
                    self.bounds_input
                },
                None => self.bounds_input,
            }
        };
        let step = SequenceStep {
            name: self.edit_name.clone(),
            bounds,
            clicks: if self.edit_clicks == 0 {
                1
            } else {
                self.edit_clicks
            },
            button: if self.edit_button_left {
                ClickButton::Left
            } else {
                ClickButton::Right
            },
            min_ms: self.edit_min_ms,
            max_ms: self.edit_max_ms,
        };
        match self.editing {
            Some(idx) => {
                if idx < self.steps.len() {
                    self.steps.remove(idx);
                    self.steps.insert(idx, step);
                    assert(self.steps@ =~= old(self).steps@.update(idx as int, form_step(*old(self))));
                }
            },
            None => {
                self.steps.push(step);
            },
        }
        self.editing = None;
    }

    /// Loads step `idx` into the form, if there is such a step.
    pub fn select_step_for_edit(&mut self, idx: usize)
        ensures
            final(self).steps@ == old(self).steps@,
            idx < old(self).steps@.len() ==> {
                let s = old(self).steps@[idx as int];
                &&& final(self).editing == Some(idx)
                &&& final(self).edit_name == s.name
                &&& final(self).edit_clicks == s.clicks
                &&& final(self).edit_min_ms == s.min_ms
                &&& final(self).edit_max_ms == s.max_ms
                &&& final(self).edit_button_left == (s.button == ClickButton::Left)
                &&& !final(self).edit_bounds_from_current
            },
            idx >= old(self).steps@.len() ==> *final(self) == *old(self),
    {
        if idx < self.steps.len() {
            let s = &self.steps[idx];
            let name = s.name.clone();
            let clicks = s.clicks;
            let min_ms = s.min_ms;
            let max_ms = s.max_ms;
            let left = s.button == ClickButton::Left;
            self.editing = Some(idx);
            self.edit_name = name;
            self.edit_clicks = clicks;
            self.edit_min_ms = min_ms;
            self.edit_max_ms = max_ms;
            self.edit_button_left = left;
            self.edit_bounds_from_current = false;
        }
    }

    /// Moves step `idx` one place earlier; the selection follows its step.
    pub fn move_step_up(&mut self, idx: usize)
        ensures
            0 < idx < old(self).steps@.len() ==> {
                &&& final(self).steps@ == old(self).steps@.update(
                    idx as int,
                    old(self).steps@[idx - 1],
                ).update(idx - 1, old(self).steps@[idx as int])
                &&& final(self).editing == follow_swap(old(self).editing, idx, (idx - 1) as usize)
            },
            !(0 < idx < old(self).steps@.len()) ==> *final(self) == *old(self),
    {
        if idx > 0 && idx < self.steps.len() {
            let s = self.steps.remove(idx);
            self.steps.insert(idx - 1, s);
            assert(self.steps@ =~= old(self).steps@.update(idx as int, old(self).steps@[idx - 1]).update(
                idx - 1,
                old(self).steps@[idx as int],
            ));
            self.editing = match self.editing {
                Some(sel) => if sel == idx {
                    Some(idx - 1)
                } else if sel == idx - 1 {
                    Some(idx)
                } else {
                    Some(sel)
                },
                None => None,
            };
        }
    }

    /// Moves step `idx` one place later; the selection follows its step.
    pub fn move_step_down(&mut self, idx: usize)
        ensures
            idx + 1 < old(self).steps@.len() ==> {
                &&& final(self).steps@ == old(self).steps@.update(
                    idx as int,
                    old(self).steps@[idx + 1],
                ).update(idx + 1, old(self).steps@[idx as int])
                &&& final(self).editing == follow_swap(old(self).editing, idx, (idx + 1) as usize)
            },
            !(idx + 1 < old(self).steps@.len()) ==> *final(self) == *old(self),
    {
        if idx < self.steps.len() && idx + 1 < self.steps.len() {
            let s = self.steps.remove(idx);
            self.steps.insert(idx + 1, s);
            assert(self.steps@ =~= old(self).steps@.update(idx as int, old(self).steps@[idx + 1]).update(
                idx + 1,
                old(self).steps@[idx as int],
            ));
            self.editing = match self.editing {
                Some(sel) => if sel == idx {
                    Some(idx + 1)
                } else if sel == idx + 1 {
                    Some(idx)
                } else {
                    Some(sel)
                },
                None => None,
            };
        }
    }

    /// Sets the typed region from two dragged corners on a display whose
    /// top-left corner is `origin`.
    pub fn set_bounds_from_drag(&mut self, a: Point, b: Point, origin: Point)
        requires
            i32::MIN <= a.x + origin.x <= i32::MAX,
            i32::MIN <= b.x + origin.x <= i32::MAX,
            i32::MIN <= a.y + origin.y <= i32::MAX,
            i32::MIN <= b.y + origin.y <= i32::MAX,
        ensures
            final(self).bounds_input == drag_bounds(a, b, origin),
            final(self).steps@ == old(self).steps@,
            final(self).editing == old(self).editing,
    {
        let (lx, hx) = if a.x <= b.x {
            (a.x, b.x)
        } else {
            (b.x, a.x)
        };
        let (ly, hy) = if a.y <= b.y {
            (a.y, b.y)
        } else {
            (b.y, a.y)
        };
        self.bounds_input = Bounds {
            min_x: lx + origin.x,
            max_x: hx + origin.x,
            min_y: ly + origin.y,
            max_y: hy + origin.y,
        };
    }
}

} // verus!
