use vstd::prelude::*;

use crate::geometry::Point;
use crate::job::ClickButton;
use crate::trajectory::{Motion, Path};

verus! {

/// One operation on the pointer. The player checks for a stop request before
/// each one and drops the rest, the click included, once it sees one.
#[derive(Clone, Copy, Debug, PartialEq, Eq, Structural)]
pub enum Op {
    MoveTo { point: Point },
    Wait { ms: u64 },
    Press { button: ClickButton, hold_ms: u64 },
}

/// Step `i` of a path: move, wait its delay, and hesitate after it when it
/// is the chosen step.
pub open spec fn step_ops(p: Path, i: int) -> Seq<Op> {
    let s = p.steps@[i];
    seq![Op::MoveTo { point: s.point }, Op::Wait { ms: s.delay_ms }] + if i == p.pause_after
        && p.pause_ms > 0 {
        seq![Op::Wait { ms: p.pause_ms }]
    } else {
        seq![]
    }
}

/// The first `n` steps of a path.
pub open spec fn steps_ops(p: Path, n: int) -> Seq<Op>
    decreases n,
{
    if n <= 0 {
        seq![]
    } else {
        steps_ops(p, n - 1) + step_ops(p, n - 1)
    }
}

/// A whole path, then its rest.
pub open spec fn path_ops(p: Path) -> Seq<Op> {
    steps_ops(p, p.steps@.len() as int) + if p.settle_ms > 0 {
        seq![Op::Wait { ms: p.settle_ms }]
    } else {
        seq![]
    }
}

/// The first `k` paths.
pub open spec fn legs_ops(legs: Seq<Path>, k: int) -> Seq<Op>
    decreases k,
{
    if k <= 0 {
        seq![]
    } else {
        legs_ops(legs, k - 1) + path_ops(legs[k - 1])
    }
}

/// Everything a move does: its paths in order, then the click.
pub open spec fn script_of(m: Motion, button: ClickButton) -> Seq<Op> {
    legs_ops(m.legs@, m.legs@.len() as int) + seq![Op::Press { button, hold_ms: m.hold_ms }]
}

/// The operations that play `m` and click `button` at its end.
pub fn script(m: &Motion, button: ClickButton) -> (r: Vec<Op>)
    ensures
        r@ == script_of(*m, button),
        r@.last() == (Op::Press { button, hold_ms: m.hold_ms }),
        forall|j: int| 0 <= j < r@.len() - 1 ==> !(#[trigger] r@[j] is Press),
{
    let mut ops: Vec<Op> = Vec::new();
    let mut k: usize = 0;
    while k < m.legs.len()
        invariant
            k <= m.legs@.len(),
            ops@ == legs_ops(m.legs@, k as int),
            forall|j: int| 0 <= j < ops@.len() ==> !(#[trigger] ops@[j] is Press),
        decreases m.legs@.len() - k,
    {
        let leg = &m.legs[k];
        let ghost start = ops@;
        let mut i: usize = 0;
        while i < leg.steps.len()
            invariant
                i <= leg.steps@.len(),
                *leg == m.legs@[k as int],
                ops@ == start + steps_ops(*leg, i as int),
                forall|j: int| 0 <= j < ops@.len() ==> !(#[trigger] ops@[j] is Press),
            decreases leg.steps@.len() - i,
        {
            let s = leg.steps[i];
            let ghost before = ops@;
            ops.push(Op::MoveTo { point: s.point });
            ops.push(Op::Wait { ms: s.delay_ms });
            if i as u64 == leg.pause_after && leg.pause_ms > 0 {
                ops.push(Op::Wait { ms: leg.pause_ms });
            }
            proof {
                assert(ops@ =~= before + step_ops(*leg, i as int));
                assert(start + steps_ops(*leg, i + 1) =~= start + steps_ops(*leg, i as int)
                    + step_ops(*leg, i as int));
            }
            i = i + 1;
        }
        let ghost before = ops@;
        if leg.settle_ms > 0 {
            ops.push(Op::Wait { ms: leg.settle_ms });
        }
        proof {
            assert(ops@ =~= legs_ops(m.legs@, k as int) + path_ops(*leg));
        }
        k = k + 1;
    }
    ops.push(Op::Press { button, hold_ms: m.hold_ms });
    ops
}

} // verus!
