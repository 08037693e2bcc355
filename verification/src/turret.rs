//! The rule by which a turret turns toward the angle it is asked to face.
use vstd::prelude::*;
use crate::trig::{FULL_TURN, HALF_TURN};

verus! {

/// How fast a turret turns, in radians per second.
pub const TURRET_RATE: u64 = 2;

/// The representative of `desired` (itself, or one turn more or less) that is
/// reached from `rot` by the shorter way round. Where the two ways are equally
/// long, at exactly half a turn, it is `desired` itself.
pub open spec fn nearest_turn(rot: int, desired: int) -> int {
    if desired < rot && rot - desired > HALF_TURN {
        desired + FULL_TURN
    } else if desired > rot && desired - rot > HALF_TURN {
        desired - FULL_TURN
    } else {
        desired
    }
}

/// The angle reached from `rot` by going at most `step` toward `target`.
pub open spec fn approach(rot: int, target: int, step: int) -> int {
    if target > rot {
        if target - rot > step {
            rot + step
        } else {
            target
        }
    } else {
        if rot - target > step {
            rot - step
        } else {
            target
        }
    }
}

/// One turn taken off an angle of a turn or more, one turn added to a
/// negative one.
pub open spec fn wrap_turn(a: int) -> int {
    if a >= FULL_TURN {
        a - FULL_TURN
    } else if a < 0 {
        a + FULL_TURN
    } else {
        a
    }
}

/// The turret angle after one tick: unchanged where it already equals the
/// desired angle, else moved by at most `step` along the shorter way round and
/// wrapped once.
pub open spec fn track(rot: int, desired: int, step: int) -> int {
    if desired == rot {
        rot
    } else {
        wrap_turn(approach(rot, nearest_turn(rot, desired), step))
    }
}

/// The angle between two directions, the shorter way round the circle.
pub open spec fn angular_gap(a: int, b: int) -> int {
    let m = (a - b) % (FULL_TURN as int);
    if m <= HALF_TURN {
        m
    } else {
        FULL_TURN - m
    }
}

/// The smaller of two numbers.
pub open spec fn smaller(a: int, b: int) -> int {
    if a <= b {
        a
    } else {
        b
    }
}

/// One tick of turret tracking: the angle that a turret at `rot` has after
/// turning toward `desired` by at most `step`.
pub fn track_step(rot: i64, desired: i64, step: u64) -> (r: i64)
    ensures
        r == track(rot as int, desired as int, step as int),
{
    if desired == rot {
        return rot;
    }
    let cur: i128 = rot as i128;
    let mut new_rot: i128 = desired as i128;
    if new_rot < cur && cur - new_rot > new_rot + (FULL_TURN as i128) - cur {
        new_rot = new_rot + (FULL_TURN as i128);
    }
    if new_rot > cur && new_rot - cur > cur + (FULL_TURN as i128) - new_rot {
        new_rot = new_rot - (FULL_TURN as i128);
    }
    assert(new_rot == nearest_turn(rot as int, desired as int));
    let mut next: i128 = cur;
    if new_rot > cur {
        if new_rot - cur > (step as i128) {
            next = cur + (step as i128);
        } else {
            next = new_rot;
        }
    } else {
        if cur - new_rot > (step as i128) {
            next = cur - (step as i128);
        } else {
            next = new_rot;
        }
    }
    if next >= (FULL_TURN as i128) {
        next = next - (FULL_TURN as i128);
    }
    if next < 0 {
        next = next + (FULL_TURN as i128);
    }
    next as i64
}

/// With the turret angle within one turn and the desired angle within half a
/// turn of zero, one tick leaves the turret within one turn and closes the
/// angular gap by the step, or entirely where the gap is no larger than the
/// step; a gap of zero stays zero and the turret stays where it is.
pub proof fn lemma_track_converges(rot: int, desired: int, step: int)
    requires
        0 <= rot < FULL_TURN,
        -HALF_TURN <= desired <= HALF_TURN,
        0 <= step,
    ensures
        0 <= track(rot, desired, step) < FULL_TURN,
        0 <= angular_gap(rot, desired) <= HALF_TURN,
        angular_gap(track(rot, desired, step), desired) == angular_gap(rot, desired) - smaller(
            step,
            angular_gap(rot, desired),
        ),
        angular_gap(rot, desired) == 0 ==> track(rot, desired, step) == rot,
{
    let target = nearest_turn(rot, desired);
    let next = approach(rot, target, step);
    let out = track(rot, desired, step);
    let full = FULL_TURN as int;
    assert((rot - desired) % full == if rot - desired < 0 {
        rot - desired + full
    } else if rot - desired >= full {
        rot - desired - full
    } else {
        rot - desired
    });
    assert((out - desired) % full == if out - desired < 0 {
        out - desired + full
    } else if out - desired >= full {
        out - desired - full
    } else {
        out - desired
    });
}

} // verus!
