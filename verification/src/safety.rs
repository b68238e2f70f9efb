//! Safety levels: a coarse classification of how much of the input stack the
//! lock currently owns, communicated to the screensaver so it can decide what
//! is safe to reveal.

use vstd::prelude::*;

verus! {

/// How exposed the input of a locked screen is to other clients.
///
/// `High` means the lock fully owns input (keyboard and pointer), `Medium`
/// means it owns the keyboard only, `Low` means not even that.
#[derive(Clone, Copy, Debug, PartialEq, Eq, Structural)]
pub enum Safety {
    Low,
    Medium,
    High,
}

/// The safety level of a window whose keyboard ownership is `keyboard` and
/// whose pointer ownership is `pointer`.
pub open spec fn spec_safety(keyboard: bool, pointer: bool) -> Safety {
    if keyboard && pointer {
        Safety::High
    } else if keyboard {
        Safety::Medium
    } else {
        Safety::Low
    }
}

/// Computes the safety level from the two ownership flags.
///
/// `High` exactly when keyboard and pointer are both owned by the lock,
/// `Medium` exactly when only the keyboard is, `Low` otherwise.
pub fn safety_of(keyboard: bool, pointer: bool) -> (r: Safety)
    ensures
        r == spec_safety(keyboard, pointer),
        r == Safety::High <==> keyboard && pointer,
        r == Safety::Medium <==> keyboard && !pointer,
        r == Safety::Low <==> !keyboard,
{
    if keyboard && pointer {
        Safety::High
    } else if keyboard {
        Safety::Medium
    } else {
        Safety::Low
    }
}

} // verus!
