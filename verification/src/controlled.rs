//! A loop that runs until its guard trips, used to exercise the
//! treatment of mutants that would otherwise hang: if the guard were
//! replaced to return `false` forever, the loop would never stop.

use vstd::prelude::*;

verus! {

/// The guard of the constant computation: always asks to stop.
pub fn should_stop_const() -> (r: bool)
    ensures
        r == true,
{
    true
}

/// The value computed by looping until [`should_stop_const`] says to
/// stop: it stops at once, so the value is one.
pub fn val() -> (r: i32)
    ensures
        r == 1,
{
    let mut out: i32 = 0;
    loop
        invariant_except_break
            out == 0,
        ensures
            out == 1,
        decreases 1int,
    {
        if should_stop_const() {
            out = 1;
            break ;
        }
    }
    out
}

/// Asks to stop once the trigger has been set, and sets it otherwise:
/// the second call always stops.
pub fn should_stop(trigger: &mut bool) -> (r: bool)
    ensures
        r == *old(trigger),
        *final(trigger) == true,
{
    if *trigger {
        return true;
    }
    *trigger = true;
    false
}

/// Runs until [`should_stop`] returns true, and then returns the
/// number of iterations: one when the trigger was already set, two
/// otherwise.
pub fn controlled_loop(trigger: &mut bool) -> (r: usize)
    ensures
        r == if *old(trigger) {
            1usize
        } else {
            2usize
        },
        *final(trigger) == true,
{
    let mut i: usize = 1;
    loop
        invariant
            1 <= i <= 2,
            i == 1 ==> *trigger == *old(trigger),
            i == 2 ==> *trigger && !*old(trigger),
        decreases 2int - i,
    {
        if should_stop(trigger) {
            return i;
        }
        i += 1;
    }
}

} // verus!
