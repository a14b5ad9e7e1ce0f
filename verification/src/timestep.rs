//! The fixed-timestep accumulator: wall-clock frame time is added to a
//! running balance, the simulation owes one tick per whole tick-length
//! in the balance, and the remainder is carried to the next frame. This
//! keeps the tick cadence independent of how fast frames are drawn.

use vstd::prelude::*;

verus! {

/// How many ticks are due once `frame_ms` more milliseconds have
/// accumulated on top of `balance_ms`, and the balance that remains
/// after taking them.
pub fn ticks_due(balance_ms: u64, frame_ms: u64, tick_ms: u64) -> (r: (u64, u64))
    requires
        tick_ms > 0,
        balance_ms as int + frame_ms as int <= u64::MAX as int,
    ensures
        r.0 == (balance_ms as int + frame_ms as int) / tick_ms as int,
        r.1 == (balance_ms as int + frame_ms as int) % tick_ms as int,
        r.1 < tick_ms,
        r.0 as int * tick_ms as int + r.1 as int == balance_ms as int + frame_ms as int,
{
    let total = balance_ms + frame_ms;
    let due = total / tick_ms;
    let rest = total % tick_ms;
    proof {
        vstd::arithmetic::div_mod::lemma_fundamental_div_mod(total as int, tick_ms as int);
    }
    (due, rest)
}

} // verus!
