//! Pure arithmetic behind CPU timer-frequency estimation.
//!
//! The measurement itself — reading an OS performance counter and the CPU's
//! timestamp counter while busy-waiting — is platform work that lives with
//! the caller.  What is verified here is the arithmetic those readings feed:
//! how many OS ticks make up the requested wait, and what CPU frequency a
//! pair of elapsed counts implies.

use vstd::prelude::*;

verus! {

/// Number of OS timer ticks that span the requested wait: one second's
/// worth of ticks scaled by the milliseconds asked for (one second when the
/// caller gives no figure).
pub fn os_wait_ticks(os_freq: u64, milliseconds_to_wait: Option<u64>) -> (r: u64)
    requires
        os_freq * (match milliseconds_to_wait {
            Some(ms) => ms,
            None => 1000u64,
        }) <= u64::MAX,
    ensures
        r == os_freq as int * (match milliseconds_to_wait {
            Some(ms) => ms as int,
            None => 1000int,
        }) / 1000,
{
    let ms = match milliseconds_to_wait {
        Some(ms) => ms,
        None => 1000,
    };
    os_freq * ms / 1000
}

/// CPU frequency implied by a measurement: CPU ticks per OS tick, scaled to
/// ticks per second.  A measurement during which the OS timer did not move
/// yields zero.
pub fn estimate_cpu_timer_freq(os_freq: u64, cpu_elapsed: u64, os_elapsed: u64) -> (r: u64)
    requires
        os_elapsed > 0 ==> os_freq * cpu_elapsed <= u64::MAX,
    ensures
        r == if os_elapsed > 0 {
            os_freq as int * cpu_elapsed as int / os_elapsed as int
        } else {
            0int
        },
{
    if os_elapsed > 0 {
        os_freq * cpu_elapsed / os_elapsed
    } else {
        0
    }
}

} // verus!
