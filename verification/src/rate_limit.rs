//! The throttle gate of the per-client rate limiter.
//!
//! A client may be throttled until some instant. While the throttle runs,
//! every message of the client counts as exceeding the limit and no tokens are
//! touched; the first message at or after the end of the throttle lifts it.
//! Instants are counted in nanoseconds from a fixed origin.

use vstd::prelude::*;

verus! {

/// Whether a message that arrives at `now` passes a throttle that runs until
/// `throttled_until` (none when the client is not throttled).
pub open spec fn throttle_open(throttled_until: Option<u64>, now: u64) -> bool {
    match throttled_until {
        Some(until) => until <= now,
        None => true,
    }
}

/// The throttle after a message that arrives at `now`: lifted once the message
/// passes, kept while it blocks.
pub open spec fn throttle_after(throttled_until: Option<u64>, now: u64) -> Option<u64> {
    if throttle_open(throttled_until, now) {
        None
    } else {
        throttled_until
    }
}

/// Checks a message that arrives at `now` against the client's throttle and
/// lifts the throttle when it has run out. Returns whether the message goes on
/// to the token check.
pub fn pass_throttle(throttled_until: &mut Option<u64>, now: u64) -> (open: bool)
    ensures
        open == throttle_open(*old(throttled_until), now),
        *final(throttled_until) == throttle_after(*old(throttled_until), now),
        *old(throttled_until) is None ==> open && *final(throttled_until) is None,
        *old(throttled_until) matches Some(until) ==> (open <==> until <= now),
        open ==> *final(throttled_until) is None,
        !open ==> *final(throttled_until) == *old(throttled_until),
{
    match *throttled_until {
        Some(until) => {
            if now < until {
                false
            } else {
                *throttled_until = None;
                true
            }
        },
        None => true,
    }
}

/// Once a message has passed the throttle, every later message passes it too
/// (until a new throttle is set).
pub proof fn lemma_throttle_stays_lifted(throttled_until: Option<u64>, now: u64, later: u64)
    requires
        throttle_open(throttled_until, now),
    ensures
        throttle_open(throttle_after(throttled_until, now), later),
        throttle_after(throttle_after(throttled_until, now), later) is None,
{
}

/// A throttle blocks every message before its end and none at or after it.
pub proof fn lemma_throttle_blocks_until_end(until: u64, now: u64)
    ensures
        throttle_open(Some(until), now) <==> until <= now,
        !throttle_open(Some(until), now) ==> throttle_after(Some(until), now) == Some(until),
{
}

} // verus!
