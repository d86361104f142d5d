//! Bookkeeping over pending messages: the resonance window and the age
//! cutoff. A message is seen here through its sender and its timestamp.
use vstd::prelude::*;
use crate::share::MILLIS_PER_HOUR;

verus! {

/// Width of the resonance window, in milliseconds.
pub const RESONANCE_WINDOW_MS: u64 = 300000;

/// The sender and timestamp (milliseconds since the epoch) of a message.
#[derive(Clone, Debug)]
pub struct MessageStamp {
    pub sender_id: String,
    pub timestamp: u64,
}

/// A message is recent at `now` when it is at most `now` and younger than
/// the resonance window.
pub open spec fn is_recent(timestamp: u64, now: u64) -> bool {
    timestamp <= now && now - timestamp < RESONANCE_WINDOW_MS
}

/// Two recent messages at `now` come from different senders.
pub open spec fn resonance_at(stamps: Seq<MessageStamp>, now: u64) -> bool {
    exists|i: int, j: int|
        0 <= i < stamps.len() && 0 <= j < stamps.len() && #[trigger] is_recent(stamps[i].timestamp, now)
            && #[trigger] is_recent(stamps[j].timestamp, now) && stamps[i].sender_id@ != stamps[j].sender_id@
}

/// The age cutoff: `now` less `hours` hours, or 0 where that is negative.
pub open spec fn cutoff_of(now: u64, hours: u32) -> u64 {
    if now as int >= hours as int * MILLIS_PER_HOUR as int {
        (now as int - hours as int * MILLIS_PER_HOUR as int) as u64
    } else {
        0
    }
}

/// Whether the pending messages open a resonance window at `now`: at least
/// two distinct senders among the recent ones.
pub fn resonance_window_open(stamps: &Vec<MessageStamp>, now: u64) -> (r: bool)
    ensures
        r == resonance_at(stamps@, now),
{
    let mut first: Option<usize> = None;
    let mut i: usize = 0;
    while i < stamps.len()
        invariant
            i <= stamps@.len(),
            match first {
                None => forall|k: int| 0 <= k < i ==> !#[trigger] is_recent(stamps@[k].timestamp, now),
                Some(f) => f < i && is_recent(stamps@[f as int].timestamp, now) && forall|k: int|
                    0 <= k < i && #[trigger] is_recent(stamps@[k].timestamp, now) ==> stamps@[k].sender_id@
                        == stamps@[f as int].sender_id@,
            },
        decreases stamps@.len() - i,
    {
        let t = stamps[i].timestamp;
        if t <= now && now - t < RESONANCE_WINDOW_MS {
            match first {
                None => {
                    first = Some(i);
                },
                Some(f) => {
                    if stamps[i].sender_id != stamps[f].sender_id {
                        assert(is_recent(stamps@[i as int].timestamp, now));
                        return true;
                    }
                },
            }
        }
        i = i + 1;
    }
    proof {
        if resonance_at(stamps@, now) {
            let (a, b) = choose|a: int, b: int|
                0 <= a < stamps@.len() && 0 <= b < stamps@.len() && #[trigger] is_recent(
                    stamps@[a].timestamp,
                    now,
                ) && #[trigger] is_recent(stamps@[b].timestamp, now) && stamps@[a].sender_id@
                    != stamps@[b].sender_id@;
            assert(is_recent(stamps@[a].timestamp, now));
        }
    }
    false
}

/// The timestamp below which a message is older than `max_age_hours` at `now`.
pub fn age_cutoff(now: u64, max_age_hours: u32) -> (r: u64)
    ensures
        r == cutoff_of(now, max_age_hours),
{
    now.saturating_sub(max_age_hours as u64 * MILLIS_PER_HOUR)
}

/// For each timestamp, whether its message is kept when messages older than
/// `max_age_hours` are cleared at `now`: kept exactly when newer than the cutoff.
pub fn messages_to_keep(timestamps: &Vec<u64>, now: u64, max_age_hours: u32) -> (keep: Vec<bool>)
    ensures
        keep@.len() == timestamps@.len(),
        forall|i: int| 0 <= i < timestamps@.len() ==> keep@[i] == (timestamps@[i] > cutoff_of(now, max_age_hours)),
{
    let cutoff = age_cutoff(now, max_age_hours);
    let mut keep: Vec<bool> = Vec::new();
    let mut i: usize = 0;
    while i < timestamps.len()
        invariant
            i <= timestamps@.len(),
            cutoff == cutoff_of(now, max_age_hours),
            keep@.len() == i,
            forall|k: int| 0 <= k < i ==> keep@[k] == (timestamps@[k] > cutoff),
        decreases timestamps@.len() - i,
    {
        keep.push(timestamps[i] > cutoff);
        i = i + 1;
    }
    keep
}

} // verus!
