use vstd::prelude::*;

use crate::proposal::sat_add;

verus! {

/// A persistent storage entry: a value and the time up to which storage keeps it.
pub struct Stored<T> {
    pub value: T,
    pub expires_at: u64,
}

/// The horizon that an extension of `ttl` from time `now` reaches.
pub open spec fn horizon(now: u64, ttl: u64) -> u64 {
    sat_add(now, ttl)
}

/// The horizon of an entry after it is extended by `ttl` at time `now`: an
/// extension never shortens what the entry already had.
pub open spec fn refreshed(old: Option<u64>, now: u64, ttl: u64) -> u64 {
    match old {
        Some(e) => if e >= horizon(now, ttl) {
            e
        } else {
            horizon(now, ttl)
        },
        None => horizon(now, ttl),
    }
}

/// Extends a horizon by `ttl` from time `now`.
pub fn refresh(old: Option<u64>, now: u64, ttl: u64) -> (r: u64)
    ensures
        r == refreshed(old, now, ttl),
{
    let h = now.saturating_add(ttl);
    match old {
        Some(e) => if e >= h {
            e
        } else {
            h
        },
        None => h,
    }
}

} // verus!
