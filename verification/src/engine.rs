//! The streak state machine: one record per user, driven by the elapsed
//! wall-clock seconds between accepted engagement events.

use vstd::prelude::*;
use crate::milestones;

verus! {

/// Minimum elapsed seconds between two accepted engagement events
/// (24 hours). An event arriving sooner is rejected without mutation.
pub const MIN_INTERVAL_SECONDS: i64 = 86400;

/// Largest elapsed seconds that still continues a streak (48 hours).
/// An event arriving later is accepted but resets the count to 1.
pub const MAX_WINDOW_SECONDS: i64 = 172800;

/// Storage budget, in bytes, that the host reserves for one packed
/// record: larger than the record's packed size, leaving headroom for
/// format evolution. Fixed at the storage boundary.
pub const RECORD_SPACE_BYTES: usize = 64;

/// Opaque identity of a record owner. The engine never inspects it
/// beyond equality; the host maps its own identity scheme onto it.
#[derive(Clone, Copy, PartialEq, Eq, Structural, Debug)]
pub struct UserId {
    pub value: u64,
}

/// Error taxonomy of the engine itself. Failures of the storage
/// collaborator (record missing, record already present) are not the
/// engine's and live in [`crate::store::StoreError`].
#[derive(Clone, Copy, PartialEq, Eq, Structural, Debug)]
pub enum ErrorCode {
    /// An engagement event arrived before the minimum interval elapsed.
    AlreadyClaimedToday,
    /// Declared in the taxonomy but never raised: exceeding the window
    /// is a silent reset, not a rejection. Kept as inert taxonomy.
    StreakExpired,
}

/// One per-user streak record.
#[derive(Clone, Copy, PartialEq, Eq, Structural, Debug)]
pub struct UserStreak {
    /// Owner of the record; immutable after creation.
    pub user: UserId,
    /// Consecutive qualifying intervals; never zero.
    pub streak_count: u64,
    /// Timestamp (seconds since epoch) of the last accepted event.
    pub last_interaction_ts: i64,
    /// Timestamp of record creation; immutable, informational only.
    pub created_ts: i64,
    /// Highest milestone claimed; reserved for future reward
    /// deduplication and deliberately left inert by the engine.
    pub milestone_claimed: u8,
}

impl UserStreak {
    /// The record invariant: the count has floor 1, and the record was
    /// not interacted with before it was created.
    pub open spec fn wf(self) -> bool {
        &&& self.streak_count >= 1
        &&& self.created_ts <= self.last_interaction_ts
    }

    /// Seconds elapsed at `now` since the last accepted event.
    pub open spec fn spec_elapsed(self, now: i64) -> int {
        now - self.last_interaction_ts
    }

    /// Whether an event at `now` is accepted at all: the minimum
    /// interval must have elapsed.
    pub open spec fn spec_accepts(self, now: i64) -> bool {
        self.spec_elapsed(now) >= MIN_INTERVAL_SECONDS
    }

    /// The count after an accepted event at `now`: one more while the
    /// window holds, back to 1 once it was missed.
    pub open spec fn spec_next_count(self, now: i64) -> int {
        if self.spec_elapsed(now) <= MAX_WINDOW_SECONDS {
            self.streak_count + 1
        } else {
            1
        }
    }

    /// The whole record after an accepted event at `now`: the count
    /// moves as `spec_next_count` says, the clock field follows `now`,
    /// everything else is untouched.
    pub open spec fn spec_engaged(self, now: i64) -> UserStreak
        recommends
            self.spec_accepts(now),
            self.streak_count < u64::MAX,
    {
        UserStreak {
            streak_count: self.spec_next_count(now) as u64,
            last_interaction_ts: now,
            ..self
        }
    }

    /// Creates the record for a fresh streak: count 1, both timestamps
    /// at `now`, no milestone claimed.
    pub fn initialize(user: UserId, now: i64) -> (r: UserStreak)
        ensures
            r == (UserStreak {
                user,
                streak_count: 1,
                last_interaction_ts: now,
                created_ts: now,
                milestone_claimed: 0,
            }),
            r.wf(),
    {
        UserStreak {
            user,
            streak_count: 1,
            last_interaction_ts: now,
            created_ts: now,
            milestone_claimed: 0,
        }
    }

    /// Records one engagement event at time `now`.
    ///
    /// Too soon (under the minimum interval): rejected, the record is
    /// left exactly as it was. Within the window: the count goes up by
    /// one. Past the window: the count resets to 1. In both accepted
    /// cases the last-interaction timestamp moves to `now` and the
    /// crossed milestone thresholds are returned in ascending order.
    pub fn record_engagement(&mut self, now: i64) -> (r: Result<Vec<u64>, ErrorCode>)
        requires
            old(self).wf(),
            old(self).streak_count < u64::MAX,
            i64::MIN <= now - old(self).last_interaction_ts <= i64::MAX,
        ensures
            r is Err <==> !old(self).spec_accepts(now),
            r matches Err(e) ==> e == ErrorCode::AlreadyClaimedToday && *final(self) == *old(self),
            r matches Ok(crossed) ==> {
                &&& *final(self) == old(self).spec_engaged(now)
                &&& crossed@ == milestones::crossed_milestones(
                    old(self).streak_count as int,
                    final(self).streak_count as int,
                )
            },
            final(self).wf(),
    {
        let elapsed = now - self.last_interaction_ts;
        if elapsed < MIN_INTERVAL_SECONDS {
            return Err(ErrorCode::AlreadyClaimedToday);
        }
        let old_count = self.streak_count;
        if elapsed <= MAX_WINDOW_SECONDS {
            self.streak_count = old_count + 1;
        } else {
            self.streak_count = 1;
        }
        self.last_interaction_ts = now;
        let crossed = milestones::check_milestones(old_count, self.streak_count);
        Ok(crossed)
    }
}

} // verus!
