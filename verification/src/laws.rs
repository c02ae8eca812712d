//! The general laws of the streak state machine, stated once over the
//! spec-level transition that `record_engagement` refines, so that a
//! reader sees them proved rather than left to follow from contracts.

use vstd::prelude::*;
use crate::engine::{UserStreak, MAX_WINDOW_SECONDS, MIN_INTERVAL_SECONDS};

verus! {

/// Count floor: an accepted engagement takes a well-formed record to a
/// well-formed record, so `streak_count >= 1` holds in every state
/// reachable from initialization.
pub proof fn lemma_count_floor(rec: UserStreak, now: i64)
    requires
        rec.wf(),
        rec.spec_accepts(now),
        rec.streak_count < u64::MAX,
    ensures
        rec.spec_engaged(now).streak_count >= 1,
        rec.spec_engaged(now).wf(),
{
}

/// No double-claim: once an engagement is accepted at `t1`, any second
/// attempt less than the minimum interval later is rejected, so at
/// most one mutation can come out of two such calls.
pub proof fn lemma_no_double_claim(rec: UserStreak, t1: i64, t2: i64)
    requires
        rec.wf(),
        rec.spec_accepts(t1),
        rec.streak_count < u64::MAX,
        t2 - t1 < MIN_INTERVAL_SECONDS,
    ensures
        !rec.spec_engaged(t1).spec_accepts(t2),
{
}

/// Continuation law: an event whose elapsed time lies within the
/// window moves the count from `k` to exactly `k + 1`.
pub proof fn lemma_continuation(rec: UserStreak, now: i64)
    requires
        rec.streak_count < u64::MAX,
        MIN_INTERVAL_SECONDS <= rec.spec_elapsed(now) <= MAX_WINDOW_SECONDS,
    ensures
        rec.spec_engaged(now).streak_count == rec.streak_count + 1,
{
}

/// Reset law: an event past the window sets the count to exactly 1,
/// whatever it was before.
pub proof fn lemma_reset(rec: UserStreak, now: i64)
    requires
        rec.spec_elapsed(now) > MAX_WINDOW_SECONDS,
    ensures
        rec.spec_engaged(now).streak_count == 1,
{
}

} // verus!
