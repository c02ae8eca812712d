//! The keyed record store: at most one streak record per user identity,
//! with create-if-absent, load, engage-and-store, and delete, each
//! leaving every other user's record untouched.

use vstd::prelude::*;
use crate::engine::{ErrorCode, UserId, UserStreak};
use crate::milestones;

verus! {

/// Failures of the storage layer itself, as opposed to rejections
/// decided by the streak engine.
#[derive(Clone, Copy, PartialEq, Eq, Structural, Debug)]
pub enum StoreError {
    /// No record exists for the given identity.
    RecordNotFound,
    /// A record already exists for the given identity; creation is
    /// idempotent-guarded and never silently overwrites.
    RecordAlreadyExists,
}

/// Everything an engagement attempt against the store can fail with:
/// either the storage layer could not produce the record, or the
/// engine rejected the event.
#[derive(Clone, Copy, PartialEq, Eq, Structural, Debug)]
pub enum StreakFailure {
    Store(StoreError),
    Engine(ErrorCode),
}

/// The per-user record store. Holds exactly one record per user
/// identity; all access goes through the keyed operations below.
pub struct StreakStore {
    records: Vec<UserStreak>,
}

impl StreakStore {
    /// The store invariant: every held record satisfies the record
    /// invariant, and no two records share an owner.
    pub closed spec fn wf(self) -> bool {
        &&& forall|i: int| 0 <= i < self.records@.len() ==> (#[trigger] self.records@[i]).wf()
        &&& forall|i: int, j: int|
            0 <= i < j < self.records@.len()
                ==> (#[trigger] self.records@[i].user) != (#[trigger] self.records@[j].user)
    }

    /// Whether a record exists for `user`.
    pub closed spec fn spec_has(self, user: UserId) -> bool {
        exists|i: int| 0 <= i < self.records@.len() && (#[trigger] self.records@[i]).user == user
    }

    /// The record held for `user`; meaningful only when one exists.
    pub closed spec fn spec_get(self, user: UserId) -> UserStreak {
        let i = choose|i: int|
            0 <= i < self.records@.len() && (#[trigger] self.records@[i]).user == user;
        self.records@[i]
    }

    /// How many records the store holds.
    pub closed spec fn spec_len(self) -> nat {
        self.records@.len()
    }

    /// Creates an empty store.
    pub fn new() -> (r: StreakStore)
        ensures
            r.wf(),
            r.spec_len() == 0,
            forall|u: UserId| !(#[trigger] r.spec_has(u)),
    {
        StreakStore { records: Vec::new() }
    }

    /// The record standing at a position with owner `user` is the one
    /// `spec_get` denotes: owners are unique under the invariant.
    proof fn lemma_get_at_index(self, i: int, user: UserId)
        requires
            self.wf(),
            0 <= i < self.records@.len(),
            self.records@[i].user == user,
        ensures
            self.spec_has(user),
            self.spec_get(user) == self.records@[i],
    {
        assert(self.spec_has(user));
        let j = choose|j: int|
            0 <= j < self.records@.len() && (#[trigger] self.records@[j]).user == user;
        if i < j {
            assert(self.records@[i].user != self.records@[j].user);
        } else if j < i {
            assert(self.records@[j].user != self.records@[i].user);
        }
    }

    /// Count floor, seen through the store: every record a well-formed
    /// store holds satisfies the record invariant, so in particular its
    /// count is at least 1.
    pub proof fn lemma_held_record_wf(self, user: UserId)
        requires
            self.wf(),
            self.spec_has(user),
        ensures
            self.spec_get(user).wf(),
            self.spec_get(user).streak_count >= 1,
    {
        let i = choose|i: int|
            0 <= i < self.records@.len() && (#[trigger] self.records@[i]).user == user;
        assert(self.records@[i].wf());
    }

    /// Position of the record owned by `user`, if any.
    fn find_index(&self, user: UserId) -> (r: Option<usize>)
        ensures
            r is Some <==> self.spec_has(user),
            r matches Some(i) ==> 0 <= i < self.records@.len()
                && self.records@[i as int].user == user,
    {
        let mut i: usize = 0;
        while i < self.records.len()
            invariant
                0 <= i <= self.records@.len(),
                forall|j: int| 0 <= j < i ==> (#[trigger] self.records@[j]).user != user,
            decreases self.records@.len() - i,
        {
            if self.records[i].user.value == user.value {
                return Some(i);
            }
            i += 1;
        }
        None
    }

    /// Creates the record for `user` at time `now`, unless one already
    /// exists: creation is idempotent-guarded, a second attempt fails
    /// with `RecordAlreadyExists` and changes nothing. Every other
    /// user's record is untouched either way.
    pub fn initialize_user_streak(&mut self, user: UserId, now: i64) -> (r: Result<
        (),
        StoreError,
    >)
        requires
            old(self).wf(),
        ensures
            final(self).wf(),
            r is Ok <==> !old(self).spec_has(user),
            r is Err ==> r == Err::<(), StoreError>(StoreError::RecordAlreadyExists)
                && *final(self) == *old(self),
            r is Ok ==> final(self).spec_has(user) && final(self).spec_get(user)
                == (UserStreak {
                user,
                streak_count: 1,
                last_interaction_ts: now,
                created_ts: now,
                milestone_claimed: 0,
            }),
            forall|u: UserId|
                u != user ==> #[trigger] final(self).spec_has(u) == old(self).spec_has(u),
            forall|u: UserId|
                u != user && old(self).spec_has(u) ==> #[trigger] final(self).spec_get(u)
                    == old(self).spec_get(u),
    {
        if self.find_index(user).is_some() {
            return Err(StoreError::RecordAlreadyExists);
        }
        let rec = UserStreak::initialize(user, now);
        self.records.push(rec);
        proof {
            let n = old(self).records@.len() as int;
            assert(self.records@ == old(self).records@.push(rec));
            assert(forall|j: int| 0 <= j < n ==> self.records@[j] == old(self).records@[j]);
            assert(self.records@[n] == rec);
            self.lemma_get_at_index(n, user);
            assert forall|u: UserId| u != user implies #[trigger] self.spec_has(u)
                == old(self).spec_has(u) by {
                if old(self).spec_has(u) {
                    let j = choose|j: int|
                        0 <= j < old(self).records@.len() && (#[trigger] old(
                            self,
                        ).records@[j]).user == u;
                    assert(self.records@[j].user == u);
                }
                if self.spec_has(u) {
                    let j = choose|j: int|
                        0 <= j < self.records@.len() && (#[trigger] self.records@[j]).user == u;
                    assert(j < n);
                    assert(old(self).records@[j].user == u);
                }
            }
            assert forall|u: UserId| u != user && old(self).spec_has(u) implies #[trigger] self
                .spec_get(u) == old(self).spec_get(u) by {
                let j = choose|j: int|
                    0 <= j < old(self).records@.len() && (#[trigger] old(self).records@[j]).user
                        == u;
                old(self).lemma_get_at_index(j, u);
                self.lemma_get_at_index(j, u);
            }
        }
        Ok(())
    }

    /// Pure lookup: a copy of the record for `user`, or
    /// `RecordNotFound` when no record exists. The store itself is
    /// never mutated by a read.
    pub fn get_user_streak(&self, user: UserId) -> (r: Result<UserStreak, StoreError>)
        requires
            self.wf(),
        ensures
            self.spec_has(user) ==> r == Ok::<UserStreak, StoreError>(self.spec_get(user)),
            !self.spec_has(user) ==> r == Err::<UserStreak, StoreError>(StoreError::RecordNotFound),
    {
        match self.find_index(user) {
            Some(i) => {
                proof {
                    self.lemma_get_at_index(i as int, user);
                }
                Ok(self.records[i])
            },
            None => Err(StoreError::RecordNotFound),
        }
    }

    /// Records one engagement event at time `now` against the record
    /// of `user`: loads the record, lets the engine decide, and stores
    /// the updated record back. A missing record or a rejected event
    /// leaves the store exactly as it was; every other user's record
    /// is untouched in all cases.
    pub fn record_daily_engagement(&mut self, user: UserId, now: i64) -> (r: Result<
        Vec<u64>,
        StreakFailure,
    >)
        requires
            old(self).wf(),
            old(self).spec_has(user) ==> old(self).spec_get(user).streak_count < u64::MAX,
            old(self).spec_has(user) ==> i64::MIN <= now - old(self).spec_get(
                user,
            ).last_interaction_ts <= i64::MAX,
        ensures
            final(self).wf(),
            !old(self).spec_has(user) ==> r == Err::<Vec<u64>, StreakFailure>(
                StreakFailure::Store(StoreError::RecordNotFound),
            ) && *final(self) == *old(self),
            old(self).spec_has(user) ==> {
                let rec = old(self).spec_get(user);
                &&& (r is Err <==> !rec.spec_accepts(now))
                &&& (!rec.spec_accepts(now) ==> r == Err::<Vec<u64>, StreakFailure>(
                    StreakFailure::Engine(ErrorCode::AlreadyClaimedToday),
                ) && *final(self) == *old(self))
                &&& (rec.spec_accepts(now) ==> {
                    &&& r is Ok
                    &&& final(self).spec_has(user)
                    &&& final(self).spec_get(user) == rec.spec_engaged(now)
                    &&& r->Ok_0@ == milestones::crossed_milestones(
                        rec.streak_count as int,
                        rec.spec_engaged(now).streak_count as int,
                    )
                })
            },
            forall|u: UserId|
                u != user ==> #[trigger] final(self).spec_has(u) == old(self).spec_has(u),
            forall|u: UserId|
                u != user && old(self).spec_has(u) ==> #[trigger] final(self).spec_get(u)
                    == old(self).spec_get(u),
    {
        let idx = match self.find_index(user) {
            Some(i) => i,
            None => {
                return Err(StreakFailure::Store(StoreError::RecordNotFound));
            },
        };
        proof {
            self.lemma_get_at_index(idx as int, user);
        }
        let mut rec = self.records[idx];
        match rec.record_engagement(now) {
            Err(e) => Err(StreakFailure::Engine(e)),
            Ok(crossed) => {
                self.records[idx] = rec;
                proof {
                    let n = old(self).records@.len() as int;
                    assert(self.records@ == old(self).records@.update(idx as int, rec));
                    assert(forall|j: int|
                        0 <= j < n && j != idx ==> self.records@[j] == old(self).records@[j]);
                    assert(self.records@[idx as int] == rec);
                    assert(rec.user == user);
                    self.lemma_get_at_index(idx as int, user);
                    assert forall|u: UserId| u != user implies #[trigger] self.spec_has(u)
                        == old(self).spec_has(u) by {
                        if old(self).spec_has(u) {
                            let j = choose|j: int|
                                0 <= j < old(self).records@.len() && (#[trigger] old(
                                    self,
                                ).records@[j]).user == u;
                            assert(self.records@[j].user == u);
                        }
                        if self.spec_has(u) {
                            let j = choose|j: int|
                                0 <= j < self.records@.len() && (#[trigger] self.records@[j]).user
                                    == u;
                            assert(old(self).records@[j].user == u);
                        }
                    }
                    assert forall|u: UserId| u != user && old(self).spec_has(u)
                        implies #[trigger] self.spec_get(u) == old(self).spec_get(u) by {
                        let j = choose|j: int|
                            0 <= j < old(self).records@.len() && (#[trigger] old(
                                self,
                            ).records@[j]).user == u;
                        old(self).lemma_get_at_index(j, u);
                        self.lemma_get_at_index(j, u);
                    }
                }
                Ok(crossed)
            },
        }
    }

    /// Deletes the record of `user` entirely: no soft-delete, no
    /// archival, no recovery. Fails with `RecordNotFound` when no
    /// record exists; every other user's record is untouched.
    pub fn close_user_streak(&mut self, user: UserId) -> (r: Result<(), StoreError>)
        requires
            old(self).wf(),
        ensures
            final(self).wf(),
            r is Ok <==> old(self).spec_has(user),
            r is Err ==> r == Err::<(), StoreError>(StoreError::RecordNotFound) && *final(self)
                == *old(self),
            !final(self).spec_has(user),
            forall|u: UserId|
                u != user ==> #[trigger] final(self).spec_has(u) == old(self).spec_has(u),
            forall|u: UserId|
                u != user && old(self).spec_has(u) ==> #[trigger] final(self).spec_get(u)
                    == old(self).spec_get(u),
    {
        let idx = match self.find_index(user) {
            Some(i) => i,
            None => {
                return Err(StoreError::RecordNotFound);
            },
        };
        self.records.remove(idx);
        proof {
            let n = old(self).records@.len() as int;
            let k = idx as int;
            assert(self.records@ == old(self).records@.remove(k));
            assert(self.records@.len() == n - 1);
            assert forall|j: int| 0 <= j < n - 1 implies #[trigger] self.records@[j] == (if j < k {
                old(self).records@[j]
            } else {
                old(self).records@[j + 1]
            }) by {
                if j < k {
                    assert(self.records@[j] == old(self).records@.subrange(0, k)[j]);
                } else {
                    assert(self.records@[j] == old(self).records@.subrange(k + 1, n)[j - k]);
                }
            }
            assert forall|u: UserId| u != user implies #[trigger] self.spec_has(u) == old(
                self,
            ).spec_has(u) by {
                if old(self).spec_has(u) {
                    let j = choose|j: int|
                        0 <= j < old(self).records@.len() && (#[trigger] old(
                            self,
                        ).records@[j]).user == u;
                    if j < k {
                        assert(self.records@[j].user == u);
                    } else {
                        assert(old(self).records@[k].user == user);
                        assert(j != k);
                        assert(self.records@[j - 1].user == u);
                    }
                }
                if self.spec_has(u) {
                    let j = choose|j: int|
                        0 <= j < self.records@.len() && (#[trigger] self.records@[j]).user == u;
                    if j < k {
                        assert(old(self).records@[j].user == u);
                    } else {
                        assert(old(self).records@[j + 1].user == u);
                    }
                }
            }
            assert forall|u: UserId| u != user && old(self).spec_has(u)
                implies #[trigger] self.spec_get(u) == old(self).spec_get(u) by {
                let j = choose|j: int|
                    0 <= j < old(self).records@.len() && (#[trigger] old(self).records@[j]).user
                        == u;
                old(self).lemma_get_at_index(j, u);
                assert(old(self).records@[k].user == user);
                if j < k {
                    self.lemma_get_at_index(j, u);
                } else {
                    assert(j != k);
                    assert(self.records@[j - 1] == old(self).records@[j]);
                    self.lemma_get_at_index(j - 1, u);
                }
            }
            assert forall|j: int| 0 <= j < self.records@.len()
                implies (#[trigger] self.records@[j]).user != user by {
                assert(old(self).records@[k].user == user);
                if j < k {
                    assert(self.records@[j] == old(self).records@[j]);
                } else {
                    assert(self.records@[j] == old(self).records@[j + 1]);
                }
            }
        }
        Ok(())
    }
}

} // verus!
