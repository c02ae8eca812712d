//! Milestone detection: a scan over the fixed ascending threshold set,
//! reporting every threshold crossed between an old and a new count.

use vstd::prelude::*;

verus! {

/// The fixed ascending milestone thresholds, as a mathematical sequence.
pub open spec fn milestone_seq() -> Seq<u64> {
    seq![7u64, 14u64, 21u64, 30u64, 50u64, 100u64]
}

/// Whether `m` is one of the fixed milestone thresholds.
pub open spec fn is_milestone(m: u64) -> bool {
    m == 7 || m == 14 || m == 21 || m == 30 || m == 50 || m == 100
}

/// A threshold `m` is crossed by a count move exactly when the old
/// count was still below it and the new count has reached it.
pub open spec fn crosses(old_count: int, new_count: int, m: u64) -> bool {
    old_count < m <= new_count
}

/// The crossed thresholds among the first `n` milestones, in the order
/// the threshold set lists them.
pub open spec fn crossed_prefix(old_count: int, new_count: int, n: int) -> Seq<u64>
    decreases n,
{
    if n <= 0 {
        Seq::empty()
    } else {
        let m = milestone_seq()[n - 1];
        crossed_prefix(old_count, new_count, n - 1)
            + (if crosses(old_count, new_count, m) {
                seq![m]
            } else {
                Seq::empty()
            })
    }
}

/// Every milestone threshold crossed by a move from `old_count` to
/// `new_count`, in ascending order.
pub open spec fn crossed_milestones(old_count: int, new_count: int) -> Seq<u64> {
    crossed_prefix(old_count, new_count, milestone_seq().len() as int)
}

/// A sequence is strictly ascending.
pub open spec fn is_ascending(s: Seq<u64>) -> bool {
    forall|i: int, j: int| 0 <= i < j < s.len() ==> s[i] < s[j]
}

/// The six threshold values, pinned for the proofs that case over them.
proof fn lemma_milestone_seq_values()
    ensures
        milestone_seq().len() == 6,
        milestone_seq()[0] == 7,
        milestone_seq()[1] == 14,
        milestone_seq()[2] == 21,
        milestone_seq()[3] == 30,
        milestone_seq()[4] == 50,
        milestone_seq()[5] == 100,
{
}

/// Induction core for the milestone laws: every reported element of a
/// scan prefix is a crossed threshold from that prefix, every crossed
/// threshold of the prefix is reported, and the report is ascending.
proof fn lemma_crossed_prefix_props(old_count: int, new_count: int, n: int)
    requires
        0 <= n <= 6,
    ensures
        forall|k: int| 0 <= k < crossed_prefix(old_count, new_count, n).len()
            ==> exists|i: int| 0 <= i < n
                && #[trigger] crossed_prefix(old_count, new_count, n)[k] == milestone_seq()[i],
        forall|k: int| 0 <= k < crossed_prefix(old_count, new_count, n).len()
            ==> crosses(old_count, new_count, #[trigger] crossed_prefix(old_count, new_count, n)[k]),
        forall|i: int| 0 <= i < n && crosses(old_count, new_count, milestone_seq()[i])
            ==> crossed_prefix(old_count, new_count, n).contains(#[trigger] milestone_seq()[i]),
        is_ascending(crossed_prefix(old_count, new_count, n)),
    decreases n,
{
    lemma_milestone_seq_values();
    if n > 0 {
        lemma_crossed_prefix_props(old_count, new_count, n - 1);
        let prev = crossed_prefix(old_count, new_count, n - 1);
        let cur = crossed_prefix(old_count, new_count, n);
        let m = milestone_seq()[n - 1];
        assert(forall|i: int| 0 <= i < n - 1 ==> milestone_seq()[i] < m);
        if crosses(old_count, new_count, m) {
            assert(cur == prev + seq![m]);
            assert(cur.len() == prev.len() + 1);
            assert(cur[prev.len() as int] == m);
            assert(forall|k: int| 0 <= k < prev.len() ==> cur[k] == prev[k]);
            assert forall|k: int| 0 <= k < prev.len() implies #[trigger] cur[k] < m by {
                let i = choose|i: int| 0 <= i < n - 1 && prev[k] == milestone_seq()[i];
                assert(milestone_seq()[i] < m);
            }
            assert forall|i: int| 0 <= i < n && crosses(old_count, new_count, milestone_seq()[i])
                implies cur.contains(#[trigger] milestone_seq()[i]) by {
                if i < n - 1 {
                    let k = choose|k: int| 0 <= k < prev.len() && prev[k] == milestone_seq()[i];
                    assert(cur[k] == milestone_seq()[i]);
                } else {
                    assert(cur[prev.len() as int] == milestone_seq()[i]);
                }
            }
        } else {
            assert(cur =~= prev);
        }
    }
}

/// Milestone completeness: the reported crossings for a count move are
/// exactly the thresholds `m` with `old_count < m <= new_count`, and
/// they are reported in ascending order.
pub proof fn lemma_milestone_completeness(old_count: int, new_count: int)
    ensures
        forall|m: u64| #[trigger] crossed_milestones(old_count, new_count).contains(m)
            <==> (is_milestone(m) && old_count < m <= new_count),
        is_ascending(crossed_milestones(old_count, new_count)),
{
    lemma_milestone_seq_values();
    lemma_crossed_prefix_props(old_count, new_count, 6);
    let s = crossed_milestones(old_count, new_count);
    assert forall|m: u64| #[trigger] s.contains(m)
        implies is_milestone(m) && old_count < m <= new_count by {
        let k = choose|k: int| 0 <= k < s.len() && s[k] == m;
        let i = choose|i: int| 0 <= i < 6 && s[k] == milestone_seq()[i];
        assert(is_milestone(milestone_seq()[i]));
    }
    assert forall|m: u64| is_milestone(m) && old_count < m <= new_count
        implies s.contains(m) by {
        let i: int = if m == 7 {
            0
        } else if m == 14 {
            1
        } else if m == 21 {
            2
        } else if m == 30 {
            3
        } else if m == 50 {
            4
        } else {
            5
        };
        assert(milestone_seq()[i] == m);
        assert(crosses(old_count, new_count, milestone_seq()[i]));
        assert(s.contains(milestone_seq()[i]));
    }
}

/// A move whose new count is back at 1 crosses nothing: every
/// threshold lies above 1, so a reset reports an empty milestone list.
pub proof fn lemma_reset_reports_nothing(old_count: int)
    ensures
        crossed_milestones(old_count, 1).len() == 0,
{
    lemma_milestone_seq_values();
    lemma_crossed_prefix_props(old_count, 1, 6);
    let s = crossed_milestones(old_count, 1);
    if s.len() > 0 {
        assert(crosses(old_count, 1, s[0]));
        let i = choose|i: int| 0 <= i < 6 && s[0] == milestone_seq()[i];
        assert(milestone_seq()[i] > 1);
    }
}

/// The fixed threshold list as an executable vector, ascending.
pub fn milestone_thresholds() -> (v: Vec<u64>)
    ensures
        v@ == milestone_seq(),
{
    let mut v: Vec<u64> = Vec::new();
    v.push(7);
    v.push(14);
    v.push(21);
    v.push(30);
    v.push(50);
    v.push(100);
    proof {
        assert(v@ =~= milestone_seq());
    }
    v
}

/// Scans the fixed threshold set and returns every milestone crossed
/// by the move from `old_count` to `new_count`, in ascending order.
/// The scan is generic over any count move, even jumps of more than
/// one step, though the engine only ever moves the count by one step
/// or back to 1.
pub fn check_milestones(old_count: u64, new_count: u64) -> (r: Vec<u64>)
    ensures
        r@ == crossed_milestones(old_count as int, new_count as int),
{
    let thresholds = milestone_thresholds();
    let mut r: Vec<u64> = Vec::new();
    let mut i: usize = 0;
    while i < thresholds.len()
        invariant
            thresholds@ == milestone_seq(),
            0 <= i <= 6,
            r@ == crossed_prefix(old_count as int, new_count as int, i as int),
        decreases thresholds@.len() - i,
    {
        let m = thresholds[i];
        if old_count < m && new_count >= m {
            r.push(m);
        }
        proof {
            assert(r@ =~= crossed_prefix(old_count as int, new_count as int, i as int + 1));
        }
        i += 1;
    }
    r
}

/// The fixed human-readable badge label paired with each milestone
/// threshold; thresholds outside the fixed set fall back to a generic
/// label, so the scan stays total over arbitrary count moves.
pub fn badge_label(milestone: u64) -> (r: &'static str)
    ensures
        milestone == 7 ==> r@ == "Civic Starter Badge"@,
        milestone == 14 ==> r@ == "Consistent Citizen Badge"@,
        milestone == 21 ==> r@ == "Civic Champion Badge"@,
        milestone == 30 ==> r@ == "Democracy Hero Badge"@,
        milestone == 50 ==> r@ == "Civic Legend Badge"@,
        milestone == 100 ==> r@ == "Civic Grandmaster Badge"@,
        !is_milestone(milestone) ==> r@ == "Milestone Reward"@,
{
    if milestone == 7 {
        "Civic Starter Badge"
    } else if milestone == 14 {
        "Consistent Citizen Badge"
    } else if milestone == 21 {
        "Civic Champion Badge"
    } else if milestone == 30 {
        "Democracy Hero Badge"
    } else if milestone == 50 {
        "Civic Legend Badge"
    } else if milestone == 100 {
        "Civic Grandmaster Badge"
    } else {
        "Milestone Reward"
    }
}

} // verus!
