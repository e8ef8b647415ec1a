//! Counting tasks by a property: the executor's pool sizes are counts over
//! its sequence of task headers.

use vstd::prelude::*;
use crate::task::{TaskHeader, TaskState};

verus! {

/// Number of headers in `s` that satisfy `p`.
pub open spec fn count_where(s: Seq<TaskHeader>, p: spec_fn(TaskHeader) -> bool) -> nat
    decreases s.len(),
{
    if s.len() == 0 {
        0
    } else {
        count_where(s.drop_last(), p) + if p(s.last()) { 1nat } else { 0nat }
    }
}

pub open spec fn in_state(st: TaskState) -> spec_fn(TaskHeader) -> bool {
    |h: TaskHeader| h.state == st
}

/// A waiting task whose deadline has been reached at time `now`.
pub open spec fn is_due(h: TaskHeader, now: u64) -> bool {
    h.state == TaskState::SuspendedAwaiting && h.deadline <= now
}

/// A task that a run at time `now` with nothing to launch re-enters.
pub open spec fn is_ready(h: TaskHeader, now: u64) -> bool {
    is_due(h, now) || h.state == TaskState::SuspendedCompleted
}

pub open spec fn due_at(now: u64) -> spec_fn(TaskHeader) -> bool {
    |h: TaskHeader| is_due(h, now)
}

pub open spec fn ready_at(now: u64) -> spec_fn(TaskHeader) -> bool {
    |h: TaskHeader| is_ready(h, now)
}

pub open spec fn count_state(s: Seq<TaskHeader>, st: TaskState) -> nat {
    count_where(s, in_state(st))
}

/// Tasks suspended in either sub-state.
pub open spec fn count_suspended(s: Seq<TaskHeader>) -> nat {
    count_state(s, TaskState::SuspendedAwaiting) + count_state(s, TaskState::SuspendedCompleted)
}

pub proof fn lemma_count_take(s: Seq<TaskHeader>, p: spec_fn(TaskHeader) -> bool, i: int)
    requires
        0 <= i < s.len(),
    ensures
        count_where(s.take(i + 1), p) == count_where(s.take(i), p) + if p(s[i]) { 1nat } else { 0nat },
{
    assert(s.take(i + 1).drop_last() =~= s.take(i));
}

pub proof fn lemma_count_all(s: Seq<TaskHeader>, p: spec_fn(TaskHeader) -> bool)
    ensures
        count_where(s.take(s.len() as int), p) == count_where(s, p),
{
    assert(s.take(s.len() as int) =~= s);
}

pub proof fn lemma_count_le(s: Seq<TaskHeader>, p: spec_fn(TaskHeader) -> bool)
    ensures
        count_where(s, p) <= s.len(),
    decreases s.len(),
{
    if s.len() > 0 {
        lemma_count_le(s.drop_last(), p);
    }
}

pub proof fn lemma_count_update(s: Seq<TaskHeader>, i: int, h: TaskHeader, p: spec_fn(TaskHeader) -> bool)
    requires
        0 <= i < s.len(),
    ensures
        count_where(s.update(i, h), p) + (if p(s[i]) { 1nat } else { 0nat })
            == count_where(s, p) + (if p(h) { 1nat } else { 0nat }),
    decreases s.len(),
{
    if i == s.len() - 1 {
        assert(s.update(i, h).drop_last() =~= s.drop_last());
    } else {
        assert(s.update(i, h).drop_last() =~= s.drop_last().update(i, h));
        lemma_count_update(s.drop_last(), i, h, p);
    }
}

/// Counts agree when the two properties agree position by position.
pub proof fn lemma_count_pointwise(
    s1: Seq<TaskHeader>,
    p: spec_fn(TaskHeader) -> bool,
    s2: Seq<TaskHeader>,
    q: spec_fn(TaskHeader) -> bool,
)
    requires
        s1.len() == s2.len(),
        forall|j: int| 0 <= j < s1.len() ==> (p(s1[j]) <==> q(s2[j])),
    ensures
        count_where(s1, p) == count_where(s2, q),
    decreases s1.len(),
{
    if s1.len() > 0 {
        lemma_count_pointwise(s1.drop_last(), p, s2.drop_last(), q);
    }
}

pub proof fn lemma_count_zero(s: Seq<TaskHeader>, p: spec_fn(TaskHeader) -> bool)
    ensures
        count_where(s, p) == 0 <==> forall|j: int| 0 <= j < s.len() ==> !p(s[j]),
    decreases s.len(),
{
    if s.len() > 0 {
        lemma_count_zero(s.drop_last(), p);
        if count_where(s, p) == 0 {
            assert forall|j: int| 0 <= j < s.len() implies !p(s[j]) by {
                if j < s.len() - 1 {
                    assert(s[j] == s.drop_last()[j]);
                }
            }
        }
        if forall|j: int| 0 <= j < s.len() ==> !p(s[j]) {
            assert forall|j: int| 0 <= j < s.drop_last().len() implies !p(s.drop_last()[j]) by {
                assert(s[j] == s.drop_last()[j]);
            }
        }
    }
}

/// Two properties that never hold together count at most the length.
pub proof fn lemma_count_disjoint(s: Seq<TaskHeader>, p: spec_fn(TaskHeader) -> bool, q: spec_fn(TaskHeader) -> bool)
    requires
        forall|h: TaskHeader| !(#[trigger] p(h) && q(h)),
    ensures
        count_where(s, p) + count_where(s, q) <= s.len(),
    decreases s.len(),
{
    if s.len() > 0 {
        lemma_count_disjoint(s.drop_last(), p, q);
    }
}

pub proof fn lemma_count_prefix_le(s: Seq<TaskHeader>, p: spec_fn(TaskHeader) -> bool, i: int)
    requires
        0 <= i <= s.len(),
    ensures
        count_where(s.take(i), p) <= count_where(s, p),
    decreases s.len(),
{
    if i == s.len() {
        assert(s.take(i) =~= s);
    } else {
        assert(s.drop_last().take(i) =~= s.take(i));
        lemma_count_prefix_le(s.drop_last(), p, i);
    }
}

} // verus!
