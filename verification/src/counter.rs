//! The generation counter: one process-wide source of episode identifiers.

use vstd::prelude::*;

verus! {

/// Issues the identifiers 1, 2, 3, ... in this order, each at most once.
pub struct GenerationCounter {
    last: u64,
}

/// The identifiers that `count` successive issues hand out when `issued`
/// have been handed out before, in the order of the calls.
pub open spec fn issue_trace(issued: nat, count: nat) -> Seq<nat>
    decreases count,
{
    if count == 0 {
        Seq::empty()
    } else {
        seq![issued + 1].add(issue_trace(issued + 1, (count - 1) as nat))
    }
}

impl GenerationCounter {
    /// How many identifiers have been issued; also the last one issued.
    pub closed spec fn issued(&self) -> nat {
        self.last as nat
    }

    /// No identifier is left once `u64::MAX` has been issued.
    pub open spec fn exhausted(&self) -> bool {
        self.issued() >= u64::MAX
    }

    /// A counter that has issued nothing.
    pub fn new() -> (counter: Self)
        ensures
            counter.issued() == 0,
    {
        GenerationCounter { last: 0 }
    }

    /// The last identifier issued, 0 before the first.
    pub fn last_issued(&self) -> (last: u64)
        ensures
            last == self.issued(),
    {
        self.last
    }

    /// Issues the next identifier, or `None` when the counter is exhausted.
    pub fn issue(&mut self) -> (id: Option<u64>)
        ensures
            old(self).exhausted() ==> id is None && final(self).issued() == old(self).issued(),
            !old(self).exhausted() ==> id == Some((old(self).issued() + 1) as u64)
                && final(self).issued() == old(self).issued() + 1,
    {
        if self.last == u64::MAX {
            None
        } else {
            self.last = self.last + 1;
            Some(self.last)
        }
    }
}

/// Every identifier of a trace lies above what was issued before it.
pub proof fn lemma_issue_trace_index(issued: nat, count: nat, i: int)
    requires
        0 <= i < count,
    ensures
        issue_trace(issued, count).len() == count,
        issue_trace(issued, count)[i] == issued + 1 + i,
    decreases count,
{
    lemma_issue_trace_len(issued, count);
    if i > 0 {
        lemma_issue_trace_len(issued + 1, (count - 1) as nat);
        lemma_issue_trace_index(issued + 1, (count - 1) as nat, i - 1);
    }
}

/// A trace of `count` issues holds `count` identifiers.
pub proof fn lemma_issue_trace_len(issued: nat, count: nat)
    ensures
        issue_trace(issued, count).len() == count,
    decreases count,
{
    if count > 0 {
        lemma_issue_trace_len(issued + 1, (count - 1) as nat);
    }
}

/// Identifiers are issued in strictly increasing order and never twice: of
/// any two issues the later one yields the larger identifier, and both lie
/// above everything issued before.
pub proof fn lemma_issues_strictly_increase(issued: nat, count: nat, i: int, j: int)
    requires
        0 <= i < j < count,
    ensures
        issued < issue_trace(issued, count)[i] < issue_trace(issued, count)[j],
{
    lemma_issue_trace_index(issued, count, i);
    lemma_issue_trace_index(issued, count, j);
}

} // verus!
