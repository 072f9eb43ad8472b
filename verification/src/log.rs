//! The decision log: a bounded ring of decisions, most recent first. It is
//! held in memory only, so decisions do not survive a restart.

use std::collections::VecDeque;

use vstd::prelude::*;

use crate::chars::same_text;
use crate::ids::DecisionId;
use crate::wrappers::uuid_hyphenated;

verus! {

/// How many decisions the ring holds before the oldest is dropped.
pub const MAX_DECISIONS: usize = 500;

/// One logged decision, with the keys the log is searched by.
pub struct LogEntry<R> {
    /// Unix epoch milliseconds of the decision.
    pub ts_ms: u64,
    /// The decision's id.
    pub decision_id: DecisionId,
    /// The decision record itself.
    pub record: R,
}

/// A bounded log of decisions, most recent first.
pub struct DecisionLog<R> {
    entries: VecDeque<LogEntry<R>>,
}

/// The number of leading entries newer than `since` (all of them when there
/// is no `since`), counted from `i`.
pub open spec fn newer_run<R>(es: Seq<LogEntry<R>>, since: Option<u64>, i: int) -> int
    decreases es.len() - i,
{
    if i < 0 || i >= es.len() {
        0
    } else {
        match since {
            Some(s) => if es[i].ts_ms > s {
                1 + newer_run(es, since, i + 1)
            } else {
                0
            },
            None => 1 + newer_run(es, since, i + 1),
        }
    }
}

/// The index of the first entry from `i` on whose id displays as `text`, or
/// the number of entries when none does.
pub open spec fn first_with_id<R>(es: Seq<LogEntry<R>>, text: Seq<char>, i: int) -> int
    decreases es.len() - i,
{
    if i < 0 || i >= es.len() {
        es.len() as int
    } else if uuid_hyphenated(es[i].decision_id.value()) == text {
        i
    } else {
        first_with_id(es, text, i + 1)
    }
}

/// What the log holds after recording `e` into `es`: `e` first, then the
/// older entries, cut to the capacity.
pub open spec fn after_record<R>(es: Seq<LogEntry<R>>, e: LogEntry<R>) -> Seq<LogEntry<R>> {
    let full = seq![e] + es;
    if full.len() > MAX_DECISIONS {
        full.take(MAX_DECISIONS as int)
    } else {
        full
    }
}

proof fn lemma_newer_run_bounds<R>(es: Seq<LogEntry<R>>, since: Option<u64>, i: int)
    requires
        0 <= i <= es.len(),
    ensures
        0 <= newer_run(es, since, i) <= es.len() - i,
    decreases es.len() - i,
{
    if i < es.len() {
        lemma_newer_run_bounds(es, since, i + 1);
    }
}

impl<R> DecisionLog<R> {
    /// The entries, most recent first.
    pub closed spec fn entries(&self) -> Seq<LogEntry<R>> {
        self.entries@
    }

    /// An empty log.
    pub fn new() -> (l: Self)
        ensures
            l.entries().len() == 0,
    {
        DecisionLog { entries: VecDeque::with_capacity(MAX_DECISIONS) }
    }

    /// Append a decision at the head, dropping the oldest once the ring is
    /// full.
    pub fn record(&mut self, ts_ms: u64, decision_id: DecisionId, record: R)
        ensures
            final(self).entries() == after_record(old(self).entries(), LogEntry { ts_ms, decision_id, record }),
            final(self).entries().len() <= MAX_DECISIONS,
    {
        let ghost full = seq![LogEntry { ts_ms, decision_id, record }] + self.entries@;
        self.entries.push_front(LogEntry { ts_ms, decision_id, record });
        while self.entries.len() > MAX_DECISIONS
            invariant
                self.entries@ == full.take(self.entries@.len() as int),
                self.entries@.len() <= full.len(),
                full.len() > MAX_DECISIONS ==> self.entries@.len() >= MAX_DECISIONS,
                full.len() <= MAX_DECISIONS ==> self.entries@.len() == full.len(),
            decreases self.entries@.len(),
        {
            self.entries.pop_back();
        }
        assert(full.take(full.len() as int) == full);
    }

    /// How many decisions the log holds.
    pub fn len(&self) -> (n: usize)
        ensures
            n == self.entries().len(),
    {
        self.entries.len()
    }
}

impl<R: Clone> DecisionLog<R> {
    /// The most recent decisions, newest first: only those newer than
    /// `since_ms` when it is given, and at most `limit` of them. The scan
    /// stops at the first decision that is not newer.
    pub fn recent(&self, since_ms: Option<u64>, limit: usize) -> (r: Vec<R>)
        ensures
            r@.len() == if newer_run(self.entries(), since_ms, 0) < limit {
                newer_run(self.entries(), since_ms, 0)
            } else {
                limit as int
            },
            forall|i: int| 0 <= i < r@.len() ==> cloned(self.entries()[i].record, #[trigger] r@[i]),
    {
        let ghost es = self.entries@;
        let mut out: Vec<R> = Vec::new();
        let mut i: usize = 0;
        let mut stopped = false;
        proof {
            lemma_newer_run_bounds(es, since_ms, 0);
        }
        while i < self.entries.len() && out.len() < limit && !stopped
            invariant
                es == self.entries@,
                i <= es.len(),
                out@.len() == i,
                i <= limit,
                newer_run(es, since_ms, 0) == i + newer_run(es, since_ms, i as int),
                stopped ==> newer_run(es, since_ms, i as int) == 0,
                forall|k: int| 0 <= k < i ==> cloned(es[k].record, #[trigger] out@[k]),
            decreases es.len() - i + if stopped { 0int } else { 1int },
        {
            let e = &self.entries[i];
            let newer = match since_ms {
                Some(s) => e.ts_ms > s,
                None => true,
            };
            if newer {
                out.push(e.record.clone());
                i = i + 1;
            } else {
                stopped = true;
            }
        }
        proof {
            lemma_newer_run_bounds(es, since_ms, i as int);
        }
        out
    }

    /// The decision whose id displays as `decision_id`, the most recent if
    /// several do.
    pub fn get(&self, decision_id: &str) -> (r: Option<R>)
        ensures
            first_with_id(self.entries(), decision_id@, 0) < self.entries().len() <==> r is Some,
            r matches Some(x) ==> cloned(
                self.entries()[first_with_id(self.entries(), decision_id@, 0)].record,
                x,
            ),
    {
        let ghost es = self.entries@;
        let mut i: usize = 0;
        while i < self.entries.len()
            invariant
                es == self.entries@,
                i <= es.len(),
                first_with_id(es, decision_id@, 0) == first_with_id(es, decision_id@, i as int),
            decreases es.len() - i,
        {
            let e = &self.entries[i];
            let text = e.decision_id.to_string();
            if same_text(text.as_str(), decision_id) {
                return Some(e.record.clone());
            }
            i = i + 1;
        }
        None
    }

    /// Every decision held, newest first.
    pub fn all(&self) -> (r: Vec<R>)
        ensures
            r@.len() == self.entries().len(),
            forall|i: int| 0 <= i < r@.len() ==> cloned(self.entries()[i].record, #[trigger] r@[i]),
    {
        let mut out: Vec<R> = Vec::new();
        let mut i: usize = 0;
        while i < self.entries.len()
            invariant
                i <= self.entries@.len(),
                out@.len() == i,
                forall|k: int| 0 <= k < i ==> cloned(self.entries@[k].record, #[trigger] out@[k]),
            decreases self.entries@.len() - i,
        {
            out.push(self.entries[i].record.clone());
            i = i + 1;
        }
        out
    }
}

/// How many decisions one page of the decision list shows: 50 unless the
/// caller asks otherwise, and never fewer than 1 or more than 200.
pub fn page_limit(limit: Option<usize>) -> (n: usize)
    ensures
        n == match limit {
            None => 50,
            Some(l) => if l < 1 {
                1
            } else if l > 200 {
                200
            } else {
                l
            },
        },
{
    let l = match limit {
        None => 50,
        Some(l) => l,
    };
    if l < 1 {
        1
    } else if l > 200 {
        200
    } else {
        l
    }
}

/// Law: whatever has been recorded, the log holds at most `MAX_DECISIONS`
/// entries, and the decision just recorded is first.
pub proof fn law_log_is_bounded_and_newest_first<R>(es: Seq<LogEntry<R>>, e: LogEntry<R>)
    ensures
        after_record(es, e).len() <= MAX_DECISIONS,
        after_record(es, e)[0] == e,
        forall|i: int|
            0 <= i < after_record(es, e).len() - 1 ==> #[trigger] after_record(es, e)[i + 1] == es[i],
{
}

} // verus!
