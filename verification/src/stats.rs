//! Counting over the decision log, for the dashboard summary and the metrics
//! endpoint.

use vstd::prelude::*;

use crate::decision::{RegionAction, RequestOutcome};
use crate::record::rule_in_order;
use crate::rule_id::RuleId;

verus! {

/// Which way a request went, without its detail.
#[derive(Debug, Clone, Copy, PartialEq, Eq, Structural)]
pub enum OutcomeKind {
    /// Forwarded as received.
    Allow,
    /// Forwarded with regions blacked out.
    AllowRedacted,
    /// Refused.
    Block,
}

impl RequestOutcome {
    /// Which way the request went.
    pub fn kind(&self) -> (k: OutcomeKind)
        ensures
            k == (match self {
                RequestOutcome::Allow => OutcomeKind::Allow,
                RequestOutcome::AllowRedacted { .. } => OutcomeKind::AllowRedacted,
                RequestOutcome::Block { .. } => OutcomeKind::Block,
            }),
    {
        match self {
            RequestOutcome::Allow => OutcomeKind::Allow,
            RequestOutcome::AllowRedacted { .. } => OutcomeKind::AllowRedacted,
            RequestOutcome::Block { .. } => OutcomeKind::Block,
        }
    }
}

/// What the summary reads of one logged decision: how the request went, and
/// each region's action and deciding rule.
#[derive(Debug, Clone)]
pub struct DecisionFacts {
    /// How the request went.
    pub outcome: OutcomeKind,
    /// Each region's action and deciding rule.
    pub regions: Vec<(RegionAction, RuleId)>,
}

/// How often one rule decided a region.
#[derive(Debug, Clone, Copy, PartialEq, Eq, Structural)]
pub struct RuleCount {
    /// The rule.
    pub rule_id: RuleId,
    /// How many regions it decided.
    pub count: usize,
}

/// The counts the dashboard summary shows.
#[derive(Debug, Clone, PartialEq)]
pub struct Tally {
    /// Decisions.
    pub total: usize,
    /// Decisions forwarded as received.
    pub allow: usize,
    /// Decisions forwarded with redactions.
    pub allow_redacted: usize,
    /// Decisions refused.
    pub block: usize,
    /// Regions over all decisions.
    pub regions_total: usize,
    /// Regions redacted.
    pub regions_redacted: usize,
    /// Regions flagged.
    pub regions_flagged: usize,
    /// Regions per deciding rule, in rule-table order.
    pub by_rule: Vec<RuleCount>,
}

/// The number of decisions that went the way `k` says.
pub open spec fn count_outcome(ds: Seq<DecisionFacts>, k: OutcomeKind) -> nat
    decreases ds.len(),
{
    if ds.len() == 0 {
        0
    } else {
        count_outcome(ds.drop_last(), k) + if ds.last().outcome == k {
            1nat
        } else {
            0nat
        }
    }
}

/// The number of regions of one decision that satisfy `p`.
pub open spec fn count_in(rs: Seq<(RegionAction, RuleId)>, p: spec_fn((RegionAction, RuleId)) -> bool) -> nat
    decreases rs.len(),
{
    if rs.len() == 0 {
        0
    } else {
        count_in(rs.drop_last(), p) + if p(rs.last()) {
            1nat
        } else {
            0nat
        }
    }
}

/// The number of regions, over all decisions, that satisfy `p`.
pub open spec fn count_regions(ds: Seq<DecisionFacts>, p: spec_fn((RegionAction, RuleId)) -> bool) -> nat
    decreases ds.len(),
{
    if ds.len() == 0 {
        0
    } else {
        count_regions(ds.drop_last(), p) + count_in(ds.last().regions@, p)
    }
}

/// Every region.
pub open spec fn any_region() -> spec_fn((RegionAction, RuleId)) -> bool {
    |r: (RegionAction, RuleId)| true
}

/// The regions with action `a`.
pub open spec fn with_action(a: RegionAction) -> spec_fn((RegionAction, RuleId)) -> bool {
    |r: (RegionAction, RuleId)| r.0 == a
}

/// The regions decided by rule `id`.
pub open spec fn with_rule(id: RuleId) -> spec_fn((RegionAction, RuleId)) -> bool {
    |r: (RegionAction, RuleId)| r.1 == id
}

/// The sum of the counts of a list of rule counts.
pub open spec fn count_sum(cs: Seq<RuleCount>) -> int
    decreases cs.len(),
{
    if cs.len() == 0 {
        0
    } else {
        count_sum(cs.drop_last()) + cs.last().count
    }
}

/// The regions satisfying `count` under each rule of the table in turn,
/// added up.
pub open spec fn per_rule_total(count: spec_fn(spec_fn((RegionAction, RuleId)) -> bool) -> nat) -> int {
    count(with_rule(rule_in_order(0))) + count(with_rule(rule_in_order(1))) + count(
        with_rule(rule_in_order(2)),
    ) + count(with_rule(rule_in_order(3))) + count(with_rule(rule_in_order(4))) + count(
        with_rule(rule_in_order(5)),
    ) + count(with_rule(rule_in_order(6))) as int
}

/// Every region of one decision is decided by exactly one rule of the table.
proof fn lemma_rules_partition_regions_in(rs: Seq<(RegionAction, RuleId)>)
    ensures
        per_rule_total(|p: spec_fn((RegionAction, RuleId)) -> bool| count_in(rs, p)) == count_in(
            rs,
            any_region(),
        ),
    decreases rs.len(),
{
    if rs.len() > 0 {
        lemma_rules_partition_regions_in(rs.drop_last());
        let r = rs.last();
        match r.1 {
            RuleId::R1InstructionChannel => {},
            RuleId::R2ExtractionFailed => {},
            RuleId::R3ExtractionDegraded => {},
            RuleId::R4HighConfidence => {},
            RuleId::R5ImperativeToolRef => {},
            RuleId::R6LowConfidence => {},
            RuleId::R7Default => {},
        }
    }
}

/// Every region of every decision is decided by exactly one rule of the table.
proof fn lemma_rules_partition_regions(ds: Seq<DecisionFacts>)
    ensures
        per_rule_total(|p: spec_fn((RegionAction, RuleId)) -> bool| count_regions(ds, p))
            == count_regions(ds, any_region()),
    decreases ds.len(),
{
    if ds.len() > 0 {
        lemma_rules_partition_regions(ds.drop_last());
        lemma_rules_partition_regions_in(ds.last().regions@);
    }
}

/// The place of a rule in the rule table.
fn rule_position(id: RuleId) -> (k: usize)
    ensures
        k < 7,
        rule_in_order(k as int) == id,
{
    match id {
        RuleId::R1InstructionChannel => 0,
        RuleId::R2ExtractionFailed => 1,
        RuleId::R3ExtractionDegraded => 2,
        RuleId::R4HighConfidence => 3,
        RuleId::R5ImperativeToolRef => 4,
        RuleId::R6LowConfidence => 5,
        RuleId::R7Default => 6,
    }
}

proof fn lemma_count_in_bounded(
    rs: Seq<(RegionAction, RuleId)>,
    p: spec_fn((RegionAction, RuleId)) -> bool,
)
    ensures
        count_in(rs, p) <= count_in(rs, any_region()),
        count_in(rs, any_region()) == rs.len(),
    decreases rs.len(),
{
    if rs.len() > 0 {
        lemma_count_in_bounded(rs.drop_last(), p);
    }
}

proof fn lemma_count_regions_bounded(ds: Seq<DecisionFacts>, p: spec_fn((RegionAction, RuleId)) -> bool)
    ensures
        count_regions(ds, p) <= count_regions(ds, any_region()),
    decreases ds.len(),
{
    if ds.len() > 0 {
        lemma_count_regions_bounded(ds.drop_last(), p);
        lemma_count_in_bounded(ds.last().regions@, p);
    }
}

proof fn lemma_count_regions_prefix(
    ds: Seq<DecisionFacts>,
    p: spec_fn((RegionAction, RuleId)) -> bool,
    i: int,
    j: int,
)
    requires
        0 <= i <= j <= ds.len(),
    ensures
        count_regions(ds.take(i), p) <= count_regions(ds.take(j), p),
    decreases j - i,
{
    if i < j {
        lemma_count_regions_prefix(ds, p, i, j - 1);
        assert(ds.take(j).drop_last() == ds.take(j - 1));
    }
}

/// Count decisions by outcome, regions by action, and regions by deciding
/// rule in rule-table order.
pub fn tally(decisions: &[DecisionFacts]) -> (t: Tally)
    requires
        count_regions(decisions@, any_region()) <= usize::MAX,
    ensures
        t.total == decisions@.len(),
        t.allow + t.allow_redacted + t.block == t.total,
        t.allow == count_outcome(decisions@, OutcomeKind::Allow),
        t.allow_redacted == count_outcome(decisions@, OutcomeKind::AllowRedacted),
        t.block == count_outcome(decisions@, OutcomeKind::Block),
        t.regions_total == count_regions(decisions@, any_region()),
        t.regions_redacted == count_regions(decisions@, with_action(RegionAction::Redact)),
        t.regions_flagged == count_regions(decisions@, with_action(RegionAction::Flag)),
        t.by_rule@.len() == 7,
        forall|k: int|
            0 <= k < 7 ==> #[trigger] t.by_rule@[k].rule_id == rule_in_order(k) && t.by_rule@[k].count
                == count_regions(decisions@, with_rule(rule_in_order(k))),
        count_sum(t.by_rule@) == t.regions_total,
        t.allow == decisions@.filter(|d: DecisionFacts| d.outcome == OutcomeKind::Allow).len(),
        t.allow_redacted == decisions@.filter(
            |d: DecisionFacts| d.outcome == OutcomeKind::AllowRedacted,
        ).len(),
        t.block == decisions@.filter(|d: DecisionFacts| d.outcome == OutcomeKind::Block).len(),
{
    let ghost ds = decisions@;
    let mut allow: usize = 0;
    let mut allow_redacted: usize = 0;
    let mut block: usize = 0;
    let mut regions_total: usize = 0;
    let mut regions_redacted: usize = 0;
    let mut regions_flagged: usize = 0;
    let mut counts: [usize; 7] = [0; 7];
    let mut i: usize = 0;
    while i < decisions.len()
        invariant
            ds == decisions@,
            count_regions(ds, any_region()) <= usize::MAX,
            i <= ds.len(),
            allow == count_outcome(ds.take(i as int), OutcomeKind::Allow),
            allow_redacted == count_outcome(ds.take(i as int), OutcomeKind::AllowRedacted),
            block == count_outcome(ds.take(i as int), OutcomeKind::Block),
            allow + allow_redacted + block == i,
            regions_total == count_regions(ds.take(i as int), any_region()),
            regions_redacted == count_regions(ds.take(i as int), with_action(RegionAction::Redact)),
            regions_flagged == count_regions(ds.take(i as int), with_action(RegionAction::Flag)),
            forall|k: int|
                0 <= k < 7 ==> #[trigger] counts@[k] == count_regions(
                    ds.take(i as int),
                    with_rule(rule_in_order(k)),
                ),
        decreases ds.len() - i,
    {
        let d = &decisions[i];
        assert(ds.take(i + 1).drop_last() == ds.take(i as int));
        match d.outcome {
            OutcomeKind::Allow => allow = allow + 1,
            OutcomeKind::AllowRedacted => allow_redacted = allow_redacted + 1,
            OutcomeKind::Block => block = block + 1,
        }
        let ghost rs = d.regions@;
        let ghost base_total = regions_total as int;
        let ghost base_redacted = regions_redacted as int;
        let ghost base_flagged = regions_flagged as int;
        let ghost base_counts = counts@;
        proof {
            lemma_count_regions_prefix(ds, any_region(), i + 1, ds.len() as int);
            assert(ds.take(ds.len() as int) == ds);
            lemma_count_regions_bounded(ds.take(i + 1), with_action(RegionAction::Redact));
            lemma_count_regions_bounded(ds.take(i + 1), with_action(RegionAction::Flag));
            assert forall|k: int| 0 <= k < 7 implies count_regions(
                ds.take(i + 1),
                with_rule(rule_in_order(k)),
            ) <= usize::MAX by {
                lemma_count_regions_bounded(ds.take(i + 1), with_rule(rule_in_order(k)));
            }
        }
        let mut j: usize = 0;
        while j < d.regions.len()
            invariant
                rs == d.regions@,
                i < ds.len(),
                base_counts.len() == 7,
                j <= rs.len(),
                count_regions(ds.take(i + 1), any_region()) <= usize::MAX,
                count_regions(ds.take(i + 1), with_action(RegionAction::Redact)) <= usize::MAX,
                count_regions(ds.take(i + 1), with_action(RegionAction::Flag)) <= usize::MAX,
                forall|k: int|
                    0 <= k < 7 ==> count_regions(ds.take(i + 1), with_rule(rule_in_order(k)))
                        <= usize::MAX,
                ds.take(i + 1).drop_last() == ds.take(i as int),
                ds.take(i + 1).last() == *d,
                regions_total == base_total + count_in(rs.take(j as int), any_region()),
                regions_redacted == base_redacted + count_in(
                    rs.take(j as int),
                    with_action(RegionAction::Redact),
                ),
                regions_flagged == base_flagged + count_in(
                    rs.take(j as int),
                    with_action(RegionAction::Flag),
                ),
                base_total == count_regions(ds.take(i as int), any_region()),
                base_redacted == count_regions(ds.take(i as int), with_action(RegionAction::Redact)),
                base_flagged == count_regions(ds.take(i as int), with_action(RegionAction::Flag)),
                forall|k: int|
                    0 <= k < 7 ==> #[trigger] counts@[k] == base_counts[k] + count_in(
                        rs.take(j as int),
                        with_rule(rule_in_order(k)),
                    ),
                forall|k: int|
                    0 <= k < 7 ==> #[trigger] base_counts[k] == count_regions(
                        ds.take(i as int),
                        with_rule(rule_in_order(k)),
                    ),
            decreases rs.len() - j,
        {
            let (action, rule_id) = d.regions[j];
            proof {
                assert(rs.take(j + 1).drop_last() == rs.take(j as int));
                lemma_count_in_bounded(rs.take(j + 1), any_region());
                lemma_count_in_bounded(rs, any_region());
                assert(rs.take(rs.len() as int) == rs);
                lemma_count_in_prefix(rs, any_region(), j + 1, rs.len() as int);
                lemma_count_in_prefix(rs, with_action(RegionAction::Redact), j + 1, rs.len() as int);
                lemma_count_in_prefix(rs, with_action(RegionAction::Flag), j + 1, rs.len() as int);
                assert forall|k: int| 0 <= k < 7 implies count_in(rs.take(j + 1), with_rule(rule_in_order(k)))
                    <= count_in(rs, with_rule(rule_in_order(k))) by {
                    lemma_count_in_prefix(rs, with_rule(rule_in_order(k)), j + 1, rs.len() as int);
                }
            }
            proof {
                assert(rs.take(j + 1).last() == (action, rule_id));
                let p = any_region();
                assert(count_regions(ds.take(i + 1), p) == base_total + count_in(rs, p));
                assert(count_in(rs.take(j + 1), any_region()) == count_in(rs.take(j as int), any_region())
                    + 1);
            }
            regions_total = regions_total + 1;
            match action {
                RegionAction::Redact => regions_redacted = regions_redacted + 1,
                RegionAction::Flag => regions_flagged = regions_flagged + 1,
                _ => {},
            }
            let k = rule_position(rule_id);
            proof {
                let p = with_rule(rule_in_order(k as int));
                assert(count_regions(ds.take(i + 1), p) == base_counts[k as int] + count_in(rs, p));
                assert(count_in(rs.take(j + 1), p) == count_in(rs.take(j as int), p) + 1);
            }
            counts[k] = counts[k] + 1;
            j = j + 1;
        }
        assert(rs.take(rs.len() as int) == rs);
        i = i + 1;
    }
    assert(ds.take(ds.len() as int) == ds);
    let mut by_rule: Vec<RuleCount> = Vec::new();
    let mut k: usize = 0;
    while k < 7
        invariant
            k <= 7,
            by_rule@.len() == k,
            forall|m: int|
                0 <= m < k ==> #[trigger] by_rule@[m].rule_id == rule_in_order(m)
                    && by_rule@[m].count == counts@[m],
        decreases 7 - k,
    {
        by_rule.push(RuleCount { rule_id: rule_at(k), count: counts[k] });
        k = k + 1;
    }
    proof {
        let b = by_rule@;
        lemma_rules_partition_regions(ds);
        law_outcome_counts_are_the_matching_decisions(ds, OutcomeKind::Allow);
        law_outcome_counts_are_the_matching_decisions(ds, OutcomeKind::AllowRedacted);
        law_outcome_counts_are_the_matching_decisions(ds, OutcomeKind::Block);
        assert forall|m: int| 1 <= m <= 7 implies count_sum(#[trigger] b.take(m)) == count_sum(
            b.take(m - 1),
        ) + counts@[m - 1] by {
            assert(b.take(m).drop_last() == b.take(m - 1));
            assert(b[m - 1].rule_id == rule_in_order(m - 1));
        }
        assert(count_sum(b.take(0)) == 0);
        assert(count_sum(b.take(1)) == counts@[0]);
        assert(count_sum(b.take(2)) == counts@[0] + counts@[1]);
        assert(count_sum(b.take(3)) == counts@[0] + counts@[1] + counts@[2]);
        assert(count_sum(b.take(4)) == counts@[0] + counts@[1] + counts@[2] + counts@[3]);
        assert(count_sum(b.take(5)) == counts@[0] + counts@[1] + counts@[2] + counts@[3]
            + counts@[4]);
        assert(count_sum(b.take(6)) == counts@[0] + counts@[1] + counts@[2] + counts@[3]
            + counts@[4] + counts@[5]);
        assert(count_sum(b.take(7)) == counts@[0] + counts@[1] + counts@[2] + counts@[3]
            + counts@[4] + counts@[5] + counts@[6]);
        assert(b.take(7) == b);
    }
    Tally {
        total: decisions.len(),
        allow,
        allow_redacted,
        block,
        regions_total,
        regions_redacted,
        regions_flagged,
        by_rule,
    }
}

proof fn lemma_count_in_prefix(
    rs: Seq<(RegionAction, RuleId)>,
    p: spec_fn((RegionAction, RuleId)) -> bool,
    i: int,
    j: int,
)
    requires
        0 <= i <= j <= rs.len(),
    ensures
        count_in(rs.take(i), p) <= count_in(rs.take(j), p),
    decreases j - i,
{
    if i < j {
        lemma_count_in_prefix(rs, p, i, j - 1);
        assert(rs.take(j).drop_last() == rs.take(j - 1));
    }
}

/// The rule in the `k`-th place of the rule table.
fn rule_at(k: usize) -> (id: RuleId)
    requires
        k < 7,
    ensures
        id == rule_in_order(k as int),
{
    match k {
        0 => RuleId::R1InstructionChannel,
        1 => RuleId::R2ExtractionFailed,
        2 => RuleId::R3ExtractionDegraded,
        3 => RuleId::R4HighConfidence,
        4 => RuleId::R5ImperativeToolRef,
        5 => RuleId::R6LowConfidence,
        _ => RuleId::R7Default,
    }
}

/// Law: each outcome count is the number of decisions that went that way.
pub proof fn law_outcome_counts_are_the_matching_decisions(ds: Seq<DecisionFacts>, k: OutcomeKind)
    ensures
        count_outcome(ds, k) == ds.filter(|d: DecisionFacts| d.outcome == k).len(),
    decreases ds.len(),
{
    reveal(Seq::filter);
    if ds.len() > 0 {
        law_outcome_counts_are_the_matching_decisions(ds.drop_last(), k);
    }
}

/// Law: the regions of one decision counted by action, by deciding rule,
/// and in all are the regions with that action, with that rule, and all of
/// them.
pub proof fn law_region_counts_are_the_matching_regions(
    rs: Seq<(RegionAction, RuleId)>,
    a: RegionAction,
    id: RuleId,
)
    ensures
        count_in(rs, with_action(a)) == rs.filter(|r: (RegionAction, RuleId)| r.0 == a).len(),
        count_in(rs, with_rule(id)) == rs.filter(|r: (RegionAction, RuleId)| r.1 == id).len(),
        count_in(rs, any_region()) == rs.len(),
    decreases rs.len(),
{
    reveal(Seq::filter);
    if rs.len() > 0 {
        law_region_counts_are_the_matching_regions(rs.drop_last(), a, id);
    }
}

/// Law: counting regions over the log adds up the counts of each decision:
/// no decisions give none, and one more decision adds its own.
pub proof fn law_region_counts_add_up(
    ds: Seq<DecisionFacts>,
    d: DecisionFacts,
    p: spec_fn((RegionAction, RuleId)) -> bool,
)
    ensures
        count_regions(Seq::empty(), p) == 0,
        count_regions(ds.push(d), p) == count_regions(ds, p) + count_in(d.regions@, p),
{
    assert(ds.push(d).drop_last() == ds);
}

} // verus!
