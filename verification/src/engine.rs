//! The deterministic policy engine: seven rules, in order, first match wins,
//! then the redactability degrade, then aggregation over the request.
//!
//! Every function here is synchronous, total and pure: it cannot await,
//! cannot fail and cannot call a model.

use vstd::prelude::*;

use crate::chars::chars_of;
use crate::clearance::{ClearanceAuthority, Declassification};
use crate::decision::{RegionAction, RequestOutcome};
use crate::ids::{DecisionId, RegionId, RulesetVersion};
use crate::provenance::ChannelLabel;
use crate::reading::Reading;
use crate::region::ExtractionOutcome;
use crate::rule_id::{wire, RuleId};
use crate::ruleset::{coherent, reported, Ruleset, RulesetError};
use crate::sealed::Sealed;
use crate::wrappers::{debug_quoted, debug_text, lowercase_of, to_lowercase};

verus! {

/// Whether a region's pixels can actually be destroyed.
#[derive(Debug, Clone, PartialEq)]
pub enum Redactable {
    /// The region has a bbox covering this fraction of the image, quoted as a
    /// whole percentage.
    Yes {
        /// Share of the image area.
        fraction: Reading,
    },
    /// No usable bounding box, so there are no pixels to black out.
    NoBBox,
}

/// Everything the engine needs to judge one region.
#[derive(Debug, Clone)]
pub struct RegionInput<'a> {
    /// Which region.
    pub region: RegionId,
    /// Which side of the provenance boundary it arrived on.
    pub channel: ChannelLabel,
    /// How well extraction went for the image this region came from.
    pub extraction: &'a ExtractionOutcome,
    /// The classifier's score, quoted to two decimals, or `None` when there
    /// was no text to score.
    pub score: Option<Reading>,
    /// The normalised skeleton, for the lexicon check in `R5`.
    pub text: Option<&'a str>,
    /// Whether the region can be redacted.
    pub redactable: Redactable,
}

/// The engine's judgement on one region.
#[derive(Debug, Clone, PartialEq)]
pub struct RegionVerdict {
    /// Which region.
    pub region: RegionId,
    /// What to do with it.
    pub action: RegionAction,
    /// Which rule decided.
    pub rule_id: RuleId,
    /// Why, in a form a person can read.
    pub reason: String,
}

/// The engine's judgement on the request as a whole.
#[derive(Debug, Clone, PartialEq)]
pub struct RequestVerdict {
    /// Identifies this decision in the log.
    pub decision_id: DecisionId,
    /// What happens to the request.
    pub outcome: RequestOutcome,
    /// Per-region detail, in the order the regions were supplied.
    pub regions: Vec<RegionVerdict>,
    /// Which ruleset produced this.
    pub ruleset: RulesetVersion,
}

/// Whether `n` occurs in `h` as a contiguous run.
pub open spec fn contains(h: Seq<char>, n: Seq<char>) -> bool {
    exists|k: int| 0 <= k && k + n.len() <= h.len() && #[trigger] h.subrange(k, k + n.len()) == n
}

/// The first index from `i` on of a term that occurs in `text`, or the number
/// of terms when none does.
pub open spec fn hit_from(terms: Seq<Seq<char>>, text: Seq<char>, i: int) -> int
    decreases terms.len() - i,
{
    if i < 0 || i >= terms.len() {
        terms.len() as int
    } else if contains(text, terms[i]) {
        i
    } else {
        hit_from(terms, text, i + 1)
    }
}

/// The first lexicon term present in the lowercased text, if there is text
/// and a term is present.
pub open spec fn lexicon_hit(terms: Seq<Seq<char>>, text: Option<&str>) -> Option<int> {
    match text {
        None => None,
        Some(t) => {
            let i = hit_from(terms, lowercase_of(t@), 0);
            if i < terms.len() {
                Some(i)
            } else {
                None
            }
        },
    }
}

/// The flag threshold in force: lowered to `tau_flag_degraded` when the
/// extraction reported itself degraded (`R3`).
pub open spec fn flag_bar(rs: Ruleset, e: ExtractionOutcome) -> Reading {
    if e is Degraded {
        rs.tau_flag_degraded
    } else {
        rs.tau_flag
    }
}

/// The rule cascade, before the redactability degrade: the action and the
/// deciding rule.
pub open spec fn cascade(rs: Ruleset, terms: Seq<Seq<char>>, input: RegionInput) -> (
    RegionAction,
    RuleId,
) {
    if input.channel == ChannelLabel::Instruction {
        (RegionAction::Allow, RuleId::R1InstructionChannel)
    } else if *input.extraction is Failed {
        (RegionAction::Block, RuleId::R2ExtractionFailed)
    } else {
        match input.score {
            None => (RegionAction::Allow, RuleId::R7Default),
            Some(s) => if s.rank >= rs.tau_block.rank {
                (RegionAction::Redact, RuleId::R4HighConfidence)
            } else if s.rank >= flag_bar(rs, *input.extraction).rank {
                if lexicon_hit(terms, input.text) is Some {
                    (RegionAction::Redact, RuleId::R5ImperativeToolRef)
                } else if *input.extraction is Degraded && s.rank < rs.tau_flag.rank {
                    (RegionAction::Flag, RuleId::R3ExtractionDegraded)
                } else {
                    (RegionAction::Flag, RuleId::R6LowConfidence)
                }
            } else {
                (RegionAction::Allow, RuleId::R7Default)
            },
        }
    }
}

/// The reason the cascade gives for its action.
pub open spec fn cascade_reason(rs: Ruleset, terms: Seq<Seq<char>>, input: RegionInput) -> Seq<
    char,
> {
    if input.channel == ChannelLabel::Instruction {
        "instruction channel; not inspected"@
    } else if *input.extraction is Failed {
        "extraction failed ("@ + (*input.extraction)->Failed_reason@ + "); image dropped"@
    } else {
        match input.score {
            None => "no text extracted from this region"@,
            Some(s) => {
                let bar = flag_bar(rs, *input.extraction);
                if s.rank >= rs.tau_block.rank {
                    "score "@ + s.shown@ + " at or above tau_block "@ + rs.tau_block.shown@
                } else if s.rank >= bar.rank {
                    match lexicon_hit(terms, input.text) {
                        Some(i) => "score "@ + s.shown@ + " at or above tau_flag "@ + bar.shown@
                            + " and matched lexicon term "@ + debug_quoted(terms[i]),
                        None => "score "@ + s.shown@ + " at or above tau_flag "@ + bar.shown@,
                    }
                } else {
                    "score "@ + s.shown@ + " below tau_flag "@ + bar.shown@
                }
            },
        }
    }
}

/// Whether a redaction of this region is impossible: it has no bounding box,
/// or its box covers more of the image than `max_redact_frac`.
pub open spec fn unredactable(rs: Ruleset, r: Redactable) -> bool {
    match r {
        Redactable::NoBBox => true,
        Redactable::Yes { fraction } => fraction.rank > rs.max_redact_frac.rank,
    }
}

/// The action after the degrade: a redaction that cannot be carried out
/// becomes a block.
pub open spec fn final_action(rs: Ruleset, terms: Seq<Seq<char>>, input: RegionInput) -> RegionAction {
    let a = cascade(rs, terms, input).0;
    if a == RegionAction::Redact && unredactable(rs, input.redactable) {
        RegionAction::Block
    } else {
        a
    }
}

/// The full reason: the cascade's reason, plus why redaction was impossible
/// when the degrade applied.
pub open spec fn final_reason(rs: Ruleset, terms: Seq<Seq<char>>, input: RegionInput) -> Seq<char> {
    let base = cascade_reason(rs, terms, input);
    if cascade(rs, terms, input).0 == RegionAction::Redact {
        match input.redactable {
            Redactable::NoBBox => base + "; redaction impossible: region has no bounding box"@,
            Redactable::Yes { fraction } => if fraction.rank > rs.max_redact_frac.rank {
                base + "; redaction impossible: region covers "@ + fraction.shown@
                    + "% of the image, over the "@ + rs.max_redact_frac.shown@ + "% limit"@
            } else {
                base
            },
        }
    } else {
        base
    }
}

/// Whether `v` is the engine's judgement of `input`.
pub open spec fn judged(rs: Ruleset, terms: Seq<Seq<char>>, input: RegionInput, v: RegionVerdict) -> bool {
    &&& v.region == input.region
    &&& v.action == final_action(rs, terms, input)
    &&& v.rule_id == cascade(rs, terms, input).1
    &&& v.reason@ == final_reason(rs, terms, input)
}

/// Whether `n` occurs in `h`.
fn contains_chars(h: &Vec<char>, n: &Vec<char>) -> (r: bool)
    ensures
        r == contains(h@, n@),
{
    if n.len() == 0 {
        assert(h@.subrange(0int, 0int + n@.len()) == n@);
        return true;
    }
    let hlen = h.len();
    if n.len() > hlen {
        return false;
    }
    let last = hlen - n.len();
    let mut k: usize = 0;
    while k <= last
        invariant
            last == h@.len() - n@.len(),
            0 < n@.len() <= h@.len(),
            last < h@.len(),
            hlen == h@.len(),
            k <= last + 1,
            forall|j: int| 0 <= j < k ==> #[trigger] h@.subrange(j, j + n@.len()) != n@,
        decreases last + 1 - k,
    {
        let mut m: usize = 0;
        let mut same = true;
        while m < n.len()
            invariant
                k <= last,
                last == h@.len() - n@.len(),
                0 < n@.len() <= h@.len(),
                hlen == h@.len(),
                m <= n@.len(),
                same == (forall|t: int| 0 <= t < m ==> h@[k + t] == n@[t]),
            decreases n@.len() - m,
        {
            assert(k + m < h@.len());
            if h[k + m] != n[m] {
                same = false;
            }
            m = m + 1;
        }
        if same {
            assert(h@.subrange(k as int, k + n@.len()) == n@);
            return true;
        }
        assert(h@.subrange(k as int, k + n@.len()) != n@) by {
            let t = choose|t: int| 0 <= t < n@.len() && h@[k + t] != n@[t];
            assert(h@.subrange(k as int, k + n@.len())[t] == h@[k + t]);
        }
        k = k + 1;
    }
    false
}

/// The index of the most severe verdict; of several equally severe, the last.
pub open spec fn worst_index(vs: Seq<RegionVerdict>) -> int
    decreases vs.len(),
{
    if vs.len() <= 1 {
        0
    } else {
        let w = worst_index(vs.drop_last());
        if vs.last().action.severity() >= vs[w].action.severity() {
            vs.len() - 1
        } else {
            w
        }
    }
}

/// The regions of the redacted verdicts, in verdict order.
pub open spec fn redacted_regions(vs: Seq<RegionVerdict>) -> Seq<RegionId>
    decreases vs.len(),
{
    if vs.len() == 0 {
        Seq::empty()
    } else if vs.last().action == RegionAction::Redact {
        redacted_regions(vs.drop_last()).push(vs.last().region)
    } else {
        redacted_regions(vs.drop_last())
    }
}

/// Whether region ids are in ascending order.
pub open spec fn ascending(ids: Seq<RegionId>) -> bool {
    forall|a: int, b: int| 0 <= a < b < ids.len() ==> ids[a].0 <= ids[b].0
}

/// Whether `o` is the request outcome for the verdicts `vs`: the most severe
/// verdict decides. Allow and Flag forward the request; Redact forwards it
/// with exactly the redacted regions blacked out, in ascending id order;
/// Block refuses it with the deciding verdict's rule and reason.
pub open spec fn outcome_of(vs: Seq<RegionVerdict>, o: RequestOutcome) -> bool {
    if vs.len() == 0 {
        o is Allow
    } else {
        let w = vs[worst_index(vs)];
        match w.action {
            RegionAction::Allow | RegionAction::Flag => o is Allow,
            RegionAction::Redact => o matches RequestOutcome::AllowRedacted { redactions }
                && ascending(redactions@) && redactions@.to_multiset() == redacted_regions(
                vs,
            ).to_multiset(),
            RegionAction::Block => o matches RequestOutcome::Block { rule_id, reason } && rule_id@
                == wire(w.rule_id) && reason@ == w.reason@,
        }
    }
}

/// Law: the deciding verdict is at least as severe as every verdict.
pub proof fn law_worst_is_most_severe(vs: Seq<RegionVerdict>)
    requires
        vs.len() > 0,
    ensures
        0 <= worst_index(vs) < vs.len(),
        forall|i: int|
            0 <= i < vs.len() ==> #[trigger] vs[i].action.severity() <= vs[worst_index(
                vs,
            )].action.severity(),
    decreases vs.len(),
{
    if vs.len() > 1 {
        let init = vs.drop_last();
        law_worst_is_most_severe(init);
        assert forall|i: int| 0 <= i < vs.len() implies #[trigger] vs[i].action.severity()
            <= vs[worst_index(vs)].action.severity() by {
            if i < init.len() {
                assert(vs[i] == init[i]);
            }
        }
    }
}

/// Sorts region ids into ascending order.
fn sort_ids(ids: Vec<RegionId>) -> (r: Vec<RegionId>)
    ensures
        ascending(r@),
        r@.to_multiset() == ids@.to_multiset(),
{
    broadcast use vstd::seq_lib::group_to_multiset_ensures;

    let mut out: Vec<RegionId> = Vec::new();
    let mut i: usize = 0;
    while i < ids.len()
        invariant
            i <= ids@.len(),
            ascending(out@),
            out@.to_multiset() == ids@.take(i as int).to_multiset(),
        decreases ids@.len() - i,
    {
        let x = ids[i];
        let mut pos: usize = 0;
        while pos < out.len() && out[pos].0 <= x.0
            invariant
                pos <= out@.len(),
                forall|a: int| 0 <= a < pos ==> #[trigger] out@[a].0 <= x.0,
            decreases out@.len() - pos,
        {
            pos = pos + 1;
        }
        let ghost before = out@;
        out.insert(pos, x);
        assert(ascending(out@)) by {
            assert forall|a: int, b: int| 0 <= a < b < out@.len() implies out@[a].0 <= out@[b].0 by {
                if b < pos {
                    assert(out@[a] == before[a] && out@[b] == before[b]);
                } else if b == pos {
                    assert(out@[a] == before[a]);
                } else if a < pos {
                    assert(out@[a] == before[a] && out@[b] == before[b - 1]);
                    assert(before[pos as int].0 > x.0);
                } else if a == pos {
                    assert(out@[b] == before[b - 1]);
                    assert(before[pos as int].0 > x.0);
                } else {
                    assert(out@[a] == before[a - 1] && out@[b] == before[b - 1]);
                }
            }
        }
        assert(out@ == before.insert(pos as int, x));
        proof {
            vstd::seq_lib::to_multiset_insert(before, pos as int, x);
        }
        assert(ids@.take(i + 1) == ids@.take(i as int).push(x));
        proof {
            vstd::seq_lib::to_multiset_build(ids@.take(i as int), x);
        }
        i = i + 1;
    }
    assert(ids@.take(ids@.len() as int) == ids@);
    out
}

/// The deterministic policy engine.
pub struct PolicyEngine {
    ruleset: Ruleset,
    lexicon: Vec<String>,
}

impl Sealed for PolicyEngine {}

/// The policy engine is the one authority that mints clearances, and
/// [`PolicyEngine::clearance`] mints one only for an allowed region.
impl ClearanceAuthority for PolicyEngine {}

impl PolicyEngine {
    /// The ruleset in force.
    pub closed spec fn rules(&self) -> Ruleset {
        self.ruleset
    }

    /// The lexicon terms as matched: the ruleset's terms, lowercased.
    pub closed spec fn terms(&self) -> Seq<Seq<char>> {
        Seq::new(self.lexicon@.len(), |i: int| self.lexicon@[i]@)
    }

    /// Build an engine from a ruleset, refusing an incoherent one.
    pub fn new(ruleset: Ruleset) -> (r: Result<Self, RulesetError>)
        ensures
            r is Ok <==> coherent(ruleset),
            r matches Err(e) ==> reported(ruleset, e),
            r matches Ok(e) ==> e.rules() == ruleset && e.terms().len() == ruleset.tool_lexicon@.len()
                && forall|i: int|
                0 <= i < e.terms().len() ==> #[trigger] e.terms()[i] == lowercase_of(
                    ruleset.tool_lexicon@[i]@,
                ),
    {
        ruleset.validate()?;
        let lexicon = ruleset.normalised_lexicon();
        Ok(PolicyEngine { ruleset, lexicon })
    }

    /// The ruleset in force.
    pub fn ruleset(&self) -> (r: &Ruleset)
        ensures
            *r == self.rules(),
    {
        &self.ruleset
    }

    /// The index of the first lexicon term present in the lowercased text.
    fn lexicon_hit(&self, text: Option<&str>) -> (r: Option<usize>)
        ensures
            match r {
                Some(i) => lexicon_hit(self.terms(), text) == Some(i as int),
                None => lexicon_hit(self.terms(), text) is None,
            },
    {
        let t = match text {
            None => {
                return None;
            },
            Some(t) => t,
        };
        assert(text == Some(t));
        let lowered = to_lowercase(t);
        let hay = chars_of(lowered.as_str());
        let ghost terms = self.terms();
        let mut i: usize = 0;
        while i < self.lexicon.len()
            invariant
                terms == self.terms(),
                terms.len() == self.lexicon@.len(),
                hay@ == lowercase_of(t@),
                text == Some(t),
                i <= terms.len(),
                hit_from(terms, hay@, 0) == hit_from(terms, hay@, i as int),
            decreases terms.len() - i,
        {
            let term = chars_of(self.lexicon[i].as_str());
            assert(terms[i as int] == term@);
            if contains_chars(&hay, &term) {
                assert(hit_from(terms, hay@, i as int) == i);
                assert(lexicon_hit(terms, text) == Some(i as int));
                return Some(i);
            }
            i = i + 1;
        }
        None
    }

    /// The rule cascade, before the redactability degrade.
    fn classify_region(&self, input: &RegionInput<'_>) -> (r: (RegionAction, RuleId, String))
        ensures
            (r.0, r.1) == cascade(self.rules(), self.terms(), *input),
            r.2@ == cascade_reason(self.rules(), self.terms(), *input),
    {
        // R1: instruction-channel content is never inspected.
        if input.channel == ChannelLabel::Instruction {
            return (
                RegionAction::Allow,
                RuleId::R1InstructionChannel,
                String::from_str("instruction channel; not inspected"),
            );
        }
        // R2: nothing was extracted, so nothing can be reasoned about.
        if let ExtractionOutcome::Failed { reason } = input.extraction {
            let mut s = String::from_str("extraction failed (");
            s.append(reason.as_str());
            s.append("); image dropped");
            return (RegionAction::Block, RuleId::R2ExtractionFailed, s);
        }
        // R3: degraded extraction lowers the flag threshold for R4 to R6.
        let degraded = matches!(input.extraction, ExtractionOutcome::Degraded { .. });
        let bar = if degraded {
            &self.ruleset.tau_flag_degraded
        } else {
            &self.ruleset.tau_flag
        };
        let score = match &input.score {
            None => {
                return (
                    RegionAction::Allow,
                    RuleId::R7Default,
                    String::from_str("no text extracted from this region"),
                );
            },
            Some(score) => score,
        };
        let mut s = String::from_str("score ");
        s.append(score.shown.as_str());
        // R4: confident enough to act without further evidence.
        if score.rank >= self.ruleset.tau_block.rank {
            s.append(" at or above tau_block ");
            s.append(self.ruleset.tau_block.shown.as_str());
            return (RegionAction::Redact, RuleId::R4HighConfidence, s);
        }
        if score.rank >= bar.rank {
            s.append(" at or above tau_flag ");
            s.append(bar.shown.as_str());
            // R5: a flag-level score plus a tool, system or exfiltration term.
            if let Some(i) = self.lexicon_hit(input.text) {
                s.append(" and matched lexicon term ");
                let quoted = debug_text(self.lexicon[i].as_str());
                s.append(quoted.as_str());
                return (RegionAction::Redact, RuleId::R5ImperativeToolRef, s);
            }
            // R6, credited to R3 when only the escalation made it flag.
            let rule_id = if degraded && score.rank < self.ruleset.tau_flag.rank {
                RuleId::R3ExtractionDegraded
            } else {
                RuleId::R6LowConfidence
            };
            return (RegionAction::Flag, rule_id, s);
        }
        // R7: nothing fired.
        s.append(" below tau_flag ");
        s.append(bar.shown.as_str());
        (RegionAction::Allow, RuleId::R7Default, s)
    }

    /// Judge one region: the cascade, then the degrade of a redaction that
    /// cannot be carried out into a block, which keeps the deciding rule.
    pub fn decide_region(&self, input: &RegionInput<'_>) -> (v: RegionVerdict)
        ensures
            judged(self.rules(), self.terms(), *input, v),
    {
        let (action, rule_id, mut reason) = self.classify_region(input);
        let action = match (&action, &input.redactable) {
            (RegionAction::Redact, Redactable::NoBBox) => {
                reason.append("; redaction impossible: region has no bounding box");
                RegionAction::Block
            },
            (RegionAction::Redact, Redactable::Yes { fraction }) => {
                if fraction.rank > self.ruleset.max_redact_frac.rank {
                    reason.append("; redaction impossible: region covers ");
                    reason.append(fraction.shown.as_str());
                    reason.append("% of the image, over the ");
                    reason.append(self.ruleset.max_redact_frac.shown.as_str());
                    reason.append("% limit");
                    RegionAction::Block
                } else {
                    action
                }
            },
            _ => action,
        };
        RegionVerdict { region: input.region, action, rule_id, reason }
    }
    /// Judge a whole request by aggregating its regions: every region keeps
    /// its own verdict, and the most severe verdict decides the request.
    pub fn decide(&self, decision_id: DecisionId, regions: &[RegionInput<'_>]) -> (v: RequestVerdict)
        ensures
            v.decision_id == decision_id,
            v.regions@.len() == regions@.len(),
            forall|i: int|
                0 <= i < regions@.len() ==> judged(
                    self.rules(),
                    self.terms(),
                    #[trigger] regions@[i],
                    v.regions@[i],
                ),
            outcome_of(v.regions@, v.outcome),
            v.ruleset.0@ == self.rules().version.0@,
    {
        let mut verdicts: Vec<RegionVerdict> = Vec::new();
        let mut i: usize = 0;
        while i < regions.len()
            invariant
                i <= regions@.len(),
                verdicts@.len() == i,
                forall|k: int|
                    0 <= k < i ==> judged(
                        self.rules(),
                        self.terms(),
                        #[trigger] regions@[k],
                        verdicts@[k],
                    ),
            decreases regions@.len() - i,
        {
            verdicts.push(self.decide_region(&regions[i]));
            i = i + 1;
        }
        let outcome = Self::aggregate(&verdicts);
        RequestVerdict {
            decision_id,
            outcome,
            regions: verdicts,
            ruleset: RulesetVersion(self.ruleset.version.0.clone()),
        }
    }

    /// The request outcome for a list of verdicts.
    fn aggregate(verdicts: &Vec<RegionVerdict>) -> (o: RequestOutcome)
        ensures
            outcome_of(verdicts@, o),
    {
        let n = verdicts.len();
        if n == 0 {
            return RequestOutcome::Allow;
        }
        let w = worst_verdict(verdicts);
        match verdicts[w].action {
            RegionAction::Allow | RegionAction::Flag => RequestOutcome::Allow,
            RegionAction::Redact => {
                let mut redactions: Vec<RegionId> = Vec::new();
                let mut i: usize = 0;
                while i < n
                    invariant
                        n == verdicts@.len(),
                        i <= n,
                        redactions@ == redacted_regions(verdicts@.take(i as int)),
                    decreases n - i,
                {
                    assert(verdicts@.take(i + 1).drop_last() == verdicts@.take(i as int));
                    if verdicts[i].action == RegionAction::Redact {
                        redactions.push(verdicts[i].region);
                    }
                    i = i + 1;
                }
                assert(verdicts@.take(n as int) == verdicts@);
                RequestOutcome::AllowRedacted { redactions: sort_ids(redactions) }
            },
            RegionAction::Block => RequestOutcome::Block {
                rule_id: verdicts[w].rule_id.to_string(),
                reason: verdicts[w].reason.clone(),
            },
        }
    }

    /// Issue a clearance for a region the engine allowed, and for no other.
    pub fn clearance(&self, decision_id: DecisionId, verdict: &RegionVerdict) -> (r: Option<
        Declassification,
    >)
        ensures
            r is Some <==> verdict.action == RegionAction::Allow,
            r matches Some(d) ==> d.spec_decision_id() == decision_id && d.spec_region()
                == verdict.region && d.spec_ruleset() == self.rules().version.0@,
    {
        if verdict.action != RegionAction::Allow {
            return None;
        }
        Some(
            Declassification::mint(
                self,
                decision_id,
                verdict.region,
                RulesetVersion(self.ruleset.version.0.clone()),
            ),
        )
    }
}

/// The index of the most severe verdict, the last of several equally severe.
pub(crate) fn worst_verdict(verdicts: &Vec<RegionVerdict>) -> (w: usize)
    requires
        verdicts@.len() > 0,
    ensures
        w == worst_index(verdicts@),
        w < verdicts@.len(),
{
    let mut w: usize = 0;
    let mut i: usize = 1;
    assert(verdicts@.take(1).len() == 1);
    while i < verdicts.len()
        invariant
            1 <= i <= verdicts@.len(),
            w < i,
            w == worst_index(verdicts@.take(i as int)),
        decreases verdicts@.len() - i,
    {
        let ghost t = verdicts@.take(i + 1);
        assert(t.drop_last() == verdicts@.take(i as int));
        assert(t[w as int] == verdicts@[w as int]);
        if verdicts[i].action.rank() >= verdicts[w].action.rank() {
            w = i;
        }
        i = i + 1;
    }
    assert(verdicts@.take(verdicts@.len() as int) == verdicts@);
    w
}

} // verus!
verus! {

/// Law (R1): instruction-channel content is allowed uninspected, whatever its
/// score, text, extraction or box.
pub proof fn law_instruction_channel_is_never_inspected(
    rs: Ruleset,
    terms: Seq<Seq<char>>,
    input: RegionInput,
)
    requires
        input.channel == ChannelLabel::Instruction,
    ensures
        final_action(rs, terms, input) == RegionAction::Allow,
        cascade(rs, terms, input).1 == RuleId::R1InstructionChannel,
{
}

/// Law: the engine is deterministic: two judgements of the same input under
/// the same ruleset agree on the region, the action, the rule and the reason.
pub proof fn law_judgement_is_deterministic(
    rs: Ruleset,
    terms: Seq<Seq<char>>,
    input: RegionInput,
    first: RegionVerdict,
    second: RegionVerdict,
)
    requires
        judged(rs, terms, input, first),
        judged(rs, terms, input, second),
    ensures
        first.region == second.region,
        first.action == second.action,
        first.rule_id == second.rule_id,
        first.reason@ == second.reason@,
{
}

/// Law: a region is only ever redacted where its pixels can be destroyed; a
/// redaction that cannot be carried out is a block that keeps the rule that
/// called for the redaction.
pub proof fn law_redaction_needs_a_redactable_box(
    rs: Ruleset,
    terms: Seq<Seq<char>>,
    input: RegionInput,
)
    ensures
        final_action(rs, terms, input) == RegionAction::Redact ==> !unredactable(
            rs,
            input.redactable,
        ),
        cascade(rs, terms, input).0 == RegionAction::Redact && unredactable(rs, input.redactable)
            ==> final_action(rs, terms, input) == RegionAction::Block && (cascade(rs, terms, input).1
            == RuleId::R4HighConfidence || cascade(rs, terms, input).1
            == RuleId::R5ImperativeToolRef),
{
}

/// Law (R3): under a coherent ruleset, a degraded extraction never makes the
/// engine more lenient with a region than a complete one would.
pub proof fn law_degraded_extraction_only_escalates(
    rs: Ruleset,
    terms: Seq<Seq<char>>,
    degraded: RegionInput,
    complete: RegionInput,
)
    requires
        coherent(rs),
        *degraded.extraction is Degraded,
        *complete.extraction is Complete,
        degraded.channel == complete.channel,
        degraded.score == complete.score,
        degraded.text == complete.text,
        degraded.redactable == complete.redactable,
    ensures
        cascade(rs, terms, degraded).0.severity() >= cascade(rs, terms, complete).0.severity(),
        final_action(rs, terms, degraded).severity() >= final_action(rs, terms, complete).severity(),
{
}

/// Law (R3 credit): a region is credited to `R3` only when the escalation is
/// what flagged it: the same region under a complete extraction is allowed by
/// `R7`.
pub proof fn law_r3_only_when_escalation_mattered(
    rs: Ruleset,
    terms: Seq<Seq<char>>,
    degraded: RegionInput,
    complete: RegionInput,
)
    requires
        *complete.extraction is Complete,
        degraded.channel == complete.channel,
        degraded.score == complete.score,
        degraded.text == complete.text,
        cascade(rs, terms, degraded).1 == RuleId::R3ExtractionDegraded,
    ensures
        cascade(rs, terms, degraded).0 == RegionAction::Flag,
        cascade(rs, terms, complete) == (RegionAction::Allow, RuleId::R7Default),
{
}

/// Law: a request with a blocking region is blocked, and a request is
/// forwarded unchanged only when no region is redacted or blocked.
pub proof fn law_request_outcome_is_the_worst_region(vs: Seq<RegionVerdict>, o: RequestOutcome)
    requires
        outcome_of(vs, o),
    ensures
        (exists|j: int| 0 <= j < vs.len() && #[trigger] vs[j].action == RegionAction::Block)
            ==> o is Block,
        o is Allow <==> (forall|j: int|
            0 <= j < vs.len() ==> #[trigger] vs[j].action.severity() <= RegionAction::Flag.severity()),
{
    if vs.len() > 0 {
        law_worst_is_most_severe(vs);
        let w = worst_index(vs);
        if exists|j: int| 0 <= j < vs.len() && #[trigger] vs[j].action == RegionAction::Block {
            let j = choose|j: int| 0 <= j < vs.len() && #[trigger] vs[j].action == RegionAction::Block;
            assert(vs[j].action.severity() <= vs[w].action.severity());
        }
        if !(forall|j: int|
            0 <= j < vs.len() ==> #[trigger] vs[j].action.severity() <= RegionAction::Flag.severity()) {
            let j = choose|j: int|
                0 <= j < vs.len() && !(#[trigger] vs[j].action.severity()
                    <= RegionAction::Flag.severity());
            assert(vs[j].action.severity() <= vs[w].action.severity());
        }
    }
}

/// Law: the redactions of a forwarded-redacted request are exactly the
/// regions whose verdict is `Redact`, in ascending id order.
pub proof fn law_redactions_are_the_redacted_regions(vs: Seq<RegionVerdict>, o: RequestOutcome)
    requires
        outcome_of(vs, o),
        o is AllowRedacted,
    ensures
        ascending(o->redactions@),
        o->redactions@.to_multiset() == redacted_regions(vs).to_multiset(),
{
}

/// The first lexicon term present in a text is found: a search from `i`
/// that passes no earlier present term stops at or before term `j`.
proof fn lemma_hit_from_finds(terms: Seq<Seq<char>>, text: Seq<char>, i: int, j: int)
    requires
        0 <= i <= j < terms.len(),
        contains(text, terms[j]),
    ensures
        i <= hit_from(terms, text, i) <= j,
    decreases j - i,
{
    if i < j && !contains(text, terms[i]) {
        lemma_hit_from_finds(terms, text, i + 1, j);
    }
}

/// Law (R5): a data-channel region whose extraction did not fail, whose score
/// reaches the flag bar in force (`tau_flag_degraded` for a degraded
/// extraction, `tau_flag` otherwise) but stays below `tau_block`, and whose
/// lowercased text holds a lexicon term as a contiguous run, is decided by
/// `R5`: redacted, or blocked where its pixels cannot be destroyed.
pub proof fn law_lexicon_hit_over_the_bar_is_redacted<'a>(
    rs: Ruleset,
    terms: Seq<Seq<char>>,
    input: RegionInput<'a>,
    s: Reading,
    t: &'a str,
    v: RegionVerdict,
)
    requires
        input.channel == ChannelLabel::Data,
        !(*input.extraction is Failed),
        input.score == Some(s),
        input.text == Some(t),
        s.rank < rs.tau_block.rank,
        *input.extraction is Degraded ==> s.rank >= rs.tau_flag_degraded.rank,
        !(*input.extraction is Degraded) ==> s.rank >= rs.tau_flag.rank,
        exists|j: int, k: int|
            0 <= j < terms.len() && 0 <= k && k + terms[j].len() <= lowercase_of(t@).len()
                && #[trigger] lowercase_of(t@).subrange(k, k + terms[j].len()) == terms[j],
        judged(rs, terms, input, v),
    ensures
        cascade(rs, terms, input) == (RegionAction::Redact, RuleId::R5ImperativeToolRef),
        v.rule_id == RuleId::R5ImperativeToolRef,
        v.action == (match input.redactable {
            Redactable::NoBBox => RegionAction::Block,
            Redactable::Yes { fraction } => if fraction.rank > rs.max_redact_frac.rank {
                RegionAction::Block
            } else {
                RegionAction::Redact
            },
        }),
{
    let low = lowercase_of(t@);
    let (j, k) = choose|j: int, k: int|
        0 <= j < terms.len() && 0 <= k && k + terms[j].len() <= low.len()
            && #[trigger] low.subrange(k, k + terms[j].len()) == terms[j];
    assert(contains(low, terms[j]));
    lemma_hit_from_finds(terms, low, 0, j);
    assert(lexicon_hit(terms, input.text) is Some);
}

/// Law: when a request is forwarded with redactions, each region id is
/// listed exactly as many times as there are verdicts that redact it,
/// whatever rule decided them; so every redacted region is blacked out and
/// nothing else is.
pub proof fn law_every_redacting_verdict_is_listed(vs: Seq<RegionVerdict>, o: RequestOutcome)
    requires
        outcome_of(vs, o),
        o is AllowRedacted,
    ensures
        forall|r: RegionId|
            #[trigger] o->redactions@.to_multiset().count(r) == vs.filter(
                |v: RegionVerdict| v.action == RegionAction::Redact && v.region == r,
            ).len(),
        forall|i: int|
            0 <= i < vs.len() && vs[i].action == RegionAction::Redact ==> o->redactions@.contains(
                #[trigger] vs[i].region,
            ),
{
    broadcast use vstd::seq_lib::group_to_multiset_ensures;

    assert forall|r: RegionId|
        #[trigger] o->redactions@.to_multiset().count(r) == vs.filter(
            |v: RegionVerdict| v.action == RegionAction::Redact && v.region == r,
        ).len() by {
        lemma_redacted_count(vs, r);
    }
    assert forall|i: int|
        0 <= i < vs.len() && vs[i].action == RegionAction::Redact implies o->redactions@.contains(
            #[trigger] vs[i].region,
        ) by {
        let r = vs[i].region;
        let p = |v: RegionVerdict| v.action == RegionAction::Redact && v.region == r;
        lemma_redacted_count(vs, r);
        vs.lemma_filter_contains(p, i);
        assert(vs.filter(p).len() > 0);
        assert(o->redactions@.to_multiset().count(r) > 0);
    }
}

/// The redacted regions list a region once per verdict that redacts it.
proof fn lemma_redacted_count(vs: Seq<RegionVerdict>, r: RegionId)
    ensures
        redacted_regions(vs).to_multiset().count(r) == vs.filter(
            |v: RegionVerdict| v.action == RegionAction::Redact && v.region == r,
        ).len(),
    decreases vs.len(),
{
    broadcast use vstd::seq_lib::group_to_multiset_ensures;

    reveal(Seq::filter);
    let p = |v: RegionVerdict| v.action == RegionAction::Redact && v.region == r;
    if vs.len() > 0 {
        lemma_redacted_count(vs.drop_last(), r);
        assert(vs.filter(p) == (if p(vs.last()) {
            vs.drop_last().filter(p).push(vs.last())
        } else {
            vs.drop_last().filter(p)
        }));
    } else {
        assert(redacted_regions(vs).to_multiset() =~= vstd::multiset::Multiset::empty());
    }
}

/// A search from `i` over terms none of which occurs in the text finds none.
proof fn lemma_hit_from_none(terms: Seq<Seq<char>>, text: Seq<char>, i: int)
    requires
        0 <= i <= terms.len(),
        forall|j: int| i <= j < terms.len() ==> !contains(text, #[trigger] terms[j]),
    ensures
        hit_from(terms, text, i) == terms.len(),
    decreases terms.len() - i,
{
    if i < terms.len() {
        lemma_hit_from_none(terms, text, i + 1);
    }
}

/// Law: the rule cascade for a data-channel region, case by case. A failed
/// extraction blocks (`R2`); no score allows (`R7`); a score at or above
/// `tau_block` redacts (`R4`); a score below the flag bar in force
/// (`tau_flag_degraded` for a degraded extraction, `tau_flag` otherwise)
/// allows (`R7`); a score between the bar and `tau_block` whose lowercased
/// text holds no lexicon term flags, credited to `R3` exactly when the
/// extraction was degraded and the score is below `tau_flag`, and to `R6`
/// otherwise.
pub proof fn law_cascade_on_the_data_channel<'a>(
    rs: Ruleset,
    terms: Seq<Seq<char>>,
    input: RegionInput<'a>,
    s: Reading,
)
    requires
        input.channel == ChannelLabel::Data,
    ensures
        *input.extraction is Failed ==> cascade(rs, terms, input) == (
            RegionAction::Block,
            RuleId::R2ExtractionFailed,
        ),
        !(*input.extraction is Failed) && input.score is None ==> cascade(rs, terms, input) == (
            RegionAction::Allow,
            RuleId::R7Default,
        ),
        !(*input.extraction is Failed) && input.score == Some(s) && s.rank >= rs.tau_block.rank
            ==> cascade(rs, terms, input) == (RegionAction::Redact, RuleId::R4HighConfidence),
        !(*input.extraction is Failed) && input.score == Some(s) && s.rank < rs.tau_block.rank && (
        if *input.extraction is Degraded {
            s.rank < rs.tau_flag_degraded.rank
        } else {
            s.rank < rs.tau_flag.rank
        }) ==> cascade(rs, terms, input) == (RegionAction::Allow, RuleId::R7Default),
        !(*input.extraction is Failed) && input.score == Some(s) && s.rank < rs.tau_block.rank && (
        if *input.extraction is Degraded {
            s.rank >= rs.tau_flag_degraded.rank
        } else {
            s.rank >= rs.tau_flag.rank
        }) && (forall|t: &str, j: int, k: int|
            input.text == Some(t) && 0 <= j < terms.len() && 0 <= k && k + terms[j].len()
                <= lowercase_of(t@).len() ==> #[trigger] lowercase_of(t@).subrange(
                k,
                k + terms[j].len(),
            ) != terms[j]) ==> cascade(rs, terms, input) == (
            RegionAction::Flag,
            if *input.extraction is Degraded && s.rank < rs.tau_flag.rank {
                RuleId::R3ExtractionDegraded
            } else {
                RuleId::R6LowConfidence
            },
        ),
{
    if let Some(t) = input.text {
        let low = lowercase_of(t@);
        if (forall|t2: &str, j: int, k: int|
            input.text == Some(t2) && 0 <= j < terms.len() && 0 <= k && k + terms[j].len()
                <= lowercase_of(t2@).len() ==> #[trigger] lowercase_of(t2@).subrange(
                k,
                k + terms[j].len(),
            ) != terms[j]) {
            assert forall|j: int| 0 <= j < terms.len() implies !contains(low, #[trigger] terms[j]) by {
                if contains(low, terms[j]) {
                    let k = choose|k: int|
                        0 <= k && k + terms[j].len() <= low.len() && #[trigger] low.subrange(
                            k,
                            k + terms[j].len(),
                        ) == terms[j];
                    assert(lowercase_of(t@).subrange(k, k + terms[j].len()) != terms[j]);
                }
            }
            lemma_hit_from_none(terms, low, 0);
        }
    }
}

/// Law: of several equally severe verdicts the last decides: no verdict
/// after the deciding one is as severe as it.
pub proof fn law_the_last_most_severe_verdict_decides(vs: Seq<RegionVerdict>)
    requires
        vs.len() > 0,
    ensures
        forall|j: int|
            worst_index(vs) < j < vs.len() ==> #[trigger] vs[j].action.severity() < vs[worst_index(
                vs,
            )].action.severity(),
    decreases vs.len(),
{
    if vs.len() > 1 {
        let init = vs.drop_last();
        law_the_last_most_severe_verdict_decides(init);
        law_worst_is_most_severe(init);
        assert forall|j: int| worst_index(vs) < j < vs.len() implies #[trigger] vs[j].action.severity()
            < vs[worst_index(vs)].action.severity() by {
            assert(vs[worst_index(init)] == init[worst_index(init)]);
            if j < init.len() {
                assert(vs[j] == init[j]);
            }
        }
    }
}

} // verus!
