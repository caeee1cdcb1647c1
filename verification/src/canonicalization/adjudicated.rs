//! What is written for adjudicated candidates.

use vstd::prelude::*;
use crate::canonicalization::adjudicate::{
    Adjudicated, Candidate, IdentityVerdictItem, WriteDecision,
};
use crate::canonicalization::pairs::{EntitySlot, PlannedMerge};
use crate::ieee::Binary32;

verus! {

/// Name of the site on metrics and audit rows.
pub const SITE_LABEL: &'static str = "l5_canonicalize";

/// The audit row of an adjudicated pair. `candidate_a` is the keeper and `candidate_b`
/// the loser, the direction that a merge takes.
#[derive(Debug)]
pub struct IdentityVerdictAuditRow {
    pub site: &'static str,
    pub group_id: String,
    pub candidate_a: String,
    pub candidate_b: String,
    pub cosine: Option<Binary32>,
    /// Whether the names corroborate the pair.
    pub structural_signal: bool,
    pub verdict: Option<IdentityVerdictItem>,
    pub decision: &'static str,
    pub run_id: String,
}

/// What is to be done for a candidate.
#[derive(Debug)]
pub enum AdjudicatedAction {
    /// Merge, with this audit row inside the same transaction.
    Merge(IdentityVerdictAuditRow),
    /// Write the audit row only.
    Audit(IdentityVerdictAuditRow),
    /// Write nothing.
    Skip,
}

/// The row documents the adjudication of the candidate.
pub open spec fn documents(
    row: IdentityVerdictAuditRow,
    candidate: Candidate,
    adjudicated: Adjudicated,
    group_id: Seq<char>,
    run_id: Seq<char>,
) -> bool {
    &&& row.site == SITE_LABEL
    &&& row.group_id@ == group_id
    &&& row.candidate_a == candidate.keeper_id
    &&& row.candidate_b == candidate.loser_id
    &&& row.cosine == candidate.cosine
    &&& row.structural_signal == candidate.lexically_compatible
    &&& row.verdict == adjudicated.verdict
    &&& row.decision == adjudicated.decision.text()
    &&& row.run_id@ == run_id
}

/// A merge is made, with its audit row, only for the decision to merge. Any other
/// decision leaves the graph as it is and is documented when a verdict led to it.
pub open spec fn is_action_for(
    action: AdjudicatedAction,
    candidate: Candidate,
    adjudicated: Adjudicated,
    group_id: Seq<char>,
    run_id: Seq<char>,
) -> bool {
    match action {
        AdjudicatedAction::Merge(row) => adjudicated.decision == WriteDecision::Merge && documents(
            row,
            candidate,
            adjudicated,
            group_id,
            run_id,
        ),
        AdjudicatedAction::Audit(row) => adjudicated.decision != WriteDecision::Merge
            && adjudicated.verdict is Some && documents(
            row,
            candidate,
            adjudicated,
            group_id,
            run_id,
        ),
        AdjudicatedAction::Skip => adjudicated.decision != WriteDecision::Merge
            && adjudicated.verdict is None,
    }
}

/// The candidate of planned merge `m`, without the signals of its names.
pub open spec fn is_candidate_of(c: Candidate, slots: Seq<EntitySlot>, m: PlannedMerge) -> bool {
    &&& c.loser_id == slots[m.loser as int].id
    &&& c.keeper_id == slots[m.keeper as int].id
    &&& c.cosine == m.cosine
    &&& c.loser_description == slots[m.loser as int].description
    &&& c.keeper_description == slots[m.keeper as int].description
}

/// The candidates of a plan. `compatible[i]` and `conflicting[i]` are derived from the
/// names of merge `i` itself.
pub fn candidates_of_plan(
    slots: &Vec<EntitySlot>,
    merges: &Vec<PlannedMerge>,
    compatible: &Vec<bool>,
    conflicting: &Vec<bool>,
) -> (r: Vec<Candidate>)
    requires
        compatible.len() == merges.len(),
        conflicting.len() == merges.len(),
        forall|i: int|
            0 <= i < merges.len() ==> (#[trigger] merges@[i]).loser < slots.len()
                && merges@[i].keeper < slots.len(),
    ensures
        r.len() == merges.len(),
        forall|i: int|
            0 <= i < r.len() ==> is_candidate_of(#[trigger] r@[i], slots@, merges@[i])
                && r@[i].lexically_compatible == compatible@[i] && r@[i].temporal_conflict
                == conflicting@[i],
{
    let mut out: Vec<Candidate> = Vec::new();
    let mut i: usize = 0;
    while i < merges.len()
        invariant
            i <= merges.len(),
            out.len() == i,
            compatible.len() == merges.len(),
            conflicting.len() == merges.len(),
            forall|x: int|
                0 <= x < merges.len() ==> (#[trigger] merges@[x]).loser < slots.len()
                    && merges@[x].keeper < slots.len(),
            forall|x: int|
                0 <= x < i ==> is_candidate_of(#[trigger] out@[x], slots@, merges@[x])
                    && out@[x].lexically_compatible == compatible@[x] && out@[x].temporal_conflict
                    == conflicting@[x],
        decreases merges.len() - i,
    {
        let m = merges[i];
        assert(merges@[i as int].loser < slots.len());
        out.push(
            Candidate {
                loser_id: slots[m.loser].id.clone(),
                keeper_id: slots[m.keeper].id.clone(),
                cosine: m.cosine,
                loser_description: slots[m.loser].description.clone(),
                keeper_description: slots[m.keeper].description.clone(),
                lexically_compatible: compatible[i],
                temporal_conflict: conflicting[i],
            },
        );
        i = i + 1;
    }
    out
}

/// What is to be done for every adjudicated candidate of the run `run_id`.
pub fn actions_of_run(
    candidates: &Vec<Candidate>,
    adjudicated: Vec<Adjudicated>,
    group_id: &String,
    run_id: &String,
) -> (r: Vec<AdjudicatedAction>)
    requires
        adjudicated.len() == candidates.len(),
    ensures
        r.len() == candidates.len(),
        forall|i: int|
            0 <= i < r.len() ==> is_action_for(
                #[trigger] r@[i],
                candidates@[i],
                adjudicated@[i],
                group_id@,
                run_id@,
            ),
{
    let ghost all = adjudicated@;
    let mut rest = adjudicated;
    let mut out: Vec<AdjudicatedAction> = Vec::new();
    assert(all.skip(0) =~= all);
    while rest.len() > 0
        invariant
            out.len() + rest.len() == candidates.len(),
            all.len() == candidates.len(),
            rest@ == all.skip(out.len() as int),
            forall|i: int|
                0 <= i < out.len() ==> is_action_for(
                    #[trigger] out@[i],
                    candidates@[i],
                    all[i],
                    group_id@,
                    run_id@,
                ),
        decreases rest.len(),
    {
        let at: usize = out.len();
        let decided = rest.remove(0);
        proof {
            assert(decided == all[at as int]);
            assert(all.skip(at as int).remove(0) =~= all.skip(at + 1));
        }
        let candidate = &candidates[at];
        let has_verdict = decided.verdict.is_some();
        let row = IdentityVerdictAuditRow {
            site: SITE_LABEL,
            group_id: group_id.clone(),
            candidate_a: candidate.keeper_id.clone(),
            candidate_b: candidate.loser_id.clone(),
            cosine: candidate.cosine,
            structural_signal: candidate.lexically_compatible,
            verdict: decided.verdict,
            decision: decided.decision.label(),
            run_id: run_id.clone(),
        };
        let action = match decided.decision {
            WriteDecision::Merge => AdjudicatedAction::Merge(row),
            _ => {
                if has_verdict {
                    AdjudicatedAction::Audit(row)
                } else {
                    AdjudicatedAction::Skip
                }
            },
        };
        assert(is_action_for(action, *candidate, all[at as int], group_id@, run_id@));
        out.push(action);
    }
    out
}

/// A hexadecimal digit in lower case.
pub open spec fn is_hex(c: char) -> bool {
    '0' <= c <= '9' || 'a' <= c <= 'f'
}

/// The hyphenated form of a random identifier: groups of eight, four, four, four and
/// twelve digits, with the version and the variant in their places.
pub open spec fn is_random_id(s: Seq<char>) -> bool {
    &&& s.len() == 36
    &&& forall|i: int|
        0 <= i < 36 ==> if i == 8 || i == 13 || i == 18 || i == 23 {
            #[trigger] s[i] == '-'
        } else {
            is_hex(s[i])
        }
    &&& s[14] == '4'
    &&& s[19] == '8' || s[19] == '9' || s[19] == 'a' || s[19] == 'b'
}

/// Draws the identifier of a run with `uuid::Uuid::new_v4` and renders it. The claim is
/// the form of the text; the value is random.
#[verifier::external_body]
fn fresh_run_id() -> (r: String)
    ensures
        is_random_id(r@),
{
    uuid::Uuid::new_v4().to_string()
}

/// Decides what is to be done for every adjudicated candidate, under a fresh run
/// identifier. Returns the identifier beside the actions.
pub fn apply_adjudicated_merges(
    candidates: &Vec<Candidate>,
    adjudicated: Vec<Adjudicated>,
    group_id: &String,
) -> (r: (String, Vec<AdjudicatedAction>))
    requires
        adjudicated.len() == candidates.len(),
    ensures
        is_random_id(r.0@),
        r.1.len() == candidates.len(),
        forall|i: int|
            0 <= i < r.1.len() ==> is_action_for(
                #[trigger] r.1@[i],
                candidates@[i],
                adjudicated@[i],
                group_id@,
                r.0@,
            ),
{
    let run_id = fresh_run_id();
    let actions = actions_of_run(candidates, adjudicated, group_id, &run_id);
    (run_id, actions)
}

/// What is done for a candidate, decision by decision: a merge with its audit row for the
/// decision to merge and for no other, an audit row alone where a verdict led to another
/// decision, and nothing where there was no verdict.
pub proof fn law_actions_follow_decisions(
    action: AdjudicatedAction,
    candidate: Candidate,
    adjudicated: Adjudicated,
    group_id: Seq<char>,
    run_id: Seq<char>,
)
    requires
        is_action_for(action, candidate, adjudicated, group_id, run_id),
    ensures
        action is Merge <==> adjudicated.decision is Merge,
        action is Audit <==> !(adjudicated.decision is Merge) && adjudicated.verdict is Some,
        action is Skip <==> !(adjudicated.decision is Merge) && adjudicated.verdict is None,
        ({
            let row = match action {
                AdjudicatedAction::Merge(row) => Some(row),
                AdjudicatedAction::Audit(row) => Some(row),
                AdjudicatedAction::Skip => None,
            };
            row matches Some(row) ==> {
                &&& row.site@ == "l5_canonicalize"@
                &&& row.group_id@ == group_id
                &&& row.candidate_a@ == candidate.keeper_id@
                &&& row.candidate_b@ == candidate.loser_id@
                &&& row.cosine == candidate.cosine
                &&& row.structural_signal == candidate.lexically_compatible
                &&& row.verdict == adjudicated.verdict
                &&& row.run_id@ == run_id
                &&& row.decision@ == (match adjudicated.decision {
                    WriteDecision::Merge => "merge"@,
                    WriteDecision::PotentialAlias => "potential_alias"@,
                    WriteDecision::Reject => "reject"@,
                })
            }
        }),
{
}

/// A candidate is its planned merge: the names and descriptions are those of the two entities
/// that the plan merges, each on its own side, and the cosine is the plan's.
pub proof fn law_candidate_is_its_merge(c: Candidate, slots: Seq<EntitySlot>, m: PlannedMerge)
    requires
        is_candidate_of(c, slots, m),
    ensures
        c.loser_id@ == slots[m.loser as int].id@,
        c.loser_description@ == slots[m.loser as int].description@,
        c.keeper_id@ == slots[m.keeper as int].id@,
        c.keeper_description@ == slots[m.keeper as int].description@,
        c.cosine == m.cosine,
{
}

}
