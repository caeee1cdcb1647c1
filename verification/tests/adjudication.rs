//! Decisions on nominated pairs, the prompt, and what a run does with its verdicts.

use kremory::canonicalization::adjudicate::{
    adjudicate, adjudicate_chunk, build_adjudication_messages, decide, enter_chunk,
    truncate_for_prompt, Adjudicated, Candidate, ChunkReply, IdentityVerdictItem, WriteDecision,
};
use kremory::canonicalization::adjudicated::{
    actions_of_run, apply_adjudicated_merges, candidates_of_plan, AdjudicatedAction,
};
use kremory::canonicalization::pairs::PlannedMerge;
use kremory::canonicalization::{EntitySlot, L5Adjudicator};
use kremory::ieee::Binary32;

fn b32(v: f32) -> Binary32 {
    Binary32::from_bits(v.to_bits())
}

fn candidate(loser: &str, keeper: &str, cosine: f32) -> Candidate {
    Candidate {
        loser_id: loser.to_owned(),
        keeper_id: keeper.to_owned(),
        cosine: Some(b32(cosine)),
        loser_description: String::new(),
        keeper_description: String::new(),
        lexically_compatible: true,
        temporal_conflict: false,
    }
}

fn verdict(is_same: bool, confidence: f32) -> IdentityVerdictItem {
    IdentityVerdictItem {
        pair_id: 0,
        is_same_entity: is_same,
        confidence: b32(confidence),
        reasoning: "test".to_string(),
    }
}

#[test]
fn absent_verdict_rejects_never_merges() {
    assert_eq!(
        decide(&candidate("pottery class", "pottery", 0.99), None),
        WriteDecision::Reject,
        "an absent verdict on a high-cosine, lexically-compatible pair must fail closed"
    );
}

#[test]
fn hypernym_collapse_is_rejected_when_llm_says_not_same() {
    assert_eq!(
        decide(
            &candidate("pottery class", "pottery", 0.92),
            Some(&verdict(false, 0.9))
        ),
        WriteDecision::Reject
    );
}

#[test]
fn abbreviated_person_name_still_merges_when_llm_says_same() {
    assert_eq!(
        decide(
            &candidate("alice j", "alice johnson", 0.92),
            Some(&verdict(true, 0.9))
        ),
        WriteDecision::Merge
    );
}

#[test]
fn transitive_incompatible_pair_downgrades_via_row_6() {
    let mut pair = candidate("melanie", "loved ones", 0.91);
    pair.lexically_compatible = false;
    assert_eq!(
        decide(&pair, Some(&verdict(true, 0.95))),
        WriteDecision::PotentialAlias,
        "without a shared token the model must not authorize a destructive write alone"
    );
}

#[test]
fn low_confidence_agreement_downgrades_to_potential_alias() {
    assert_eq!(
        decide(
            &candidate("alice j", "alice johnson", 0.92),
            Some(&verdict(true, 0.5))
        ),
        WriteDecision::PotentialAlias
    );
}

#[test]
fn temporal_conflict_vetoes_even_a_confident_yes() {
    let mut pair = candidate("meeting on 27 june 2023", "meeting on 28 june 2023", 0.99);
    pair.temporal_conflict = true;
    assert_eq!(
        decide(&pair, Some(&verdict(true, 0.99))),
        WriteDecision::Reject
    );
}

#[test]
fn truncate_for_prompt_is_char_boundary_safe() {
    let long = "é".repeat(500);
    let out = truncate_for_prompt(&long);
    assert_eq!(out.chars().count(), 401, "400 chars + the ellipsis");
    assert!(out.ends_with('…'));
    assert_eq!(truncate_for_prompt("short"), "short");
}

#[test]
fn prompt_teaches_both_sides_of_the_jaccard_ambiguity() {
    let messages = build_adjudication_messages(&vec![candidate("alice j", "alice johnson", 0.9)]);
    let system = format!("{messages:?}");
    assert!(
        system.contains("pottery class"),
        "hypernym negative example"
    );
    assert!(system.contains("alice j"), "abbreviation positive example");
    assert!(
        system.contains("Pair 0:"),
        "candidate must be enumerated with its pair_id"
    );
}

#[test]
fn prompt_lists_the_pairs_in_order() {
    let mut second = candidate("b", "bee", 0.9);
    second.loser_description = "é".repeat(401);
    let messages = build_adjudication_messages(&vec![candidate("a", "aye", 0.9), second]);
    let user = messages.user;
    let first_at = user.find("Pair 0:").unwrap();
    let second_at = user.find("Pair 1:").unwrap();
    assert!(first_at < second_at);
    assert!(!user.contains("Pair 2:"));
    assert!(user.contains(&format!("{}…", "é".repeat(400))));
    assert!(!user.contains(&"é".repeat(401)));
}

#[test]
fn exactly_400_characters_are_kept() {
    let text = "x".repeat(400);
    assert_eq!(truncate_for_prompt(&text), text);
}

#[test]
fn confidence_at_the_floor_merges() {
    let pair = candidate("alice j", "alice johnson", 0.92);
    assert_eq!(decide(&pair, Some(&verdict(true, 0.7))), WriteDecision::Merge);
    assert_eq!(
        decide(&pair, Some(&verdict(true, 0.699_999))),
        WriteDecision::PotentialAlias
    );
    assert_eq!(
        decide(&pair, Some(&verdict(true, f32::NAN))),
        WriteDecision::PotentialAlias
    );
}

#[test]
fn decision_labels() {
    assert_eq!(WriteDecision::Merge.label(), "merge");
    assert_eq!(WriteDecision::PotentialAlias.label(), "potential_alias");
    assert_eq!(WriteDecision::Reject.label(), "reject");
}

#[test]
fn failed_chunks_leave_every_pair_without_a_verdict() {
    for (reply, expected) in [(ChunkReply::CallFailed, 0), (ChunkReply::Unparseable, 3)] {
        let (verdicts, failures) = adjudicate_chunk(reply, 3);
        assert_eq!(verdicts.len(), 3);
        assert!(verdicts.iter().all(|v| v.is_none()));
        assert_eq!(failures, expected);
    }
}

#[test]
fn chunk_verdicts_go_to_the_pair_they_name() {
    let mut item = verdict(true, 0.9);
    item.pair_id = 1;
    let mut outside = verdict(true, 0.8);
    outside.pair_id = 7;
    let (verdicts, failures) =
        adjudicate_chunk(ChunkReply::Items(vec![Some(item), None, Some(outside)]), 3);
    assert_eq!(verdicts.len(), 3);
    assert!(verdicts[0].is_none());
    assert_eq!(verdicts[1].as_ref().unwrap().confidence, b32(0.9));
    assert!(verdicts[2].is_none());
    assert_eq!(failures, 2);
}

#[test]
fn the_first_verdict_on_a_pair_counts() {
    let (verdicts, failures) = adjudicate_chunk(
        ChunkReply::Items(vec![Some(verdict(false, 0.2)), Some(verdict(true, 0.9))]),
        1,
    );
    assert!(!verdicts[0].as_ref().unwrap().is_same_entity);
    assert_eq!(failures, 0);
}

#[test]
fn chunks_are_entered_behind_their_start() {
    let mut all: Vec<Option<IdentityVerdictItem>> = vec![None, None, None, None];
    enter_chunk(&mut all, 2, vec![Some(verdict(true, 0.9)), None]);
    assert!(all[0].is_none() && all[1].is_none() && all[3].is_none());
    assert!(all[2].as_ref().unwrap().is_same_entity);
}

#[test]
fn adjudicated_run_merges_audits_and_fails_closed() {
    let slots: Vec<EntitySlot> = ["alice j", "alice johnson", "pottery class", "pottery"]
        .iter()
        .map(|id| EntitySlot {
            id: id.to_string(),
            description: String::new(),
            description_len: 0,
        })
        .collect();
    let merges = vec![
        PlannedMerge { loser: 0, keeper: 1, cosine: Some(b32(0.92)) },
        PlannedMerge { loser: 2, keeper: 3, cosine: None },
        PlannedMerge { loser: 2, keeper: 1, cosine: None },
    ];
    let candidates = candidates_of_plan(
        &slots,
        &merges,
        &vec![true, true, false],
        &vec![false, false, false],
    );
    assert_eq!(candidates[0].loser_id, "alice j");
    assert_eq!(candidates[1].keeper_id, "pottery");
    let verdicts = vec![Some(verdict(true, 0.9)), Some(verdict(false, 0.9)), None];
    let adjudicated: Vec<Adjudicated> = adjudicate(&candidates, verdicts);
    assert_eq!(adjudicated[0].decision, WriteDecision::Merge);
    assert_eq!(adjudicated[1].decision, WriteDecision::Reject);
    assert_eq!(adjudicated[2].decision, WriteDecision::Reject);
    let actions = actions_of_run(&candidates, adjudicated, &"g".to_owned(), &"run".to_owned());
    match &actions[0] {
        AdjudicatedAction::Merge(row) => {
            assert_eq!(row.site, "l5_canonicalize");
            assert_eq!(row.group_id, "g");
            assert_eq!(row.run_id, "run");
            assert_eq!(row.decision, "merge");
            assert!(row.structural_signal);
        }
        _ => panic!("the first pair merges"),
    }
    match &actions[1] {
        AdjudicatedAction::Audit(row) => assert_eq!(row.decision, "reject"),
        _ => panic!("the second pair is only audited"),
    }
    assert!(matches!(actions[2], AdjudicatedAction::Skip));
}

#[test]
fn runs_are_named_by_fresh_uuids() {
    let candidates = vec![candidate("a", "b", 0.9)];
    let decided = |_: u8| adjudicate(&candidates, vec![Some(verdict(true, 0.9))]);
    let (first, actions) = apply_adjudicated_merges(&candidates, decided(0), &"g".to_owned());
    let (second, _) = apply_adjudicated_merges(&candidates, decided(1), &"g".to_owned());
    assert_eq!(first.len(), 36);
    let digits: Vec<char> = first.chars().collect();
    for (i, c) in digits.iter().enumerate() {
        if [8, 13, 18, 23].contains(&i) {
            assert_eq!(*c, '-');
        } else {
            assert!(matches!(c, '0'..='9' | 'a'..='f'));
        }
    }
    assert_eq!(digits[14], '4');
    assert!(matches!(digits[19], '8' | '9' | 'a' | 'b'));
    assert_ne!(first, second);
    match &actions[0] {
        AdjudicatedAction::Merge(row) => assert_eq!(row.run_id, first),
        _ => panic!("the pair merges"),
    }
}

#[test]
fn adjudicator_carries_its_model() {
    let provider: u8 = 7;
    let adjudicator = L5Adjudicator { llm: &provider, model_id: "llama3" };
    assert_eq!(*adjudicator.llm, 7);
    assert_eq!(adjudicator.model_id, "llama3");
}
