//! Nomination of duplicate entities and the plan of a run.

use kremory::canonicalization::pairs::{
    canonicalization_report, canonicalize_surface_forms, choose_keepers, entity_slot,
    find_merge_pairs, is_banned, keep_compatible, pair_count, plan_merges, resolve_keeper,
    sorted_pair, upper_triangle, MergePair,
};
use kremory::canonicalization::{EntitySlot, L5_CANONICALIZATION_THRESHOLD_BITS};
use kremory::ieee::Binary32;

fn b32(v: f32) -> Binary32 {
    Binary32::from_bits(v.to_bits())
}

fn slot(id: &str, description: &str) -> EntitySlot {
    EntitySlot {
        id: id.to_owned(),
        description: description.to_owned(),
        description_len: description.len(),
    }
}

fn threshold() -> Binary32 {
    Binary32::from_bits(L5_CANONICALIZATION_THRESHOLD_BITS)
}

fn pair(loser: usize, keeper: usize, similarity: f32) -> MergePair {
    MergePair { loser, keeper, similarity: b32(similarity) }
}

#[test]
fn default_threshold_is_four_fifths() {
    assert_eq!(f32::from_bits(L5_CANONICALIZATION_THRESHOLD_BITS), 0.8);
}

#[test]
fn slots_read_the_description_out_of_the_properties() {
    let properties = "{\"name\":\"Alice\",\"description\":\"née Ånderson\"}".to_owned();
    let s = entity_slot("alice".to_owned(), Some(&properties));
    assert_eq!(s.id, "alice");
    assert_eq!(s.description, "née Ånderson");
    assert_eq!(s.description_len, "née Ånderson".len());
    for bad in ["{}", "not json", "{\"description\":7}", "[1]"] {
        let s = entity_slot("x".to_owned(), Some(&bad.to_owned()));
        assert_eq!((s.description.as_str(), s.description_len), ("", 0), "on {bad}");
    }
    assert_eq!(entity_slot("x".to_owned(), None).description, "");
}

#[test]
fn triangle_lists_every_pair_row_by_row() {
    assert_eq!(upper_triangle(4), vec![(0, 1), (0, 2), (0, 3), (1, 2), (1, 3), (2, 3)]);
    assert!(upper_triangle(1).is_empty());
    assert!(upper_triangle(0).is_empty());
    for n in 0..20 {
        assert_eq!(pair_count(n), upper_triangle(n).len());
    }
}

#[test]
fn threshold_is_strict_and_similarity_is_clamped() {
    let slots = vec![slot("a", "long"), slot("b", "s")];
    let found = |s: Option<f32>| find_merge_pairs(&slots, &vec![s.map(b32)], threshold());
    assert!(found(Some(0.8)).is_empty());
    assert!(found(Some(0.0)).is_empty());
    assert!(found(Some(f32::NAN)).is_empty());
    assert!(found(None).is_empty());
    assert_eq!(found(Some(0.81)), vec![pair(1, 0, 0.81)]);
    assert_eq!(found(Some(1.2)), vec![pair(1, 0, 1.0)]);
}

#[test]
fn the_longer_description_is_kept_and_the_first_on_a_tie() {
    let slots = vec![slot("a", "s"), slot("b", "long"), slot("c", "tall")];
    let pairs = find_merge_pairs(&slots, &vec![Some(b32(0.9)); 3], threshold());
    assert_eq!(pairs, vec![pair(0, 1, 0.9), pair(0, 2, 0.9), pair(2, 1, 0.9)]);
}

#[test]
fn incompatible_pairs_are_dropped() {
    let pairs = vec![pair(0, 1, 0.9), pair(2, 1, 0.95)];
    assert_eq!(keep_compatible(&pairs, &vec![false, true]), vec![pair(2, 1, 0.95)]);
}

#[test]
fn chains_end_at_the_survivor() {
    // 0 loses to 1, which loses to 2.
    let slots = vec![slot("a", "s"), slot("b", "ss"), slot("c", "sss")];
    let pairs = vec![pair(0, 1, 0.9), pair(1, 2, 0.9)];
    let keepers = choose_keepers(&slots, &pairs);
    assert_eq!(keepers, vec![Some(1), Some(2), None]);
    assert_eq!(resolve_keeper(&slots, &keepers, 0), 2);
    let merges = plan_merges(&slots, &pairs, &vec![]);
    assert_eq!(merges.len(), 2);
    assert_eq!((merges[0].loser, merges[0].keeper, merges[0].cosine), (0, 2, None));
    assert_eq!((merges[1].loser, merges[1].keeper, merges[1].cosine), (1, 2, Some(b32(0.9))));
}

#[test]
fn the_longest_of_several_keepers_is_chosen() {
    let slots = vec![slot("a", "s"), slot("b", "ss"), slot("c", "sss")];
    let pairs = vec![pair(0, 2, 0.85), pair(0, 1, 0.99)];
    assert_eq!(choose_keepers(&slots, &pairs)[0], Some(2));
}

#[test]
fn triplet_coalesces_to_one_keeper_and_a_second_run_merges_nothing() {
    let slots = vec![slot("a", "s"), slot("b", "ss"), slot("c", "sss")];
    let pairs = find_merge_pairs(&slots, &vec![Some(b32(0.95)); 3], threshold());
    let (examined, merges) =
        canonicalize_surface_forms(&slots, &pairs, &vec![true; pairs.len()], &vec![]);
    assert_eq!(examined, 3);
    assert_eq!(merges.len(), 2);
    assert!(merges.iter().all(|m| m.keeper == 2));
    let survivors = vec![slot("c", "sss")];
    let pairs = find_merge_pairs(&survivors, &vec![], threshold());
    let (examined, merges) = canonicalize_surface_forms(&survivors, &pairs, &vec![], &vec![]);
    assert_eq!((examined, merges.len()), (0, 0));
}

#[test]
fn pairs_split_by_hand_stay_apart() {
    let slots = vec![slot("zoe", "s"), slot("anna", "ss")];
    let pairs = vec![pair(0, 1, 0.99)];
    let nogoods = vec![("anna".to_owned(), "zoe".to_owned())];
    assert!(is_banned(&nogoods, &"zoe".to_owned(), &"anna".to_owned()));
    assert!(is_banned(&nogoods, &"anna".to_owned(), &"zoe".to_owned()));
    assert!(!is_banned(&nogoods, &"anna".to_owned(), &"zo".to_owned()));
    assert!(plan_merges(&slots, &pairs, &nogoods).is_empty());
    assert_eq!(plan_merges(&slots, &pairs, &vec![]).len(), 1);
}

#[test]
fn sorted_pairs_do_not_depend_on_the_order() {
    let (a, b) = ("melanie".to_owned(), "caroline".to_owned());
    assert_eq!(sorted_pair(&a, &b), (b.clone(), a.clone()));
    assert_eq!(sorted_pair(&b, &a), (b.clone(), a.clone()));
}

#[test]
fn report_counts_the_pairs() {
    let r = canonicalization_report("g", 5, 2, threshold());
    assert_eq!(r.group_id, "g");
    assert_eq!(r.pairs_examined, 10);
    assert_eq!(r.merges_applied, 2);
    assert_eq!(r.threshold_used, threshold());
    assert_eq!(canonicalization_report("g", 0, 0, threshold()).pairs_examined, 0);
}
