//! Ranking of the hits, expansion of the seeds and the floor.

use kremory::context::expansion::{
    floor_survivors, hold_to_unit, seed_degree, ContextEntity, Expansion,
};
use kremory::context::ranking::{fuse_hits, rank_by_score, score_desc_id_asc, seed_ids};
use kremory::ieee::Binary32;

fn b32(v: f32) -> Binary32 {
    Binary32::from_bits(v.to_bits())
}

fn f32_of(v: Binary32) -> f32 {
    f32::from_bits(v.to_bits())
}

fn scored(pairs: &[(&str, f32)]) -> Vec<(String, Binary32)> {
    pairs.iter().map(|(id, s)| (id.to_string(), b32(*s))).collect()
}

fn texts(ids: &[&str]) -> Vec<String> {
    ids.iter().map(|id| id.to_string()).collect()
}

fn entity(id: &str) -> ContextEntity {
    ContextEntity { id: id.to_owned(), group_id: None }
}

fn ids_of(entities: &[ContextEntity]) -> Vec<&str> {
    entities.iter().map(|e| e.id.as_str()).collect()
}

#[test]
fn score_desc_id_asc_orders_by_score_when_distinct() {
    let mut v = [
        ("zzz".to_owned(), b32(0.2)),
        ("aaa".to_owned(), b32(0.9)),
        ("mmm".to_owned(), b32(0.5)),
    ];
    v.sort_by(score_desc_id_asc);
    let ids: Vec<&str> = v.iter().map(|(id, _)| id.as_str()).collect();
    assert_eq!(
        ids,
        vec!["aaa", "mmm", "zzz"],
        "distinct scores must sort strictly by score descending, \
         independent of id"
    );
}

#[test]
fn score_desc_id_asc_breaks_ties_by_id_ascending() {
    let mut v = [
        ("zeta".to_owned(), b32(0.5)),
        ("alpha".to_owned(), b32(0.5)),
        ("mike".to_owned(), b32(0.5)),
    ];
    v.sort_by(score_desc_id_asc);
    let ids: Vec<&str> = v.iter().map(|(id, _)| id.as_str()).collect();
    assert_eq!(
        ids,
        vec!["alpha", "mike", "zeta"],
        "tied scores must break by entity id ascending"
    );
}

#[test]
fn score_desc_id_asc_deterministic_across_input_permutations() {
    let base: Vec<(String, Binary32)> = vec![
        ("delta".to_owned(), b32(0.7)),
        ("bravo".to_owned(), b32(0.7)),
        ("foxtrot".to_owned(), b32(0.7)),
        ("charlie".to_owned(), b32(0.3)), // distinct, lower score
        ("alpha".to_owned(), b32(0.7)),
    ];
    let expected: Vec<&str> = vec!["alpha", "bravo", "delta", "foxtrot", "charlie"];

    let permutations: Vec<Vec<(String, Binary32)>> = vec![
        base.clone(),
        {
            let mut p = base.clone();
            p.reverse();
            p
        },
        vec![
            base[2].clone(),
            base[0].clone(),
            base[4].clone(),
            base[3].clone(),
            base[1].clone(),
        ],
        vec![
            base[3].clone(),
            base[4].clone(),
            base[1].clone(),
            base[2].clone(),
            base[0].clone(),
        ],
    ];

    for (i, perm) in permutations.into_iter().enumerate() {
        let ranked = rank_by_score(perm.clone());
        let mut sorted = perm;
        sorted.sort_by(score_desc_id_asc);
        let ids: Vec<&str> = sorted.iter().map(|(id, _)| id.as_str()).collect();
        assert_eq!(
            ids, expected,
            "permutation {i} sorted to a different order — ranking is \
             not deterministic w.r.t. input order"
        );
        let ids: Vec<&str> = ranked.iter().map(|(id, _)| id.as_str()).collect();
        assert_eq!(ids, expected);
    }
}

#[test]
fn floor_survivors_gates_on_post_boost_score_not_base() {
    let scores = scored(&[("promoted", 0.55), ("unpromoted", 0.45)]);
    let seeds = vec!["unpromoted".to_owned(), "promoted".to_owned()];
    assert_eq!(
        floor_survivors(&seeds, &scores, b32(0.5)),
        vec!["promoted".to_owned()],
        "the boost-promoted seed must survive; the higher-base unboosted seed \
         must be dropped — floor gates on post-boost score"
    );
}

#[test]
fn floor_survivors_non_positive_floor_keeps_all() {
    let scores = scored(&[("a", 0.1), ("b", 0.9)]);
    let seeds = vec!["a".to_owned(), "b".to_owned()];
    assert_eq!(floor_survivors(&seeds, &scores, b32(0.0)), seeds, "floor 0 = no-op");
    assert_eq!(
        floor_survivors(&seeds, &scores, b32(-1.0)),
        seeds,
        "negative floor = no-op"
    );
}

#[test]
fn floor_survivors_above_all_drops_everything() {
    let scores = scored(&[("a", 0.9), ("b", 1.0)]);
    let seeds = vec!["a".to_owned(), "b".to_owned()];
    assert!(
        floor_survivors(&seeds, &scores, b32(1.5)).is_empty(),
        "a floor above every post-boost score drops all seeds"
    );
}

#[test]
fn a_seed_at_the_floor_survives_and_an_unscored_one_counts_as_zero() {
    let scores = scored(&[("a", 0.5)]);
    assert_eq!(
        floor_survivors(&texts(&["a", "b"]), &scores, b32(0.5)),
        texts(&["a"])
    );
}

#[test]
fn fused_hits_hold_every_rank_once() {
    let fused = fuse_hits(&texts(&["a", "b"]), &texts(&["c", "a"]));
    assert_eq!(fused.len(), 3);
    let of = |id: &str| fused.iter().find(|h| h.id == id).unwrap();
    assert_eq!((of("a").fts_ranks.clone(), of("a").vector_ranks.clone()), (vec![0], vec![1]));
    assert_eq!((of("b").fts_ranks.clone(), of("b").vector_ranks.clone()), (vec![1], vec![]));
    assert_eq!((of("c").fts_ranks.clone(), of("c").vector_ranks.clone()), (vec![], vec![0]));
    assert!(fuse_hits(&vec![], &vec![]).is_empty());
}

#[test]
fn seeds_are_the_best_of_the_ranking() {
    let ranked = rank_by_score(scored(&[("a", 0.1), ("b", 0.9), ("c", 0.5)]));
    assert_eq!(seed_ids(&ranked, 2), texts(&["b", "c"]));
    assert_eq!(seed_ids(&ranked, 9), texts(&["b", "c", "a"]));
    assert!(seed_ids(&ranked, 0).is_empty());
}

#[test]
fn degree_leaves_the_seed_out() {
    assert_eq!(seed_degree(0), 0);
    assert_eq!(seed_degree(1), 0);
    assert_eq!(seed_degree(4), 3);
}

#[test]
fn expansion_scores_neighbours_below_their_seed() {
    let mut e = Expansion::new();
    e.add_seed(
        &"seed".to_owned(),
        b32(0.8),
        b32(0.4),
        vec![entity("seed"), entity("n2"), entity("n1")],
        &vec![7, 8, 7],
        None,
        8,
    );
    let (result, kept) = e.finish(b32(0.0));
    assert_eq!(ids_of(&result.entities), vec!["n1", "n2", "seed"]);
    assert_eq!(result.facts, vec![7, 8]);
    assert_eq!(kept, texts(&["seed"]));
    let score = |id: &str| f32_of(result.scores.iter().find(|(x, _)| x == id).unwrap().1);
    assert_eq!(score("seed"), 0.8);
    assert_eq!(score("n1"), 0.4);
    assert_eq!(score("n2"), 0.4);
}

#[test]
fn expansion_is_capped_by_id_and_the_seed_is_free() {
    let mut e = Expansion::new();
    e.add_seed(
        &"b".to_owned(),
        b32(1.0),
        b32(0.5),
        vec![entity("d"), entity("c"), entity("b"), entity("a")],
        &vec![],
        None,
        2,
    );
    let (result, _) = e.finish(b32(0.0));
    assert_eq!(ids_of(&result.entities), vec!["a", "b", "c"]);
}

#[test]
fn a_neighbour_keeps_its_best_score_and_a_seed_its_own() {
    let mut e = Expansion::new();
    let hood = || vec![entity("n"), entity("s1"), entity("s2")];
    e.add_seed(&"s1".to_owned(), b32(1.0), b32(0.5), hood(), &vec![], None, 8);
    e.add_seed(&"s2".to_owned(), b32(0.2), b32(0.1), hood(), &vec![], None, 8);
    let (result, kept) = e.finish(b32(0.0));
    let score = |id: &str| f32_of(result.scores.iter().find(|(x, _)| x == id).unwrap().1);
    assert_eq!(score("n"), 0.5);
    assert_eq!(score("s1"), 1.0);
    assert_eq!(score("s2"), 0.2);
    assert_eq!(result.scores.len(), 3);
    assert_eq!(result.entities.len(), 3);
    assert_eq!(kept, texts(&["s1", "s2"]));
}

#[test]
fn entities_of_another_namespace_are_passed_over() {
    let mut e = Expansion::new();
    let foreign = ContextEntity { id: "x".to_owned(), group_id: Some("other".to_owned()) };
    let own = ContextEntity { id: "y".to_owned(), group_id: Some("mine".to_owned()) };
    e.add_seed(
        &"s".to_owned(),
        b32(1.0),
        b32(0.5),
        vec![entity("s"), foreign, own, entity("z")],
        &vec![],
        Some(&"mine".to_owned()),
        8,
    );
    let (result, _) = e.finish(b32(0.0));
    assert_eq!(ids_of(&result.entities), vec!["s", "y", "z"]);
    assert!(result.scores.iter().all(|(id, _)| id != "x"));
}

#[test]
fn the_floor_drops_seeds_but_not_neighbours() {
    let mut e = Expansion::new();
    e.add_seed(
        &"low".to_owned(),
        b32(0.3),
        b32(0.15),
        vec![entity("low"), entity("n")],
        &vec![1],
        None,
        8,
    );
    e.add_seed(&"high".to_owned(), b32(0.9), b32(0.45), vec![entity("high")], &vec![], None, 8);
    let (result, kept) = e.finish(b32(0.5));
    assert_eq!(ids_of(&result.entities), vec!["n", "high"]);
    assert_eq!(kept, texts(&["high"]));
    assert_eq!(result.facts, vec![1]);
    let ids: Vec<&str> = result.scores.iter().map(|(id, _)| id.as_str()).collect();
    assert_eq!(ids, vec!["high", "n"]);
}

#[test]
fn scores_are_held_to_the_unit_range() {
    assert_eq!(f32_of(hold_to_unit(b32(1.05))), 1.0);
    assert_eq!(f32_of(hold_to_unit(b32(0.3))), 0.3);
    assert_eq!(f32_of(hold_to_unit(b32(-0.25))), 0.0);
    assert_eq!(f32_of(hold_to_unit(b32(f32::INFINITY))), 1.0);
    assert_eq!(f32_of(hold_to_unit(b32(f32::NAN))), 1.0);
}

#[test]
fn no_returned_score_leaves_the_unit_range() {
    let mut e = Expansion::new();
    let hood = vec![entity("near"), entity("hub")];
    e.add_seed(&"hub".to_owned(), b32(1.05), b32(2.1), hood, &vec![], None, 8);
    let hood = vec![entity("far"), entity("low")];
    e.add_seed(&"low".to_owned(), b32(-0.5), b32(-0.25), hood, &vec![], None, 8);
    let (result, kept) = e.finish(b32(0.0));
    let scores: Vec<(&str, f32)> =
        result.scores.iter().map(|(id, s)| (id.as_str(), f32_of(*s))).collect();
    assert_eq!(scores, vec![("hub", 1.0), ("low", 0.0), ("near", 1.0), ("far", 0.0)]);
    assert_eq!(kept, texts(&["hub", "low"]));
}
