//! Expansion of the seeds by their neighbourhood, and the floor.

use vstd::prelude::*;
use crate::ieee::Binary32;
use crate::selection::{selects, selects_from_none, selects_one_more};
use crate::text::{comes_before, same_text, text_before};

verus! {

/// An entity of a neighbourhood.
#[derive(Debug)]
pub struct ContextEntity {
    pub id: String,
    /// `None` for an entity that belongs to every namespace.
    pub group_id: Option<String>,
}

/// What the seeds expanded so far have brought in.
#[derive(Debug)]
pub struct Expansion {
    /// Entities in the order in which they were found, each once.
    pub entities: Vec<ContextEntity>,
    /// Facts in the order in which they were found, each once.
    pub facts: Vec<i64>,
    /// The seeds with their own scores.
    pub seed_scores: Vec<(String, Binary32)>,
    /// Neighbours with the best score that a seed handed on to them.
    pub neighbour_scores: Vec<(String, Binary32)>,
}

/// Abstract state of an [`Expansion`].
#[verifier::ext_equal]
pub struct ExpansionView {
    pub entities: Seq<ContextEntity>,
    pub facts: Seq<i64>,
    pub seed_scores: Seq<(String, Binary32)>,
    pub neighbour_scores: Seq<(String, Binary32)>,
}

impl View for Expansion {
    type V = ExpansionView;

    open spec fn view(&self) -> ExpansionView {
        ExpansionView {
            entities: self.entities@,
            facts: self.facts@,
            seed_scores: self.seed_scores@,
            neighbour_scores: self.neighbour_scores@,
        }
    }
}

/// Where `id` stands among the scores.
pub open spec fn score_index(scores: Seq<(String, Binary32)>, id: Seq<char>) -> Option<int>
    decreases scores.len(),
{
    if scores.len() == 0 {
        None
    } else {
        match score_index(scores.drop_last(), id) {
            Some(i) => Some(i),
            None => if scores.last().0@ == id {
                Some(scores.len() - 1)
            } else {
                None
            },
        }
    }
}

/// The score of `id`.
pub open spec fn score_of(scores: Seq<(String, Binary32)>, id: Seq<char>) -> Option<Binary32> {
    match score_index(scores, id) {
        Some(i) => Some(scores[i].1),
        None => None,
    }
}

proof fn score_index_is_first(scores: Seq<(String, Binary32)>, id: Seq<char>)
    ensures
        match score_index(scores, id) {
            Some(i) => 0 <= i < scores.len() && scores[i].0@ == id && forall|x: int|
                0 <= x < i ==> (#[trigger] scores[x]).0@ != id,
            None => forall|x: int| 0 <= x < scores.len() ==> (#[trigger] scores[x]).0@ != id,
        },
    decreases scores.len(),
{
    if scores.len() > 0 {
        let front = scores.drop_last();
        score_index_is_first(front, id);
        assert forall|x: int| 0 <= x < front.len() implies (#[trigger] scores[x]) == front[x] by {}
    }
}

/// A score index is settled by its defining property.
proof fn score_index_is(scores: Seq<(String, Binary32)>, id: Seq<char>, i: int)
    requires
        0 <= i < scores.len(),
        scores[i].0@ == id,
        forall|x: int| 0 <= x < i ==> (#[trigger] scores[x]).0@ != id,
    ensures
        score_index(scores, id) == Some(i),
{
    score_index_is_first(scores, id);
}

/// Finds an id among the scores.
fn find_score(scores: &Vec<(String, Binary32)>, id: &String) -> (r: Option<usize>)
    ensures
        match r {
            Some(i) => i < scores.len() && score_index(scores@, id@) == Some(i as int),
            None => score_index(scores@, id@) is None,
        },
{
    let mut i: usize = 0;
    while i < scores.len()
        invariant
            i <= scores.len(),
            forall|x: int| 0 <= x < i ==> (#[trigger] scores@[x]).0@ != id@,
        decreases scores.len() - i,
    {
        if same_text(&scores[i].0, id) {
            proof {
                score_index_is(scores@, id@, i as int);
            }
            return Some(i);
        }
        i = i + 1;
    }
    proof {
        score_index_is_first(scores@, id@);
    }
    None
}

/// The scores after `id` was handed the score `s`: an id keeps the best of its scores.
pub open spec fn with_score(
    scores: Seq<(String, Binary32)>,
    id: String,
    s: Binary32,
) -> Seq<(String, Binary32)> {
    match score_index(scores, id@) {
        Some(i) => scores.update(i, (scores[i].0, scores[i].1.greater(s))),
        None => scores.push((id, s)),
    }
}

/// An entity with the id was found already.
pub open spec fn is_found(entities: Seq<ContextEntity>, id: Seq<char>) -> bool {
    exists|i: int| 0 <= i < entities.len() && (#[trigger] entities[i]).id@ == id
}

fn already_found(entities: &Vec<ContextEntity>, id: &String) -> (r: bool)
    ensures
        r == is_found(entities@, id@),
{
    let mut i: usize = 0;
    while i < entities.len()
        invariant
            i <= entities.len(),
            forall|x: int| 0 <= x < i ==> (#[trigger] entities@[x]).id@ != id@,
        decreases entities.len() - i,
    {
        if same_text(&entities[i].id, id) {
            return true;
        }
        i = i + 1;
    }
    false
}

/// The entity belongs to another namespace than the one that is asked for.
pub open spec fn is_foreign(e: ContextEntity, group_id: Option<Seq<char>>) -> bool {
    match (group_id, e.group_id) {
        (Some(wanted), Some(own)) => own@ != wanted,
        _ => false,
    }
}

/// `sorted` with `e` behind everything that does not come after it by id.
pub open spec fn insert_by_id(sorted: Seq<ContextEntity>, e: ContextEntity) -> Seq<ContextEntity>
    decreases sorted.len(),
{
    if sorted.len() > 0 && text_before(e.id@, sorted.last().id@) {
        insert_by_id(sorted.drop_last(), e).push(sorted.last())
    } else {
        sorted.push(e)
    }
}

/// The entities by id. The order is no sign of relevance; it makes the choice of
/// neighbours under the cap reproducible.
pub open spec fn sorted_by_id(entities: Seq<ContextEntity>) -> Seq<ContextEntity>
    decreases entities.len(),
{
    if entities.len() == 0 {
        seq![]
    } else {
        insert_by_id(sorted_by_id(entities.drop_last()), entities.last())
    }
}

fn insert_entity(sorted: &mut Vec<ContextEntity>, e: ContextEntity)
    ensures
        final(sorted)@ == insert_by_id(old(sorted)@, e),
{
    let ghost before = sorted@;
    let mut at: usize = sorted.len();
    assert(before.take(at as int) =~= before);
    assert(insert_by_id(before, e) =~= insert_by_id(before.take(at as int), e) + before.skip(
        at as int,
    ));
    while at > 0 && comes_before(e.id.as_str(), sorted[at - 1].id.as_str())
        invariant
            at <= sorted.len(),
            sorted@ == before,
            insert_by_id(before, e) == insert_by_id(before.take(at as int), e) + before.skip(
                at as int,
            ),
        decreases at,
    {
        proof {
            let front = before.take(at as int);
            assert(front.last() == before[at - 1]);
            assert(front.drop_last() =~= before.take(at - 1));
            assert(insert_by_id(before.take(at - 1), e).push(before[at - 1]) + before.skip(
                at as int,
            ) =~= insert_by_id(before.take(at - 1), e) + before.skip(at - 1));
        }
        at = at - 1;
    }
    proof {
        let front = before.take(at as int);
        if at > 0 {
            assert(front.last() == before[at - 1]);
        }
        assert(before.insert(at as int, e) =~= front.push(e) + before.skip(at as int));
    }
    sorted.insert(at, e);
}

fn sort_by_id(entities: Vec<ContextEntity>) -> (r: Vec<ContextEntity>)
    ensures
        r@ == sorted_by_id(entities@),
{
    let ghost all = entities@;
    let mut rest = entities;
    let mut out: Vec<ContextEntity> = Vec::new();
    let ghost mut taken: int = 0;
    assert(all.take(0) =~= Seq::empty());
    assert(all.skip(0) =~= all);
    while rest.len() > 0
        invariant
            0 <= taken <= all.len(),
            rest@ == all.skip(taken),
            out@ == sorted_by_id(all.take(taken)),
        decreases rest.len(),
    {
        let e = rest.remove(0);
        proof {
            assert(e == all[taken]);
            assert(all.skip(taken).remove(0) =~= all.skip(taken + 1));
            assert(all.take(taken + 1).drop_last() =~= all.take(taken));
            assert(all.take(taken + 1).last() == e);
            taken = taken + 1;
        }
        insert_entity(&mut out, e);
    }
    assert(all.take(taken) =~= all);
    out
}

/// A score held to `[0, 1]`. What is no number counts as one.
pub open spec fn held_to_unit(score: Binary32) -> Binary32 {
    score.lesser(Binary32::one_value()).greater(Binary32::zero_value())
}

/// Holds a score to `[0, 1]`: a seed whose bonuses lift it above one scores one.
pub fn hold_to_unit(score: Binary32) -> (r: Binary32)
    ensures
        r == held_to_unit(score),
        Binary32::zero_value().le(r),
        r.le(Binary32::one_value()),
{
    score.min_of(Binary32::one()).max_of(Binary32::zero())
}

/// What a seed hands on to its neighbourhood.
pub struct Handover {
    pub seed_id: Seq<char>,
    /// The seed's score after decay, before it is held to `[0, 1]`.
    pub decayed: Binary32,
    pub group_id: Option<Seq<char>>,
    /// The most neighbours that the seed may bring in.
    pub cap: usize,
}

/// The expansion, and the neighbours counted for the seed, after one more entity of its
/// neighbourhood. An entity of another namespace is passed over, and so is a neighbour
/// beyond the cap. The seed itself never counts as its own neighbour.
pub open spec fn entity_added(
    v: ExpansionView,
    counted: nat,
    e: ContextEntity,
    h: Handover,
) -> (ExpansionView, nat) {
    let entities = if is_found(v.entities, e.id@) {
        v.entities
    } else {
        v.entities.push(e)
    };
    if is_foreign(e, h.group_id) {
        (v, counted)
    } else if e.id@ == h.seed_id {
        (ExpansionView { entities, ..v }, counted)
    } else if counted >= h.cap {
        (v, counted)
    } else {
        (
            ExpansionView {
                entities,
                neighbour_scores: with_score(
                    v.neighbour_scores,
                    e.id,
                    held_to_unit(h.decayed),
                ),
                ..v
            },
            counted + 1,
        )
    }
}

/// The expansion, and the neighbours counted, after the first `n` entities of a seed's
/// neighbourhood.
pub open spec fn entities_added(
    v: ExpansionView,
    neighbourhood: Seq<ContextEntity>,
    h: Handover,
    n: nat,
) -> (ExpansionView, nat)
    decreases n,
{
    if n == 0 {
        (v, 0)
    } else {
        let (before, counted) = entities_added(v, neighbourhood, h, (n - 1) as nat);
        entity_added(before, counted, neighbourhood[n - 1], h)
    }
}

/// The facts after the first `n` of `more` came in, each once.
pub open spec fn facts_added(facts: Seq<i64>, more: Seq<i64>, n: nat) -> Seq<i64>
    decreases n,
{
    if n == 0 {
        facts
    } else {
        let before = facts_added(facts, more, (n - 1) as nat);
        if before.contains(more[n - 1]) {
            before
        } else {
            before.push(more[n - 1])
        }
    }
}

/// The expansion after a seed. The seed's score, and what it hands on, are held to
/// `[0, 1]`.
pub open spec fn seed_added(
    v: ExpansionView,
    seed_id: String,
    seed_score: Binary32,
    neighbourhood: Seq<ContextEntity>,
    facts: Seq<i64>,
    h: Handover,
) -> ExpansionView {
    let sorted = sorted_by_id(neighbourhood);
    let (w, _) = entities_added(v, sorted, h, sorted.len());
    ExpansionView {
        facts: facts_added(v.facts, facts, facts.len()),
        seed_scores: v.seed_scores.push((seed_id, held_to_unit(seed_score))),
        ..w
    }
}

/// A seed's degree in its neighbourhood, which holds the seed itself.
pub fn seed_degree(neighbourhood_len: usize) -> (r: usize)
    ensures
        r == (if neighbourhood_len == 0 {
            0
        } else {
            neighbourhood_len - 1
        }),
{
    neighbourhood_len.saturating_sub(1)
}

fn has_fact(facts: &Vec<i64>, id: i64) -> (r: bool)
    ensures
        r == facts@.contains(id),
{
    let mut i: usize = 0;
    while i < facts.len()
        invariant
            i <= facts.len(),
            forall|x: int| 0 <= x < i ==> facts@[x] != id,
        decreases facts.len() - i,
    {
        if facts[i] == id {
            return true;
        }
        i = i + 1;
    }
    false
}

impl Expansion {
    /// An expansion without seeds.
    pub fn new() -> (r: Expansion)
        ensures
            r@ == (ExpansionView {
                entities: seq![],
                facts: seq![],
                seed_scores: seq![],
                neighbour_scores: seq![],
            }),
    {
        let r = Expansion {
            entities: Vec::new(),
            facts: Vec::new(),
            seed_scores: Vec::new(),
            neighbour_scores: Vec::new(),
        };
        assert(r@ =~= ExpansionView {
            entities: seq![],
            facts: seq![],
            seed_scores: seq![],
            neighbour_scores: seq![],
        });
        r
    }

    /// Hands a score on to a neighbour.
    fn hand_on(&mut self, id: &String, score: Binary32)
        ensures
            final(self)@ == (ExpansionView {
                neighbour_scores: with_score(old(self)@.neighbour_scores, *id, score),
                ..old(self)@
            }),
    {
        match find_score(&self.neighbour_scores, id) {
            Some(i) => {
                let best = self.neighbour_scores[i].1.max_of(score);
                let name = self.neighbour_scores[i].0.clone();
                self.neighbour_scores.set(i, (name, best));
            },
            None => {
                self.neighbour_scores.push((id.clone(), score));
            },
        }
    }

    /// Expands one seed: its own score, what is left of it for the neighbours, its
    /// neighbourhood and the facts found there. Both scores are held to `[0, 1]`.
    pub fn add_seed(
        &mut self,
        seed_id: &String,
        seed_score: Binary32,
        decayed: Binary32,
        neighbourhood: Vec<ContextEntity>,
        facts: &Vec<i64>,
        group_id: Option<&String>,
        cap: usize,
    )
        ensures
            final(self)@ == seed_added(
                old(self)@,
                *seed_id,
                seed_score,
                neighbourhood@,
                facts@,
                (Handover {
                    seed_id: seed_id@,
                    decayed,
                    group_id: match group_id {
                        Some(g) => Some(g@),
                        None => None,
                    },
                    cap,
                }),
            ),
            forall|id: i64| #[trigger]
                final(self).facts@.contains(id) <==> old(self).facts@.contains(id)
                    || facts@.contains(id),
    {
        let ghost before = self@;
        let ghost h = Handover {
            seed_id: seed_id@,
            decayed,
            group_id: match group_id {
                Some(g) => Some(g@),
                None => None,
            },
            cap,
        };
        let share = hold_to_unit(decayed);
        let mut rest = sort_by_id(neighbourhood);
        let ghost sorted = rest@;
        let ghost mut taken: nat = 0;
        let mut counted: usize = 0;
        assert(sorted.skip(0) =~= sorted);
        while rest.len() > 0
            invariant
                taken <= sorted.len(),
                rest@ == sorted.skip(taken as int),
                h == (Handover {
                    seed_id: seed_id@,
                    decayed,
                    group_id: match group_id {
                        Some(g) => Some(g@),
                        None => None,
                    },
                    cap,
                }),
                share == held_to_unit(decayed),
                counted <= cap,
                (self@, counted as nat) == entities_added(before, sorted, h, taken),
            decreases rest.len(),
        {
            let e = rest.remove(0);
            proof {
                assert(e == sorted[taken as int]);
                assert(sorted.skip(taken as int).remove(0) =~= sorted.skip((taken + 1) as int));
                taken = taken + 1;
            }
            let foreign = match (group_id, &e.group_id) {
                (Some(wanted), Some(own)) => !same_text(own, wanted),
                _ => false,
            };
            if !foreign {
                let is_seed = same_text(&e.id, seed_id);
                if is_seed || counted < cap {
                    if !is_seed {
                        counted = counted + 1;
                        self.hand_on(&e.id, share);
                    }
                    if !already_found(&self.entities, &e.id) {
                        self.entities.push(e);
                    }
                }
            }
        }
        let ghost expanded = self@;
        let mut i: usize = 0;
        while i < facts.len()
            invariant
                i <= facts.len(),
                self@.entities == expanded.entities,
                self@.seed_scores == expanded.seed_scores,
                self@.neighbour_scores == expanded.neighbour_scores,
                self@.facts == facts_added(expanded.facts, facts@, i as nat),
            decreases facts.len() - i,
        {
            if !has_fact(&self.facts, facts[i]) {
                self.facts.push(facts[i]);
            }
            i = i + 1;
        }
        self.seed_scores.push((seed_id.clone(), hold_to_unit(seed_score)));
        proof {
            expansion_touches_no_facts(before, sorted, h, sorted.len());
            law_facts_are_gathered(before.facts, facts@);
        }
    }
}

/// Entities bring in neither facts nor seeds.
proof fn expansion_touches_no_facts(
    v: ExpansionView,
    neighbourhood: Seq<ContextEntity>,
    h: Handover,
    n: nat,
)
    ensures
        entities_added(v, neighbourhood, h, n).0.facts == v.facts,
        entities_added(v, neighbourhood, h, n).0.seed_scores == v.seed_scores,
    decreases n,
{
    if n > 0 {
        expansion_touches_no_facts(v, neighbourhood, h, (n - 1) as nat);
    }
}

/// What a recall returns.
#[derive(Debug)]
pub struct ContextResult {
    /// The seeds that the floor kept and the neighbours that they brought in.
    pub entities: Vec<ContextEntity>,
    /// The facts that connect them.
    pub facts: Vec<i64>,
    /// Relevance of every entity.
    pub scores: Vec<(String, Binary32)>,
}

/// The seeds' scores and behind them those of the first `n` neighbours that are no
/// seeds. A neighbour that is a seed itself keeps its own score.
pub open spec fn scores_merged(v: ExpansionView, n: nat) -> Seq<(String, Binary32)>
    decreases n,
{
    if n == 0 {
        v.seed_scores
    } else {
        let before = scores_merged(v, (n - 1) as nat);
        let entry = v.neighbour_scores[n - 1];
        if score_index(v.seed_scores, entry.0@) is Some {
            before
        } else {
            before.push(entry)
        }
    }
}

/// The score of every seed and every neighbour.
pub open spec fn all_scores(v: ExpansionView) -> Seq<(String, Binary32)> {
    scores_merged(v, v.neighbour_scores.len())
}

/// The seed reaches the floor. A floor that is not positive is reached by every seed.
pub open spec fn survives(scores: Seq<(String, Binary32)>, floor: Binary32, id: Seq<char>) -> bool {
    floor.le(Binary32::zero_value()) || floor.le(
        match score_of(scores, id) {
            Some(s) => s,
            None => Binary32::zero_value(),
        },
    )
}

/// The first `n` seeds that reach the floor, in order.
pub open spec fn survivors(
    seed_ids: Seq<String>,
    scores: Seq<(String, Binary32)>,
    floor: Binary32,
    n: nat,
) -> Seq<String>
    decreases n,
{
    if n == 0 {
        seq![]
    } else {
        let before = survivors(seed_ids, scores, floor, (n - 1) as nat);
        if survives(scores, floor, seed_ids[n - 1]@) {
            before.push(seed_ids[n - 1])
        } else {
            before
        }
    }
}

/// Whether a seed reaches the floor.
fn reaches_floor(scores: &Vec<(String, Binary32)>, floor: Binary32, id: &String) -> (r: bool)
    ensures
        r == survives(scores@, floor, id@),
{
    if floor.at_most(Binary32::zero()) {
        return true;
    }
    let score = match find_score(scores, id) {
        Some(i) => scores[i].1,
        None => Binary32::zero(),
    };
    floor.at_most(score)
}

/// The seeds that reach the floor, in their order.
pub fn floor_survivors(
    seed_ids: &Vec<String>,
    scores: &Vec<(String, Binary32)>,
    floor: Binary32,
) -> (r: Vec<String>)
    ensures
        r@ == survivors(seed_ids@, scores@, floor, seed_ids@.len()),
{
    let mut out: Vec<String> = Vec::new();
    let mut i: usize = 0;
    while i < seed_ids.len()
        invariant
            i <= seed_ids.len(),
            out@ == survivors(seed_ids@, scores@, floor, i as nat),
        decreases seed_ids.len() - i,
    {
        if reaches_floor(scores, floor, &seed_ids[i]) {
            out.push(seed_ids[i].clone());
        }
        i = i + 1;
    }
    out
}

/// The entity stays: it is no seed, or a seed that reaches the floor.
pub open spec fn stays(v: ExpansionView, floor: Binary32, id: Seq<char>) -> bool {
    score_index(v.seed_scores, id) is None || survives(all_scores(v), floor, id)
}

/// The first `n` entities that stay.
pub open spec fn entities_kept(v: ExpansionView, floor: Binary32, n: nat) -> Seq<ContextEntity>
    decreases n,
{
    if n == 0 {
        seq![]
    } else {
        let before = entities_kept(v, floor, (n - 1) as nat);
        if stays(v, floor, v.entities[n - 1].id@) {
            before.push(v.entities[n - 1])
        } else {
            before
        }
    }
}

/// The first `n` scores of entities that stay.
pub open spec fn scores_kept(v: ExpansionView, floor: Binary32, n: nat) -> Seq<(String, Binary32)>
    decreases n,
{
    if n == 0 {
        seq![]
    } else {
        let before = scores_kept(v, floor, (n - 1) as nat);
        if stays(v, floor, all_scores(v)[n - 1].0@) {
            before.push(all_scores(v)[n - 1])
        } else {
            before
        }
    }
}

/// The ids of the seeds.
pub open spec fn seeds_of(v: ExpansionView) -> Seq<String> {
    v.seed_scores.map_values(|s: (String, Binary32)| s.0)
}

impl Expansion {
    /// The score of every seed and every neighbour.
    fn merge_scores(&self) -> (r: Vec<(String, Binary32)>)
        ensures
            r@ == all_scores(self@),
    {
        let mut scores: Vec<(String, Binary32)> = Vec::new();
        let mut i: usize = 0;
        while i < self.seed_scores.len()
            invariant
                i <= self.seed_scores.len(),
                scores@ == self.seed_scores@.take(i as int),
            decreases self.seed_scores.len() - i,
        {
            scores.push((self.seed_scores[i].0.clone(), self.seed_scores[i].1));
            assert(self.seed_scores@.take(i + 1) =~= self.seed_scores@.take(i as int).push(
                self.seed_scores@[i as int],
            ));
            i = i + 1;
        }
        assert(scores@ =~= self@.seed_scores);
        let mut k: usize = 0;
        while k < self.neighbour_scores.len()
            invariant
                k <= self.neighbour_scores.len(),
                scores@ == scores_merged(self@, k as nat),
            decreases self.neighbour_scores.len() - k,
        {
            if find_score(&self.seed_scores, &self.neighbour_scores[k].0).is_none() {
                scores.push((self.neighbour_scores[k].0.clone(), self.neighbour_scores[k].1));
            }
            k = k + 1;
        }
        scores
    }

    /// Ends the expansion: seeds that do not reach the floor are dropped, with their
    /// scores; neighbours stay. Beside the result come the seeds that were kept, whose
    /// access is to be counted.
    pub fn finish(self, floor: Binary32) -> (r: (ContextResult, Vec<String>))
        ensures
            r.0.entities@ == entities_kept(self@, floor, self@.entities.len()),
            r.0.facts@ == self@.facts,
            r.0.scores@ == scores_kept(self@, floor, all_scores(self@).len()),
            r.1@ == survivors(
                seeds_of(self@),
                all_scores(self@),
                floor,
                self@.seed_scores.len(),
            ),
    {
        let ghost v = self@;
        let scores = self.merge_scores();
        let mut seed_ids: Vec<String> = Vec::new();
        let mut i: usize = 0;
        while i < self.seed_scores.len()
            invariant
                i <= self.seed_scores.len(),
                v == self@,
                seed_ids@ == seeds_of(v).take(i as int),
            decreases self.seed_scores.len() - i,
        {
            seed_ids.push(self.seed_scores[i].0.clone());
            assert(seeds_of(v).take(i + 1) =~= seeds_of(v).take(i as int).push(
                self.seed_scores@[i as int].0,
            ));
            i = i + 1;
        }
        assert(seed_ids@ =~= seeds_of(v));
        let kept_seeds = floor_survivors(&seed_ids, &scores, floor);
        let seeds = self.seed_scores;
        let facts = self.facts;
        let mut rest = self.entities;
        let mut entities: Vec<ContextEntity> = Vec::new();
        let ghost mut taken: nat = 0;
        assert(v.entities.skip(0) =~= v.entities);
        while rest.len() > 0
            invariant
                taken <= v.entities.len(),
                rest@ == v.entities.skip(taken as int),
                seeds@ == v.seed_scores,
                scores@ == all_scores(v),
                entities@ == entities_kept(v, floor, taken),
            decreases rest.len(),
        {
            let e = rest.remove(0);
            proof {
                assert(e == v.entities[taken as int]);
                assert(v.entities.skip(taken as int).remove(0) =~= v.entities.skip(
                    (taken + 1) as int,
                ));
                taken = taken + 1;
            }
            if find_score(&seeds, &e.id).is_none() || reaches_floor(&scores, floor, &e.id) {
                entities.push(e);
            }
        }
        let mut kept_scores: Vec<(String, Binary32)> = Vec::new();
        let mut k: usize = 0;
        while k < scores.len()
            invariant
                k <= scores.len(),
                seeds@ == v.seed_scores,
                scores@ == all_scores(v),
                kept_scores@ == scores_kept(v, floor, k as nat),
            decreases scores.len() - k,
        {
            if find_score(&seeds, &scores[k].0).is_none() || reaches_floor(
                &scores,
                floor,
                &scores[k].0,
            ) {
                kept_scores.push((scores[k].0.clone(), scores[k].1));
            }
            k = k + 1;
        }
        (ContextResult { entities, facts, scores: kept_scores }, kept_seeds)
    }
}

/// No entity, no fact and no neighbour score stands twice.
pub open spec fn expansion_ok(v: ExpansionView) -> bool {
    &&& forall|i: int, j: int|
        0 <= i < j < v.entities.len() ==> (#[trigger] v.entities[i]).id@ != (
        #[trigger] v.entities[j]).id@
    &&& v.facts.no_duplicates()
    &&& forall|i: int, j: int|
        0 <= i < j < v.neighbour_scores.len() ==> (#[trigger] v.neighbour_scores[i]).0@ != (
        #[trigger] v.neighbour_scores[j]).0@
}

/// The id is that of a seed or of a neighbour.
pub open spec fn is_scored(v: ExpansionView, id: Seq<char>) -> bool {
    score_index(v.seed_scores, id) is Some || score_index(v.neighbour_scores, id) is Some
}

/// Every entity is a seed, a neighbour, or the seed that is being expanded.
pub open spec fn entities_scored(v: ExpansionView, seed_id: Seq<char>) -> bool {
    forall|i: int|
        0 <= i < v.entities.len() ==> (#[trigger] v.entities[i]).id@ == seed_id || is_scored(
            v,
            v.entities[i].id@,
        )
}

/// Handing on a score gives the id the best of its scores and leaves every other alone.
pub proof fn law_neighbour_keeps_its_best_score(
    scores: Seq<(String, Binary32)>,
    id: String,
    s: Binary32,
    other: Seq<char>,
)
    ensures
        score_of(with_score(scores, id, s), other) == (if other == id@ {
            Some(
                match score_of(scores, id@) {
                    Some(best) => best.greater(s),
                    None => s,
                },
            )
        } else {
            score_of(scores, other)
        }),
        score_index(with_score(scores, id, s), other) is Some <==> score_index(scores, other)
            is Some || other == id@,
{
    let after = with_score(scores, id, s);
    score_index_is_first(scores, id@);
    score_index_is_first(scores, other);
    score_index_is_first(after, other);
    match score_index(scores, id@) {
        Some(i) => {
            assert forall|x: int| 0 <= x < scores.len() implies (#[trigger] after[x]).0
                == scores[x].0 by {}
            match score_index(scores, other) {
                Some(j) => {
                    assert(after[j].0@ == other);
                    assert forall|x: int| 0 <= x < j implies (#[trigger] after[x]).0@ != other by {
                        assert(after[x].0 == scores[x].0);
                    }
                    score_index_is(after, other, j);
                },
                None => {
                    if let Some(j) = score_index(after, other) {
                        assert(after[j].0 == scores[j].0);
                    }
                },
            }
        },
        None => {
            assert forall|x: int| 0 <= x < scores.len() implies #[trigger] after[x]
                == scores[x] by {}
            match score_index(scores, other) {
                Some(j) => {
                    score_index_is(after, other, j);
                },
                None => {
                    if other == id@ {
                        score_index_is(after, other, scores.len() as int);
                    } else if let Some(j) = score_index(after, other) {
                        if j < scores.len() {
                            assert(after[j] == scores[j]);
                        }
                    }
                },
            }
        },
    }
}

proof fn entity_keeps_ok(v: ExpansionView, counted: nat, e: ContextEntity, h: Handover)
    requires
        expansion_ok(v),
        entities_scored(v, h.seed_id),
        counted <= h.cap,
    ensures
        expansion_ok(entity_added(v, counted, e, h).0),
        entities_scored(entity_added(v, counted, e, h).0, h.seed_id),
        entity_added(v, counted, e, h).1 <= h.cap,
        forall|id: Seq<char>|
            is_scored(v, id) ==> #[trigger] is_scored(entity_added(v, counted, e, h).0, id),
{
    let w = entity_added(v, counted, e, h).0;
    if !is_foreign(e, h.group_id) && (e.id@ == h.seed_id || counted < h.cap) {
        assert forall|id: Seq<char>| is_scored(v, id) implies #[trigger] is_scored(w, id) by {
            law_neighbour_keeps_its_best_score(
                v.neighbour_scores,
                e.id,
                held_to_unit(h.decayed),
                id,
            );
        }
        law_neighbour_keeps_its_best_score(
            v.neighbour_scores,
            e.id,
            held_to_unit(h.decayed),
            e.id@,
        );
        score_index_is_first(v.neighbour_scores, e.id@);
        assert forall|i: int| 0 <= i < w.entities.len() implies (#[trigger] w.entities[i]).id@
            == h.seed_id || is_scored(w, w.entities[i].id@) by {
            if i < v.entities.len() {
                assert(w.entities[i] == v.entities[i]);
            }
        }
        assert forall|i: int, j: int| 0 <= i < j < w.entities.len() implies (
        #[trigger] w.entities[i]).id@ != (#[trigger] w.entities[j]).id@ by {
            assert(w.entities[i] == v.entities[i]);
            if j < v.entities.len() {
                assert(w.entities[j] == v.entities[j]);
            }
        }
        if e.id@ != h.seed_id {
            let a = v.neighbour_scores;
            let b = w.neighbour_scores;
            assert forall|i: int, j: int| 0 <= i < j < b.len() implies (#[trigger] b[i]).0@ != (
            #[trigger] b[j]).0@ by {
                if j < a.len() {
                    assert(b[i].0 == a[i].0 && b[j].0 == a[j].0);
                    assert(a[i].0@ != a[j].0@);
                } else {
                    assert(b[i] == a[i]);
                }
            }
        }
    }
}

/// While a seed is expanded nothing comes to stand twice, every entity has a score or is
/// the seed itself, and the seed brings in no more neighbours than the cap.
pub proof fn law_seed_stays_within_its_cap(
    v: ExpansionView,
    neighbourhood: Seq<ContextEntity>,
    h: Handover,
    n: nat,
)
    requires
        n <= neighbourhood.len(),
        expansion_ok(v),
        entities_scored(v, h.seed_id),
    ensures
        expansion_ok(entities_added(v, neighbourhood, h, n).0),
        entities_scored(entities_added(v, neighbourhood, h, n).0, h.seed_id),
        entities_added(v, neighbourhood, h, n).1 <= h.cap,
    decreases n,
{
    if n > 0 {
        law_seed_stays_within_its_cap(v, neighbourhood, h, (n - 1) as nat);
        let (before, counted) = entities_added(v, neighbourhood, h, (n - 1) as nat);
        entity_keeps_ok(before, counted, neighbourhood[n - 1], h);
    }
}

proof fn facts_stay_distinct(facts: Seq<i64>, more: Seq<i64>, n: nat)
    requires
        facts.no_duplicates(),
    ensures
        facts_added(facts, more, n).no_duplicates(),
    decreases n,
{
    if n > 0 {
        facts_stay_distinct(facts, more, (n - 1) as nat);
    }
}

/// Every entity of an expansion has a score.
pub open spec fn fully_scored(v: ExpansionView) -> bool {
    forall|i: int| 0 <= i < v.entities.len() ==> is_scored(v, (#[trigger] v.entities[i]).id@)
}

/// Expanding a seed leaves nothing twice, and every entity has a score.
pub proof fn law_expansion_scores_every_entity(
    v: ExpansionView,
    seed_id: String,
    seed_score: Binary32,
    neighbourhood: Seq<ContextEntity>,
    facts: Seq<i64>,
    h: Handover,
)
    requires
        expansion_ok(v),
        fully_scored(v),
        h.seed_id == seed_id@,
    ensures
        expansion_ok(seed_added(v, seed_id, seed_score, neighbourhood, facts, h)),
        fully_scored(seed_added(v, seed_id, seed_score, neighbourhood, facts, h)),
{
    let sorted = sorted_by_id(neighbourhood);
    let w = entities_added(v, sorted, h, sorted.len()).0;
    let after = seed_added(v, seed_id, seed_score, neighbourhood, facts, h);
    law_seed_stays_within_its_cap(v, sorted, h, sorted.len());
    expansion_touches_no_facts(v, sorted, h, sorted.len());
    facts_stay_distinct(v.facts, facts, facts.len());
    let seeds = after.seed_scores;
    assert(seeds == v.seed_scores.push((seed_id, held_to_unit(seed_score))));
    assert forall|i: int| 0 <= i < after.entities.len() implies is_scored(
        after,
        (#[trigger] after.entities[i]).id@,
    ) by {
        let id = after.entities[i].id@;
        assert(after.entities[i] == w.entities[i]);
        score_index_is_first(seeds, id);
        if id == h.seed_id {
            assert(seeds[seeds.len() - 1].0@ == id);
        } else {
            assert(is_scored(w, id));
            if let Some(k) = score_index(w.seed_scores, id) {
                score_index_is_first(w.seed_scores, id);
                assert(seeds[k] == w.seed_scores[k]);
            }
        }
    }
}

proof fn merged_scores_are_there(v: ExpansionView, n: nat, id: Seq<char>)
    requires
        n <= v.neighbour_scores.len(),
    ensures
        score_index(v.seed_scores, id) is Some ==> score_index(scores_merged(v, n), id)
            == score_index(v.seed_scores, id) && score_of(scores_merged(v, n), id) == score_of(
            v.seed_scores,
            id,
        ),
        (exists|k: int| 0 <= k < n && (#[trigger] v.neighbour_scores[k]).0@ == id) ==> score_index(
            scores_merged(v, n),
            id,
        ) is Some,
        v.seed_scores.len() <= scores_merged(v, n).len(),
        forall|k: int|
            0 <= k < v.seed_scores.len() ==> #[trigger] scores_merged(v, n)[k]
                == v.seed_scores[k],
    decreases n,
{
    if n > 0 {
        merged_scores_are_there(v, (n - 1) as nat, id);
        let before = scores_merged(v, (n - 1) as nat);
        let after = scores_merged(v, n);
        let entry = v.neighbour_scores[n - 1];
        score_index_is_first(before, id);
        score_index_is_first(after, id);
        score_index_is_first(v.seed_scores, id);
        assert forall|x: int| 0 <= x < before.len() implies #[trigger] after[x] == before[x] by {}
        if let Some(i) = score_index(before, id) {
            score_index_is(after, id, i);
        }
        if entry.0@ == id && score_index(v.seed_scores, id) is None {
            assert(after[after.len() - 1].0@ == id);
        }
        assert forall|k: int| 0 <= k < v.seed_scores.len() implies #[trigger] after[k]
            == v.seed_scores[k] by {
            assert(before[k] == v.seed_scores[k]);
        }
    }
}

/// A seed that is also a neighbour keeps its own score.
pub proof fn law_seed_score_is_its_own(v: ExpansionView, id: Seq<char>)
    requires
        score_index(v.seed_scores, id) is Some,
    ensures
        score_of(all_scores(v), id) == score_of(v.seed_scores, id),
{
    merged_scores_are_there(v, v.neighbour_scores.len(), id);
}

/// `id` has an entry in the scores.
pub open spec fn has_entry(scores: Seq<(String, Binary32)>, id: Seq<char>) -> bool {
    exists|k: int| 0 <= k < scores.len() && (#[trigger] scores[k]).0@ == id
}

proof fn kept_scores_are_there(v: ExpansionView, floor: Binary32, n: nat, id: Seq<char>)
    requires
        n <= all_scores(v).len(),
    ensures
        has_entry(scores_kept(v, floor, n), id) <==> stays(v, floor, id) && has_entry(
            all_scores(v).take(n as int),
            id,
        ),
    decreases n,
{
    let all = all_scores(v);
    if n > 0 {
        kept_scores_are_there(v, floor, (n - 1) as nat, id);
        let before = scores_kept(v, floor, (n - 1) as nat);
        let after = scores_kept(v, floor, n);
        let shorter = all.take(n - 1);
        let longer = all.take(n as int);
        assert forall|x: int| 0 <= x < before.len() implies #[trigger] after[x] == before[x] by {}
        assert forall|x: int| 0 <= x < shorter.len() implies #[trigger] longer[x]
            == shorter[x] by {}
        assert(longer[n - 1] == all[n - 1]);
        if has_entry(before, id) {
            let k = choose|k: int| 0 <= k < before.len() && (#[trigger] before[k]).0@ == id;
            assert(after[k].0@ == id);
        }
        if has_entry(shorter, id) {
            let k = choose|k: int| 0 <= k < shorter.len() && (#[trigger] shorter[k]).0@ == id;
            assert(longer[k].0@ == id);
        }
        if all[n - 1].0@ == id && stays(v, floor, id) {
            assert(after[after.len() - 1].0@ == id);
        }
        if has_entry(after, id) && !has_entry(before, id) {
            let k = choose|k: int| 0 <= k < after.len() && (#[trigger] after[k]).0@ == id;
            if k < before.len() {
                assert(before[k].0@ == id);
            }
        }
        if has_entry(longer, id) && !has_entry(shorter, id) {
            let k = choose|k: int| 0 <= k < longer.len() && (#[trigger] longer[k]).0@ == id;
            if k < shorter.len() {
                assert(shorter[k].0@ == id);
            }
        }
    }
}

proof fn kept_entities_stay(v: ExpansionView, floor: Binary32, n: nat)
    requires
        n <= v.entities.len(),
    ensures
        forall|i: int|
            0 <= i < entities_kept(v, floor, n).len() ==> stays(
                v,
                floor,
                (#[trigger] entities_kept(v, floor, n)[i]).id@,
            ) && v.entities.contains(entities_kept(v, floor, n)[i]),
        forall|x: int|
            0 <= x < n && stays(v, floor, (#[trigger] v.entities[x]).id@) ==> entities_kept(
                v,
                floor,
                n,
            ).contains(v.entities[x]),
    decreases n,
{
    if n > 0 {
        kept_entities_stay(v, floor, (n - 1) as nat);
        let before = entities_kept(v, floor, (n - 1) as nat);
        let after = entities_kept(v, floor, n);
        assert forall|i: int| 0 <= i < after.len() implies stays(
            v,
            floor,
            (#[trigger] after[i]).id@,
        ) && v.entities.contains(after[i]) by {
            if i < before.len() {
                assert(after[i] == before[i]);
            } else {
                assert(v.entities[n - 1] == after[i]);
            }
        }
        assert forall|x: int|
            0 <= x < n && stays(v, floor, (#[trigger] v.entities[x]).id@) implies after.contains(
            v.entities[x],
        ) by {
            if x < n - 1 {
                let i = choose|i: int| 0 <= i < before.len() && before[i] == v.entities[x];
                assert(after[i] == v.entities[x]);
            } else {
                assert(after[before.len() as int] == v.entities[x]);
            }
        }
    }
}

/// Every entity that a recall returns has a score beside it.
pub proof fn law_every_returned_entity_has_a_score(v: ExpansionView, floor: Binary32, i: int)
    requires
        fully_scored(v),
        0 <= i < entities_kept(v, floor, v.entities.len()).len(),
    ensures
        has_entry(
            scores_kept(v, floor, all_scores(v).len()),
            entities_kept(v, floor, v.entities.len())[i].id@,
        ),
{
    let e = entities_kept(v, floor, v.entities.len())[i];
    let all = all_scores(v);
    kept_entities_stay(v, floor, v.entities.len());
    let x = choose|x: int| 0 <= x < v.entities.len() && v.entities[x] == e;
    assert(is_scored(v, v.entities[x].id@));
    merged_scores_are_there(v, v.neighbour_scores.len(), e.id@);
    if let Some(k) = score_index(v.neighbour_scores, e.id@) {
        score_index_is_first(v.neighbour_scores, e.id@);
        assert(v.neighbour_scores[k].0@ == e.id@);
    }
    score_index_is_first(all, e.id@);
    let at = score_index(all, e.id@)->0;
    assert(all.take(all.len() as int) =~= all);
    assert(all[at].0@ == e.id@);
    kept_scores_are_there(v, floor, all.len(), e.id@);
}

/// The floor drops seeds only, and exactly those that do not reach it: a dropped seed is
/// neither returned nor scored, and every neighbour stays.
pub proof fn law_floor_drops_only_seeds(v: ExpansionView, floor: Binary32, x: int)
    requires
        0 <= x < v.entities.len(),
    ensures
        ({
            let e = v.entities[x];
            let is_seed = score_index(v.seed_scores, e.id@) is Some;
            let reaches = survives(all_scores(v), floor, e.id@);
            &&& entities_kept(v, floor, v.entities.len()).contains(e) <==> !is_seed || reaches
            &&& is_seed && !reaches ==> !has_entry(
                scores_kept(v, floor, all_scores(v).len()),
                e.id@,
            )
        }),
{
    let e = v.entities[x];
    let all = all_scores(v);
    kept_entities_stay(v, floor, v.entities.len());
    let kept = entities_kept(v, floor, v.entities.len());
    if kept.contains(e) {
        let i = choose|i: int| 0 <= i < kept.len() && kept[i] == e;
        assert(stays(v, floor, kept[i].id@));
    }
    assert(all.take(all.len() as int) =~= all);
    kept_scores_are_there(v, floor, all.len(), e.id@);
}

/// No id occurs twice.
pub open spec fn distinct_texts(ids: Seq<String>) -> bool {
    forall|i: int, j: int|
        0 <= i < j < ids.len() ==> (#[trigger] ids[i])@ != (#[trigger] ids[j])@
}

/// The access of every seed that reaches the floor is counted exactly once, and no other
/// access is counted.
pub proof fn law_survivors_are_counted_once(
    seed_ids: Seq<String>,
    scores: Seq<(String, Binary32)>,
    floor: Binary32,
    n: nat,
)
    requires
        n <= seed_ids.len(),
        distinct_texts(seed_ids),
    ensures
        distinct_texts(survivors(seed_ids, scores, floor, n)),
        forall|i: int|
            0 <= i < survivors(seed_ids, scores, floor, n).len() ==> survives(
                scores,
                floor,
                (#[trigger] survivors(seed_ids, scores, floor, n)[i])@,
            ) && seed_ids.take(n as int).contains(survivors(seed_ids, scores, floor, n)[i]),
        forall|j: int|
            0 <= j < n && survives(scores, floor, (#[trigger] seed_ids[j])@) ==> survivors(
                seed_ids,
                scores,
                floor,
                n,
            ).contains(seed_ids[j]),
    decreases n,
{
    if n > 0 {
        law_survivors_are_counted_once(seed_ids, scores, floor, (n - 1) as nat);
        let before = survivors(seed_ids, scores, floor, (n - 1) as nat);
        let after = survivors(seed_ids, scores, floor, n);
        let last = seed_ids[n - 1];
        let shorter = seed_ids.take(n - 1);
        let longer = seed_ids.take(n as int);
        assert(longer[n - 1] == last);
        assert forall|i: int| 0 <= i < before.len() implies longer.contains(#[trigger] before[i])
            && before[i]@ != last@ by {
            let j = choose|j: int| 0 <= j < shorter.len() && shorter[j] == before[i];
            assert(longer[j] == before[i]);
            assert(seed_ids[j] == before[i]);
        }
        assert forall|i: int, j: int| 0 <= i < j < after.len() implies (#[trigger] after[i])@ != (
        #[trigger] after[j])@ by {
            assert(after[i] == before[i]);
        }
        assert forall|j: int|
            0 <= j < n && survives(scores, floor, (#[trigger] seed_ids[j])@) implies after.contains(
            seed_ids[j],
        ) by {
            if j < n - 1 {
                let i = choose|i: int| 0 <= i < before.len() && before[i] == seed_ids[j];
                assert(after[i] == seed_ids[j]);
            } else {
                assert(after[before.len() as int] == seed_ids[j]);
            }
        }
        assert forall|i: int| 0 <= i < after.len() implies survives(
            scores,
            floor,
            (#[trigger] after[i])@,
        ) && longer.contains(after[i]) by {
            if i < before.len() {
                assert(after[i] == before[i]);
            }
        }
    }
}

/// A floor that is not positive drops nothing.
pub proof fn law_no_floor_keeps_every_seed(
    seed_ids: Seq<String>,
    scores: Seq<(String, Binary32)>,
    floor: Binary32,
    n: nat,
)
    requires
        floor.le(Binary32::zero_value()),
        n <= seed_ids.len(),
    ensures
        survivors(seed_ids, scores, floor, n) == seed_ids.take(n as int),
    decreases n,
{
    if n > 0 {
        law_no_floor_keeps_every_seed(seed_ids, scores, floor, (n - 1) as nat);
        assert(seed_ids.take(n as int) =~= seed_ids.take(n - 1).push(seed_ids[n - 1]));
    } else {
        assert(seed_ids.take(0) =~= seq![]);
    }
}

/// Every score lies in `[0, 1]`.
pub open spec fn in_unit(scores: Seq<(String, Binary32)>) -> bool {
    forall|i: int|
        0 <= i < scores.len() ==> Binary32::zero_value().le((#[trigger] scores[i]).1)
            && scores[i].1.le(Binary32::one_value())
}

proof fn handing_on_stays_in_unit(scores: Seq<(String, Binary32)>, id: String, s: Binary32)
    requires
        in_unit(scores),
        Binary32::zero_value().le(s),
        s.le(Binary32::one_value()),
    ensures
        in_unit(with_score(scores, id, s)),
{
    let after = with_score(scores, id, s);
    score_index_is_first(scores, id@);
    assert forall|i: int| 0 <= i < after.len() implies Binary32::zero_value().le(
        (#[trigger] after[i]).1,
    ) && after[i].1.le(Binary32::one_value()) by {
        if i < scores.len() {
            assert(Binary32::zero_value().le(scores[i].1));
        }
    }
}

proof fn expanding_stays_in_unit(
    v: ExpansionView,
    neighbourhood: Seq<ContextEntity>,
    h: Handover,
    n: nat,
)
    requires
        in_unit(v.neighbour_scores),
    ensures
        in_unit(entities_added(v, neighbourhood, h, n).0.neighbour_scores),
    decreases n,
{
    if n > 0 {
        expanding_stays_in_unit(v, neighbourhood, h, (n - 1) as nat);
        let before = entities_added(v, neighbourhood, h, (n - 1) as nat).0;
        handing_on_stays_in_unit(
            before.neighbour_scores,
            neighbourhood[n - 1].id,
            held_to_unit(h.decayed),
        );
    }
}

proof fn merging_stays_in_unit(v: ExpansionView, n: nat)
    requires
        n <= v.neighbour_scores.len(),
        in_unit(v.seed_scores),
        in_unit(v.neighbour_scores),
    ensures
        in_unit(scores_merged(v, n)),
    decreases n,
{
    if n > 0 {
        merging_stays_in_unit(v, (n - 1) as nat);
        let before = scores_merged(v, (n - 1) as nat);
        let after = scores_merged(v, n);
        assert forall|i: int| 0 <= i < after.len() implies Binary32::zero_value().le(
            (#[trigger] after[i]).1,
        ) && after[i].1.le(Binary32::one_value()) by {
            if i < before.len() {
                assert(after[i] == before[i]);
            } else {
                assert(v.neighbour_scores[n - 1] == after[i]);
            }
        }
    }
}

proof fn dropping_stays_in_unit(v: ExpansionView, floor: Binary32, n: nat)
    requires
        n <= all_scores(v).len(),
        in_unit(all_scores(v)),
    ensures
        in_unit(scores_kept(v, floor, n)),
    decreases n,
{
    if n > 0 {
        dropping_stays_in_unit(v, floor, (n - 1) as nat);
        let before = scores_kept(v, floor, (n - 1) as nat);
        let after = scores_kept(v, floor, n);
        assert forall|i: int| 0 <= i < after.len() implies Binary32::zero_value().le(
            (#[trigger] after[i]).1,
        ) && after[i].1.le(Binary32::one_value()) by {
            if i < before.len() {
                assert(after[i] == before[i]);
            } else {
                assert(all_scores(v)[n - 1] == after[i]);
            }
        }
    }
}

/// Whatever a seed scores and hands on, every score of the expansion stays in `[0, 1]`.
pub proof fn law_scores_stay_in_unit(
    v: ExpansionView,
    seed_id: String,
    seed_score: Binary32,
    neighbourhood: Seq<ContextEntity>,
    facts: Seq<i64>,
    h: Handover,
)
    requires
        in_unit(v.seed_scores),
        in_unit(v.neighbour_scores),
    ensures
        ({
            let after = seed_added(v, seed_id, seed_score, neighbourhood, facts, h);
            &&& in_unit(after.seed_scores)
            &&& in_unit(after.neighbour_scores)
        }),
{
    let sorted = sorted_by_id(neighbourhood);
    let after = seed_added(v, seed_id, seed_score, neighbourhood, facts, h);
    expanding_stays_in_unit(v, sorted, h, sorted.len());
    expansion_touches_no_facts(v, sorted, h, sorted.len());
    let seeds = after.seed_scores;
    assert forall|i: int| 0 <= i < seeds.len() implies Binary32::zero_value().le(
        (#[trigger] seeds[i]).1,
    ) && seeds[i].1.le(Binary32::one_value()) by {
        if i < v.seed_scores.len() {
            assert(seeds[i] == v.seed_scores[i]);
        }
    }
}

/// An expansion whose scores lie in `[0, 1]` returns only such scores, whatever the floor.
pub proof fn law_returned_scores_lie_in_unit(v: ExpansionView, floor: Binary32)
    requires
        in_unit(v.seed_scores),
        in_unit(v.neighbour_scores),
    ensures
        in_unit(all_scores(v)),
        in_unit(scores_kept(v, floor, all_scores(v).len())),
{
    merging_stays_in_unit(v, v.neighbour_scores.len());
    dropping_stays_in_unit(v, floor, all_scores(v).len());
}

/// The places of `more` whose fact is new: it is not among `facts`, nor further up in `more`.
pub open spec fn new_facts(facts: Seq<i64>, more: Seq<i64>) -> spec_fn(int) -> bool {
    |k: int|
        !facts.contains(more[k]) && forall|j: int| 0 <= j < k ==> #[trigger] more[j] != more[k]
}

proof fn facts_are_selected(facts: Seq<i64>, more: Seq<i64>, n: nat)
    requires
        n <= more.len(),
    ensures
        facts_added(facts, more, n).len() >= facts.len(),
        facts_added(facts, more, n).take(facts.len() as int) == facts,
        selects(
            facts_added(facts, more, n).skip(facts.len() as int),
            n,
            new_facts(facts, more),
            |k: int| more[k],
        ),
        forall|id: i64| #[trigger]
            facts_added(facts, more, n).contains(id) <==> facts.contains(id) || more.take(
                n as int,
            ).contains(id),
    decreases n,
{
    let value = |k: int| more[k];
    let keep = new_facts(facts, more);
    let all = facts_added(facts, more, n);
    let m = facts.len() as int;
    if n == 0 {
        assert(all.take(m) =~= facts);
        assert(all.skip(m) =~= Seq::<i64>::empty());
        selects_from_none(keep, value);
        assert(more.take(0) =~= Seq::<i64>::empty());
    } else {
        facts_are_selected(facts, more, (n - 1) as nat);
        let before = facts_added(facts, more, (n - 1) as nat);
        let x = more[n - 1];
        assert(before.contains(x) <==> facts.contains(x) || more.take(n - 1).contains(x));
        if keep(n - 1) {
            if more.take(n - 1).contains(x) {
                let upto = more.take(n - 1);
                let j = choose|j: int| 0 <= j < upto.len() && upto[j] == x;
                assert(more[j] == x);
            }
            assert(all.skip(m) =~= before.skip(m).push(x));
        } else {
            if !facts.contains(x) {
                let j = choose|j: int| 0 <= j < n - 1 && #[trigger] more[j] == x;
                assert(more.take(n - 1)[j] == x);
            }
        }
        selects_one_more(before.skip(m), all.skip(m), (n - 1) as nat, keep, value);
        assert(all.take(m) =~= before.take(m));
        assert(more.take(n as int) =~= more.take(n - 1).push(x));
        assert forall|id: i64| #[trigger] all.contains(id) <==> facts.contains(id) || more.take(
            n as int,
        ).contains(id) by {
            assert(before.contains(id) <==> facts.contains(id) || more.take(n - 1).contains(id));
            let (a, b) = (more.take(n - 1), more.take(n as int));
            if a.contains(id) {
                let i = choose|i: int| 0 <= i < a.len() && a[i] == id;
                assert(b[i] == id);
            }
            assert(b[n - 1] == x);
            if b.contains(id) && id != x {
                let i = choose|i: int| 0 <= i < b.len() && b[i] == id;
                assert(a[i] == id);
            }
            if before.contains(id) {
                let i = choose|i: int| 0 <= i < before.len() && before[i] == id;
                assert(all[i] == id);
            }
            if all.contains(id) && !before.contains(id) {
                let i = choose|i: int| 0 <= i < all.len() && all[i] == id;
                if i < before.len() {
                    assert(before[i] == id);
                }
                assert(id == x);
            }
            if id == x && !before.contains(x) {
                assert(all[before.len() as int] == x);
            }
        }
    }
}

/// Every fact that a seed brings in is kept, whatever its id, and nothing else: the facts
/// that were there stay in front, and behind them come the new ones in the order in which
/// they were found, each once.
pub proof fn law_facts_are_gathered(facts: Seq<i64>, more: Seq<i64>)
    ensures
        ({
            let all = facts_added(facts, more, more.len());
            &&& forall|id: i64| #[trigger]
                all.contains(id) <==> facts.contains(id) || more.contains(id)
            &&& facts.no_duplicates() ==> all.no_duplicates()
            &&& all.take(facts.len() as int) == facts
            &&& selects(
                all.skip(facts.len() as int),
                more.len(),
                new_facts(facts, more),
                |k: int| more[k],
            )
        }),
{
    facts_are_selected(facts, more, more.len());
    assert(more.take(more.len() as int) =~= more);
    if facts.no_duplicates() {
        facts_stay_distinct(facts, more, more.len());
    }
}

/// A seed adds its own facts to the expansion, all of them and no other.
pub proof fn law_seed_brings_its_facts(
    v: ExpansionView,
    seed_id: String,
    seed_score: Binary32,
    neighbourhood: Seq<ContextEntity>,
    facts: Seq<i64>,
    h: Handover,
    id: i64,
)
    ensures
        seed_added(v, seed_id, seed_score, neighbourhood, facts, h).facts.contains(id)
            <==> v.facts.contains(id) || facts.contains(id),
{
    law_facts_are_gathered(v.facts, facts);
}

/// A score that lies in `[0, 1]` is held as it is; a greater one is one, a lesser one zero,
/// and what is no number is one.
pub proof fn law_holding_changes_only_what_is_outside(score: Binary32)
    ensures
        score.nan() ==> held_to_unit(score) == (Binary32 { bits: 0x3f80_0000 }),
        Binary32::zero_value().le(score) && score.le(Binary32::one_value()) ==> held_to_unit(score)
            == score,
        Binary32::one_value().lt(score) ==> held_to_unit(score) == (Binary32 { bits: 0x3f80_0000 }),
        score.lt(Binary32::zero_value()) ==> held_to_unit(score) == (Binary32 { bits: 0 }),
{
}

/// The score of an id is the one it has at its first place, and an id that stands nowhere
/// has none.
pub proof fn law_score_is_the_first(scores: Seq<(String, Binary32)>, id: Seq<char>)
    ensures
        match score_of(scores, id) {
            Some(s) => exists|i: int|
                0 <= i < scores.len() && (#[trigger] scores[i]).0@ == id && scores[i].1 == s
                    && forall|x: int| 0 <= x < i ==> (#[trigger] scores[x]).0@ != id,
            None => forall|x: int| 0 <= x < scores.len() ==> (#[trigger] scores[x]).0@ != id,
        },
{
    score_index_is_first(scores, id);
    if let Some(i) = score_index(scores, id) {
        assert(scores[i].0@ == id && scores[i].1 == score_of(scores, id)->0);
    }
}

/// The entities with the id, in order.
pub open spec fn with_id(entities: Seq<ContextEntity>, id: Seq<char>) -> Seq<ContextEntity>
    decreases entities.len(),
{
    if entities.len() == 0 {
        seq![]
    } else if entities.last().id@ == id {
        with_id(entities.drop_last(), id).push(entities.last())
    } else {
        with_id(entities.drop_last(), id)
    }
}

proof fn insertion_by_id_sorts(sorted: Seq<ContextEntity>, e: ContextEntity)
    requires
        forall|i: int, j: int|
            0 <= i < j < sorted.len() ==> !text_before(
                (#[trigger] sorted[j]).id@,
                (#[trigger] sorted[i]).id@,
            ),
    ensures
        ({
            let out = insert_by_id(sorted, e);
            &&& out.len() == sorted.len() + 1
            &&& forall|i: int, j: int|
                0 <= i < j < out.len() ==> !text_before(
                    (#[trigger] out[j]).id@,
                    (#[trigger] out[i]).id@,
                )
            &&& forall|i: int|
                0 <= i < out.len() ==> #[trigger] out[i] == e || sorted.contains(out[i])
            &&& out.to_multiset() == sorted.to_multiset().insert(e)
            &&& forall|id: Seq<char>| #[trigger]
                with_id(out, id) == (if e.id@ == id {
                    with_id(sorted, id).push(e)
                } else {
                    with_id(sorted, id)
                })
        }),
    decreases sorted.len(),
{
    broadcast use vstd::seq_lib::group_to_multiset_ensures;

    let out = insert_by_id(sorted, e);
    if sorted.len() > 0 && text_before(e.id@, sorted.last().id@) {
        let front = sorted.drop_last();
        let last = sorted.last();
        assert forall|i: int, j: int| 0 <= i < j < front.len() implies !text_before(
            (#[trigger] front[j]).id@,
            (#[trigger] front[i]).id@,
        ) by {
            assert(front[i] == sorted[i] && front[j] == sorted[j]);
        }
        insertion_by_id_sorts(front, e);
        let inner = insert_by_id(front, e);
        crate::text::text_order_irreflexive(e.id@);
        crate::text::text_order_total(e.id@, last.id@);
        assert(sorted =~= front.push(last));
        assert(out.drop_last() =~= inner);
        assert(out.to_multiset() =~= sorted.to_multiset().insert(e));
        assert forall|i: int| 0 <= i < out.len() implies #[trigger] out[i] == e
            || sorted.contains(out[i]) by {
            if i < inner.len() {
                assert(out[i] == inner[i]);
                if inner[i] != e {
                    let k = choose|k: int| 0 <= k < front.len() && front[k] == inner[i];
                    assert(sorted[k] == inner[i]);
                }
            } else {
                assert(sorted[sorted.len() - 1] == out[i]);
            }
        }
        assert forall|i: int, j: int| 0 <= i < j < out.len() implies !text_before(
            (#[trigger] out[j]).id@,
            (#[trigger] out[i]).id@,
        ) by {
            assert(out[i] == inner[i]);
            if j < inner.len() {
                assert(out[j] == inner[j]);
            } else if inner[i] != e {
                let k = choose|k: int| 0 <= k < front.len() && front[k] == inner[i];
                assert(sorted[k] == inner[i]);
                assert(sorted[sorted.len() - 1] == last);
            }
        }
        assert forall|id: Seq<char>| #[trigger] with_id(out, id) == (if e.id@ == id {
            with_id(sorted, id).push(e)
        } else {
            with_id(sorted, id)
        }) by {
            assert(with_id(inner, id) == (if e.id@ == id {
                with_id(front, id).push(e)
            } else {
                with_id(front, id)
            }));
        }
    } else {
        assert(out.drop_last() =~= sorted);
        assert forall|i: int| 0 <= i < out.len() implies #[trigger] out[i] == e
            || sorted.contains(out[i]) by {
            if i < sorted.len() {
                assert(sorted[i] == out[i]);
            }
        }
        assert forall|i: int, j: int| 0 <= i < j < out.len() implies !text_before(
            (#[trigger] out[j]).id@,
            (#[trigger] out[i]).id@,
        ) by {
            assert(out[i] == sorted[i]);
            if j < sorted.len() {
                assert(out[j] == sorted[j]);
            } else if i < sorted.len() - 1 && text_before(e.id@, sorted[i].id@) {
                let last = sorted[sorted.len() - 1];
                assert(last == sorted.last());
                assert(!text_before(last.id@, sorted[i].id@));
                crate::text::text_order_total(e.id@, last.id@);
                if e.id@ != last.id@ {
                    crate::text::text_order_transitive(last.id@, e.id@, sorted[i].id@);
                }
            }
        }
    }
}

/// A neighbourhood is gone through by id, and every entity of it exactly once; entities of
/// the same id keep their order.
pub proof fn law_neighbourhood_is_sorted(entities: Seq<ContextEntity>)
    ensures
        ({
            let out = sorted_by_id(entities);
            &&& forall|i: int, j: int|
                0 <= i < j < out.len() ==> !text_before(
                    (#[trigger] out[j]).id@,
                    (#[trigger] out[i]).id@,
                )
            &&& out.len() == entities.len()
            &&& out.to_multiset() == entities.to_multiset()
            &&& forall|id: Seq<char>| #[trigger] with_id(out, id) == with_id(entities, id)
        }),
    decreases entities.len(),
{
    broadcast use vstd::seq_lib::group_to_multiset_ensures;

    if entities.len() > 0 {
        let front = entities.drop_last();
        law_neighbourhood_is_sorted(front);
        insertion_by_id_sorts(sorted_by_id(front), entities.last());
        assert(entities =~= front.push(entities.last()));
        assert forall|id: Seq<char>| #[trigger] with_id(sorted_by_id(entities), id) == with_id(
            entities,
            id,
        ) by {
            assert(with_id(sorted_by_id(front), id) == with_id(front, id));
        }
    } else {
        assert(sorted_by_id(entities) =~= entities);
    }
}

/// The entity may be seen from the namespace that is asked for: it belongs to it, or one of
/// the two names no namespace.
pub open spec fn is_visible(e: ContextEntity, h: Handover) -> bool {
    h.group_id is None || e.group_id is None || e.group_id->0@ == h.group_id->0
}

/// How many of the first `k` entities are visible neighbours of the seed.
pub open spec fn neighbours_upto(neighbourhood: Seq<ContextEntity>, h: Handover, k: nat) -> nat
    decreases k,
{
    if k == 0 {
        0
    } else {
        neighbours_upto(neighbourhood, h, (k - 1) as nat) + (if is_visible(
            neighbourhood[k - 1],
            h,
        ) && neighbourhood[k - 1].id@ != h.seed_id {
            1nat
        } else {
            0nat
        })
    }
}

/// Entity `k` is brought in: it is visible, and it is the seed or one of the first `cap`
/// neighbours.
pub open spec fn is_brought_in(neighbourhood: Seq<ContextEntity>, h: Handover, k: int) -> bool {
    &&& is_visible(neighbourhood[k], h)
    &&& neighbourhood[k].id@ == h.seed_id || neighbours_upto(neighbourhood, h, k as nat) < h.cap
}

/// The places of the neighbourhood whose entity is new: it is brought in, it was not found
/// before, and no entity further up that is brought in has its id.
pub open spec fn new_entities(v: ExpansionView, neighbourhood: Seq<ContextEntity>, h: Handover) -> spec_fn(
    int,
) -> bool {
    |k: int|
        {
            &&& is_brought_in(neighbourhood, h, k)
            &&& forall|i: int|
                0 <= i < v.entities.len() ==> (#[trigger] v.entities[i]).id@ != neighbourhood[k].id@
            &&& forall|j: int|
                0 <= j < k && is_brought_in(neighbourhood, h, j) ==> (
                #[trigger] neighbourhood[j]).id@ != neighbourhood[k].id@
        }
}

/// The id is that of a neighbour which is brought in among the first `n` entities.
pub open spec fn is_new_neighbour(
    neighbourhood: Seq<ContextEntity>,
    h: Handover,
    n: int,
    id: Seq<char>,
) -> bool {
    id != h.seed_id && exists|k: int|
        0 <= k < n && #[trigger] is_brought_in(neighbourhood, h, k) && neighbourhood[k].id@ == id
}

/// Expanding a seed over the first `n` entities of its neighbourhood: the cap counts the
/// visible neighbours, hidden ones and the seed are free; what is brought in stands behind
/// what was there, in order and each id once; and exactly the neighbours that are brought in
/// get the seed's share, on top of the best they had.
pub proof fn law_seed_brings_its_neighbours(
    v: ExpansionView,
    neighbourhood: Seq<ContextEntity>,
    h: Handover,
    n: nat,
)
    requires
        n <= neighbourhood.len(),
    ensures
        ({
            let (after, counted) = entities_added(v, neighbourhood, h, n);
            let share = held_to_unit(h.decayed);
            &&& counted == (if neighbours_upto(neighbourhood, h, n) <= h.cap {
                neighbours_upto(neighbourhood, h, n)
            } else {
                h.cap as nat
            })
            &&& after.entities.len() >= v.entities.len()
            &&& after.entities.take(v.entities.len() as int) == v.entities
            &&& selects(
                after.entities.skip(v.entities.len() as int),
                n,
                new_entities(v, neighbourhood, h),
                |k: int| neighbourhood[k],
            )
            &&& forall|id: Seq<char>| #[trigger]
                is_found(after.entities, id) <==> is_found(v.entities, id) || exists|k: int|
                    0 <= k < n && #[trigger] is_brought_in(neighbourhood, h, k)
                        && neighbourhood[k].id@ == id
            &&& forall|id: Seq<char>| #[trigger]
                score_of(after.neighbour_scores, id) == (if is_new_neighbour(
                    neighbourhood,
                    h,
                    n as int,
                    id,
                ) {
                    Some(
                        match score_of(v.neighbour_scores, id) {
                            Some(best) => best.greater(share),
                            None => share,
                        },
                    )
                } else {
                    score_of(v.neighbour_scores, id)
                })
        }),
    decreases n,
{
    let (after, counted) = entities_added(v, neighbourhood, h, n);
    let share = held_to_unit(h.decayed);
    let keep = new_entities(v, neighbourhood, h);
    let value = |k: int| neighbourhood[k];
    let m = v.entities.len() as int;
    if n == 0 {
        assert(after.entities.take(m) =~= v.entities);
        assert(after.entities.skip(m) =~= Seq::<ContextEntity>::empty());
        selects_from_none(keep, value);
    } else {
        law_seed_brings_its_neighbours(v, neighbourhood, h, (n - 1) as nat);
        let (before, so_far) = entities_added(v, neighbourhood, h, (n - 1) as nat);
        let e = neighbourhood[n - 1];
        let comes = is_brought_in(neighbourhood, h, n - 1);
        assert(comes <==> !is_foreign(e, h.group_id) && (e.id@ == h.seed_id || so_far < h.cap));
        assert(is_found(before.entities, e.id@) <==> is_found(v.entities, e.id@) || exists|k: int|
            0 <= k < n - 1 && #[trigger] is_brought_in(neighbourhood, h, k)
                && neighbourhood[k].id@ == e.id@);
        if comes {
            if is_found(before.entities, e.id@) {
                if is_found(v.entities, e.id@) {
                    let i = choose|i: int|
                        0 <= i < v.entities.len() && (#[trigger] v.entities[i]).id@ == e.id@;
                    assert(!keep(n - 1));
                } else {
                    let k = choose|k: int|
                        0 <= k < n - 1 && #[trigger] is_brought_in(neighbourhood, h, k)
                            && neighbourhood[k].id@ == e.id@;
                    assert(neighbourhood[k].id@ == e.id@);
                    assert(!keep(n - 1));
                }
                assert(after.entities == before.entities);
            } else {
                assert(keep(n - 1)) by {
                    assert forall|j: int|
                        0 <= j < n - 1 && is_brought_in(neighbourhood, h, j) implies (
                    #[trigger] neighbourhood[j]).id@ != e.id@ by {}
                }
                assert(after.entities == before.entities.push(e));
                assert(after.entities.skip(m) =~= before.entities.skip(m).push(e));
            }
        } else {
            assert(!keep(n - 1));
            assert(after.entities == before.entities);
        }
        selects_one_more(
            before.entities.skip(m),
            after.entities.skip(m),
            (n - 1) as nat,
            keep,
            value,
        );
        assert(after.entities.take(m) =~= before.entities.take(m));
        assert forall|id: Seq<char>| #[trigger] is_found(after.entities, id) <==> is_found(
            v.entities,
            id,
        ) || exists|k: int|
            0 <= k < n && #[trigger] is_brought_in(neighbourhood, h, k) && neighbourhood[k].id@
                == id by {
            found_after_one(before.entities, after.entities, e, id);
            if exists|k: int|
                0 <= k < n && #[trigger] is_brought_in(neighbourhood, h, k) && neighbourhood[k].id@
                    == id {
                let k = choose|k: int|
                    0 <= k < n && #[trigger] is_brought_in(neighbourhood, h, k)
                        && neighbourhood[k].id@ == id;
                if k < n - 1 {
                    assert(is_found(before.entities, id));
                } else {
                    assert(is_found(after.entities, e.id@));
                }
            }
        }
        assert forall|id: Seq<char>| #[trigger] score_of(after.neighbour_scores, id) == (
        if is_new_neighbour(neighbourhood, h, n as int, id) {
            Some(
                match score_of(v.neighbour_scores, id) {
                    Some(best) => best.greater(share),
                    None => share,
                },
            )
        } else {
            score_of(v.neighbour_scores, id)
        }) by {
            law_neighbour_keeps_its_best_score(before.neighbour_scores, e.id, share, id);
            let then = is_new_neighbour(neighbourhood, h, n - 1, id);
            let now = is_new_neighbour(neighbourhood, h, n as int, id);
            if then {
                let k = choose|k: int|
                    0 <= k < n - 1 && #[trigger] is_brought_in(neighbourhood, h, k)
                        && neighbourhood[k].id@ == id;
                assert(0 <= k < n);
            }
            if comes && e.id@ == id && id != h.seed_id {
                assert(is_brought_in(neighbourhood, h, n - 1));
                assert(now);
            } else if now {
                let k = choose|k: int|
                    0 <= k < n && #[trigger] is_brought_in(neighbourhood, h, k)
                        && neighbourhood[k].id@ == id;
                assert(k < n - 1);
                assert(then);
            }
        }
    }
}

/// What is found once an entity was added or passed over.
proof fn found_after_one(
    before: Seq<ContextEntity>,
    after: Seq<ContextEntity>,
    e: ContextEntity,
    id: Seq<char>,
)
    requires
        after == before || after == before.push(e),
    ensures
        is_found(before, id) ==> is_found(after, id),
        is_found(after, id) && !is_found(before, id) ==> after == before.push(e) && id == e.id@,
        after == before.push(e) ==> is_found(after, e.id@),
{
    if is_found(before, id) {
        let i = choose|i: int| 0 <= i < before.len() && (#[trigger] before[i]).id@ == id;
        assert(after[i].id@ == id);
    }
    if is_found(after, id) && !is_found(before, id) {
        let i = choose|i: int| 0 <= i < after.len() && (#[trigger] after[i]).id@ == id;
        if i < before.len() {
            assert(before[i].id@ == id);
        }
    }
    if after == before.push(e) {
        assert(after[before.len() as int].id@ == e.id@);
    }
}

/// The places of the neighbours that are no seeds.
pub open spec fn mere_neighbours(v: ExpansionView) -> spec_fn(int) -> bool {
    |k: int|
        forall|x: int|
            0 <= x < v.seed_scores.len() ==> (#[trigger] v.seed_scores[x]).0@
                != v.neighbour_scores[k].0@
}

proof fn merged_scores_are_selected(v: ExpansionView, n: nat)
    requires
        n <= v.neighbour_scores.len(),
    ensures
        scores_merged(v, n).len() >= v.seed_scores.len(),
        scores_merged(v, n).take(v.seed_scores.len() as int) == v.seed_scores,
        selects(
            scores_merged(v, n).skip(v.seed_scores.len() as int),
            n,
            mere_neighbours(v),
            |k: int| v.neighbour_scores[k],
        ),
    decreases n,
{
    let value = |k: int| v.neighbour_scores[k];
    let keep = mere_neighbours(v);
    let all = scores_merged(v, n);
    let m = v.seed_scores.len() as int;
    if n == 0 {
        assert(all.take(m) =~= v.seed_scores);
        assert(all.skip(m) =~= Seq::<(String, Binary32)>::empty());
        selects_from_none(keep, value);
    } else {
        merged_scores_are_selected(v, (n - 1) as nat);
        let before = scores_merged(v, (n - 1) as nat);
        score_index_is_first(v.seed_scores, v.neighbour_scores[n - 1].0@);
        if keep(n - 1) {
            assert(all.skip(m) =~= before.skip(m).push(v.neighbour_scores[n - 1]));
        }
        selects_one_more(before.skip(m), all.skip(m), (n - 1) as nat, keep, value);
        assert(all.take(m) =~= before.take(m));
    }
}

/// Every seed has its own score, and behind the seeds every neighbour that is no seed has
/// the one that was handed on to it.
pub proof fn law_all_scores_are_there(v: ExpansionView)
    ensures
        all_scores(v).take(v.seed_scores.len() as int) == v.seed_scores,
        selects(
            all_scores(v).skip(v.seed_scores.len() as int),
            v.neighbour_scores.len(),
            mere_neighbours(v),
            |k: int| v.neighbour_scores[k],
        ),
{
    merged_scores_are_selected(v, v.neighbour_scores.len());
}

/// The places of the seeds that reach the floor: it is not positive, or it is at most the
/// score at the seed's first place, which counts as zero where the seed has none.
pub open spec fn reaching_seeds(
    seed_ids: Seq<String>,
    scores: Seq<(String, Binary32)>,
    floor: Binary32,
) -> spec_fn(int) -> bool {
    |k: int|
        floor.le(Binary32::zero_value()) || exists|i: int|
            0 <= i < scores.len() && (#[trigger] scores[i]).0@ == seed_ids[k]@ && floor.le(
                scores[i].1,
            ) && forall|x: int| 0 <= x < i ==> (#[trigger] scores[x]).0@ != seed_ids[k]@
}

/// Exactly the seeds that reach the floor survive, in their order.
pub proof fn law_survivors_reach_the_floor(
    seed_ids: Seq<String>,
    scores: Seq<(String, Binary32)>,
    floor: Binary32,
    n: nat,
)
    requires
        n <= seed_ids.len(),
    ensures
        selects(
            survivors(seed_ids, scores, floor, n),
            n,
            reaching_seeds(seed_ids, scores, floor),
            |k: int| seed_ids[k],
        ),
    decreases n,
{
    let keep = reaching_seeds(seed_ids, scores, floor);
    let value = |k: int| seed_ids[k];
    if n == 0 {
        selects_from_none(keep, value);
    } else {
        law_survivors_reach_the_floor(seed_ids, scores, floor, (n - 1) as nat);
        let id = seed_ids[n - 1]@;
        score_index_is_first(scores, id);
        match score_index(scores, id) {
            Some(i) => {
                assert(scores[i].0@ == id);
                if keep(n - 1) && !floor.le(Binary32::zero_value()) {
                    let j = choose|j: int|
                        0 <= j < scores.len() && (#[trigger] scores[j]).0@ == id && floor.le(
                            scores[j].1,
                        ) && forall|x: int| 0 <= x < j ==> (#[trigger] scores[x]).0@ != id;
                    assert(i == j);
                }
            },
            None => {},
        }
        selects_one_more(
            survivors(seed_ids, scores, floor, (n - 1) as nat),
            survivors(seed_ids, scores, floor, n),
            (n - 1) as nat,
            keep,
            value,
        );
    }
}

/// The id is that of no seed, or of a seed whose own score reaches the floor.
pub open spec fn is_returned(v: ExpansionView, floor: Binary32, id: Seq<char>) -> bool {
    ||| forall|x: int|
        0 <= x < v.seed_scores.len() ==> (#[trigger] v.seed_scores[x]).0@ != id
    ||| floor.le(Binary32::zero_value())
    ||| exists|i: int|
        0 <= i < v.seed_scores.len() && (#[trigger] v.seed_scores[i]).0@ == id && floor.le(
            v.seed_scores[i].1,
        ) && forall|x: int| 0 <= x < i ==> (#[trigger] v.seed_scores[x]).0@ != id
}

proof fn stays_is_returned(v: ExpansionView, floor: Binary32, id: Seq<char>)
    ensures
        stays(v, floor, id) <==> is_returned(v, floor, id),
{
    score_index_is_first(v.seed_scores, id);
    if let Some(i) = score_index(v.seed_scores, id) {
        law_seed_score_is_its_own(v, id);
        assert(v.seed_scores[i].0@ == id);
        if is_returned(v, floor, id) && !floor.le(Binary32::zero_value()) {
            let j = choose|j: int|
                0 <= j < v.seed_scores.len() && (#[trigger] v.seed_scores[j]).0@ == id && floor.le(
                    v.seed_scores[j].1,
                ) && forall|x: int| 0 <= x < j ==> (#[trigger] v.seed_scores[x]).0@ != id;
            assert(i == j);
        }
    }
}

/// The floor takes away the seeds that do not reach it and nothing else, from the entities
/// and from the scores, and keeps the order of both.
pub proof fn law_floor_keeps_everything_else(v: ExpansionView, floor: Binary32)
    ensures
        selects(
            entities_kept(v, floor, v.entities.len()),
            v.entities.len(),
            |k: int| is_returned(v, floor, v.entities[k].id@),
            |k: int| v.entities[k],
        ),
        selects(
            scores_kept(v, floor, all_scores(v).len()),
            all_scores(v).len(),
            |k: int| is_returned(v, floor, all_scores(v)[k].0@),
            |k: int| all_scores(v)[k],
        ),
{
    kept_entities_are_selected(v, floor, v.entities.len());
    kept_scores_are_selected(v, floor, all_scores(v).len());
}

proof fn kept_entities_are_selected(v: ExpansionView, floor: Binary32, n: nat)
    requires
        n <= v.entities.len(),
    ensures
        selects(
            entities_kept(v, floor, n),
            n,
            |k: int| is_returned(v, floor, v.entities[k].id@),
            |k: int| v.entities[k],
        ),
    decreases n,
{
    let keep = |k: int| is_returned(v, floor, v.entities[k].id@);
    let value = |k: int| v.entities[k];
    if n == 0 {
        selects_from_none(keep, value);
    } else {
        kept_entities_are_selected(v, floor, (n - 1) as nat);
        stays_is_returned(v, floor, v.entities[n - 1].id@);
        selects_one_more(
            entities_kept(v, floor, (n - 1) as nat),
            entities_kept(v, floor, n),
            (n - 1) as nat,
            keep,
            value,
        );
    }
}

proof fn kept_scores_are_selected(v: ExpansionView, floor: Binary32, n: nat)
    requires
        n <= all_scores(v).len(),
    ensures
        selects(
            scores_kept(v, floor, n),
            n,
            |k: int| is_returned(v, floor, all_scores(v)[k].0@),
            |k: int| all_scores(v)[k],
        ),
    decreases n,
{
    let keep = |k: int| is_returned(v, floor, all_scores(v)[k].0@);
    let value = |k: int| all_scores(v)[k];
    if n == 0 {
        selects_from_none(keep, value);
    } else {
        kept_scores_are_selected(v, floor, (n - 1) as nat);
        stays_is_returned(v, floor, all_scores(v)[n - 1].0@);
        selects_one_more(
            scores_kept(v, floor, (n - 1) as nat),
            scores_kept(v, floor, n),
            (n - 1) as nat,
            keep,
            value,
        );
    }
}

/// A seed enters the scores behind the seeds before it, under its own id and with its own
/// score, held to `[0, 1]`.
pub proof fn law_seed_is_scored_as_given(
    v: ExpansionView,
    seed_id: String,
    seed_score: Binary32,
    neighbourhood: Seq<ContextEntity>,
    facts: Seq<i64>,
    h: Handover,
)
    ensures
        ({
            let seeds = seed_added(v, seed_id, seed_score, neighbourhood, facts, h).seed_scores;
            &&& seeds.len() == v.seed_scores.len() + 1
            &&& seeds.drop_last() == v.seed_scores
            &&& seeds.last().0 == seed_id
            &&& Binary32::zero_value().le(seed_score) && seed_score.le(Binary32::one_value())
                ==> seeds.last().1 == seed_score
        }),
{
    let seeds = seed_added(v, seed_id, seed_score, neighbourhood, facts, h).seed_scores;
    assert(seeds.drop_last() =~= v.seed_scores);
}

}
