//! Fusion of the hit lists and ranking of scored ids.

use vstd::prelude::*;
use std::cmp::Ordering;
use crate::ieee::Binary32;
use crate::selection::{selects, selects_from_none, selects_one_more};
use crate::text::{comes_before, same_text, text_before};

verus! {

/// A hit of the entity search: its rank among the full-text hits and among the vector
/// hits. Its fused score is the sum of what each of these ranks contributes.
#[derive(Debug)]
pub struct FusedHit {
    pub id: String,
    pub fts_ranks: Vec<usize>,
    pub vector_ranks: Vec<usize>,
}

/// The positions of `id` among the first `n` hits.
pub open spec fn ranks_of(hits: Seq<String>, id: Seq<char>, n: nat) -> Seq<usize>
    decreases n,
{
    if n == 0 {
        seq![]
    } else {
        let before = ranks_of(hits, id, (n - 1) as nat);
        if hits[n - 1]@ == id {
            before.push((n - 1) as usize)
        } else {
            before
        }
    }
}

/// The positions of an id among the hits.
fn find_ranks(hits: &Vec<String>, id: &String) -> (r: Vec<usize>)
    ensures
        r@ == ranks_of(hits@, id@, hits@.len()),
{
    let mut out: Vec<usize> = Vec::new();
    let mut i: usize = 0;
    while i < hits.len()
        invariant
            i <= hits.len(),
            out@ == ranks_of(hits@, id@, i as nat),
        decreases hits.len() - i,
    {
        if same_text(&hits[i], id) {
            out.push(i);
        }
        i = i + 1;
    }
    out
}

/// Some hit has the id.
pub open spec fn is_hit(hits: Seq<String>, id: Seq<char>) -> bool {
    exists|i: int| 0 <= i < hits.len() && (#[trigger] hits[i])@ == id
}

/// Some fused hit has the id.
pub open spec fn is_fused(fused: Seq<FusedHit>, id: Seq<char>) -> bool {
    exists|i: int| 0 <= i < fused.len() && (#[trigger] fused[i]).id@ == id
}

/// No id occurs twice.
pub open spec fn distinct_hits(fused: Seq<FusedHit>) -> bool {
    forall|i: int, j: int|
        0 <= i < j < fused.len() ==> (#[trigger] fused[i]).id@ != (#[trigger] fused[j]).id@
}

/// The hit holds every rank of its id in both lists.
pub open spec fn has_all_ranks(hit: FusedHit, fts: Seq<String>, vector: Seq<String>) -> bool {
    &&& hit.fts_ranks@ == ranks_of(fts, hit.id@, fts.len())
    &&& hit.vector_ranks@ == ranks_of(vector, hit.id@, vector.len())
}

fn already_fused(fused: &Vec<FusedHit>, id: &String) -> (r: bool)
    ensures
        r == is_fused(fused@, id@),
{
    let mut i: usize = 0;
    while i < fused.len()
        invariant
            i <= fused.len(),
            forall|x: int| 0 <= x < i ==> (#[trigger] fused@[x]).id@ != id@,
        decreases fused.len() - i,
    {
        if same_text(&fused[i].id, id) {
            return true;
        }
        i = i + 1;
    }
    false
}

/// Adds the hits of one list that are not there yet.
fn fuse_list(
    list: &Vec<String>,
    fts: &Vec<String>,
    vector: &Vec<String>,
    fused: &mut Vec<FusedHit>,
)
    requires
        distinct_hits(old(fused)@),
        forall|i: int|
            0 <= i < old(fused).len() ==> has_all_ranks(#[trigger] old(fused)@[i], fts@, vector@),
    ensures
        distinct_hits(final(fused)@),
        forall|i: int|
            0 <= i < final(fused).len() ==> has_all_ranks(
                #[trigger] final(fused)@[i],
                fts@,
                vector@,
            ),
        forall|id: Seq<char>| #[trigger]
            is_fused(final(fused)@, id) <==> is_fused(old(fused)@, id) || is_hit(list@, id),
{
    let ghost before = fused@;
    let mut k: usize = 0;
    while k < list.len()
        invariant
            k <= list.len(),
            distinct_hits(fused@),
            forall|i: int|
                0 <= i < fused.len() ==> has_all_ranks(#[trigger] fused@[i], fts@, vector@),
            forall|id: Seq<char>| #[trigger]
                is_fused(fused@, id) <==> is_fused(before, id) || is_hit(list@.take(k as int), id),
        decreases list.len() - k,
    {
        let id = &list[k];
        let ghost so_far = fused@;
        let ghost seen = list@.take(k as int);
        let ghost next = list@.take(k + 1);
        proof {
            assert(next[k as int] == list@[k as int]);
            assert forall|x: Seq<char>| #[trigger] is_hit(next, x) <==> is_hit(seen, x) || x
                == id@ by {
                if is_hit(seen, x) {
                    let i = choose|i: int| 0 <= i < seen.len() && (#[trigger] seen[i])@ == x;
                    assert(next[i]@ == x);
                }
                if x == id@ {
                    assert(next[k as int]@ == x);
                }
                if is_hit(next, x) && x != id@ {
                    let i = choose|i: int| 0 <= i < next.len() && (#[trigger] next[i])@ == x;
                    assert(seen[i]@ == x);
                }
            }
        }
        if !already_fused(fused, id) {
            let hit = FusedHit {
                id: id.clone(),
                fts_ranks: find_ranks(fts, id),
                vector_ranks: find_ranks(vector, id),
            };
            fused.push(hit);
            proof {
                let now = fused@;
                assert forall|i: int| 0 <= i < now.len() implies has_all_ranks(
                    #[trigger] now[i],
                    fts@,
                    vector@,
                ) by {
                    if i < so_far.len() {
                        assert(now[i] == so_far[i]);
                    }
                }
                assert forall|x: Seq<char>| #[trigger] is_fused(now, x) <==> is_fused(so_far, x)
                    || x == id@ by {
                    if is_fused(so_far, x) {
                        let i = choose|i: int|
                            0 <= i < so_far.len() && (#[trigger] so_far[i]).id@ == x;
                        assert(now[i].id@ == x);
                    }
                    if x == id@ {
                        assert(now[so_far.len() as int].id@ == x);
                    }
                    if is_fused(now, x) && x != id@ {
                        let i = choose|i: int| 0 <= i < now.len() && (#[trigger] now[i]).id@ == x;
                        assert(so_far[i].id@ == x);
                    }
                }
            }
        }
        k = k + 1;
    }
    assert(list@.take(k as int) =~= list@);
}

/// Fuses the two hit lists: every id that occurs in one of them stands once, with all of
/// its ranks.
pub fn fuse_hits(fts: &Vec<String>, vector: &Vec<String>) -> (r: Vec<FusedHit>)
    ensures
        distinct_hits(r@),
        forall|i: int| 0 <= i < r.len() ==> has_all_ranks(#[trigger] r@[i], fts@, vector@),
        forall|id: Seq<char>| #[trigger]
            is_fused(r@, id) <==> is_hit(fts@, id) || is_hit(vector@, id),
{
    let mut fused: Vec<FusedHit> = Vec::new();
    fuse_list(fts, fts, vector, &mut fused);
    fuse_list(vector, fts, vector, &mut fused);
    fused
}

/// `a` is ranked before `b`: it has the higher score, or no lower one and the lesser id.
pub open spec fn outranks(a: (String, Binary32), b: (String, Binary32)) -> bool {
    b.1.lt(a.1) || (!a.1.lt(b.1) && text_before(a.0@, b.0@))
}

/// Orders scored ids by score, highest first, and equal scores by id. The id makes the
/// order independent of how the ids were collected; it says nothing about relevance.
pub fn score_desc_id_asc(a: &(String, Binary32), b: &(String, Binary32)) -> (r: Ordering)
    ensures
        r == Ordering::Less <==> outranks(*a, *b),
        r == Ordering::Greater <==> outranks(*b, *a),
        b.1.lt(a.1) ==> r == Ordering::Less,
        a.1.lt(b.1) ==> r == Ordering::Greater,
        !a.1.lt(b.1) && !b.1.lt(a.1) ==> (r == Ordering::Less <==> text_before(a.0@, b.0@)) && (r
            == Ordering::Greater <==> text_before(b.0@, a.0@)),
{
    proof {
        crate::text::text_order_total(a.0@, b.0@);
    }
    if b.1.less_than(a.1) {
        Ordering::Less
    } else if a.1.less_than(b.1) {
        Ordering::Greater
    } else if comes_before(a.0.as_str(), b.0.as_str()) {
        Ordering::Less
    } else if comes_before(b.0.as_str(), a.0.as_str()) {
        Ordering::Greater
    } else {
        Ordering::Equal
    }
}

/// `sorted` with `x` behind everything that it does not outrank.
pub open spec fn insert_ranked(
    sorted: Seq<(String, Binary32)>,
    x: (String, Binary32),
) -> Seq<(String, Binary32)>
    decreases sorted.len(),
{
    if sorted.len() > 0 && outranks(x, sorted.last()) {
        insert_ranked(sorted.drop_last(), x).push(sorted.last())
    } else {
        sorted.push(x)
    }
}

/// The scored ids in rank order.
pub open spec fn ranked(scored: Seq<(String, Binary32)>) -> Seq<(String, Binary32)>
    decreases scored.len(),
{
    if scored.len() == 0 {
        seq![]
    } else {
        insert_ranked(ranked(scored.drop_last()), scored.last())
    }
}

/// Inserts a scored id at its rank.
fn insert_by_rank(sorted: &mut Vec<(String, Binary32)>, x: (String, Binary32))
    ensures
        final(sorted)@ == insert_ranked(old(sorted)@, x),
{
    let ghost before = sorted@;
    let mut at: usize = sorted.len();
    assert(before.take(at as int) =~= before);
    assert(before.skip(at as int) =~= Seq::empty());
    assert(insert_ranked(before, x) =~= insert_ranked(before.take(at as int), x) + before.skip(
        at as int,
    ));
    while at > 0 && is_ranked_before(&x, &sorted[at - 1])
        invariant
            at <= sorted.len(),
            sorted@ == before,
            insert_ranked(before, x) == insert_ranked(before.take(at as int), x) + before.skip(
                at as int,
            ),
        decreases at,
    {
        proof {
            let front = before.take(at as int);
            assert(front.last() == before[at - 1]);
            assert(front.drop_last() =~= before.take(at - 1));
            assert(before.skip(at - 1) =~= seq![before[at - 1]] + before.skip(at as int));
            assert(insert_ranked(before.take(at - 1), x).push(before[at - 1]) + before.skip(
                at as int,
            ) =~= insert_ranked(before.take(at - 1), x) + before.skip(at - 1));
        }
        at = at - 1;
    }
    proof {
        let front = before.take(at as int);
        if at > 0 {
            assert(front.last() == before[at - 1]);
        }
        assert(insert_ranked(front, x) =~= front.push(x));
        assert(before.insert(at as int, x) =~= front.push(x) + before.skip(at as int));
    }
    sorted.insert(at, x);
}

fn is_ranked_before(a: &(String, Binary32), b: &(String, Binary32)) -> (r: bool)
    ensures
        r == outranks(*a, *b),
{
    match score_desc_id_asc(a, b) {
        Ordering::Less => true,
        _ => false,
    }
}

/// The scored ids in rank order.
pub fn rank_by_score(scored: Vec<(String, Binary32)>) -> (r: Vec<(String, Binary32)>)
    ensures
        r@ == ranked(scored@),
{
    let ghost all = scored@;
    let mut rest = scored;
    let mut out: Vec<(String, Binary32)> = Vec::new();
    let ghost mut taken: int = 0;
    assert(all.take(0) =~= Seq::empty());
    assert(all.skip(0) =~= all);
    while rest.len() > 0
        invariant
            0 <= taken <= all.len(),
            rest@ == all.skip(taken),
            out@ == ranked(all.take(taken)),
        decreases rest.len(),
    {
        let x = rest.remove(0);
        proof {
            assert(x == all[taken]);
            assert(all.skip(taken).remove(0) =~= all.skip(taken + 1));
            assert(all.take(taken + 1).drop_last() =~= all.take(taken));
            assert(all.take(taken + 1).last() == x);
            taken = taken + 1;
        }
        insert_by_rank(&mut out, x);
    }
    assert(all.take(taken) =~= all);
    out
}

/// The ids of the best `limit` of the ranked ids.
pub fn seed_ids(ranked: &Vec<(String, Binary32)>, limit: usize) -> (r: Vec<String>)
    ensures
        r.len() == (if limit <= ranked.len() {
            limit
        } else {
            ranked.len()
        }),
        forall|i: int| 0 <= i < r.len() ==> #[trigger] r@[i] == ranked@[i].0,
{
    let mut out: Vec<String> = Vec::new();
    let mut i: usize = 0;
    while i < ranked.len() && i < limit
        invariant
            i <= ranked.len(),
            i <= limit,
            out.len() == i,
            forall|x: int| 0 <= x < i ==> #[trigger] out@[x] == ranked@[x].0,
        decreases ranked.len() - i,
    {
        out.push(ranked[i].0.clone());
        i = i + 1;
    }
    out
}

/// No score is a NaN.
pub open spec fn all_numbers(scored: Seq<(String, Binary32)>) -> bool {
    forall|i: int| 0 <= i < scored.len() ==> !(#[trigger] scored[i]).1.nan()
}

/// No id occurs twice.
pub open spec fn distinct_ids(scored: Seq<(String, Binary32)>) -> bool {
    forall|i: int, j: int|
        0 <= i < j < scored.len() ==> (#[trigger] scored[i]).0@ != (#[trigger] scored[j]).0@
}

/// Nothing outranks what stands before it.
pub open spec fn in_rank_order(scored: Seq<(String, Binary32)>) -> bool {
    forall|i: int, j: int|
        0 <= i < j < scored.len() ==> !outranks(#[trigger] scored[j], #[trigger] scored[i])
}

proof fn outranks_transitive(
    a: (String, Binary32),
    b: (String, Binary32),
    c: (String, Binary32),
)
    requires
        !a.1.nan(),
        !b.1.nan(),
        !c.1.nan(),
        outranks(a, b),
        !outranks(c, b),
    ensures
        outranks(a, c),
{
    crate::text::text_order_total(b.0@, c.0@);
    if b.1.rank() == c.1.rank() && a.1.rank() == b.1.rank() && b.0@ != c.0@ {
        crate::text::text_order_transitive(a.0@, b.0@, c.0@);
    }
}

proof fn insertion_keeps_order(sorted: Seq<(String, Binary32)>, x: (String, Binary32))
    requires
        in_rank_order(sorted),
        all_numbers(sorted),
        !x.1.nan(),
    ensures
        in_rank_order(insert_ranked(sorted, x)),
        all_numbers(insert_ranked(sorted, x)),
        insert_ranked(sorted, x).to_multiset() == sorted.to_multiset().insert(x),
        forall|i: int|
            0 <= i < insert_ranked(sorted, x).len() ==> #[trigger] insert_ranked(sorted, x)[i] == x
                || sorted.contains(insert_ranked(sorted, x)[i]),
    decreases sorted.len(),
{
    broadcast use vstd::seq_lib::group_to_multiset_ensures;

    let out = insert_ranked(sorted, x);
    if sorted.len() > 0 && outranks(x, sorted.last()) {
        let front = sorted.drop_last();
        let last = sorted.last();
        insertion_keeps_order(front, x);
        let inner = insert_ranked(front, x);
        assert(out == inner.push(last));
        assert(sorted =~= front.push(last));
        assert(inner.push(last).to_multiset() == inner.to_multiset().insert(last));
        assert(front.push(last).to_multiset() == front.to_multiset().insert(last));
        assert(out.to_multiset() =~= sorted.to_multiset().insert(x));
        assert forall|i: int| 0 <= i < out.len() implies #[trigger] out[i] == x
            || sorted.contains(out[i]) by {
            if i < inner.len() {
                assert(out[i] == inner[i]);
                if inner[i] != x {
                    let k = choose|k: int| 0 <= k < front.len() && front[k] == inner[i];
                    assert(sorted[k] == inner[i]);
                }
            } else {
                assert(sorted[sorted.len() - 1] == out[i]);
            }
        }
        assert forall|i: int, j: int| 0 <= i < j < out.len() implies !outranks(
            #[trigger] out[j],
            #[trigger] out[i],
        ) by {
            assert(out[i] == inner[i]);
            if j < inner.len() {
                assert(out[j] == inner[j]);
            } else {
                assert(out[j] == last);
                if inner[i] == x {
                    crate::text::text_order_total(x.0@, last.0@);
                } else {
                    let k = choose|k: int| 0 <= k < front.len() && front[k] == inner[i];
                    assert(sorted[k] == inner[i]);
                    assert(sorted[sorted.len() - 1] == last);
                }
            }
        }
    } else {
        assert forall|i: int| 0 <= i < out.len() implies #[trigger] out[i] == x
            || sorted.contains(out[i]) by {
            if i < sorted.len() {
                assert(sorted[i] == out[i]);
            }
        }
        assert forall|i: int, j: int| 0 <= i < j < out.len() implies !outranks(
            #[trigger] out[j],
            #[trigger] out[i],
        ) by {
            assert(out[i] == sorted[i]);
            if j < sorted.len() {
                assert(out[j] == sorted[j]);
            } else if outranks(x, sorted[i]) && i < sorted.len() - 1 {
                assert(sorted[sorted.len() - 1] == sorted.last());
                outranks_transitive(x, sorted[i], sorted.last());
            }
        }
    }
}

/// Ranking loses nothing and adds nothing, and puts the ids in order, as long as every
/// score is a number.
pub proof fn law_ranking_sorts(scored: Seq<(String, Binary32)>)
    requires
        all_numbers(scored),
    ensures
        in_rank_order(ranked(scored)),
        all_numbers(ranked(scored)),
        ranked(scored).to_multiset() == scored.to_multiset(),
    decreases scored.len(),
{
    broadcast use vstd::seq_lib::group_to_multiset_ensures;

    if scored.len() > 0 {
        let front = scored.drop_last();
        assert forall|i: int| 0 <= i < front.len() implies !(#[trigger] front[i]).1.nan() by {
            assert(front[i] == scored[i]);
        }
        law_ranking_sorts(front);
        assert(scored[scored.len() - 1] == scored.last());
        insertion_keeps_order(ranked(front), scored.last());
        assert(scored =~= front.push(scored.last()));
    } else {
        assert(ranked(scored) =~= scored);
    }
}

/// Two rankings of the same ids are the same.
proof fn order_is_unique(a: Seq<(String, Binary32)>, b: Seq<(String, Binary32)>)
    requires
        in_rank_order(a),
        in_rank_order(b),
        distinct_ids(a),
        distinct_ids(b),
        a.to_multiset() == b.to_multiset(),
    ensures
        a == b,
    decreases a.len(),
{
    broadcast use vstd::seq_lib::group_to_multiset_ensures;

    assert(a.len() == a.to_multiset().len());
    assert(b.len() == b.to_multiset().len());
    if a.len() > 0 {
        assert(a.contains(a[0]));
        assert(b.to_multiset().count(a[0]) > 0);
        assert(b.contains(a[0]));
        assert(b.contains(b[0]));
        assert(a.to_multiset().count(b[0]) > 0);
        assert(a.contains(b[0]));
        let j = choose|j: int| 0 <= j < b.len() && b[j] == a[0];
        let i = choose|i: int| 0 <= i < a.len() && a[i] == b[0];
        if j > 0 {
            assert(!outranks(b[j], b[0]));
            assert(b[0].0@ != b[j].0@);
            if i > 0 {
                assert(!outranks(a[i], a[0]));
            }
            crate::text::text_order_total(a[0].0@, b[0].0@);
            assert(false);
        }
        let x = a.remove(0);
        let y = b.remove(0);
        assert forall|p: int, q: int| 0 <= p < q < x.len() implies !outranks(
            #[trigger] x[q],
            #[trigger] x[p],
        ) && x[p].0@ != x[q].0@ by {
            assert(x[p] == a[p + 1] && x[q] == a[q + 1]);
        }
        assert forall|p: int, q: int| 0 <= p < q < y.len() implies !outranks(
            #[trigger] y[q],
            #[trigger] y[p],
        ) && y[p].0@ != y[q].0@ by {
            assert(y[p] == b[p + 1] && y[q] == b[q + 1]);
        }
        order_is_unique(x, y);
        assert(a =~= seq![a[0]] + x);
        assert(b =~= seq![b[0]] + y);
    } else {
        assert(a =~= b);
    }
}

proof fn insertion_keeps_ids(sorted: Seq<(String, Binary32)>, x: (String, Binary32))
    requires
        distinct_ids(sorted),
        forall|i: int| 0 <= i < sorted.len() ==> (#[trigger] sorted[i]).0@ != x.0@,
    ensures
        distinct_ids(insert_ranked(sorted, x)),
        insert_ranked(sorted, x).len() == sorted.len() + 1,
        forall|i: int|
            0 <= i < insert_ranked(sorted, x).len() ==> #[trigger] insert_ranked(sorted, x)[i] == x
                || sorted.contains(insert_ranked(sorted, x)[i]),
    decreases sorted.len(),
{
    let out = insert_ranked(sorted, x);
    if sorted.len() > 0 && outranks(x, sorted.last()) {
        let front = sorted.drop_last();
        let last = sorted.last();
        assert forall|i: int| 0 <= i < front.len() implies (#[trigger] front[i]).0@ != x.0@ by {
            assert(front[i] == sorted[i]);
        }
        insertion_keeps_ids(front, x);
        let inner = insert_ranked(front, x);
        assert forall|i: int| 0 <= i < out.len() implies #[trigger] out[i] == x
            || sorted.contains(out[i]) by {
            if i < inner.len() {
                assert(out[i] == inner[i]);
                if inner[i] != x {
                    let k = choose|k: int| 0 <= k < front.len() && front[k] == inner[i];
                    assert(sorted[k] == inner[i]);
                }
            } else {
                assert(sorted[sorted.len() - 1] == out[i]);
            }
        }
        assert forall|i: int, j: int| 0 <= i < j < out.len() implies (#[trigger] out[i]).0@ != (
        #[trigger] out[j]).0@ by {
            assert(out[i] == inner[i]);
            if j < inner.len() {
                assert(out[j] == inner[j]);
            } else if inner[i] != x {
                let k = choose|k: int| 0 <= k < front.len() && front[k] == inner[i];
                assert(sorted[k] == inner[i]);
                assert(sorted[sorted.len() - 1] == last);
            }
        }
    } else {
        assert forall|i: int| 0 <= i < out.len() implies #[trigger] out[i] == x
            || sorted.contains(out[i]) by {
            if i < sorted.len() {
                assert(sorted[i] == out[i]);
            }
        }
        assert forall|i: int, j: int| 0 <= i < j < out.len() implies (#[trigger] out[i]).0@ != (
        #[trigger] out[j]).0@ by {
            assert(out[i] == sorted[i]);
            if j < sorted.len() {
                assert(out[j] == sorted[j]);
            }
        }
    }
}

/// Ranking invents no id and doubles none, so the seeds of a recall are distinct.
pub proof fn law_ranking_keeps_ids(scored: Seq<(String, Binary32)>)
    requires
        distinct_ids(scored),
    ensures
        distinct_ids(ranked(scored)),
        forall|i: int|
            0 <= i < ranked(scored).len() ==> scored.contains(#[trigger] ranked(scored)[i]),
    decreases scored.len(),
{
    if scored.len() > 0 {
        let front = scored.drop_last();
        let last = scored.last();
        assert forall|i: int, j: int| 0 <= i < j < front.len() implies (#[trigger] front[i]).0@ != (
        #[trigger] front[j]).0@ by {
            assert(front[i] == scored[i] && front[j] == scored[j]);
        }
        law_ranking_keeps_ids(front);
        let before = ranked(front);
        assert(scored[scored.len() - 1] == last);
        assert forall|i: int| 0 <= i < before.len() implies (#[trigger] before[i]).0@
            != last.0@ by {
            assert(front.contains(before[i]));
            let k = choose|k: int| 0 <= k < front.len() && front[k] == before[i];
            assert(scored[k] == before[i]);
        }
        insertion_keeps_ids(before, last);
        let out = ranked(scored);
        assert forall|i: int| 0 <= i < out.len() implies scored.contains(#[trigger] out[i]) by {
            if out[i] != last {
                assert(before.contains(out[i]));
                let k = choose|k: int| 0 <= k < before.len() && before[k] == out[i];
                assert(front.contains(before[k]));
                let q = choose|q: int| 0 <= q < front.len() && front[q] == before[k];
                assert(scored[q] == out[i]);
            }
        }
    }
}

/// The ranking does not depend on the order in which the scored ids were collected: the
/// same ids with the same scores are ranked the same way.
pub proof fn law_ranking_is_deterministic(
    a: Seq<(String, Binary32)>,
    b: Seq<(String, Binary32)>,
)
    requires
        all_numbers(a),
        all_numbers(b),
        distinct_ids(a),
        distinct_ids(b),
        a.to_multiset() == b.to_multiset(),
    ensures
        ranked(a) == ranked(b),
{
    law_ranking_sorts(a);
    law_ranking_sorts(b);
    law_ranking_keeps_ids(a);
    law_ranking_keeps_ids(b);
    order_is_unique(ranked(a), ranked(b));
}

/// The ranks of an id are exactly the places at which it is hit, in order.
pub proof fn law_ranks_are_the_places(hits: Seq<String>, id: Seq<char>, n: nat)
    requires
        n <= hits.len() <= usize::MAX,
    ensures
        selects(
            ranks_of(hits, id, n),
            n,
            |k: int| hits[k]@ == id,
            |k: int| k as usize,
        ),
    decreases n,
{
    let keep = |k: int| hits[k]@ == id;
    let value = |k: int| k as usize;
    if n == 0 {
        selects_from_none(keep, value);
    } else {
        law_ranks_are_the_places(hits, id, (n - 1) as nat);
        selects_one_more(
            ranks_of(hits, id, (n - 1) as nat),
            ranks_of(hits, id, n),
            (n - 1) as nat,
            keep,
            value,
        );
    }
}

/// A higher score is ranked first, and of equal scores the lesser id. Nothing else plays a
/// part.
pub proof fn law_higher_scores_come_first(scored: Seq<(String, Binary32)>, i: int, j: int)
    requires
        all_numbers(scored),
        0 <= i < j < ranked(scored).len(),
    ensures
        ranked(scored)[j].1.le(ranked(scored)[i].1),
        ranked(scored)[i].1.le(ranked(scored)[j].1) ==> !text_before(
            ranked(scored)[j].0@,
            ranked(scored)[i].0@,
        ),
{
    law_ranking_sorts(scored);
    let (a, b) = (ranked(scored)[i], ranked(scored)[j]);
    assert(!outranks(b, a));
}

proof fn insertion_loses_nothing(sorted: Seq<(String, Binary32)>, x: (String, Binary32))
    ensures
        insert_ranked(sorted, x).to_multiset() == sorted.to_multiset().insert(x),
    decreases sorted.len(),
{
    broadcast use vstd::seq_lib::group_to_multiset_ensures;

    if sorted.len() > 0 && outranks(x, sorted.last()) {
        let front = sorted.drop_last();
        let last = sorted.last();
        insertion_loses_nothing(front, x);
        assert(sorted =~= front.push(last));
        assert(insert_ranked(sorted, x).to_multiset() =~= sorted.to_multiset().insert(x));
    }
}

/// Ranking loses nothing and adds nothing, whatever the scores are.
pub proof fn law_ranking_loses_nothing(scored: Seq<(String, Binary32)>)
    ensures
        ranked(scored).to_multiset() == scored.to_multiset(),
    decreases scored.len(),
{
    broadcast use vstd::seq_lib::group_to_multiset_ensures;

    if scored.len() > 0 {
        law_ranking_loses_nothing(scored.drop_last());
        insertion_loses_nothing(ranked(scored.drop_last()), scored.last());
        assert(scored =~= scored.drop_last().push(scored.last()));
    } else {
        assert(ranked(scored) =~= scored);
    }
}

/// The fused hit of an id holds every place of the id among the hits of either search, in
/// order, and no other.
pub proof fn law_fused_hit_has_every_rank(
    hit: FusedHit,
    id: Seq<char>,
    fts: Seq<String>,
    vector: Seq<String>,
)
    requires
        hit.id@ == id,
        has_all_ranks(hit, fts, vector),
        fts.len() <= usize::MAX,
        vector.len() <= usize::MAX,
    ensures
        selects(hit.fts_ranks@, fts.len(), |k: int| fts[k]@ == id, |k: int| k as usize),
        selects(hit.vector_ranks@, vector.len(), |k: int| vector[k]@ == id, |k: int| k as usize),
{
    law_ranks_are_the_places(fts, id, fts.len());
    law_ranks_are_the_places(vector, id, vector.len());
}

/// What fusion promises of two hit lists, hit by hit: each hit of either list is a fused hit,
/// each fused hit is a hit of one of the lists, and no two fused hits have the same id.
pub proof fn law_every_hit_is_fused_once(
    fused: Seq<FusedHit>,
    fts: Seq<String>,
    vector: Seq<String>,
    i: int,
    j: int,
)
    requires
        distinct_hits(fused),
        forall|id: Seq<char>| #[trigger]
            is_fused(fused, id) <==> is_hit(fts, id) || is_hit(vector, id),
    ensures
        0 <= i < fts.len() ==> exists|k: int|
            0 <= k < fused.len() && (#[trigger] fused[k]).id@ == fts[i]@,
        0 <= i < vector.len() ==> exists|k: int|
            0 <= k < fused.len() && (#[trigger] fused[k]).id@ == vector[i]@,
        0 <= i < fused.len() ==> (exists|k: int|
            0 <= k < fts.len() && (#[trigger] fts[k])@ == fused[i].id@) || (exists|k: int|
            0 <= k < vector.len() && (#[trigger] vector[k])@ == fused[i].id@),
        0 <= i < fused.len() && 0 <= j < fused.len() && fused[i].id@ == fused[j].id@ ==> i == j,
{
    if 0 <= i < fts.len() {
        assert(is_hit(fts, fts[i]@));
        assert(is_fused(fused, fts[i]@));
    }
    if 0 <= i < vector.len() {
        assert(is_hit(vector, vector[i]@));
        assert(is_fused(fused, vector[i]@));
    }
    if 0 <= i < fused.len() {
        assert(is_fused(fused, fused[i].id@));
    }
}

}
