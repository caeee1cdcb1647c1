//! Nomination of pairs and resolution of merges.

use vstd::prelude::*;
use crate::ieee::Binary32;
use crate::json::{read_string_field, string_field};
use crate::selection::{selects, selects_from_none, selects_one_more};
use crate::text::{comes_before, owned, same_text, text_before};

verus! {

/// Pattern of `0.8`: cosine similarity strictly above which two entities are
/// considered surface variants of one.
pub const L5_CANONICALIZATION_THRESHOLD_BITS: u32 = 0x3f4c_cccd;

/// Summary of a canonicalization run.
#[derive(Debug, Clone)]
pub struct CanonicalizationReport {
    /// The namespace that was canonicalized.
    pub group_id: String,
    /// Pairs examined: the upper triangle of the similarity matrix.
    pub pairs_examined: usize,
    /// Merges applied.
    pub merges_applied: usize,
    /// The threshold of the run.
    pub threshold_used: Binary32,
}

/// An entity as far as nomination and adjudication need it.
#[derive(Debug, Clone)]
pub struct EntitySlot {
    pub id: String,
    /// The entity's description; empty when it has none.
    pub description: String,
    /// Length of the description in bytes.
    pub description_len: usize,
}

/// Length of a text in bytes.
pub open spec fn byte_len(s: Seq<char>) -> usize {
    vstd::utf8::encode_utf8(s).len() as usize
}

/// The description in a properties column: the string member `description`, or
/// nothing.
pub open spec fn description_in(properties: Option<Seq<char>>) -> Seq<char> {
    match properties {
        Some(text) => match string_field(text, "description"@) {
            Some(d) => d,
            None => seq![],
        },
        None => seq![],
    }
}

/// The slot of an entity row. The length is derived from the description itself, so
/// the two cannot disagree.
pub fn entity_slot(id: String, properties: Option<&String>) -> (r: EntitySlot)
    ensures
        r.id == id,
        r.description@ == description_in(
            match properties {
                Some(p) => Some(p@),
                None => None,
            },
        ),
        r.description_len == byte_len(r.description@),
        r.description@ == (match properties {
            Some(p) => match string_field(p@, "description"@) {
                Some(d) => d,
                None => Seq::<char>::empty(),
            },
            None => Seq::<char>::empty(),
        }),
        r.description_len == vstd::utf8::encode_utf8(r.description@).len() as usize,
{
    let found = match properties {
        Some(p) => read_string_field(p.as_str(), "description"),
        None => None,
    };
    let description = match found {
        Some(d) => d,
        None => String::new(),
    };
    let description_len: usize = description.as_str().len();
    EntitySlot { id, description, description_len }
}

/// The pairs of row `i` of the upper triangle over `n` entities.
pub open spec fn triangle_row(n: nat, i: int) -> Seq<(usize, usize)> {
    Seq::new((n - i - 1) as nat, |k: int| (i as usize, (i + 1 + k) as usize))
}

/// The pairs of the first `rows` rows.
pub open spec fn triangle_rows(n: nat, rows: nat) -> Seq<(usize, usize)>
    decreases rows,
{
    if rows == 0 {
        seq![]
    } else {
        triangle_rows(n, (rows - 1) as nat) + triangle_row(n, rows - 1)
    }
}

/// Every pair `(i, j)` with `i < j` over `n` entities, row by row.
pub open spec fn triangle(n: nat) -> Seq<(usize, usize)> {
    triangle_rows(n, n)
}

/// Lists every pair `(i, j)` with `i < j`, row by row.
pub fn upper_triangle(n: usize) -> (r: Vec<(usize, usize)>)
    ensures
        r@ == triangle(n as nat),
{
    let mut out: Vec<(usize, usize)> = Vec::new();
    let mut i: usize = 0;
    while i < n
        invariant
            i <= n,
            out@ == triangle_rows(n as nat, i as nat),
        decreases n - i,
    {
        let mut j: usize = i + 1;
        let ghost done = out@;
        while j < n
            invariant
                i < j <= n,
                out@ == done + triangle_row(n as nat, i as int).take(j - i - 1),
            decreases n - j,
        {
            out.push((i, j));
            proof {
                let row = triangle_row(n as nat, i as int);
                assert(row.take(j - i) =~= row.take(j - i - 1).push((i, j)));
                assert(out@ =~= done + row.take(j - i));
            }
            j = j + 1;
        }
        proof {
            let row = triangle_row(n as nat, i as int);
            assert(row.take(n - i - 1) =~= row);
        }
        i = i + 1;
    }
    out
}

/// The upper triangle over `n` entities has `n (n - 1) / 2` pairs.
pub proof fn law_pairs_examined(n: nat)
    ensures
        triangle(n).len() * 2 == n * (n - 1),
{
    triangle_rows_len(n, n);
    assert(n * (2 * n - n - 1) == n * (n - 1)) by (nonlinear_arith);
}

proof fn triangle_rows_len(n: nat, rows: nat)
    requires
        rows <= n,
    ensures
        triangle_rows(n, rows).len() * 2 == rows * (2 * n - rows - 1),
    decreases rows,
{
    if rows > 0 {
        triangle_rows_len(n, (rows - 1) as nat);
        assert((rows - 1) * (2 * n - (rows - 1) - 1) + 2 * (n - (rows - 1) - 1) == rows * (2 * n
            - rows - 1)) by (nonlinear_arith)
            requires
                1 <= rows <= n,
        ;
    } else {
        assert(0 * (2 * n - 0 - 1) == 0) by (nonlinear_arith);
    }
}

/// The pairs of the triangle are in range, ordered, and each stands once.
proof fn triangle_pairs(n: nat, rows: nat)
    requires
        rows <= n <= usize::MAX,
    ensures
        forall|k: int|
            0 <= k < triangle_rows(n, rows).len() ==> (#[trigger] triangle_rows(n, rows)[k]).0
                < triangle_rows(n, rows)[k].1 < n && triangle_rows(n, rows)[k].0 < rows,
        forall|a: int, b: int|
            0 <= a < b < triangle_rows(n, rows).len() ==> #[trigger] triangle_rows(n, rows)[a]
                != #[trigger] triangle_rows(n, rows)[b],
        forall|i: int, j: int|
            0 <= i < rows && i < j < n ==> triangle_rows(n, rows).contains(
                #[trigger] index_pair(i, j),
            ),
    decreases rows,
{
    if rows > 0 {
        let before = triangle_rows(n, (rows - 1) as nat);
        let row = triangle_row(n, rows - 1);
        let all = triangle_rows(n, rows);
        triangle_pairs(n, (rows - 1) as nat);
        assert forall|k: int| 0 <= k < all.len() implies (#[trigger] all[k]).0 < all[k].1 < n
            && all[k].0 < rows by {
            if k < before.len() {
                assert(all[k] == before[k]);
            } else {
                assert(all[k] == row[k - before.len()]);
            }
        }
        assert forall|a: int, b: int| 0 <= a < b < all.len() implies #[trigger] all[a]
            != #[trigger] all[b] by {
            if b < before.len() {
                assert(all[a] == before[a] && all[b] == before[b]);
            } else if a < before.len() {
                assert(all[a] == before[a]);
                assert(all[b] == row[b - before.len()]);
            } else {
                assert(all[a] == row[a - before.len()]);
                assert(all[b] == row[b - before.len()]);
            }
        }
        assert forall|i: int, j: int| 0 <= i < rows && i < j < n implies all.contains(
            #[trigger] index_pair(i, j),
        ) by {
            if i < rows - 1 {
                assert(before.contains(index_pair(i, j)));
                let k = choose|k: int| 0 <= k < before.len() && before[k] == index_pair(i, j);
                assert(all[k] == index_pair(i, j));
            } else {
                let k = j - i - 1;
                assert(row[k] == index_pair(i, j));
                assert(all[before.len() + k] == index_pair(i, j));
            }
        }
    }
}

/// The pair of two indices.
pub open spec fn index_pair(i: int, j: int) -> (usize, usize) {
    (i as usize, j as usize)
}

/// The upper triangle holds every unordered pair of different entities exactly once,
/// lesser index first.
pub proof fn law_triangle_is_every_pair_once(n: nat)
    requires
        n <= usize::MAX,
    ensures
        forall|k: int|
            0 <= k < triangle(n).len() ==> (#[trigger] triangle(n)[k]).0 < triangle(n)[k].1 < n,
        forall|a: int, b: int|
            0 <= a < b < triangle(n).len() ==> #[trigger] triangle(n)[a] != #[trigger] triangle(
                n,
            )[b],
        forall|i: int, j: int|
            0 <= i < j < n ==> triangle(n).contains(#[trigger] index_pair(i, j)),
{
    triangle_pairs(n, n);
}

/// A pair nominated for a merge, by the indices of its entities.
#[derive(Debug, Clone, Copy, PartialEq, Eq, Structural)]
pub struct MergePair {
    pub loser: usize,
    pub keeper: usize,
    pub similarity: Binary32,
}

/// What becomes of a pair with the given similarity. `None` when the similarity is
/// unknown or not strictly above the threshold. Otherwise the entity with the longer
/// description is the keeper, the first of the pair when they are equally long.
pub open spec fn nomination(
    slots: Seq<EntitySlot>,
    pair: (usize, usize),
    similarity: Option<Binary32>,
    threshold: Binary32,
) -> Option<MergePair> {
    match similarity {
        Some(raw) if threshold.lt(raw.clamped()) => {
            let (i, j) = pair;
            if slots[i as int].description_len >= slots[j as int].description_len {
                Some(MergePair { loser: j, keeper: i, similarity: raw.clamped() })
            } else {
                Some(MergePair { loser: i, keeper: j, similarity: raw.clamped() })
            }
        },
        _ => None,
    }
}

/// The nominations among the first `k` pairs of the upper triangle.
pub open spec fn nominations(
    slots: Seq<EntitySlot>,
    similarities: Seq<Option<Binary32>>,
    threshold: Binary32,
    k: nat,
) -> Seq<MergePair>
    decreases k,
{
    if k == 0 {
        seq![]
    } else {
        let before = nominations(slots, similarities, threshold, (k - 1) as nat);
        match nomination(
            slots,
            triangle(slots.len())[k - 1],
            similarities[k - 1],
            threshold,
        ) {
            Some(p) => before.push(p),
            None => before,
        }
    }
}

/// Nominates pairs for merging. `similarities[k]` is the cosine similarity of pair
/// `k` of the upper triangle over `slots`, `None` where a vector has no direction; it
/// is clamped to `[0, 1]` here.
pub fn find_merge_pairs(
    slots: &Vec<EntitySlot>,
    similarities: &Vec<Option<Binary32>>,
    threshold: Binary32,
) -> (r: Vec<MergePair>)
    requires
        similarities.len() == triangle(slots@.len()).len(),
    ensures
        r@ == nominations(slots@, similarities@, threshold, similarities@.len()),
        pairs_ok(slots@, r@),
        forall|x: int|
            0 <= x < r.len() ==> {
                let loser = slots@[(#[trigger] r@[x]).loser as int];
                let keeper = slots@[r@[x].keeper as int];
                &&& keeper.description_len >= loser.description_len
                &&& keeper.description_len == loser.description_len ==> r@[x].keeper < r@[x].loser
            },
{
    let pairs = upper_triangle(slots.len());
    proof {
        law_triangle_is_every_pair_once(slots@.len());
    }
    let mut out: Vec<MergePair> = Vec::new();
    let mut k: usize = 0;
    while k < similarities.len()
        invariant
            k <= similarities.len(),
            similarities.len() == pairs.len(),
            pairs@ == triangle(slots@.len()),
            forall|x: int|
                0 <= x < pairs.len() ==> (#[trigger] pairs@[x]).0 < pairs@[x].1 < slots.len(),
            out@ == nominations(slots@, similarities@, threshold, k as nat),
        decreases similarities.len() - k,
    {
        let (i, j) = pairs[k];
        assert(pairs@[k as int].0 < pairs@[k as int].1 < slots.len());
        if let Some(raw) = similarities[k] {
            let similarity = raw.clamp_unit();
            if threshold.less_than(similarity) {
                if slots[i].description_len >= slots[j].description_len {
                    out.push(MergePair { loser: j, keeper: i, similarity });
                } else {
                    out.push(MergePair { loser: i, keeper: j, similarity });
                }
            }
        }
        k = k + 1;
    }
    proof {
        law_nominations_keep_the_longer(slots@, similarities@, threshold, similarities@.len());
        law_longer_description_is_kept(slots@, similarities@, threshold);
    }
    out
}

/// Entity `a` is kept before entity `b`: it has the longer description, or an equally
/// long one and the lesser index.
pub open spec fn kept_before(slots: Seq<EntitySlot>, a: int, b: int) -> bool {
    ||| slots[a].description_len > slots[b].description_len
    ||| slots[a].description_len == slots[b].description_len && a < b
}

/// The pair is about two entities of `slots`, of which the keeper is kept before the
/// loser.
pub open spec fn pair_ok(slots: Seq<EntitySlot>, p: MergePair) -> bool {
    &&& p.loser < slots.len()
    &&& p.keeper < slots.len()
    &&& kept_before(slots, p.keeper as int, p.loser as int)
}

/// Every pair is about two entities, of which the keeper is kept before the loser.
pub open spec fn pairs_ok(slots: Seq<EntitySlot>, pairs: Seq<MergePair>) -> bool {
    forall|k: int| 0 <= k < pairs.len() ==> pair_ok(slots, #[trigger] pairs[k])
}

/// In every nominated pair the keeper is kept before the loser, and the similarity is
/// strictly above the threshold.
pub proof fn law_nominations_keep_the_longer(
    slots: Seq<EntitySlot>,
    similarities: Seq<Option<Binary32>>,
    threshold: Binary32,
    k: nat,
)
    requires
        slots.len() <= usize::MAX,
        k <= triangle(slots.len()).len(),
    ensures
        pairs_ok(slots, nominations(slots, similarities, threshold, k)),
        forall|x: int|
            0 <= x < nominations(slots, similarities, threshold, k).len() ==> threshold.lt(
                (#[trigger] nominations(slots, similarities, threshold, k)[x]).similarity,
            ),
    decreases k,
{
    if k > 0 {
        law_nominations_keep_the_longer(slots, similarities, threshold, (k - 1) as nat);
        law_triangle_is_every_pair_once(slots.len());
        let before = nominations(slots, similarities, threshold, (k - 1) as nat);
        let all = nominations(slots, similarities, threshold, k);
        let pair = triangle(slots.len())[k - 1];
        assert(pair.0 < pair.1 < slots.len());
        assert forall|x: int| 0 <= x < all.len() implies pair_ok(slots, #[trigger] all[x])
            && threshold.lt(all[x].similarity) by {
            if x < before.len() {
                assert(all[x] == before[x]);
            }
        }
    }
}

/// The nominated pairs whose names are lexically compatible, in order.
pub open spec fn compatible_pairs(pairs: Seq<MergePair>, compatible: Seq<bool>, k: nat) -> Seq<
    MergePair,
>
    decreases k,
{
    if k == 0 {
        seq![]
    } else {
        let before = compatible_pairs(pairs, compatible, (k - 1) as nat);
        if compatible[k - 1] {
            before.push(pairs[k - 1])
        } else {
            before
        }
    }
}

/// Keeps the pairs whose names are lexically compatible. Closeness of the vectors
/// alone does not make two entities one.
pub fn keep_compatible(pairs: &Vec<MergePair>, compatible: &Vec<bool>) -> (r: Vec<MergePair>)
    requires
        compatible.len() == pairs.len(),
    ensures
        r@ == compatible_pairs(pairs@, compatible@, pairs@.len()),
        selects(r@, pairs@.len(), |k: int| compatible@[k], |k: int| pairs@[k]),
{
    let mut out: Vec<MergePair> = Vec::new();
    let mut k: usize = 0;
    while k < pairs.len()
        invariant
            k <= pairs.len(),
            compatible.len() == pairs.len(),
            out@ == compatible_pairs(pairs@, compatible@, k as nat),
        decreases pairs.len() - k,
    {
        if compatible[k] {
            out.push(pairs[k]);
        }
        k = k + 1;
    }
    proof {
        law_compatible_pairs_are_kept(pairs@, compatible@, pairs@.len());
    }
    out
}

/// `p` is one of the first `k` pairs and its names are compatible.
pub open spec fn is_compatible_pair(
    pairs: Seq<MergePair>,
    compatible: Seq<bool>,
    k: nat,
    p: MergePair,
) -> bool {
    exists|y: int| 0 <= y < k && compatible[y] && #[trigger] pairs[y] == p
}

/// A compatible pair is one of the pairs, and every pair found compatible is kept.
proof fn compatible_pairs_are_pairs(pairs: Seq<MergePair>, compatible: Seq<bool>, k: nat)
    requires
        k <= pairs.len(),
    ensures
        forall|x: int|
            0 <= x < compatible_pairs(pairs, compatible, k).len() ==> is_compatible_pair(
                pairs,
                compatible,
                k,
                #[trigger] compatible_pairs(pairs, compatible, k)[x],
            ),
        forall|y: int|
            0 <= y < k && compatible[y] ==> compatible_pairs(pairs, compatible, k).contains(
                #[trigger] pairs[y],
            ),
    decreases k,
{
    if k > 0 {
        compatible_pairs_are_pairs(pairs, compatible, (k - 1) as nat);
        let before = compatible_pairs(pairs, compatible, (k - 1) as nat);
        let all = compatible_pairs(pairs, compatible, k);
        assert forall|x: int| 0 <= x < all.len() implies is_compatible_pair(
            pairs,
            compatible,
            k,
            #[trigger] all[x],
        ) by {
            if x < before.len() {
                assert(is_compatible_pair(pairs, compatible, (k - 1) as nat, before[x]));
            } else {
                assert(pairs[k - 1] == all[x]);
            }
        }
        assert forall|y: int| 0 <= y < k && compatible[y] implies all.contains(
            #[trigger] pairs[y],
        ) by {
            if y < k - 1 {
                let x = choose|x: int| 0 <= x < before.len() && before[x] == pairs[y];
                assert(all[x] == pairs[y]);
            } else {
                assert(all[before.len() as int] == pairs[y]);
            }
        }
    }
}

proof fn compatible_pairs_ok(
    slots: Seq<EntitySlot>,
    pairs: Seq<MergePair>,
    compatible: Seq<bool>,
)
    requires
        pairs_ok(slots, pairs),
    ensures
        pairs_ok(slots, compatible_pairs(pairs, compatible, pairs.len())),
{
    compatible_pairs_are_pairs(pairs, compatible, pairs.len());
    let kept = compatible_pairs(pairs, compatible, pairs.len());
    assert forall|x: int| 0 <= x < kept.len() implies pair_ok(slots, #[trigger] kept[x]) by {
        assert(is_compatible_pair(pairs, compatible, pairs.len(), kept[x]));
    }
}

/// What `l` is to be merged into: the keeper with the longest description among the
/// pairs in which `l` loses, the first of them when several are equally long, and
/// `None` when `l` loses in no pair.
pub open spec fn keeper_among(
    slots: Seq<EntitySlot>,
    pairs: Seq<MergePair>,
    l: int,
) -> Option<usize>
    decreases pairs.len(),
{
    if pairs.len() == 0 {
        None
    } else {
        let before = keeper_among(slots, pairs.drop_last(), l);
        let last = pairs.last();
        if last.loser != l {
            before
        } else {
            match before {
                Some(k) if slots[last.keeper as int].description_len
                    <= slots[k as int].description_len => before,
                _ => Some(last.keeper),
            }
        }
    }
}

/// The keeper of every loser.
pub open spec fn keepers_of(slots: Seq<EntitySlot>, pairs: Seq<MergePair>) -> Seq<Option<usize>> {
    Seq::new(slots.len(), |l: int| keeper_among(slots, pairs, l))
}

/// Every keeper is an entity that is kept before its loser, so following keepers
/// always comes to an end.
pub open spec fn keepers_ok(slots: Seq<EntitySlot>, keepers: Seq<Option<usize>>) -> bool {
    &&& keepers.len() == slots.len()
    &&& forall|l: int|
        0 <= l < keepers.len() ==> (#[trigger] keepers[l] matches Some(k) ==> k < slots.len()
            && kept_before(slots, k as int, l))
}

/// An entity has a keeper exactly when it loses in some pair. Its keeper won against
/// it in one of them, and no keeper that won against it has a longer description.
pub proof fn law_keeper_has_the_longest_description(
    slots: Seq<EntitySlot>,
    pairs: Seq<MergePair>,
    l: int,
)
    ensures
        match keeper_among(slots, pairs, l) {
            Some(k) => {
                &&& exists|p: int|
                    0 <= p < pairs.len() && (#[trigger] pairs[p]).loser == l && pairs[p].keeper == k
                &&& forall|q: int|
                    0 <= q < pairs.len() && (#[trigger] pairs[q]).loser == l
                        ==> slots[pairs[q].keeper as int].description_len
                        <= slots[k as int].description_len
            },
            None => forall|q: int| 0 <= q < pairs.len() ==> (#[trigger] pairs[q]).loser != l,
        },
    decreases pairs.len(),
{
    if pairs.len() > 0 {
        let front = pairs.drop_last();
        law_keeper_has_the_longest_description(slots, front, l);
        assert forall|q: int| 0 <= q < pairs.len() implies #[trigger] pairs[q] == (if q
            < front.len() {
            front[q]
        } else {
            pairs.last()
        }) by {}
        if let Some(k) = keeper_among(slots, front, l) {
            let p = choose|p: int|
                0 <= p < front.len() && (#[trigger] front[p]).loser == l && front[p].keeper == k;
            assert(pairs[p].keeper == k);
        }
        if pairs.last().loser == l {
            assert(pairs[pairs.len() - 1].loser == l);
        }
    }
}

proof fn keepers_of_ok(slots: Seq<EntitySlot>, pairs: Seq<MergePair>)
    requires
        pairs_ok(slots, pairs),
    ensures
        keepers_ok(slots, keepers_of(slots, pairs)),
{
    let keepers = keepers_of(slots, pairs);
    assert forall|l: int| 0 <= l < keepers.len() implies (#[trigger] keepers[l] matches Some(k)
        ==> k < slots.len() && kept_before(slots, k as int, l)) by {
        law_keeper_has_the_longest_description(slots, pairs, l);
        if let Some(k) = keeper_among(slots, pairs, l) {
            let p = choose|p: int|
                0 <= p < pairs.len() && (#[trigger] pairs[p]).loser == l && pairs[p].keeper == k;
            assert(pair_ok(slots, pairs[p]));
        }
    }
}

/// Settles the keeper of every loser.
pub fn choose_keepers(slots: &Vec<EntitySlot>, pairs: &Vec<MergePair>) -> (r: Vec<Option<usize>>)
    requires
        pairs_ok(slots@, pairs@),
    ensures
        r@ == keepers_of(slots@, pairs@),
        keepers_ok(slots@, r@),
{
    let mut keepers: Vec<Option<usize>> = Vec::new();
    let mut l: usize = 0;
    while l < slots.len()
        invariant
            l <= slots.len(),
            pairs_ok(slots@, pairs@),
            keepers@ == keepers_of(slots@, pairs@).take(l as int),
        decreases slots.len() - l,
    {
        let mut found: Option<usize> = None;
        let mut q: usize = 0;
        assert(pairs@.take(0) =~= Seq::<MergePair>::empty());
        while q < pairs.len()
            invariant
                q <= pairs.len(),
                pairs_ok(slots@, pairs@),
                found == keeper_among(slots@, pairs@.take(q as int), l as int),
                found matches Some(k) ==> k < slots.len(),
            decreases pairs.len() - q,
        {
            let p = pairs[q];
            assert(pair_ok(slots@, pairs@[q as int]));
            assert(pairs@.take(q + 1).drop_last() =~= pairs@.take(q as int));
            assert(pairs@.take(q + 1).last() == p);
            if p.loser == l {
                let better = match found {
                    Some(k) => slots[p.keeper].description_len > slots[k].description_len,
                    None => true,
                };
                if better {
                    found = Some(p.keeper);
                }
            }
            q = q + 1;
        }
        assert(pairs@.take(q as int) =~= pairs@);
        keepers.push(found);
        l = l + 1;
    }
    proof {
        keepers_of_ok(slots@, pairs@);
        assert(keepers@ =~= keepers_of(slots@, pairs@));
    }
    keepers
}

/// Where following keepers from `k` ends: the first entity on the way that loses in no
/// pair.
pub open spec fn chain_end(slots: Seq<EntitySlot>, keepers: Seq<Option<usize>>, k: int) -> int
    decreases usize::MAX - slots[k].description_len, k,
    when keepers_ok(slots, keepers) && 0 <= k < keepers.len()
{
    match keepers[k] {
        Some(next) => chain_end(slots, keepers, next as int),
        None => k,
    }
}

/// Follows keepers from `start` to the entity that is not merged itself.
pub fn resolve_keeper(
    slots: &Vec<EntitySlot>,
    keepers: &Vec<Option<usize>>,
    start: usize,
) -> (r: usize)
    requires
        keepers_ok(slots@, keepers@),
        start < keepers.len(),
    ensures
        r < keepers.len(),
        r == chain_end(slots@, keepers@, start as int),
{
    let mut current: usize = start;
    loop
        invariant
            keepers_ok(slots@, keepers@),
            current < keepers.len(),
            chain_end(slots@, keepers@, current as int) == chain_end(
                slots@,
                keepers@,
                start as int,
            ),
        decreases usize::MAX - slots@[current as int].description_len, current,
    {
        match keepers[current] {
            Some(next) => {
                assert(keepers@[current as int] == Some(next));
                current = next;
            },
            None => {
                return current;
            },
        }
    }
}

/// A chain ends at an entity that loses in no pair, and that entity is kept before
/// every entity on the way.
pub proof fn law_chain_ends_at_a_survivor(
    slots: Seq<EntitySlot>,
    keepers: Seq<Option<usize>>,
    k: int,
)
    requires
        keepers_ok(slots, keepers),
        0 <= k < keepers.len(),
    ensures
        ({
            let end = chain_end(slots, keepers, k);
            &&& 0 <= end < keepers.len()
            &&& keepers[end] is None
            &&& end == k || kept_before(slots, end, k)
        }),
    decreases usize::MAX - slots[k].description_len, k,
{
    if let Some(next) = keepers[k] {
        law_chain_ends_at_a_survivor(slots, keepers, next as int);
    }
}

/// An unordered pair of ids, lesser id first.
pub open spec fn sorted_ids(a: Seq<char>, b: Seq<char>) -> (Seq<char>, Seq<char>) {
    if text_before(b, a) {
        (b, a)
    } else {
        (a, b)
    }
}

/// The two ids with the lesser one first, so that the pair is the same whichever of
/// them is the keeper.
pub fn sorted_pair(a: &String, b: &String) -> (r: (String, String))
    ensures
        (r.0@, r.1@) == sorted_ids(a@, b@),
        (r.0@ == a@ && r.1@ == b@) || (r.0@ == b@ && r.1@ == a@),
        !text_before(r.1@, r.0@),
{
    proof {
        law_sorted_pair_is_in_order(a@, b@);
    }
    if comes_before(b.as_str(), a.as_str()) {
        (b.clone(), a.clone())
    } else {
        (a.clone(), b.clone())
    }
}

/// Which of two ids is the keeper makes no difference to their sorted pair.
pub proof fn law_sorted_pair_symmetric(a: Seq<char>, b: Seq<char>)
    ensures
        sorted_ids(a, b) == sorted_ids(b, a),
{
    crate::text::text_order_total(a, b);
    crate::text::text_order_irreflexive(a);
}

/// The pair was split by hand and must not be merged again.
pub open spec fn banned(nogoods: Seq<(String, String)>, a: Seq<char>, b: Seq<char>) -> bool {
    exists|i: int|
        0 <= i < nogoods.len() && ((#[trigger] nogoods[i]).0@, nogoods[i].1@) == sorted_ids(a, b)
}

/// Whether the pair was split by hand.
pub fn is_banned(nogoods: &Vec<(String, String)>, a: &String, b: &String) -> (r: bool)
    ensures
        r == banned(nogoods@, a@, b@),
{
    let (lo, hi) = sorted_pair(a, b);
    let mut i: usize = 0;
    while i < nogoods.len()
        invariant
            i <= nogoods.len(),
            (lo@, hi@) == sorted_ids(a@, b@),
            forall|x: int|
                0 <= x < i ==> ((#[trigger] nogoods@[x]).0@, nogoods@[x].1@) != sorted_ids(a@, b@),
        decreases nogoods.len() - i,
    {
        if same_text(&nogoods[i].0, &lo) && same_text(&nogoods[i].1, &hi) {
            return true;
        }
        i = i + 1;
    }
    false
}

/// The similarity with which `keeper` was nominated for `loser`; `None` when following
/// keepers led to a pair that was not nominated itself.
pub open spec fn cosine_of(pairs: Seq<MergePair>, loser: int, keeper: int) -> Option<Binary32>
    decreases pairs.len(),
{
    if pairs.len() == 0 {
        None
    } else if pairs.last().loser == loser && pairs.last().keeper == keeper {
        Some(pairs.last().similarity)
    } else {
        cosine_of(pairs.drop_last(), loser, keeper)
    }
}

fn pair_cosine(pairs: &Vec<MergePair>, loser: usize, keeper: usize) -> (r: Option<Binary32>)
    ensures
        r == cosine_of(pairs@, loser as int, keeper as int),
{
    let mut i: usize = pairs.len();
    assert(pairs@.take(i as int) =~= pairs@);
    while i > 0
        invariant
            i <= pairs.len(),
            cosine_of(pairs@, loser as int, keeper as int) == cosine_of(
                pairs@.take(i as int),
                loser as int,
                keeper as int,
            ),
        decreases i,
    {
        i = i - 1;
        assert(pairs@.take(i + 1).drop_last() =~= pairs@.take(i as int));
        assert(pairs@.take(i + 1).last() == pairs@[i as int]);
        if pairs[i].loser == loser && pairs[i].keeper == keeper {
            return Some(pairs[i].similarity);
        }
    }
    None
}

/// A merge that is to be made, by the indices of its entities. The cosine is that of
/// the pair itself, `None` when the pair came out of following keepers.
#[derive(Debug, Clone, Copy, PartialEq, Eq, Structural)]
pub struct PlannedMerge {
    pub loser: usize,
    pub keeper: usize,
    pub cosine: Option<Binary32>,
}

/// The merge of entity `l`: into the end of its chain of keepers, unless that pair was
/// split by hand. `None` when `l` loses in no pair.
pub open spec fn merge_of(
    slots: Seq<EntitySlot>,
    pairs: Seq<MergePair>,
    nogoods: Seq<(String, String)>,
    l: int,
) -> Option<PlannedMerge> {
    match keeper_among(slots, pairs, l) {
        Some(k) => {
            let end = chain_end(slots, keepers_of(slots, pairs), k as int);
            if end == l || banned(nogoods, slots[l].id@, slots[end].id@) {
                None
            } else {
                Some(
                    PlannedMerge {
                        loser: l as usize,
                        keeper: end as usize,
                        cosine: cosine_of(pairs, l, end),
                    },
                )
            }
        },
        None => None,
    }
}

/// The merges of the first `l` entities, in their order.
pub open spec fn merges_of(
    slots: Seq<EntitySlot>,
    pairs: Seq<MergePair>,
    nogoods: Seq<(String, String)>,
    l: nat,
) -> Seq<PlannedMerge>
    decreases l,
{
    if l == 0 {
        seq![]
    } else {
        let before = merges_of(slots, pairs, nogoods, (l - 1) as nat);
        match merge_of(slots, pairs, nogoods, l - 1) {
            Some(m) => before.push(m),
            None => before,
        }
    }
}

/// Resolves the pairs to merges: every loser is merged once, into the entity at which
/// its chain of keepers ends, and no pair that was split by hand is merged again.
pub fn plan_merges(
    slots: &Vec<EntitySlot>,
    pairs: &Vec<MergePair>,
    nogoods: &Vec<(String, String)>,
) -> (r: Vec<PlannedMerge>)
    requires
        pairs_ok(slots@, pairs@),
    ensures
        r@ == merges_of(slots@, pairs@, nogoods@, slots@.len()),
{
    let keepers = choose_keepers(slots, pairs);
    let mut out: Vec<PlannedMerge> = Vec::new();
    let mut l: usize = 0;
    while l < slots.len()
        invariant
            l <= slots.len(),
            keepers@ == keepers_of(slots@, pairs@),
            keepers_ok(slots@, keepers@),
            out@ == merges_of(slots@, pairs@, nogoods@, l as nat),
        decreases slots.len() - l,
    {
        assert(keepers@[l as int] == keeper_among(slots@, pairs@, l as int));
        if let Some(k) = keepers[l] {
            let end: usize = resolve_keeper(slots, &keepers, k);
            if end != l && !is_banned(nogoods, &slots[l].id, &slots[end].id) {
                let cosine = pair_cosine(pairs, l, end);
                out.push(PlannedMerge { loser: l, keeper: end, cosine });
            }
        }
        l = l + 1;
    }
    out
}

/// The merges of a canonicalization run over `slots` and the number of pairs that it
/// examined. `pairs` are the nominations of [`find_merge_pairs`] and `compatible[k]`
/// says whether the names of pair `k` are lexically compatible. With fewer than two
/// entities no pair is examined.
pub fn canonicalize_surface_forms(
    slots: &Vec<EntitySlot>,
    pairs: &Vec<MergePair>,
    compatible: &Vec<bool>,
    nogoods: &Vec<(String, String)>,
) -> (r: (usize, Vec<PlannedMerge>))
    requires
        pairs_ok(slots@, pairs@),
        compatible.len() == pairs.len(),
        triangle(slots@.len()).len() <= usize::MAX,
    ensures
        r.0 == triangle(slots@.len()).len(),
        r.1@ == merges_of(
            slots@,
            compatible_pairs(pairs@, compatible@, pairs@.len()),
            nogoods@,
            slots@.len(),
        ),
{
    let kept = keep_compatible(pairs, compatible);
    proof {
        compatible_pairs_ok(slots@, pairs@, compatible@);
    }
    let merges = plan_merges(slots, &kept, nogoods);
    (pair_count(slots.len()), merges)
}

/// The number of pairs among `n` entities.
pub fn pair_count(n: usize) -> (r: usize)
    requires
        triangle(n as nat).len() <= usize::MAX,
    ensures
        r == triangle(n as nat).len(),
{
    proof {
        law_pairs_examined(n as nat);
    }
    if n < 2 {
        assert(n * (n - 1) == 0) by (nonlinear_arith)
            requires
                n < 2,
        ;
        return 0;
    }
    let half: usize = n / 2;
    if n % 2 == 0 {
        assert(n * (n - 1) == half * (n - 1) * 2) by (nonlinear_arith)
            requires
                n == 2 * half,
        ;
        half * (n - 1)
    } else {
        assert(n * (n - 1) == n * half * 2) by (nonlinear_arith)
            requires
                n - 1 == 2 * half,
        ;
        n * half
    }
}

/// The report of a run that applied `merges_applied` merges.
pub fn canonicalization_report(
    group_id: &str,
    entities: usize,
    merges_applied: usize,
    threshold: Binary32,
) -> (r: CanonicalizationReport)
    requires
        triangle(entities as nat).len() <= usize::MAX,
    ensures
        r.group_id@ == group_id@,
        r.pairs_examined == triangle(entities as nat).len(),
        r.merges_applied == merges_applied,
        r.threshold_used == threshold,
{
    CanonicalizationReport {
        group_id: owned(group_id),
        pairs_examined: pair_count(entities),
        merges_applied,
        threshold_used: threshold,
    }
}

/// The merges of the first `l` entities are those of single entities, and each entity
/// that has a merge is among them.
proof fn merges_are_single_merges(
    slots: Seq<EntitySlot>,
    pairs: Seq<MergePair>,
    nogoods: Seq<(String, String)>,
    l: nat,
)
    requires
        l <= slots.len() <= usize::MAX,
    ensures
        forall|x: int|
            0 <= x < merges_of(slots, pairs, nogoods, l).len() ==> {
                let m = #[trigger] merges_of(slots, pairs, nogoods, l)[x];
                m.loser < l && merge_of(slots, pairs, nogoods, m.loser as int) == Some(m)
            },
        forall|x: int, y: int|
            0 <= x < y < merges_of(slots, pairs, nogoods, l).len() ==> (#[trigger] merges_of(
                slots,
                pairs,
                nogoods,
                l,
            )[x]).loser < (#[trigger] merges_of(slots, pairs, nogoods, l)[y]).loser,
        forall|i: int|
            0 <= i < l && (#[trigger] merge_of(slots, pairs, nogoods, i)) is Some ==> merges_of(
                slots,
                pairs,
                nogoods,
                l,
            ).contains(merge_of(slots, pairs, nogoods, i)->0),
    decreases l,
{
    if l > 0 {
        merges_are_single_merges(slots, pairs, nogoods, (l - 1) as nat);
        let before = merges_of(slots, pairs, nogoods, (l - 1) as nat);
        let all = merges_of(slots, pairs, nogoods, l);
        assert forall|x: int| 0 <= x < all.len() implies {
            let m = #[trigger] all[x];
            m.loser < l && merge_of(slots, pairs, nogoods, m.loser as int) == Some(m)
        } by {
            if x < before.len() {
                assert(all[x] == before[x]);
            }
        }
        assert forall|x: int, y: int| 0 <= x < y < all.len() implies (#[trigger] all[x]).loser < (
        #[trigger] all[y]).loser by {
            assert(all[x] == before[x]);
            if y < before.len() {
                assert(all[y] == before[y]);
            }
        }
        assert forall|i: int|
            0 <= i < l && (#[trigger] merge_of(slots, pairs, nogoods, i)) is Some implies
            all.contains(merge_of(slots, pairs, nogoods, i)->0) by {
            let m = merge_of(slots, pairs, nogoods, i)->0;
            if i < l - 1 {
                let x = choose|x: int| 0 <= x < before.len() && before[x] == m;
                assert(all[x] == m);
            } else {
                assert(all[before.len() as int] == m);
            }
        }
    }
}

/// Entity `i` is merged into another one.
pub open spec fn is_merged(merges: Seq<PlannedMerge>, i: int) -> bool {
    exists|x: int| 0 <= x < merges.len() && (#[trigger] merges[x]).loser == i
}

/// What every plan keeps: no entity is merged into itself, and none twice. A keeper is
/// kept before its loser and is never merged away itself, so every merge of the plan
/// finds both of its entities in place. No pair that was split by hand is merged.
pub proof fn law_plan_is_sound(
    slots: Seq<EntitySlot>,
    pairs: Seq<MergePair>,
    nogoods: Seq<(String, String)>,
)
    requires
        slots.len() <= usize::MAX,
        pairs_ok(slots, pairs),
    ensures
        ({
            let merges = merges_of(slots, pairs, nogoods, slots.len());
            &&& forall|x: int|
                0 <= x < merges.len() ==> {
                    let m = #[trigger] merges[x];
                    &&& m.loser < slots.len()
                    &&& m.keeper < slots.len()
                    &&& m.loser != m.keeper
                    &&& kept_before(slots, m.keeper as int, m.loser as int)
                    &&& !is_merged(merges, m.keeper as int)
                    &&& !banned(nogoods, slots[m.loser as int].id@, slots[m.keeper as int].id@)
                }
            &&& forall|x: int, y: int|
                0 <= x < y < merges.len() ==> (#[trigger] merges[x]).loser != (
                #[trigger] merges[y]).loser
        }),
{
    merges_are_single_merges(slots, pairs, nogoods, slots.len());
    keepers_of_ok(slots, pairs);
    let keepers = keepers_of(slots, pairs);
    let merges = merges_of(slots, pairs, nogoods, slots.len());
    assert forall|x: int| 0 <= x < merges.len() implies {
        let m = #[trigger] merges[x];
        &&& m.loser < slots.len()
        &&& m.keeper < slots.len()
        &&& m.loser != m.keeper
        &&& kept_before(slots, m.keeper as int, m.loser as int)
        &&& !is_merged(merges, m.keeper as int)
        &&& !banned(nogoods, slots[m.loser as int].id@, slots[m.keeper as int].id@)
    } by {
        let m = merges[x];
        let l = m.loser as int;
        let k = keeper_among(slots, pairs, l)->0;
        assert(keepers[l] == Some(k));
        law_chain_ends_at_a_survivor(slots, keepers, k as int);
        let end = chain_end(slots, keepers, k as int);
        assert(m.keeper == end);
        assert(keepers[end] == keeper_among(slots, pairs, end));
        if is_merged(merges, end) {
            let y = choose|y: int| 0 <= y < merges.len() && (#[trigger] merges[y]).loser == end;
            assert(merge_of(slots, pairs, nogoods, end) == Some(merges[y]));
        }
    }
}

/// The pairs whose two entities both stay after the merges.
pub open spec fn pairs_left(pairs: Seq<MergePair>, merges: Seq<PlannedMerge>) -> Seq<MergePair>
    decreases pairs.len(),
{
    if pairs.len() == 0 {
        seq![]
    } else {
        let before = pairs_left(pairs.drop_last(), merges);
        let last = pairs.last();
        if is_merged(merges, last.loser as int) || is_merged(merges, last.keeper as int) {
            before
        } else {
            before.push(last)
        }
    }
}

proof fn no_pair_left(pairs: Seq<MergePair>, merges: Seq<PlannedMerge>)
    requires
        forall|p: int|
            0 <= p < pairs.len() ==> is_merged(merges, (#[trigger] pairs[p]).loser as int),
    ensures
        pairs_left(pairs, merges) == Seq::<MergePair>::empty(),
    decreases pairs.len(),
{
    if pairs.len() > 0 {
        let front = pairs.drop_last();
        assert forall|p: int| 0 <= p < front.len() implies is_merged(
            merges,
            (#[trigger] front[p]).loser as int,
        ) by {
            assert(front[p] == pairs[p]);
        }
        no_pair_left(front, merges);
        assert(pairs[pairs.len() - 1] == pairs.last());
    }
}

proof fn no_pair_no_merge(slots: Seq<EntitySlot>, nogoods: Seq<(String, String)>, l: nat)
    ensures
        merges_of(slots, seq![], nogoods, l) == Seq::<PlannedMerge>::empty(),
    decreases l,
{
    if l > 0 {
        no_pair_no_merge(slots, nogoods, (l - 1) as nat);
        assert(keeper_among(slots, seq![], l - 1) is None);
    }
}

/// Where no pair was split by hand, a run leaves nothing for the next one: in every
/// pair one entity is merged away, so no pair is left among the entities that stay, and
/// a second run over them merges nothing.
pub proof fn law_second_run_merges_nothing(
    slots: Seq<EntitySlot>,
    pairs: Seq<MergePair>,
)
    requires
        slots.len() <= usize::MAX,
        pairs_ok(slots, pairs),
    ensures
        ({
            let merges = merges_of(slots, pairs, seq![], slots.len());
            let left = pairs_left(pairs, merges);
            &&& forall|p: int|
                0 <= p < pairs.len() ==> is_merged(merges, (#[trigger] pairs[p]).loser as int)
            &&& left == Seq::<MergePair>::empty()
            &&& merges_of(slots, left, seq![], slots.len()) == Seq::<PlannedMerge>::empty()
        }),
{
    let nogoods: Seq<(String, String)> = seq![];
    merges_are_single_merges(slots, pairs, nogoods, slots.len());
    keepers_of_ok(slots, pairs);
    let keepers = keepers_of(slots, pairs);
    let merges = merges_of(slots, pairs, nogoods, slots.len());
    assert forall|p: int| 0 <= p < pairs.len() implies is_merged(
        merges,
        (#[trigger] pairs[p]).loser as int,
    ) by {
        assert(pair_ok(slots, pairs[p]));
        let l = pairs[p].loser as int;
        law_keeper_has_the_longest_description(slots, pairs, l);
        let k = keeper_among(slots, pairs, l)->0;
        assert(keepers[l] == Some(k));
        law_chain_ends_at_a_survivor(slots, keepers, k as int);
        let end = chain_end(slots, keepers, k as int);
        assert(!banned(nogoods, slots[l].id@, slots[end].id@));
        let m = merge_of(slots, pairs, nogoods, l)->0;
        assert(merges.contains(m));
        let x = choose|x: int| 0 <= x < merges.len() && merges[x] == m;
        assert(merges[x].loser == l);
    }
    no_pair_left(pairs, merges);
    no_pair_no_merge(slots, nogoods, slots.len());
}

/// Some pair of the upper triangle up to `k` is nominated as `p`.
pub open spec fn is_nominated(
    slots: Seq<EntitySlot>,
    similarities: Seq<Option<Binary32>>,
    threshold: Binary32,
    k: nat,
    p: MergePair,
) -> bool {
    exists|j: int|
        0 <= j < k && nomination(
            slots,
            #[trigger] triangle(slots.len())[j],
            similarities[j],
            threshold,
        ) == Some(p)
}

/// The nominations are the pairs that are nominated.
proof fn nominations_are_nominated(
    slots: Seq<EntitySlot>,
    similarities: Seq<Option<Binary32>>,
    threshold: Binary32,
    k: nat,
    p: MergePair,
)
    ensures
        nominations(slots, similarities, threshold, k).contains(p) <==> is_nominated(
            slots,
            similarities,
            threshold,
            k,
            p,
        ),
    decreases k,
{
    if k > 0 {
        nominations_are_nominated(slots, similarities, threshold, (k - 1) as nat, p);
        let before = nominations(slots, similarities, threshold, (k - 1) as nat);
        let all = nominations(slots, similarities, threshold, k);
        let last = nomination(slots, triangle(slots.len())[k - 1], similarities[k - 1], threshold);
        if before.contains(p) {
            let i = choose|i: int| 0 <= i < before.len() && before[i] == p;
            assert(all[i] == p);
        }
        if last == Some(p) {
            assert(all[before.len() as int] == p);
        }
        if all.contains(p) && !before.contains(p) {
            let i = choose|i: int| 0 <= i < all.len() && all[i] == p;
            if i < before.len() {
                assert(before[i] == p);
            }
        }
    }
}

/// The compatibility found for the pairs is that of a rule on their names.
pub open spec fn follows_rule(
    slots: Seq<EntitySlot>,
    pairs: Seq<MergePair>,
    compatible: Seq<bool>,
    rule: spec_fn(Seq<char>, Seq<char>) -> bool,
) -> bool {
    &&& compatible.len() == pairs.len()
    &&& forall|y: int|
        0 <= y < pairs.len() ==> compatible[y] == rule(
            slots[(#[trigger] pairs[y]).loser as int].id@,
            slots[pairs[y].keeper as int].id@,
        )
}

/// What a second run finds: the entities at the indices `kept`, in their order, as they
/// were, with the similarities that they had.
pub open spec fn is_rest(
    slots: Seq<EntitySlot>,
    similarities: Seq<Option<Binary32>>,
    kept: Seq<int>,
    rest: Seq<EntitySlot>,
    rest_similarities: Seq<Option<Binary32>>,
) -> bool {
    &&& rest.len() == kept.len()
    &&& rest_similarities.len() == triangle(rest.len()).len()
    &&& forall|a: int|
        0 <= a < kept.len() ==> 0 <= #[trigger] kept[a] < slots.len() && rest[a]
            == slots[kept[a]]
    &&& forall|a: int, b: int|
        0 <= a < b < kept.len() ==> #[trigger] kept[a] < #[trigger] kept[b]
    &&& forall|j: int, k: int|
        0 <= j < triangle(rest.len()).len() && 0 <= k < triangle(slots.len()).len() && index_pair(
            kept[(#[trigger] triangle(rest.len())[j]).0 as int],
            kept[triangle(rest.len())[j].1 as int],
        ) == #[trigger] triangle(slots.len())[k] ==> rest_similarities[j] == similarities[k]
}

/// A run is idempotent where no pair was split by hand: when the entities that it leaves
/// are nominated again, with the similarities and the names they had, no compatible pair
/// comes of it and nothing is merged.
pub proof fn law_second_nomination_merges_nothing(
    slots: Seq<EntitySlot>,
    similarities: Seq<Option<Binary32>>,
    compatible: Seq<bool>,
    kept: Seq<int>,
    rest: Seq<EntitySlot>,
    rest_similarities: Seq<Option<Binary32>>,
    rest_compatible: Seq<bool>,
    threshold: Binary32,
    rule: spec_fn(Seq<char>, Seq<char>) -> bool,
    nogoods: Seq<(String, String)>,
)
    requires
        slots.len() <= usize::MAX,
        similarities.len() == triangle(slots.len()).len(),
        follows_rule(
            slots,
            nominations(slots, similarities, threshold, similarities.len()),
            compatible,
            rule,
        ),
        is_rest(slots, similarities, kept, rest, rest_similarities),
        follows_rule(
            rest,
            nominations(rest, rest_similarities, threshold, rest_similarities.len()),
            rest_compatible,
            rule,
        ),
        ({
            let pairs = compatible_pairs(
                nominations(slots, similarities, threshold, similarities.len()),
                compatible,
                compatible.len(),
            );
            let merges = merges_of(slots, pairs, seq![], slots.len());
            forall|a: int| 0 <= a < kept.len() ==> !is_merged(merges, #[trigger] kept[a])
        }),
    ensures
        ({
            let again = compatible_pairs(
                nominations(rest, rest_similarities, threshold, rest_similarities.len()),
                rest_compatible,
                rest_compatible.len(),
            );
            &&& again == Seq::<MergePair>::empty()
            &&& merges_of(rest, again, nogoods, rest.len()) == Seq::<PlannedMerge>::empty()
        }),
{
    let first = nominations(slots, similarities, threshold, similarities.len());
    let pairs = compatible_pairs(first, compatible, compatible.len());
    let merges = merges_of(slots, pairs, seq![], slots.len());
    let second = nominations(rest, rest_similarities, threshold, rest_similarities.len());
    let again = compatible_pairs(second, rest_compatible, rest_compatible.len());
    law_nominations_keep_the_longer(slots, similarities, threshold, similarities.len());
    compatible_pairs_are_pairs(first, compatible, compatible.len());
    compatible_pairs_are_pairs(second, rest_compatible, rest_compatible.len());
    assert(pairs_ok(slots, pairs)) by {
        assert forall|x: int| 0 <= x < pairs.len() implies pair_ok(slots, #[trigger] pairs[x]) by {
            assert(is_compatible_pair(first, compatible, compatible.len(), pairs[x]));
        }
    }
    law_second_run_merges_nothing(slots, pairs);
    law_triangle_is_every_pair_once(slots.len());
    rest_is_no_longer(slots.len(), kept);
    law_triangle_is_every_pair_once(rest.len());
    if again.len() > 0 {
        let p = again[0];
        assert(is_compatible_pair(second, rest_compatible, rest_compatible.len(), p));
        let y = choose|y: int|
            0 <= y < second.len() && rest_compatible[y] && #[trigger] second[y] == p;
        assert(second.contains(p));
        nominations_are_nominated(rest, rest_similarities, threshold, rest_similarities.len(), p);
        let j = choose|j: int|
            0 <= j < rest_similarities.len() && nomination(
                rest,
                #[trigger] triangle(rest.len())[j],
                rest_similarities[j],
                threshold,
            ) == Some(p);
        let (a, b) = triangle(rest.len())[j];
        assert(a < b < rest.len());
        let (ka, kb) = (kept[a as int], kept[b as int]);
        assert(ka < kb);
        assert(triangle(slots.len()).contains(index_pair(ka, kb)));
        let k = choose|k: int|
            0 <= k < triangle(slots.len()).len() && triangle(slots.len())[k] == index_pair(ka, kb);
        assert(rest_similarities[j] == similarities[k]);
        let q = MergePair {
            loser: kept[p.loser as int] as usize,
            keeper: kept[p.keeper as int] as usize,
            similarity: p.similarity,
        };
        assert(nomination(slots, triangle(slots.len())[k], similarities[k], threshold) == Some(q));
        nominations_are_nominated(slots, similarities, threshold, similarities.len(), q);
        assert(first.contains(q));
        let z = choose|z: int| 0 <= z < first.len() && first[z] == q;
        assert(compatible[z] == rule(
            slots[first[z].loser as int].id@,
            slots[first[z].keeper as int].id@,
        ));
        assert(rest_compatible[y] == rule(
            rest[second[y].loser as int].id@,
            rest[second[y].keeper as int].id@,
        ));
        assert(is_compatible_pair(first, compatible, compatible.len(), q));
        assert(pairs.contains(q));
        let w = choose|w: int| 0 <= w < pairs.len() && pairs[w] == q;
        assert(is_merged(merges, pairs[w].loser as int));
        assert(!is_merged(merges, kept[p.loser as int]));
    }
    assert(again =~= Seq::<MergePair>::empty());
    no_pair_no_merge(rest, nogoods, rest.len());
}

/// Strictly increasing indices below `n` are at most `n`.
proof fn rest_is_no_longer(n: nat, kept: Seq<int>)
    requires
        forall|a: int| 0 <= a < kept.len() ==> 0 <= #[trigger] kept[a] < n,
        forall|a: int, b: int|
            0 <= a < b < kept.len() ==> #[trigger] kept[a] < #[trigger] kept[b],
    ensures
        kept.len() <= n,
        kept.len() > 0 ==> kept.len() <= kept.last() + 1,
    decreases kept.len(),
{
    if kept.len() > 1 {
        let front = kept.drop_last();
        assert forall|a: int| 0 <= a < front.len() implies 0 <= #[trigger] front[a] < n by {
            assert(front[a] == kept[a]);
        }
        assert forall|a: int, b: int| 0 <= a < b < front.len() implies #[trigger] front[a]
            < #[trigger] front[b] by {
            assert(front[a] == kept[a] && front[b] == kept[b]);
        }
        rest_is_no_longer(n, front);
        assert(front.last() == kept[kept.len() - 2]);
        assert(kept[kept.len() - 2] < kept[kept.len() - 1]);
    } else if kept.len() == 1 {
        assert(0 <= kept[0] < n);
    }
}

/// The places of the upper triangle whose similarity is known and, clamped to `[0, 1]`,
/// strictly above the threshold.
pub open spec fn similar_places(similarities: Seq<Option<Binary32>>, threshold: Binary32) -> spec_fn(
    int,
) -> bool {
    |k: int| similarities[k] is Some && threshold.lt(similarities[k]->0.clamped())
}

/// The pair is about the two entities, whichever of them is kept.
pub open spec fn is_about(p: MergePair, pair: (usize, usize)) -> bool {
    (p.loser == pair.0 && p.keeper == pair.1) || (p.loser == pair.1 && p.keeper == pair.0)
}

proof fn nominations_are_selected(
    slots: Seq<EntitySlot>,
    similarities: Seq<Option<Binary32>>,
    threshold: Binary32,
    n: nat,
)
    requires
        slots.len() <= usize::MAX,
        n <= similarities.len() == triangle(slots.len()).len(),
    ensures
        selects(
            nominations(slots, similarities, threshold, n).map_values(
                |p: MergePair| ends_of(p),
            ),
            n,
            similar_places(similarities, threshold),
            |k: int| (triangle(slots.len())[k].0, triangle(slots.len())[k].1, similarities[k]->0.clamped()),
        ),
    decreases n,
{
    let keep = similar_places(similarities, threshold);
    let value = |k: int|
        (triangle(slots.len())[k].0, triangle(slots.len())[k].1, similarities[k]->0.clamped());
    let ends = |p: MergePair| ends_of(p);
    let all = nominations(slots, similarities, threshold, n);
    if n == 0 {
        assert(all.map_values(ends) =~= Seq::<(usize, usize, Binary32)>::empty());
        selects_from_none(keep, value);
    } else {
        nominations_are_selected(slots, similarities, threshold, (n - 1) as nat);
        law_triangle_is_every_pair_once(slots.len());
        let before = nominations(slots, similarities, threshold, (n - 1) as nat);
        let pair = triangle(slots.len())[n - 1];
        assert(pair.0 < pair.1);
        if keep(n - 1) {
            assert(ends_of(all.last()) == value(n - 1));
            assert(all.map_values(ends) =~= before.map_values(ends).push(value(n - 1)));
        } else {
            assert(all == before);
        }
        selects_one_more(before.map_values(ends), all.map_values(ends), (n - 1) as nat, keep, value);
    }
}

/// The two entities of a nominated pair, lesser index first, and its similarity.
pub open spec fn ends_of(p: MergePair) -> (usize, usize, Binary32) {
    if p.loser < p.keeper {
        (p.loser, p.keeper, p.similarity)
    } else {
        (p.keeper, p.loser, p.similarity)
    }
}

/// The pair is about the two entities at place `k` of the upper triangle, whose similarity is
/// known and, clamped to `[0, 1]`, strictly above the threshold; that is the pair's own.
pub open spec fn is_similar_pair(
    slots: Seq<EntitySlot>,
    similarities: Seq<Option<Binary32>>,
    threshold: Binary32,
    k: int,
    p: MergePair,
) -> bool {
    &&& similarities[k] is Some
    &&& threshold.lt(similarities[k]->0.clamped())
    &&& is_about(p, triangle(slots.len())[k])
    &&& p.similarity == similarities[k]->0.clamped()
}

/// The pair is about two entities whose similarity is above the threshold.
pub open spec fn is_some_similar_pair(
    slots: Seq<EntitySlot>,
    similarities: Seq<Option<Binary32>>,
    threshold: Binary32,
    p: MergePair,
) -> bool {
    exists|k: int|
        0 <= k < similarities.len() && #[trigger] is_similar_pair(
            slots,
            similarities,
            threshold,
            k,
            p,
        )
}

/// Nomination is complete and sound: a pair of entities is nominated exactly when its
/// similarity is known and, clamped to `[0, 1]`, strictly above the threshold, whatever else
/// holds of the two. It is nominated once, with that similarity, in the order of the upper
/// triangle, and the entity with the longer description is the keeper, the first of the two
/// when they are equally long.
pub proof fn law_similar_pairs_are_nominated(
    slots: Seq<EntitySlot>,
    similarities: Seq<Option<Binary32>>,
    threshold: Binary32,
)
    requires
        slots.len() <= usize::MAX,
        similarities.len() == triangle(slots.len()).len(),
    ensures
        ({
            let found = nominations(slots, similarities, threshold, similarities.len());
            &&& forall|k: int|
                0 <= k < similarities.len() && (#[trigger] similarities[k]) is Some
                    && threshold.lt(similarities[k]->0.clamped()) ==> exists|x: int|
                    0 <= x < found.len() && is_similar_pair(
                        slots,
                        similarities,
                        threshold,
                        k,
                        #[trigger] found[x],
                    )
            &&& forall|x: int|
                0 <= x < found.len() ==> is_some_similar_pair(
                    slots,
                    similarities,
                    threshold,
                    #[trigger] found[x],
                )
            &&& forall|x: int|
                0 <= x < found.len() ==> slots[(#[trigger] found[x]).keeper as int].description_len
                    >= slots[found[x].loser as int].description_len
            &&& forall|x: int|
                0 <= x < found.len() && slots[(
                #[trigger] found[x]).keeper as int].description_len
                    == slots[found[x].loser as int].description_len ==> found[x].keeper
                    < found[x].loser
            &&& selects(
                found.map_values(|p: MergePair| ends_of(p)),
                similarities.len(),
                similar_places(similarities, threshold),
                |k: int|
                    (
                        triangle(slots.len())[k].0,
                        triangle(slots.len())[k].1,
                        similarities[k]->0.clamped(),
                    ),
            )
        }),
{
    let found = nominations(slots, similarities, threshold, similarities.len());
    law_triangle_is_every_pair_once(slots.len());
    law_nominations_keep_the_longer(slots, similarities, threshold, similarities.len());
    nominations_are_selected(slots, similarities, threshold, similarities.len());
    assert forall|k: int|
        0 <= k < similarities.len() && (#[trigger] similarities[k]) is Some && threshold.lt(
            similarities[k]->0.clamped(),
        ) implies exists|x: int|
        0 <= x < found.len() && is_similar_pair(
            slots,
            similarities,
            threshold,
            k,
            #[trigger] found[x],
        ) by {
        let pair = triangle(slots.len())[k];
        let p = nomination(slots, pair, similarities[k], threshold)->0;
        assert(is_nominated(slots, similarities, threshold, similarities.len(), p)) by {
            assert(nomination(slots, triangle(slots.len())[k], similarities[k], threshold)
                == Some(p));
        }
        nominations_are_nominated(slots, similarities, threshold, similarities.len(), p);
        let x = choose|x: int| 0 <= x < found.len() && found[x] == p;
        assert(is_similar_pair(slots, similarities, threshold, k, found[x]));
    }
    assert forall|x: int| 0 <= x < found.len() implies is_some_similar_pair(
        slots,
        similarities,
        threshold,
        #[trigger] found[x],
    ) by {
        let p = found[x];
        assert(found.contains(p));
        nominations_are_nominated(slots, similarities, threshold, similarities.len(), p);
        let k = choose|k: int|
            0 <= k < similarities.len() && nomination(
                slots,
                #[trigger] triangle(slots.len())[k],
                similarities[k],
                threshold,
            ) == Some(p);
        assert(is_similar_pair(slots, similarities, threshold, k, found[x]));
    }
    assert forall|x: int| 0 <= x < found.len() implies slots[(
    #[trigger] found[x]).keeper as int].description_len
        >= slots[found[x].loser as int].description_len && (
    slots[found[x].keeper as int].description_len == slots[found[x].loser as int].description_len
        ==> found[x].keeper < found[x].loser) by {
        assert(pair_ok(slots, found[x]));
    }
}

/// Exactly the pairs with compatible names are kept, in their order.
pub proof fn law_compatible_pairs_are_kept(pairs: Seq<MergePair>, compatible: Seq<bool>, n: nat)
    requires
        n <= pairs.len() == compatible.len(),
    ensures
        selects(
            compatible_pairs(pairs, compatible, n),
            n,
            |k: int| compatible[k],
            |k: int| pairs[k],
        ),
    decreases n,
{
    let keep = |k: int| compatible[k];
    let value = |k: int| pairs[k];
    if n == 0 {
        selects_from_none(keep, value);
    } else {
        law_compatible_pairs_are_kept(pairs, compatible, (n - 1) as nat);
        selects_one_more(
            compatible_pairs(pairs, compatible, (n - 1) as nat),
            compatible_pairs(pairs, compatible, n),
            (n - 1) as nat,
            keep,
            value,
        );
    }
}

/// Of several keepers with descriptions of the same length the one that was nominated first
/// is chosen.
pub proof fn law_first_of_equal_keepers(slots: Seq<EntitySlot>, pairs: Seq<MergePair>, l: int)
    ensures
        keeper_among(slots, pairs, l) matches Some(k) ==> exists|p: int|
            0 <= p < pairs.len() && (#[trigger] pairs[p]).loser == l && pairs[p].keeper == k
                && forall|q: int|
                0 <= q < p && (#[trigger] pairs[q]).loser == l
                    ==> slots[pairs[q].keeper as int].description_len
                    < slots[k as int].description_len,
    decreases pairs.len(),
{
    if pairs.len() > 0 {
        let front = pairs.drop_last();
        law_first_of_equal_keepers(slots, front, l);
        law_keeper_has_the_longest_description(slots, front, l);
        assert forall|q: int| 0 <= q < front.len() implies #[trigger] pairs[q] == front[q] by {}
        if let Some(k) = keeper_among(slots, pairs, l) {
            if pairs.last().loser == l && keeper_among(slots, front, l) != Some(k) {
                let p = pairs.len() - 1;
                assert(pairs[p].loser == l && pairs[p].keeper == k);
                assert forall|q: int| 0 <= q < p && (#[trigger] pairs[q]).loser == l implies
                    slots[pairs[q].keeper as int].description_len
                    < slots[k as int].description_len by {
                    assert(front[q] == pairs[q]);
                }
            } else if keeper_among(slots, front, l) == Some(k) {
                let p = choose|p: int|
                    0 <= p < front.len() && (#[trigger] front[p]).loser == l && front[p].keeper == k
                        && forall|q: int|
                        0 <= q < p && (#[trigger] front[q]).loser == l
                            ==> slots[front[q].keeper as int].description_len
                            < slots[k as int].description_len;
                assert(pairs[p].loser == l && pairs[p].keeper == k);
                assert forall|q: int| 0 <= q < p && (#[trigger] pairs[q]).loser == l implies
                    slots[pairs[q].keeper as int].description_len
                    < slots[k as int].description_len by {
                    assert(front[q] == pairs[q]);
                }
            }
        }
    }
}

/// `way` follows keepers from its first entity, step by step.
pub open spec fn follows_keepers(keepers: Seq<Option<usize>>, way: Seq<int>) -> bool {
    &&& way.len() > 0
    &&& forall|i: int|
        0 <= i < way.len() - 1 ==> 0 <= #[trigger] way[i] < keepers.len() && keepers[way[i]] == Some(
            way[i + 1] as usize,
        )
}

/// Where a chain ends is reached from its start by following keepers and nothing else, and
/// there is no keeper left to follow.
pub proof fn law_chain_follows_keepers(
    slots: Seq<EntitySlot>,
    keepers: Seq<Option<usize>>,
    k: int,
) -> (way: Seq<int>)
    requires
        slots.len() <= usize::MAX,
        keepers_ok(slots, keepers),
        0 <= k < keepers.len(),
    ensures
        follows_keepers(keepers, way),
        way[0] == k,
        way.last() == chain_end(slots, keepers, k),
        keepers[chain_end(slots, keepers, k)] is None,
    decreases usize::MAX - slots[k].description_len, k,
{
    match keepers[k] {
        Some(next) => {
            let rest = law_chain_follows_keepers(slots, keepers, next as int);
            let way = seq![k] + rest;
            assert forall|i: int| 0 <= i < way.len() - 1 implies 0 <= #[trigger] way[i]
                < keepers.len() && keepers[way[i]] == Some(way[i + 1] as usize) by {
                if i > 0 {
                    assert(way[i] == rest[i - 1]);
                    assert(way[i + 1] == rest[i]);
                } else {
                    assert(way[1] == rest[0]);
                }
            }
            assert(way.last() == rest.last());
            way
        },
        None => seq![k],
    }
}

/// Every entity that loses in some pair is merged, into the entity at which its chain of
/// keepers ends, unless that very pair was split by hand; and an entity that loses in no
/// pair is not merged. The merge has the similarity of its pair when the two were nominated
/// themselves, and none when only following keepers brought them together.
pub proof fn law_every_loser_is_merged(
    slots: Seq<EntitySlot>,
    pairs: Seq<MergePair>,
    nogoods: Seq<(String, String)>,
    l: int,
)
    requires
        slots.len() <= usize::MAX,
        pairs_ok(slots, pairs),
        0 <= l < slots.len(),
    ensures
        ({
            let merges = merges_of(slots, pairs, nogoods, slots.len());
            let loses = exists|p: int| 0 <= p < pairs.len() && (#[trigger] pairs[p]).loser == l;
            let end = chain_end(slots, keepers_of(slots, pairs), l);
            &&& loses <==> end != l
            &&& is_merged(merges, l) <==> loses && !banned(nogoods, slots[l].id@, slots[end].id@)
            &&& forall|x: int|
                0 <= x < merges.len() && (#[trigger] merges[x]).loser == l ==> {
                    &&& merges[x].keeper == end
                    &&& match merges[x].cosine {
                        Some(c) => exists|p: int|
                            0 <= p < pairs.len() && (#[trigger] pairs[p]).loser == l
                                && pairs[p].keeper == end && pairs[p].similarity == c,
                        None => forall|p: int|
                            0 <= p < pairs.len() && (#[trigger] pairs[p]).loser == l
                                ==> pairs[p].keeper != end,
                    }
                }
        }),
{
    let merges = merges_of(slots, pairs, nogoods, slots.len());
    let keepers = keepers_of(slots, pairs);
    keepers_of_ok(slots, pairs);
    merges_are_single_merges(slots, pairs, nogoods, slots.len());
    law_keeper_has_the_longest_description(slots, pairs, l);
    assert(keepers[l] == keeper_among(slots, pairs, l));
    let end = chain_end(slots, keepers, l);
    let m = merge_of(slots, pairs, nogoods, l);
    match keeper_among(slots, pairs, l) {
        Some(k) => {
            law_chain_ends_at_a_survivor(slots, keepers, k as int);
            assert(end == chain_end(slots, keepers, k as int));
            assert(end != l);
            if !banned(nogoods, slots[l].id@, slots[end].id@) {
                assert(m is Some);
                assert(merges.contains(m->0));
                let x = choose|x: int| 0 <= x < merges.len() && merges[x] == m->0;
                assert(merges[x].loser == l);
            }
        },
        None => {
            assert(end == l);
        },
    }
    assert forall|x: int| 0 <= x < merges.len() && (#[trigger] merges[x]).loser == l implies {
        &&& merges[x].keeper == end
        &&& match merges[x].cosine {
            Some(c) => exists|p: int|
                0 <= p < pairs.len() && (#[trigger] pairs[p]).loser == l && pairs[p].keeper == end
                    && pairs[p].similarity == c,
            None => forall|p: int|
                0 <= p < pairs.len() && (#[trigger] pairs[p]).loser == l ==> pairs[p].keeper != end,
        }
    } by {
        assert(merge_of(slots, pairs, nogoods, l) == Some(merges[x]));
        cosine_is_of_the_pair(pairs, l, end);
    }
    if is_merged(merges, l) {
        let x = choose|x: int| 0 <= x < merges.len() && (#[trigger] merges[x]).loser == l;
        assert(merge_of(slots, pairs, nogoods, l) == Some(merges[x]));
    }
}

/// A cosine is the similarity of the last pair of the two; without such a pair there is none.
proof fn cosine_is_of_the_pair(pairs: Seq<MergePair>, loser: int, keeper: int)
    ensures
        match cosine_of(pairs, loser, keeper) {
            Some(c) => exists|p: int|
                0 <= p < pairs.len() && (#[trigger] pairs[p]).loser == loser && pairs[p].keeper
                    == keeper && pairs[p].similarity == c && forall|q: int|
                    p < q < pairs.len() ==> !((#[trigger] pairs[q]).loser == loser
                        && pairs[q].keeper == keeper),
            None => forall|p: int|
                0 <= p < pairs.len() && (#[trigger] pairs[p]).loser == loser ==> pairs[p].keeper
                    != keeper,
        },
    decreases pairs.len(),
{
    if pairs.len() > 0 {
        let front = pairs.drop_last();
        let last = pairs.len() - 1;
        cosine_is_of_the_pair(front, loser, keeper);
        assert forall|p: int| 0 <= p < front.len() implies #[trigger] pairs[p] == front[p] by {}
        if pairs[last].loser == loser && pairs[last].keeper == keeper {
            assert(pairs[last].similarity == pairs.last().similarity);
        } else if let Some(c) = cosine_of(front, loser, keeper) {
            let p = choose|p: int|
                0 <= p < front.len() && (#[trigger] front[p]).loser == loser && front[p].keeper
                    == keeper && front[p].similarity == c && forall|q: int|
                    p < q < front.len() ==> !((#[trigger] front[q]).loser == loser
                        && front[q].keeper == keeper);
            assert(pairs[p] == front[p]);
            assert forall|q: int| p < q < pairs.len() implies !((#[trigger] pairs[q]).loser == loser
                && pairs[q].keeper == keeper) by {
                if q < last {
                    assert(front[q] == pairs[q]);
                }
            }
        }
    }
}

/// A sorted pair holds the two ids themselves, and the greater of them does not come first.
pub proof fn law_sorted_pair_is_in_order(a: Seq<char>, b: Seq<char>)
    ensures
        sorted_ids(a, b) == (a, b) || sorted_ids(a, b) == (b, a),
        !text_before(sorted_ids(a, b).1, sorted_ids(a, b).0),
{
    crate::text::text_order_total(a, b);
    crate::text::text_order_irreflexive(a);
}

/// A pair is banned exactly when the list of split pairs holds it with the lesser id first,
/// whichever of the two is to be kept.
pub proof fn law_banned_pairs_are_listed(
    nogoods: Seq<(String, String)>,
    lesser: Seq<char>,
    greater: Seq<char>,
)
    requires
        text_before(lesser, greater),
    ensures
        banned(nogoods, lesser, greater) <==> exists|i: int|
            0 <= i < nogoods.len() && (#[trigger] nogoods[i]).0@ == lesser && nogoods[i].1@
                == greater,
        banned(nogoods, greater, lesser) <==> banned(nogoods, lesser, greater),
{
    crate::text::text_order_total(lesser, greater);
    law_sorted_pair_symmetric(lesser, greater);
    assert(sorted_ids(lesser, greater) == (lesser, greater));
    if banned(nogoods, lesser, greater) {
        let i = choose|i: int|
            0 <= i < nogoods.len() && ((#[trigger] nogoods[i]).0@, nogoods[i].1@) == sorted_ids(
                lesser,
                greater,
            );
        assert(nogoods[i].0@ == lesser && nogoods[i].1@ == greater);
    }
    if exists|i: int|
        0 <= i < nogoods.len() && (#[trigger] nogoods[i]).0@ == lesser && nogoods[i].1@ == greater {
        let i = choose|i: int|
            0 <= i < nogoods.len() && (#[trigger] nogoods[i]).0@ == lesser && nogoods[i].1@
                == greater;
        assert((nogoods[i].0@, nogoods[i].1@) == sorted_ids(lesser, greater));
    }
}

/// Of two entities that are nominated the one with the longer description is kept, and of two
/// that are described at equal length the first.
pub proof fn law_longer_description_is_kept(
    slots: Seq<EntitySlot>,
    similarities: Seq<Option<Binary32>>,
    threshold: Binary32,
)
    requires
        slots.len() <= usize::MAX,
        similarities.len() == triangle(slots.len()).len(),
    ensures
        ({
            let pairs = nominations(slots, similarities, threshold, similarities.len());
            forall|x: int|
                0 <= x < pairs.len() ==> {
                    let loser = slots[(#[trigger] pairs[x]).loser as int];
                    let keeper = slots[pairs[x].keeper as int];
                    &&& keeper.description_len >= loser.description_len
                    &&& keeper.description_len == loser.description_len ==> pairs[x].keeper
                        < pairs[x].loser
                }
        }),
{
    law_nominations_keep_the_longer(slots, similarities, threshold, similarities.len());
    let pairs = nominations(slots, similarities, threshold, similarities.len());
    assert forall|x: int| 0 <= x < pairs.len() implies {
        let loser = slots[(#[trigger] pairs[x]).loser as int];
        let keeper = slots[pairs[x].keeper as int];
        &&& keeper.description_len >= loser.description_len
        &&& keeper.description_len == loser.description_len ==> pairs[x].keeper < pairs[x].loser
    } by {
        assert(pair_ok(slots, pairs[x]));
    }
}

}
