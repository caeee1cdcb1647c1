//! Adjudication of nominated merges by a model.
//!
//! Close vectors and similar names nominate a pair; a model decides whether the two
//! names denote one entity. `pottery class` and `pottery` share as many words as
//! `alice j` and `alice johnson`, so no threshold on words can tell them apart.
//!
//! The decision fails closed: without a verdict a pair is rejected, and it is
//! nominated again in the next cycle.

use vstd::prelude::*;
use vstd::string::{StrSliceExecFns, StringExecFns};
use crate::confidence::CONFIDENCE_REJECT_FLOOR_BITS;
use crate::ieee::Binary32;
use crate::selection::{selects, selects_from_none, selects_one_more};
use crate::text::{decimal, owned, render_u64};

verus! {

/// Characters of a description that the prompt keeps.
pub const MAX_CHARS: usize = 400;

/// The model handle of the adjudicated path. The provider comes with its model id, so
/// there is no provider without a model.
pub struct L5Adjudicator<'a, P> {
    pub llm: &'a P,
    pub model_id: &'a str,
}

/// A merge awaiting adjudication. The two signals are derived from the very names of
/// this pair, which following keepers may have brought together without any similarity
/// of their own.
#[derive(Debug, Clone)]
pub struct Candidate {
    pub loser_id: String,
    pub keeper_id: String,
    /// Cosine of the nominated pair, for the audit row only.
    pub cosine: Option<Binary32>,
    pub loser_description: String,
    pub keeper_description: String,
    /// The two names are lexically compatible.
    pub lexically_compatible: bool,
    /// The two names denote different points in time.
    pub temporal_conflict: bool,
}

/// A model's verdict on one pair of a chunk.
#[derive(Debug, Clone)]
pub struct IdentityVerdictItem {
    pub pair_id: usize,
    pub is_same_entity: bool,
    pub confidence: Binary32,
    pub reasoning: String,
}

/// What may be written for a pair.
#[derive(Debug, Clone, Copy, PartialEq, Eq, Structural)]
pub enum WriteDecision {
    Merge,
    PotentialAlias,
    Reject,
}

impl WriteDecision {
    /// Label of the decision in metrics and audit rows.
    pub open spec fn text(self) -> &'static str {
        match self {
            WriteDecision::Merge => "merge",
            WriteDecision::PotentialAlias => "potential_alias",
            WriteDecision::Reject => "reject",
        }
    }

    /// Label of the decision in metrics and audit rows.
    pub fn label(&self) -> (r: &'static str)
        ensures
            r == self.text(),
            self is Merge ==> r@ == "merge"@,
            self is PotentialAlias ==> r@ == "potential_alias"@,
            self is Reject ==> r@ == "reject"@,
    {
        match self {
            WriteDecision::Merge => "merge",
            WriteDecision::PotentialAlias => "potential_alias",
            WriteDecision::Reject => "reject",
        }
    }
}

/// The verdict is confident enough to authorize a destructive write.
pub open spec fn confident(v: IdentityVerdictItem) -> bool {
    Binary32 { bits: CONFIDENCE_REJECT_FLOOR_BITS }.le(v.confidence)
}

/// The decision for a candidate with the given verdict.
///
/// - Two points in time are never one entity, whatever the model says.
/// - Without a verdict, or with a verdict of different entities, the pair is rejected.
/// - A verdict of one entity merges only when it is confident and the names
///   corroborate it; otherwise the pair stays a potential alias.
pub open spec fn decision_for(
    lexically_compatible: bool,
    temporal_conflict: bool,
    verdict: Option<IdentityVerdictItem>,
) -> WriteDecision {
    if temporal_conflict {
        WriteDecision::Reject
    } else {
        match verdict {
            None => WriteDecision::Reject,
            Some(v) => if !v.is_same_entity {
                WriteDecision::Reject
            } else if confident(v) && lexically_compatible {
                WriteDecision::Merge
            } else {
                WriteDecision::PotentialAlias
            },
        }
    }
}

/// Decides what may be written for a candidate.
pub fn decide(candidate: &Candidate, verdict: Option<&IdentityVerdictItem>) -> (r: WriteDecision)
    ensures
        r == decision_for(
            candidate.lexically_compatible,
            candidate.temporal_conflict,
            match verdict {
                Some(v) => Some(*v),
                None => None,
            },
        ),
        r is Merge <==> !candidate.temporal_conflict && candidate.lexically_compatible && (
        verdict matches Some(v) && v.is_same_entity && Binary32 { bits: 0x3f33_3333 }.le(
            v.confidence,
        )),
        r is PotentialAlias <==> !candidate.temporal_conflict && (verdict matches Some(v)
            && v.is_same_entity && !(candidate.lexically_compatible && Binary32 {
            bits: 0x3f33_3333,
        }.le(v.confidence))),
{
    if candidate.temporal_conflict {
        return WriteDecision::Reject;
    }
    match verdict {
        None => WriteDecision::Reject,
        Some(v) => {
            let floor = Binary32 { bits: CONFIDENCE_REJECT_FLOOR_BITS };
            if !v.is_same_entity {
                WriteDecision::Reject
            } else if floor.at_most(v.confidence) && candidate.lexically_compatible {
                WriteDecision::Merge
            } else {
                WriteDecision::PotentialAlias
            }
        },
    }
}

/// A merge takes the agreement of all three: a confident verdict of one entity, names
/// that corroborate it, and no conflict in time. In particular an absent verdict never
/// merges, however close the pair is.
pub proof fn law_merge_needs_every_signal(
    lexically_compatible: bool,
    temporal_conflict: bool,
    verdict: Option<IdentityVerdictItem>,
)
    ensures
        decision_for(lexically_compatible, temporal_conflict, verdict) == WriteDecision::Merge
            <==> lexically_compatible && !temporal_conflict && verdict is Some
            && verdict->0.is_same_entity && confident(verdict->0),
        verdict is None ==> decision_for(lexically_compatible, temporal_conflict, verdict)
            == WriteDecision::Reject,
{
}

/// How the model answered for one chunk of candidates.
#[derive(Debug)]
pub enum ChunkReply {
    /// The call failed.
    CallFailed,
    /// The answer was no batch of verdicts.
    Unparseable,
    /// The items of the batch, `None` for one that could not be parsed.
    Items(Vec<Option<IdentityVerdictItem>>),
}

/// The first verdict on pair `pair_id` among the items.
pub open spec fn first_verdict(
    items: Seq<Option<IdentityVerdictItem>>,
    pair_id: usize,
) -> Option<IdentityVerdictItem>
    decreases items.len(),
{
    if items.len() == 0 {
        None
    } else {
        match first_verdict(items.drop_last(), pair_id) {
            Some(v) => Some(v),
            None => match items.last() {
                Some(v) if v.pair_id == pair_id => Some(v),
                _ => None,
            },
        }
    }
}

/// An item that cannot be used in a chunk of `chunk_len` pairs: it could not be parsed,
/// or it speaks of a pair that is not in the chunk.
pub open spec fn unusable(item: Option<IdentityVerdictItem>, chunk_len: nat) -> bool {
    match item {
        Some(v) => v.pair_id >= chunk_len,
        None => true,
    }
}

/// Number of unusable items.
pub open spec fn unusable_items(items: Seq<Option<IdentityVerdictItem>>, chunk_len: nat) -> nat
    decreases items.len(),
{
    if items.len() == 0 {
        0
    } else {
        unusable_items(items.drop_last(), chunk_len) + (if unusable(items.last(), chunk_len) {
            1nat
        } else {
            0nat
        })
    }
}

/// The verdict on each pair of a chunk.
pub open spec fn chunk_verdicts(reply: ChunkReply, chunk_len: nat) -> Seq<
    Option<IdentityVerdictItem>,
> {
    match reply {
        ChunkReply::Items(items) => Seq::new(
            chunk_len,
            |i: int| first_verdict(items@, i as usize),
        ),
        _ => Seq::new(chunk_len, |i: int| None),
    }
}

/// How many verdicts of a chunk were lost to parsing.
pub open spec fn chunk_parse_failures(reply: ChunkReply, chunk_len: nat) -> nat {
    match reply {
        ChunkReply::CallFailed => 0,
        ChunkReply::Unparseable => chunk_len,
        ChunkReply::Items(items) => unusable_items(items@, chunk_len),
    }
}

/// A chunk in which no pair has a verdict.
fn no_verdicts(chunk_len: usize) -> (r: Vec<Option<IdentityVerdictItem>>)
    ensures
        r@ == Seq::new(chunk_len as nat, |i: int| None::<IdentityVerdictItem>),
{
    let mut out: Vec<Option<IdentityVerdictItem>> = Vec::new();
    let mut i: usize = 0;
    while i < chunk_len
        invariant
            i <= chunk_len,
            out@ == Seq::new(i as nat, |i: int| None::<IdentityVerdictItem>),
        decreases chunk_len - i,
    {
        out.push(None);
        i = i + 1;
    }
    out
}

/// Reads the model's answer for a chunk: the verdict on each of its pairs, and how many
/// verdicts were lost to parsing. One malformed item does not cost the others, the
/// first verdict on a pair counts, and a verdict on a pair outside the chunk is
/// dropped.
pub fn adjudicate_chunk(reply: ChunkReply, chunk_len: usize) -> (r: (
    Vec<Option<IdentityVerdictItem>>,
    usize,
))
    ensures
        r.0@ == chunk_verdicts(reply, chunk_len as nat),
        r.1 == chunk_parse_failures(reply, chunk_len as nat),
        r.0.len() == chunk_len,
        reply is CallFailed ==> r.1 == 0,
        reply is Unparseable ==> r.1 == chunk_len,
        reply matches ChunkReply::Items(items) ==> r.1 == unusable_items(items@, chunk_len as nat),
        !(reply is Items) ==> forall|i: int| 0 <= i < chunk_len ==> #[trigger] r.0@[i] is None,
{
    let mut verdicts = no_verdicts(chunk_len);
    let mut items = match reply {
        ChunkReply::CallFailed => {
            return (verdicts, 0);
        },
        ChunkReply::Unparseable => {
            return (verdicts, chunk_len);
        },
        ChunkReply::Items(items) => items,
    };
    let total: usize = items.len();
    let ghost all = items@;
    let mut failures: usize = 0;
    let ghost mut read: int = 0;
    assert(all.take(0) =~= Seq::<Option<IdentityVerdictItem>>::empty());
    assert(all.skip(0) =~= all);
    assert(verdicts@ =~= Seq::new(
        chunk_len as nat,
        |i: int| first_verdict(all.take(0), i as usize),
    ));
    while items.len() > 0
        invariant
            0 <= read <= total,
            total == all.len(),
            items@ == all.skip(read),
            verdicts.len() == chunk_len,
            forall|i: int|
                0 <= i < chunk_len ==> #[trigger] verdicts@[i] == first_verdict(
                    all.take(read),
                    i as usize,
                ),
            failures == unusable_items(all.take(read), chunk_len as nat),
            failures <= read,
        decreases items.len(),
    {
        let item = items.remove(0);
        proof {
            assert(item == all[read]);
            assert(all.skip(read).remove(0) =~= all.skip(read + 1));
            assert(all.take(read + 1).drop_last() =~= all.take(read));
            assert(all.take(read + 1).last() == item);
            read = read + 1;
        }
        match item {
            Some(v) => {
                if v.pair_id >= chunk_len {
                    failures = failures + 1;
                } else {
                    let pair_id: usize = v.pair_id;
                    if verdicts[pair_id].is_none() {
                        verdicts.set(pair_id, Some(v));
                    }
                }
            },
            None => {
                failures = failures + 1;
            },
        }
    }
    proof {
        assert(all.take(read) =~= all);
        assert(verdicts@ =~= chunk_verdicts(reply, chunk_len as nat));
    }
    (verdicts, failures)
}

/// The verdicts after those of the chunk that starts at candidate `start` came in: a
/// verdict on pair `i` of the chunk is one on candidate `start + i`.
pub open spec fn with_chunk(
    verdicts: Seq<Option<IdentityVerdictItem>>,
    start: int,
    chunk: Seq<Option<IdentityVerdictItem>>,
) -> Seq<Option<IdentityVerdictItem>> {
    Seq::new(
        verdicts.len(),
        |i: int|
            if start <= i < start + chunk.len() && chunk[i - start] is Some {
                chunk[i - start]
            } else {
                verdicts[i]
            },
    )
}

/// Enters the verdicts of the chunk that starts at candidate `start`.
pub fn enter_chunk(
    verdicts: &mut Vec<Option<IdentityVerdictItem>>,
    start: usize,
    chunk: Vec<Option<IdentityVerdictItem>>,
)
    requires
        start + chunk.len() <= old(verdicts).len(),
    ensures
        final(verdicts)@ == with_chunk(old(verdicts)@, start as int, chunk@),
        final(verdicts).len() == old(verdicts).len(),
        forall|i: int|
            0 <= i < chunk.len() && chunk@[i] is Some ==> #[trigger] final(verdicts)@[start + i]
                == chunk@[i],
        forall|i: int|
            0 <= i < old(verdicts).len() && (i < start || i >= start + chunk.len() || chunk@[i
                - start] is None) ==> #[trigger] final(verdicts)@[i] == old(verdicts)@[i],
{
    let ghost before = verdicts@;
    let ghost all = chunk@;
    let mut rest = chunk;
    let mut at: usize = start;
    assert(all.skip(0) =~= all);
    while rest.len() > 0
        invariant
            start <= at,
            at - start + rest.len() == all.len(),
            start + all.len() <= before.len(),
            rest@ == all.skip(at - start),
            verdicts.len() == before.len(),
            before.len() <= usize::MAX,
            forall|i: int|
                0 <= i < before.len() ==> #[trigger] verdicts@[i] == (if start <= i < at
                    && all[i - start] is Some {
                    all[i - start]
                } else {
                    before[i]
                }),
        decreases rest.len(),
    {
        let verdict = rest.remove(0);
        proof {
            assert(verdict == all[at - start]);
            assert(all.skip(at - start).remove(0) =~= all.skip(at - start + 1));
        }
        if verdict.is_some() {
            verdicts.set(at, verdict);
        }
        at = at + 1;
    }
    assert(verdicts@ =~= with_chunk(before, start as int, all));
}

/// The decision for a candidate and the verdict that led to it.
#[derive(Debug)]
pub struct Adjudicated {
    pub decision: WriteDecision,
    /// `None` when the model gave no usable verdict on the pair.
    pub verdict: Option<IdentityVerdictItem>,
}

/// Decides every candidate; `verdicts[i]` is the verdict on candidate `i`.
pub fn adjudicate(
    candidates: &Vec<Candidate>,
    verdicts: Vec<Option<IdentityVerdictItem>>,
) -> (r: Vec<Adjudicated>)
    requires
        verdicts.len() == candidates.len(),
    ensures
        r.len() == candidates.len(),
        forall|i: int|
            0 <= i < r.len() ==> (#[trigger] r@[i]).verdict == verdicts@[i] && r@[i].decision
                == decision_for(
                candidates@[i].lexically_compatible,
                candidates@[i].temporal_conflict,
                verdicts@[i],
            ),
{
    let ghost all = verdicts@;
    let mut rest = verdicts;
    let mut out: Vec<Adjudicated> = Vec::new();
    assert(all.skip(0) =~= all);
    while rest.len() > 0
        invariant
            out.len() + rest.len() == candidates.len(),
            all.len() == candidates.len(),
            rest@ == all.skip(out.len() as int),
            forall|i: int|
                0 <= i < out.len() ==> (#[trigger] out@[i]).verdict == all[i] && out@[i].decision
                    == decision_for(
                    candidates@[i].lexically_compatible,
                    candidates@[i].temporal_conflict,
                    all[i],
                ),
        decreases rest.len(),
    {
        let at: usize = out.len();
        let verdict = rest.remove(0);
        proof {
            assert(verdict == all[at as int]);
            assert(all.skip(at as int).remove(0) =~= all.skip(at + 1));
        }
        let decision = decide(&candidates[at], verdict.as_ref());
        out.push(Adjudicated { decision, verdict });
    }
    out
}

/// A description as the prompt shows it.
pub open spec fn shown_description(description: Seq<char>) -> Seq<char> {
    if description.len() <= MAX_CHARS {
        description
    } else {
        description.take(MAX_CHARS as int).push('\u{2026}')
    }
}

/// Caps a description's share of the prompt, so that one long description does not use
/// up what the other pairs of the chunk need.
pub fn truncate_for_prompt(description: &str) -> (r: String)
    ensures
        r@ == shown_description(description@),
        description@.len() <= 400 ==> r@ == description@,
        description@.len() > 400 ==> r@.len() == 401 && r@[400] == '\u{2026}' && forall|i: int|
            0 <= i < 400 ==> #[trigger] r@[i] == description@[i],
{
    if description.unicode_len() <= MAX_CHARS {
        return owned(description);
    }
    let mut out: String = owned(description.substring_char(0, MAX_CHARS));
    out.push('\u{2026}');
    out
}

/// The instructions of an adjudication call. They teach both sides of the distinction
/// that shared words cannot make: a category is not its members, and an abbreviated
/// name is the same name.
pub const ADJUDICATION_INSTRUCTIONS: &'static str = "You are a knowledge-graph entity-resolution analyst. You will be shown pairs of entity names (with descriptions) that a similarity gate flagged as POSSIBLY the same real-world entity. Decide, for each pair, whether they denote the SAME individual entity.\n\nThe critical distinction is IDENTITY versus CATEGORY. Two names can share most of their words and still be different entities, because one names a CATEGORY, TOPIC or ACTIVITY that the other BELONGS TO:\n  - \"pottery class\" vs \"pottery\" -> NOT the same: a class ABOUT a subject is not the subject.\n  - \"chess club\" vs \"chess\" -> NOT the same.\n  - \"lgbtq community\" vs \"community\" -> NOT the same: dropping the qualifier changes the referent.\n  - \"amazon river\" vs \"amazon\" -> NOT the same.\n\nConversely, an ABBREVIATED or PARTIAL form of the same name IS the same entity:\n  - \"alice j\" vs \"alice johnson\" -> SAME: an abbreviated personal name.\n  - \"j smith\" vs \"john smith\" -> SAME.\n  - \"dr patel\" vs \"priya patel\" -> SAME person.\n\nWhen the two names differ by a word that NARROWS or QUALIFIES the meaning, they are different entities. When they differ only by an abbreviation, initial, title or spelling of the SAME referent, they are the same entity. If genuinely unsure, answer false with low confidence \u{2014} a wrong merge destroys data irreversibly, a missed merge is retried next cycle.\n\nRespond ONLY with the JSON structure \u{2014} no extra commentary.";

/// What the user message asks for, before the pairs.
pub const ADJUDICATION_REQUEST: &'static str = "Adjudicate the following entity pairs. For each pair output a verdict object with `pair_id` (matching the pair number below), `is_same_entity` (true only if A and B denote the same real-world entity), `confidence` (0.0-1.0), and `reasoning` (one short sentence).\n\n";

/// The two messages of an adjudication call.
#[derive(Debug, Clone)]
pub struct AdjudicationMessages {
    pub system: String,
    pub user: String,
}

/// How the prompt lists pair `pair_id` of a chunk; the keeper comes first.
pub open spec fn pair_text(pair_id: nat, c: Candidate) -> Seq<char> {
    "Pair "@ + decimal(pair_id) + ":\n  A: name=\""@ + c.keeper_id@ + "\" description=\""@
        + shown_description(c.keeper_description@) + "\"\n  B: name=\""@ + c.loser_id@
        + "\" description=\""@ + shown_description(c.loser_description@) + "\""@
}

/// The first `n` pairs of a chunk, with an empty line between them.
pub open spec fn pairs_text(chunk: Seq<Candidate>, n: nat) -> Seq<char>
    decreases n,
{
    if n == 0 {
        seq![]
    } else if n == 1 {
        pair_text(0, chunk[0])
    } else {
        pairs_text(chunk, (n - 1) as nat) + "\n\n"@ + pair_text((n - 1) as nat, chunk[n - 1])
    }
}

/// Lists one pair of a chunk.
fn render_pair(pair_id: usize, c: &Candidate) -> (r: String)
    ensures
        r@ == pair_text(pair_id as nat, *c),
{
    let mut out: String = owned("Pair ");
    out.append(render_u64(pair_id as u64).as_str());
    out.append(":\n  A: name=\"");
    out.append(c.keeper_id.as_str());
    out.append("\" description=\"");
    out.append(truncate_for_prompt(c.keeper_description.as_str()).as_str());
    out.append("\"\n  B: name=\"");
    out.append(c.loser_id.as_str());
    out.append("\" description=\"");
    out.append(truncate_for_prompt(c.loser_description.as_str()).as_str());
    out.append("\"");
    out
}

/// Writes the messages of an adjudication call over a chunk of candidates.
pub fn build_adjudication_messages(chunk: &Vec<Candidate>) -> (r: AdjudicationMessages)
    ensures
        r.system@ == ADJUDICATION_INSTRUCTIONS@,
        r.user@ == ADJUDICATION_REQUEST@ + pairs_text(chunk@, chunk@.len()),
{
    let mut listed: String = String::new();
    let mut i: usize = 0;
    while i < chunk.len()
        invariant
            i <= chunk.len(),
            listed@ == pairs_text(chunk@, i as nat),
        decreases chunk.len() - i,
    {
        let line = render_pair(i, &chunk[i]);
        if i == 0 {
            listed = line;
        } else {
            listed.append("\n\n");
            listed.append(line.as_str());
        }
        i = i + 1;
    }
    let mut user: String = owned(ADJUDICATION_REQUEST);
    user.append(listed.as_str());
    AdjudicationMessages { system: owned(ADJUDICATION_INSTRUCTIONS), user }
}

/// A pair is rejected exactly when its names denote two points in time or no verdict calls it
/// one entity; it is left as a potential alias exactly when a verdict does, and either its
/// confidence or the names fall short.
pub proof fn law_pair_without_agreement_is_not_merged(
    lexically_compatible: bool,
    temporal_conflict: bool,
    verdict: Option<IdentityVerdictItem>,
)
    ensures
        decision_for(lexically_compatible, temporal_conflict, verdict) is Reject
            <==> temporal_conflict || verdict is None || !verdict->0.is_same_entity,
        decision_for(lexically_compatible, temporal_conflict, verdict) is PotentialAlias
            <==> !temporal_conflict && verdict is Some && verdict->0.is_same_entity && (
        !lexically_compatible || !(Binary32 { bits: 0x3f33_3333 }).le(verdict->0.confidence)),
{
}

/// The items speak of pair `pair_id` at place `i`.
pub open spec fn speaks_of(
    items: Seq<Option<IdentityVerdictItem>>,
    i: int,
    pair_id: usize,
) -> bool {
    items[i] matches Some(v) && v.pair_id == pair_id
}

/// The verdict on a pair is the first item that speaks of it, and there is none exactly when
/// no item does.
pub proof fn law_first_verdict_counts(items: Seq<Option<IdentityVerdictItem>>, pair_id: usize)
    ensures
        match first_verdict(items, pair_id) {
            Some(v) => exists|i: int|
                0 <= i < items.len() && #[trigger] speaks_of(items, i, pair_id) && items[i] == Some(
                    v,
                ) && forall|j: int| 0 <= j < i ==> !#[trigger] speaks_of(items, j, pair_id),
            None => forall|j: int|
                0 <= j < items.len() ==> !#[trigger] speaks_of(items, j, pair_id),
        },
    decreases items.len(),
{
    if items.len() > 0 {
        let front = items.drop_last();
        law_first_verdict_counts(front, pair_id);
        assert forall|j: int| 0 <= j < front.len() implies #[trigger] speaks_of(items, j, pair_id)
            == speaks_of(front, j, pair_id) by {
            assert(front[j] == items[j]);
        }
        match first_verdict(front, pair_id) {
            Some(v) => {
                let i = choose|i: int|
                    0 <= i < front.len() && #[trigger] speaks_of(front, i, pair_id) && front[i]
                        == Some(v) && forall|j: int|
                        0 <= j < i ==> !#[trigger] speaks_of(front, j, pair_id);
                assert(speaks_of(items, i, pair_id) && items[i] == front[i]);
                assert forall|j: int| 0 <= j < i implies !#[trigger] speaks_of(
                    items,
                    j,
                    pair_id,
                ) by {
                    assert(!speaks_of(front, j, pair_id));
                }
            },
            None => {
                let last = items.len() - 1;
                assert(items[last] == items.last());
                assert forall|j: int| 0 <= j < last implies !#[trigger] speaks_of(
                    items,
                    j,
                    pair_id,
                ) by {
                    assert(!speaks_of(front, j, pair_id));
                }
                if first_verdict(items, pair_id) is Some {
                    assert(speaks_of(items, last, pair_id));
                }
            },
        }
    }
}

/// The verdicts of a chunk, pair by pair: each is the first that the answer gives on the pair,
/// and an answer that is no batch of verdicts gives none.
pub proof fn law_chunk_is_read(reply: ChunkReply, chunk_len: nat, i: int)
    requires
        0 <= i < chunk_len <= usize::MAX,
    ensures
        chunk_verdicts(reply, chunk_len).len() == chunk_len,
        match reply {
            ChunkReply::Items(items) => match chunk_verdicts(reply, chunk_len)[i] {
                Some(v) => exists|k: int|
                    0 <= k < items.len() && #[trigger] speaks_of(items@, k, i as usize) && items@[k]
                        == Some(v) && forall|j: int|
                        0 <= j < k ==> !#[trigger] speaks_of(items@, j, i as usize),
                None => forall|j: int|
                    0 <= j < items.len() ==> !#[trigger] speaks_of(items@, j, i as usize),
            },
            _ => chunk_verdicts(reply, chunk_len)[i] is None,
        },
{
    if let ChunkReply::Items(items) = reply {
        law_first_verdict_counts(items@, i as usize);
    }
}

/// `lost` lists the items among the first `n` that could not be parsed and those that speak of
/// a pair outside the chunk.
pub open spec fn lists_lost(
    lost: Seq<int>,
    items: Seq<Option<IdentityVerdictItem>>,
    chunk_len: nat,
    n: nat,
) -> bool {
    selects(
        lost,
        n,
        |k: int| items[k] is None || items[k]->0.pair_id >= chunk_len,
        |k: int| k,
    )
}

/// The lost verdicts of a batch are exactly the items that could not be parsed and those that
/// speak of a pair outside the chunk.
pub proof fn law_lost_verdicts_are_counted(items: Seq<Option<IdentityVerdictItem>>, chunk_len: nat)
    ensures
        exists|lost: Seq<int>| #[trigger]
            lists_lost(lost, items, chunk_len, items.len()) && lost.len() == unusable_items(
                items,
                chunk_len,
            ),
{
    lost_upto(items, chunk_len, items.len());
    assert(items.take(items.len() as int) =~= items);
}

proof fn lost_upto(items: Seq<Option<IdentityVerdictItem>>, chunk_len: nat, n: nat)
    requires
        n <= items.len(),
    ensures
        exists|lost: Seq<int>| #[trigger]
            lists_lost(lost, items, chunk_len, n) && lost.len() == unusable_items(
                items.take(n as int),
                chunk_len,
            ),
    decreases n,
{
    let keep = |k: int| items[k] is None || items[k]->0.pair_id >= chunk_len;
    let value = |k: int| k;
    if n == 0 {
        selects_from_none(keep, value);
        assert(items.take(0) =~= Seq::<Option<IdentityVerdictItem>>::empty());
        assert(lists_lost(Seq::<int>::empty(), items, chunk_len, 0));
    } else {
        let before = (n - 1) as nat;
        lost_upto(items, chunk_len, before);
        let lost = choose|lost: Seq<int>| #[trigger]
            lists_lost(lost, items, chunk_len, before) && lost.len() == unusable_items(
                items.take(before as int),
                chunk_len,
            );
        let now = if keep(before as int) {
            lost.push(before as int)
        } else {
            lost
        };
        assert(items.take(n as int).drop_last() =~= items.take(before as int));
        assert(items.take(n as int).last() == items[before as int]);
        selects_one_more(lost, now, before, keep, value);
        assert(lists_lost(now, items, chunk_len, n));
    }
}

/// The prompt lists every pair of the chunk, each under its number, with both names and the
/// descriptions as they are shown; nothing stands between two pairs but an empty line.
pub proof fn law_prompt_lists_every_pair(chunk: Seq<Candidate>, i: int)
    requires
        0 <= i < chunk.len(),
    ensures
        exists|before: Seq<char>, behind: Seq<char>|
            pairs_text(chunk, chunk.len()) == #[trigger] (before + ("Pair "@ + decimal(i as nat)
                + ":\n  A: name=\""@ + chunk[i].keeper_id@ + "\" description=\""@
                + shown_description(chunk[i].keeper_description@) + "\"\n  B: name=\""@
                + chunk[i].loser_id@ + "\" description=\""@ + shown_description(
                chunk[i].loser_description@,
            ) + "\""@) + behind) && (i == 0 ==> before.len() == 0) && (i == chunk.len() - 1
                ==> behind.len() == 0),
{
    pair_is_listed(chunk, chunk.len(), i);
}

proof fn pair_is_listed(chunk: Seq<Candidate>, n: nat, i: int)
    requires
        0 <= i < n <= chunk.len(),
    ensures
        exists|before: Seq<char>, behind: Seq<char>|
            pairs_text(chunk, n) == #[trigger] (before + pair_text(i as nat, chunk[i]) + behind) && (
            i == 0 ==> before.len() == 0) && (i == n - 1 ==> behind.len() == 0),
    decreases n,
{
    let own = pair_text(i as nat, chunk[i]);
    let none = Seq::<char>::empty();
    if n == 1 {
        assert(pairs_text(chunk, n) =~= none + own + none);
    } else if i == n - 1 {
        let before = pairs_text(chunk, (n - 1) as nat) + "\n\n"@;
        assert(pairs_text(chunk, n) =~= before + own + none);
    } else {
        pair_is_listed(chunk, (n - 1) as nat, i);
        let (before, behind) = choose|before: Seq<char>, behind: Seq<char>|
            pairs_text(chunk, (n - 1) as nat) == #[trigger] (before + own + behind) && (i == 0
                ==> before.len() == 0) && (i == n - 2 ==> behind.len() == 0);
        let rest = behind + "\n\n"@ + pair_text((n - 1) as nat, chunk[n - 1]);
        assert(pairs_text(chunk, n) =~= before + own + rest);
    }
}

}
