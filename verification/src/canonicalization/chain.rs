//! Detection of merge chains.
//!
//! A merge extends a chain when its loser absorbed something before, or when its keeper
//! was absorbed before: an identity then moves a second hop, to a place that nobody
//! weighed it against. The detector observes and never blocks. It reads the durable
//! log, so it sees chains across cycles and across the passes that merge.

use vstd::prelude::*;
use crate::text::same_text;

verus! {

/// The two ends of a merge that was recorded earlier.
#[derive(Debug, Clone)]
pub struct PriorMerge {
    pub keeper: String,
    pub loser: String,
}

/// A row of the mutation log that records a merge.
#[derive(Debug, Clone)]
pub struct MergeLogRow {
    pub group_id: String,
    /// Whether the merge was undone.
    pub undone: bool,
    /// `None` when the recorded ends could not be read; such a row is passed over.
    pub prior: Option<PriorMerge>,
}

/// How a merge extends a chain.
#[derive(Debug, Clone, Copy, PartialEq, Eq, Structural)]
pub enum ChainKind {
    /// The loser absorbed something before.
    LoserIsPriorSurvivor,
    /// The keeper was absorbed before.
    KeeperIsPriorVictim,
}

impl ChainKind {
    /// Metric label of the kind.
    pub fn label(&self) -> (r: &'static str)
        ensures
            r == (match *self {
                ChainKind::LoserIsPriorSurvivor => "loser_is_prior_survivor",
                ChainKind::KeeperIsPriorVictim => "keeper_is_prior_victim",
            }),
    {
        match self {
            ChainKind::LoserIsPriorSurvivor => "loser_is_prior_survivor",
            ChainKind::KeeperIsPriorVictim => "keeper_is_prior_victim",
        }
    }
}

/// How the row's merge is extended by a merge of `loser` into `keeper` in namespace
/// `group`: the other end of the row's merge, and the kind. Only a live merge of the
/// same namespace counts.
pub open spec fn extended_by(
    row: MergeLogRow,
    group: Seq<char>,
    loser: Seq<char>,
    keeper: Seq<char>,
) -> Option<(Seq<char>, ChainKind)> {
    match row.prior {
        Some(prior) if row.group_id@ == group && !row.undone => if prior.keeper@ == loser {
            Some((prior.loser@, ChainKind::LoserIsPriorSurvivor))
        } else if prior.loser@ == keeper {
            Some((prior.keeper@, ChainKind::KeeperIsPriorVictim))
        } else {
            None
        },
        _ => None,
    }
}

/// The first row of the log that the merge extends.
pub open spec fn first_extended(
    log: Seq<MergeLogRow>,
    group: Seq<char>,
    loser: Seq<char>,
    keeper: Seq<char>,
) -> Option<(Seq<char>, ChainKind)>
    decreases log.len(),
{
    if log.len() == 0 {
        None
    } else {
        match extended_by(log[0], group, loser, keeper) {
            Some(hit) => Some(hit),
            None => first_extended(log.drop_first(), group, loser, keeper),
        }
    }
}

/// Finds the earliest merge that a merge of `loser_id` into `keeper_id` extends: its
/// other end, and how. `log` holds the recorded merges in the order of their ids.
pub fn detect_merge_chain_extension(
    log: &Vec<MergeLogRow>,
    group_id: &String,
    loser_id: &String,
    keeper_id: &String,
) -> (r: Option<(String, ChainKind)>)
    ensures
        (match r {
            Some((other, kind)) => Some((other@, kind)),
            None => None,
        }) == first_extended(log@, group_id@, loser_id@, keeper_id@),
{
    let mut i: usize = 0;
    assert(log@.skip(0) =~= log@);
    while i < log.len()
        invariant
            i <= log.len(),
            first_extended(log@, group_id@, loser_id@, keeper_id@) == first_extended(
                log@.skip(i as int),
                group_id@,
                loser_id@,
                keeper_id@,
            ),
        decreases log.len() - i,
    {
        let row = &log[i];
        proof {
            assert(log@.skip(i as int)[0] == *row);
            assert(log@.skip(i as int).drop_first() =~= log@.skip(i + 1));
        }
        if !row.undone && same_text(&row.group_id, group_id) {
            if let Some(prior) = &row.prior {
                if same_text(&prior.keeper, loser_id) {
                    return Some((prior.loser.clone(), ChainKind::LoserIsPriorSurvivor));
                }
                if same_text(&prior.loser, keeper_id) {
                    return Some((prior.keeper.clone(), ChainKind::KeeperIsPriorVictim));
                }
            }
        }
        i = i + 1;
    }
    None
}

/// Merges recorded in other namespaces, and merges that were undone, never count.
pub proof fn law_chains_stay_in_their_namespace(
    log: Seq<MergeLogRow>,
    group: Seq<char>,
    loser: Seq<char>,
    keeper: Seq<char>,
)
    requires
        forall|i: int|
            0 <= i < log.len() ==> (#[trigger] log[i]).group_id@ != group || log[i].undone,
    ensures
        first_extended(log, group, loser, keeper) is None,
    decreases log.len(),
{
    if log.len() > 0 {
        assert(log[0].group_id@ != group || log[0].undone);
        let rest = log.drop_first();
        assert forall|i: int| 0 <= i < rest.len() implies (#[trigger] rest[i]).group_id@ != group
            || rest[i].undone by {
            assert(rest[i] == log[i + 1]);
        }
        law_chains_stay_in_their_namespace(rest, group, loser, keeper);
    }
}

/// A log may be read in parts: what its first part shows stands, and the rest only counts
/// where the first part shows nothing.
pub proof fn law_log_is_read_in_parts(
    first: Seq<MergeLogRow>,
    rest: Seq<MergeLogRow>,
    group: Seq<char>,
    loser: Seq<char>,
    keeper: Seq<char>,
)
    ensures
        first_extended(first + rest, group, loser, keeper) == (match first_extended(
            first,
            group,
            loser,
            keeper,
        ) {
            Some(hit) => Some(hit),
            None => first_extended(rest, group, loser, keeper),
        }),
    decreases first.len(),
{
    let log = first + rest;
    if first.len() == 0 {
        assert(log =~= rest);
    } else {
        assert(log.drop_first() =~= first.drop_first() + rest);
        law_log_is_read_in_parts(first.drop_first(), rest, group, loser, keeper);
    }
}

/// Row `i` shows the chain: it records a live merge of the namespace, and the loser was its
/// keeper, or else the keeper was its loser.
pub open spec fn shows(
    row: MergeLogRow,
    group: Seq<char>,
    loser: Seq<char>,
    keeper: Seq<char>,
    hit: (Seq<char>, ChainKind),
) -> bool {
    &&& row.group_id@ == group
    &&& !row.undone
    &&& row.prior is Some
    &&& match hit.1 {
        ChainKind::LoserIsPriorSurvivor => row.prior->0.keeper@ == loser && row.prior->0.loser@
            == hit.0,
        ChainKind::KeeperIsPriorVictim => row.prior->0.keeper@ != loser && row.prior->0.loser@
            == keeper && row.prior->0.keeper@ == hit.0,
    }
}

/// A chain is found exactly when some live merge of the namespace ended in the loser or took
/// away the keeper, and the earliest such merge is the one that is named.
pub proof fn law_earliest_chain_is_found(
    log: Seq<MergeLogRow>,
    group: Seq<char>,
    loser: Seq<char>,
    keeper: Seq<char>,
)
    ensures
        match first_extended(log, group, loser, keeper) {
            Some(hit) => exists|i: int|
                0 <= i < log.len() && shows(#[trigger] log[i], group, loser, keeper, hit)
                    && forall|j: int, other: (Seq<char>, ChainKind)|
                    0 <= j < i ==> !#[trigger] shows(log[j], group, loser, keeper, other),
            None => forall|j: int, other: (Seq<char>, ChainKind)|
                0 <= j < log.len() ==> !#[trigger] shows(log[j], group, loser, keeper, other),
        },
    decreases log.len(),
{
    if log.len() > 0 {
        let rest = log.drop_first();
        law_earliest_chain_is_found(rest, group, loser, keeper);
        match extended_by(log[0], group, loser, keeper) {
            Some(hit) => {
                assert(shows(log[0], group, loser, keeper, hit));
            },
            None => {
                assert forall|j: int, other: (Seq<char>, ChainKind)|
                    0 <= j < log.len() && #[trigger] shows(log[j], group, loser, keeper, other)
                    implies 0 < j && shows(rest[j - 1], group, loser, keeper, other) by {
                    if j > 0 {
                        assert(rest[j - 1] == log[j]);
                    }
                }
                if let Some(hit) = first_extended(rest, group, loser, keeper) {
                    let i = choose|i: int|
                        0 <= i < rest.len() && shows(#[trigger] rest[i], group, loser, keeper, hit)
                            && forall|j: int, other: (Seq<char>, ChainKind)|
                            0 <= j < i ==> !#[trigger] shows(rest[j], group, loser, keeper, other);
                    assert(shows(log[i + 1], group, loser, keeper, hit));
                    assert forall|j: int, other: (Seq<char>, ChainKind)| 0 <= j < i + 1 implies
                        !#[trigger] shows(log[j], group, loser, keeper, other) by {
                        if j > 0 {
                            assert(rest[j - 1] == log[j]);
                        }
                    }
                }
            },
        }
    }
}

}
