//! The launcher's own assembly: which keys it ranks by, and its settings.

use crate::batcher::{Batcher, Buffer};
use crate::catalog::{
    lemma_calc_last_lawful, lemma_calc_last_separates, not_calc, CalcLast, Label, OfKind,
    UsageIdent,
};
use crate::combinator::{
    lemma_by_score_lawful, lemma_scoped_chain_lawful, ByScore, Chain, Outside, Projected, Scoped,
};
use crate::entity::{Item, Kind};
use crate::fuzzy::Fuzzy;
use crate::order::Order;
use crate::stage::{lawful, lemma_lawful_among_any, separates, Filter, Sorter};
use crate::usage::{lemma_by_usage_lawful, ByUsage};
use ltrait_sorter_frecency::Frecency;
use vstd::prelude::*;

verus! {

/// The half-life of a usage score, in seconds: thirty days.
pub const HALF_LIFE_SECONDS: u64 = 30 * 60 * 60 * 24;

/// The weight that one selection adds to a usage score.
pub const USAGE_BONUS: u32 = 15;

/// How many candidates the launcher merges at a time.
pub const BATCH_SIZE: usize = 1000;

/// The character that a query starts with to ask the calculator.
pub const CALC_MARK: char = 'k';

/// The fuzzy key: the match of the canonical string against the query, for
/// every entity but the computed results.
pub type FuzzyKey = Scoped<Outside<OfKind>, ByScore<Projected<Label, Fuzzy>>>;

/// The usage key: the score of the entity's identifier in the usage history, for
/// every entity but the computed results.
pub type UsageKey = Scoped<Outside<OfKind>, ByUsage<UsageIdent>>;

/// The keys of a launcher without usage history.
pub type Matching = Chain<CalcLast, FuzzyKey>;

/// The keys of a launcher with usage history.
pub type MatchingThenUsage = Chain<Matching, UsageKey>;

/// The fuzzy key with the launcher's settings.
pub fn fuzzy_key() -> (key: FuzzyKey)
    ensures
        key.scope.of.kind == Kind::Calc,
        key.inner.scorer.scorer == Fuzzy::smart_settings(),
{
    Scoped::new(not_calc(), ByScore::new(Projected::new(Label, Fuzzy::smart())))
}

/// The usage key over an opened store.
pub fn usage_key(store: Frecency) -> (key: UsageKey)
    ensures
        key.scope.of.kind == Kind::Calc,
        key.inner.store == store,
        key.inner.bonus == USAGE_BONUS,
{
    Scoped::new(not_calc(), ByUsage::new(store, UsageIdent, USAGE_BONUS))
}

/// The ranking of a launcher without usage history: computed results apart, then
/// the fuzzy key.
pub fn matching() -> (keys: Matching)
    ensures
        keys.second.scope.of.kind == Kind::Calc,
        keys.second.inner.scorer.scorer == Fuzzy::smart_settings(),
{
    Chain::new(CalcLast, fuzzy_key())
}

/// The ranking of a launcher with usage history: computed results apart, then the
/// fuzzy key, then the usage key.
pub fn matching_then_usage(store: Frecency) -> (keys: MatchingThenUsage)
    ensures
        keys.first.second.scope.of.kind == Kind::Calc,
        keys.first.second.inner.scorer.scorer == Fuzzy::smart_settings(),
        keys.second.scope.of.kind == Kind::Calc,
        keys.second.inner.store == store,
        keys.second.inner.bonus == USAGE_BONUS,
{
    Chain::new(matching(), usage_key(store))
}

/// The ranking without usage history is lawful, whatever scores the matcher gives.
pub proof fn lemma_matching_lawful(keys: &Matching, query: Seq<char>)
    requires
        keys.second.scope.of.kind == Kind::Calc,
    ensures
        lawful::<Item, Matching>(keys, query),
        separates::<Item, Matching, Outside<OfKind>>(keys, &keys.second.scope, query),
{
    lemma_calc_last_lawful(query);
    lemma_calc_last_separates(&keys.second.scope, query);
    lemma_by_score_lawful::<Item, Projected<Label, Fuzzy>>(&keys.second.inner, query);
    lemma_scoped_chain_lawful::<Item, CalcLast, Outside<OfKind>, ByScore<Projected<Label, Fuzzy>>>(
        keys,
        query,
    );
}

/// The ranking with usage history is lawful, whatever the matcher gives and the
/// store holds.
pub proof fn lemma_matching_then_usage_lawful(keys: &MatchingThenUsage, query: Seq<char>)
    requires
        keys.first.second.scope.of.kind == Kind::Calc,
        keys.second.scope.of.kind == Kind::Calc,
    ensures
        lawful::<Item, MatchingThenUsage>(keys, query),
{
    lemma_matching_lawful(&keys.first, query);
    lemma_by_usage_lawful::<Item, UsageIdent>(&keys.second.inner, query);
    assert(keys.first.second.scope == keys.second.scope);
    lemma_scoped_chain_lawful::<Item, Matching, Outside<OfKind>, ByUsage<UsageIdent>>(keys, query);
}

/// What the launcher shows is in order: in a buffer that a batcher with the
/// launcher's ranking tracks, no entity ranks after one that stands behind it, and
/// entities that the ranking ties stand in the order of their arrival.
pub proof fn lemma_launcher_shows_in_order<F: Filter<Item>>(
    batcher: &Batcher<Item, F, MatchingThenUsage>,
    buffer: &Buffer,
    i: int,
    j: int,
)
    requires
        batcher.wf(),
        batcher.tracks(buffer),
        batcher.sorter().first.second.scope.of.kind == Kind::Calc,
        batcher.sorter().second.scope.of.kind == Kind::Calc,
        0 <= i < j < buffer@.len(),
    ensures
        batcher.sorter().order(
            &batcher.pool()[buffer@[i] as int],
            &batcher.pool()[buffer@[j] as int],
            batcher.query_text(),
        ) != Order::Greater,
        batcher.sorter().order(
            &batcher.pool()[buffer@[i] as int],
            &batcher.pool()[buffer@[j] as int],
            batcher.query_text(),
        ) == Order::Equal ==> buffer@[i] < buffer@[j],
{
    lemma_matching_then_usage_lawful(batcher.sorter(), batcher.query_text());
    lemma_lawful_among_any(batcher.sorter(), batcher.pool(), buffer@, batcher.query_text());
    batcher.lemma_buffer_in_order(buffer, i, j);
    if batcher.sorter().order(
        &batcher.pool()[buffer@[i] as int],
        &batcher.pool()[buffer@[j] as int],
        batcher.query_text(),
    ) == Order::Equal {
        batcher.lemma_buffer_is_stable(buffer, i, j);
    }
}

} // verus!
