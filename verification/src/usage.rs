//! Ranking by usage history, which an outside store keeps.

use crate::order::{int_order, Order};
use crate::stage::{lawful, Projection, Sorter};
use ltrait_sorter_frecency::{Context, Frecency};
use std::cmp::Ordering;
use vstd::prelude::*;

verus! {

/// `ltrait_sorter_frecency::Frecency`: the store of usage scores, opened for one
/// namespace. It is carried through as it is.
#[verifier::external_type_specification]
#[verifier::external_body]
pub struct ExFrecency(Frecency);

/// What an opened store holds: for each identifier that has a record, an integer
/// that orders it like its score among the other records and against zero.
pub uninterp spec fn usage_ranks(store: Frecency) -> Map<Seq<char>, int>;

/// The rank of an identifier: that of its record, or zero where it has none.
pub open spec fn rank_of(ranks: Map<Seq<char>, int>, ident: Seq<char>) -> int {
    if ranks.contains_key(ident) {
        ranks[ident]
    } else {
        0
    }
}

/// Calls `Frecency::compare`, the store's comparison of two scoring contexts.
///
/// Trusted: the store looks both identifiers up in the table that it loaded when it
/// was opened, takes the score of a missing one as zero, and orders the two scores;
/// it reads neither the bonus nor the query. The scores come from a database column
/// that holds no NaN, so their order is that of integers, which `usage_ranks` names.
#[verifier::external_body]
fn frecency_compare(
    store: &Frecency,
    lhs: &str,
    rhs: &str,
    bonus: u32,
    query: &str,
) -> (order: Order)
    ensures
        order == int_order(
            rank_of(usage_ranks(*store), lhs@),
            rank_of(usage_ranks(*store), rhs@),
        ),
{
    let left = Context { ident: lhs.to_owned(), bonus: bonus.into() };
    let right = Context { ident: rhs.to_owned(), bonus: bonus.into() };
    match ltrait::Sorter::compare(store, &left, &right, query) {
        Ordering::Less => Order::Less,
        Ordering::Equal => Order::Equal,
        Ordering::Greater => Order::Greater,
    }
}

/// The comparator of usage history: orders two entities by the scores that the
/// store holds for their identifiers, the lower score first.
pub struct ByUsage<P> {
    pub store: Frecency,
    /// The mapper to the identifier of an entity.
    pub ident: P,
    /// The weight of one selection, which goes into every scoring context.
    pub bonus: u32,
}

impl<P> ByUsage<P> {
    pub fn new(store: Frecency, ident: P, bonus: u32) -> (sorter: Self)
        ensures
            sorter.store == store,
            sorter.ident == ident,
            sorter.bonus == bonus,
    {
        ByUsage { store, ident, bonus }
    }
}

impl<T, P: Projection<T>> Sorter<T> for ByUsage<P> {
    open spec fn order(&self, lhs: &T, rhs: &T, query: Seq<char>) -> Order {
        int_order(
            rank_of(usage_ranks(self.store), self.ident.text(lhs)),
            rank_of(usage_ranks(self.store), self.ident.text(rhs)),
        )
    }

    fn compare(&self, lhs: &T, rhs: &T, query: &str) -> (order: Order) {
        let left = self.ident.project(lhs);
        let right = self.ident.project(rhs);
        frecency_compare(&self.store, left.as_str(), right.as_str(), self.bonus, query)
    }
}

/// The comparator of usage history is lawful, whatever the store holds.
pub proof fn lemma_by_usage_lawful<T, P: Projection<T>>(sorter: &ByUsage<P>, query: Seq<char>)
    ensures
        lawful::<T, ByUsage<P>>(sorter, query),
{
}

} // verus!
