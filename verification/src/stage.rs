//! The capabilities a pipeline stage can have, and the laws a comparator may obey.

use crate::order::Order;
use vstd::prelude::*;

verus! {

/// A comparator stage: orders two entities under the current query.
pub trait Sorter<T> {
    /// The outcome the stage assigns to the pair.
    spec fn order(&self, lhs: &T, rhs: &T, query: Seq<char>) -> Order;

    fn compare(&self, lhs: &T, rhs: &T, query: &str) -> (order: Order)
        ensures
            order == self.order(lhs, rhs, query@),
    ;
}

/// A filter stage: decides whether an entity stays in the pipeline.
pub trait Filter<T> {
    /// Whether the stage lets the entity pass.
    spec fn accepts(&self, item: &T, query: Seq<char>) -> bool;

    fn predicate(&self, item: &T, query: &str) -> (keep: bool)
        ensures
            keep == self.accepts(item, query@),
    ;
}

/// A scoring stage: rates how well an entity answers the query.
pub trait Scorer<T> {
    /// The rating of the entity.
    spec fn score(&self, item: &T, query: Seq<char>) -> u32;

    fn predicate_score(&self, item: &T, query: &str) -> (score: u32)
        ensures
            score == self.score(item, query@),
    ;
}

/// A scoring provider that rates a text against the query.
pub trait TextScorer {
    /// The rating of the text.
    spec fn text_score(&self, text: Seq<char>, query: Seq<char>) -> u32;

    fn score_text(&self, text: &str, query: &str) -> (score: u32)
        ensures
            score == self.text_score(text@, query@),
    ;
}

/// A mapper from the shared entity type to the text a stage works on.
pub trait Projection<T> {
    /// The text that stands for the entity.
    spec fn text(&self, item: &T) -> Seq<char>;

    fn project(&self, item: &T) -> (text: String)
        ensures
            text@ == self.text(item),
    ;
}

/// A subset of the entities, to which a stage can be confined.
pub trait Scope<T> {
    /// Whether the entity belongs to the subset.
    spec fn covers(&self, item: &T) -> bool;

    fn applies(&self, item: &T) -> (inside: bool)
        ensures
            inside == self.covers(item),
    ;
}

/// The comparator is a total preorder over all entities: exchanging the operands
/// flips the outcome, and "not after" is transitive.
pub open spec fn lawful<T, S: Sorter<T>>(sorter: &S, query: Seq<char>) -> bool {
    &&& forall|a: T, b: T| #[trigger] sorter.order(&b, &a, query) == sorter.order(&a, &b, query).flip()
    &&& forall|a: T, b: T, c: T|
        #[trigger] sorter.order(&a, &b, query) != Order::Greater
            && #[trigger] sorter.order(&b, &c, query) != Order::Greater
            ==> sorter.order(&a, &c, query) != Order::Greater
}

/// The comparator is a total preorder over the entities that `tickets` name in
/// `pool`: the law holds of what is at hand, whatever the comparator does elsewhere.
pub open spec fn lawful_among<T, S: Sorter<T>>(
    sorter: &S,
    pool: Seq<T>,
    tickets: Seq<usize>,
    query: Seq<char>,
) -> bool {
    &&& forall|x: usize, y: usize|
        tickets.contains(x) && tickets.contains(y) ==> #[trigger] sorter.order(
            &pool[y as int],
            &pool[x as int],
            query,
        ) == sorter.order(&pool[x as int], &pool[y as int], query).flip()
    &&& forall|x: usize, y: usize, z: usize|
        tickets.contains(x) && tickets.contains(y) && tickets.contains(z)
            && #[trigger] sorter.order(&pool[x as int], &pool[y as int], query) != Order::Greater
            && #[trigger] sorter.order(&pool[y as int], &pool[z as int], query) != Order::Greater
            ==> sorter.order(&pool[x as int], &pool[z as int], query) != Order::Greater
}

/// The primary key never ties an entity inside the scope with one outside it.
pub open spec fn separates<T, S: Sorter<T>, C: Scope<T>>(
    sorter: &S,
    scope: &C,
    query: Seq<char>,
) -> bool {
    forall|a: T, b: T|
        scope.covers(&a) != scope.covers(&b) ==> #[trigger] sorter.order(&a, &b, query)
            != Order::Equal
}

/// A comparator that is lawful over all entities is lawful among any of them.
pub proof fn lemma_lawful_among_any<T, S: Sorter<T>>(
    sorter: &S,
    pool: Seq<T>,
    tickets: Seq<usize>,
    query: Seq<char>,
)
    requires
        lawful(sorter, query),
    ensures
        lawful_among(sorter, pool, tickets, query),
{
}

/// A comparator that is lawful among some entities is lawful among fewer of them.
pub proof fn lemma_lawful_among_fewer<T, S: Sorter<T>>(
    sorter: &S,
    pool: Seq<T>,
    tickets: Seq<usize>,
    fewer: Seq<usize>,
    query: Seq<char>,
)
    requires
        lawful_among(sorter, pool, tickets, query),
        forall|t: usize| fewer.contains(t) ==> tickets.contains(t),
    ensures
        lawful_among(sorter, pool, fewer, query),
{
}

/// Whether a comparator is lawful among some entities depends on those entities
/// alone, not on the rest of the pool.
pub proof fn lemma_lawful_among_same_entities<T, S: Sorter<T>>(
    sorter: &S,
    pool: Seq<T>,
    other: Seq<T>,
    tickets: Seq<usize>,
    query: Seq<char>,
)
    requires
        lawful_among(sorter, pool, tickets, query),
        forall|t: usize| tickets.contains(t) ==> pool[t as int] == other[t as int],
    ensures
        lawful_among(sorter, other, tickets, query),
{
    assert forall|x: usize, y: usize|
        tickets.contains(x) && tickets.contains(y) implies #[trigger] sorter.order(
        &other[y as int],
        &other[x as int],
        query,
    ) == sorter.order(&other[x as int], &other[y as int], query).flip() by {
        assert(sorter.order(&pool[y as int], &pool[x as int], query) == sorter.order(
            &pool[x as int],
            &pool[y as int],
            query,
        ).flip());
    }
    assert forall|x: usize, y: usize, z: usize|
        tickets.contains(x) && tickets.contains(y) && tickets.contains(z)
            && #[trigger] sorter.order(&other[x as int], &other[y as int], query)
            != Order::Greater && #[trigger] sorter.order(
            &other[y as int],
            &other[z as int],
            query,
        ) != Order::Greater implies sorter.order(&other[x as int], &other[z as int], query)
        != Order::Greater by {
        assert(sorter.order(&pool[x as int], &pool[y as int], query) != Order::Greater);
        assert(sorter.order(&pool[y as int], &pool[z as int], query) != Order::Greater);
    }
}

} // verus!
