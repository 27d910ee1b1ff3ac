//! Stage combinators: wrappers that confine, invert, cascade and convert stages
//! without changing them.

use crate::order::{compare_scores, int_order, Order};
use crate::ranking::{in_pool, precedes, ranked};
use crate::stage::{
    lawful, lawful_among, separates, Filter, Projection, Scope, Scorer, Sorter, TextScorer,
};
use vstd::prelude::*;

verus! {

/// The comparator of an empty chain: it ties every pair.
pub struct Unranked;

impl<T> Sorter<T> for Unranked {
    open spec fn order(&self, lhs: &T, rhs: &T, query: Seq<char>) -> Order {
        Order::Equal
    }

    fn compare(&self, lhs: &T, rhs: &T, query: &str) -> (order: Order) {
        Order::Equal
    }
}

/// A comparator with its outcome inverted: ascending becomes descending.
pub struct Reversed<S> {
    pub inner: S,
}

impl<S> Reversed<S> {
    pub fn new(inner: S) -> (reversed: Self)
        ensures
            reversed.inner == inner,
    {
        Reversed { inner }
    }
}

impl<T, S: Sorter<T>> Sorter<T> for Reversed<S> {
    open spec fn order(&self, lhs: &T, rhs: &T, query: Seq<char>) -> Order {
        self.inner.order(lhs, rhs, query).flip()
    }

    fn compare(&self, lhs: &T, rhs: &T, query: &str) -> (order: Order) {
        self.inner.compare(lhs, rhs, query).reverse()
    }
}

/// A comparator confined to a subset of the entities: a pair with an operand outside
/// the subset is a tie, which leaves the decision to the other keys.
pub struct Scoped<C, S> {
    pub scope: C,
    pub inner: S,
}

impl<C, S> Scoped<C, S> {
    pub fn new(scope: C, inner: S) -> (scoped: Self)
        ensures
            scoped.scope == scope,
            scoped.inner == inner,
    {
        Scoped { scope, inner }
    }
}

impl<T, C: Scope<T>, S: Sorter<T>> Sorter<T> for Scoped<C, S> {
    open spec fn order(&self, lhs: &T, rhs: &T, query: Seq<char>) -> Order {
        if self.scope.covers(lhs) && self.scope.covers(rhs) {
            self.inner.order(lhs, rhs, query)
        } else {
            Order::Equal
        }
    }

    fn compare(&self, lhs: &T, rhs: &T, query: &str) -> (order: Order) {
        if self.scope.applies(lhs) && self.scope.applies(rhs) {
            self.inner.compare(lhs, rhs, query)
        } else {
            Order::Equal
        }
    }
}

/// Two keys in cascade: `first` is the primary key and `second` only breaks the
/// ties that `first` leaves.
pub struct Chain<A, B> {
    pub first: A,
    pub second: B,
}

impl<A, B> Chain<A, B> {
    pub fn new(first: A, second: B) -> (chain: Self)
        ensures
            chain.first == first,
            chain.second == second,
    {
        Chain { first, second }
    }
}

impl<T, A: Sorter<T>, B: Sorter<T>> Sorter<T> for Chain<A, B> {
    open spec fn order(&self, lhs: &T, rhs: &T, query: Seq<char>) -> Order {
        self.first.order(lhs, rhs, query).or(self.second.order(lhs, rhs, query))
    }

    fn compare(&self, lhs: &T, rhs: &T, query: &str) -> (order: Order) {
        let primary = self.first.compare(lhs, rhs, query);
        if primary.is_tie() {
            self.second.compare(lhs, rhs, query)
        } else {
            primary
        }
    }
}

/// A scored comparator: orders two entities by their scores, the lower score first.
pub struct ByScore<R> {
    pub scorer: R,
}

impl<R> ByScore<R> {
    pub fn new(scorer: R) -> (sorter: Self)
        ensures
            sorter.scorer == scorer,
    {
        ByScore { scorer }
    }
}

impl<T, R: Scorer<T>> Sorter<T> for ByScore<R> {
    open spec fn order(&self, lhs: &T, rhs: &T, query: Seq<char>) -> Order {
        int_order(self.scorer.score(lhs, query) as int, self.scorer.score(rhs, query) as int)
    }

    fn compare(&self, lhs: &T, rhs: &T, query: &str) -> (order: Order) {
        let left: u32 = self.scorer.predicate_score(lhs, query);
        let right: u32 = self.scorer.predicate_score(rhs, query);
        compare_scores(left, right)
    }
}

/// A text scorer applied to the text that a mapper derives from each entity.
pub struct Projected<P, R> {
    pub mapper: P,
    pub scorer: R,
}

impl<P, R> Projected<P, R> {
    pub fn new(mapper: P, scorer: R) -> (projected: Self)
        ensures
            projected.mapper == mapper,
            projected.scorer == scorer,
    {
        Projected { mapper, scorer }
    }
}

impl<T, P: Projection<T>, R: TextScorer> Scorer<T> for Projected<P, R> {
    open spec fn score(&self, item: &T, query: Seq<char>) -> u32 {
        self.scorer.text_score(self.mapper.text(item), query)
    }

    fn predicate_score(&self, item: &T, query: &str) -> (score: u32) {
        let text = self.mapper.project(item);
        self.scorer.score_text(text.as_str(), query)
    }
}

/// The filter of an empty chain: it lets every entity pass.
pub struct Everything;

impl<T> Filter<T> for Everything {
    open spec fn accepts(&self, item: &T, query: Seq<char>) -> bool {
        true
    }

    fn predicate(&self, item: &T, query: &str) -> (keep: bool) {
        true
    }
}

/// Two filters in conjunction: an entity must pass `first` and `second`.
pub struct Both<A, B> {
    pub first: A,
    pub second: B,
}

impl<A, B> Both<A, B> {
    pub fn new(first: A, second: B) -> (both: Self)
        ensures
            both.first == first,
            both.second == second,
    {
        Both { first, second }
    }
}

impl<T, A: Filter<T>, B: Filter<T>> Filter<T> for Both<A, B> {
    open spec fn accepts(&self, item: &T, query: Seq<char>) -> bool {
        self.first.accepts(item, query) && self.second.accepts(item, query)
    }

    fn predicate(&self, item: &T, query: &str) -> (keep: bool) {
        self.first.predicate(item, query) && self.second.predicate(item, query)
    }
}

/// A filter confined to a subset of the entities: an entity outside the subset
/// passes without being asked.
pub struct ScopedFilter<C, F> {
    pub scope: C,
    pub inner: F,
}

impl<C, F> ScopedFilter<C, F> {
    pub fn new(scope: C, inner: F) -> (scoped: Self)
        ensures
            scoped.scope == scope,
            scoped.inner == inner,
    {
        ScopedFilter { scope, inner }
    }
}

impl<T, C: Scope<T>, F: Filter<T>> Filter<T> for ScopedFilter<C, F> {
    open spec fn accepts(&self, item: &T, query: Seq<char>) -> bool {
        self.scope.covers(item) ==> self.inner.accepts(item, query)
    }

    fn predicate(&self, item: &T, query: &str) -> (keep: bool) {
        if self.scope.applies(item) {
            self.inner.predicate(item, query)
        } else {
            true
        }
    }
}

/// A scorer turned into a filter: an entity passes when its score reaches `minimum`.
pub struct AtLeast<R> {
    pub scorer: R,
    pub minimum: u32,
}

impl<R> AtLeast<R> {
    pub fn new(scorer: R, minimum: u32) -> (threshold: Self)
        ensures
            threshold.scorer == scorer,
            threshold.minimum == minimum,
    {
        AtLeast { scorer, minimum }
    }
}

impl<T, R: Scorer<T>> Filter<T> for AtLeast<R> {
    open spec fn accepts(&self, item: &T, query: Seq<char>) -> bool {
        self.scorer.score(item, query) >= self.minimum
    }

    fn predicate(&self, item: &T, query: &str) -> (keep: bool) {
        self.scorer.predicate_score(item, query) >= self.minimum
    }
}

/// The complement of a subset of the entities.
pub struct Outside<C> {
    pub of: C,
}

impl<C> Outside<C> {
    pub fn new(of: C) -> (outside: Self)
        ensures
            outside.of == of,
    {
        Outside { of }
    }
}

impl<T, C: Scope<T>> Scope<T> for Outside<C> {
    open spec fn covers(&self, item: &T) -> bool {
        !self.of.covers(item)
    }

    fn applies(&self, item: &T) -> (inside: bool) {
        !self.of.applies(item)
    }
}

/// The empty chain is lawful.
pub proof fn lemma_unranked_lawful<T>(query: Seq<char>)
    ensures
        lawful::<T, Unranked>(&Unranked, query),
{
}

/// A scored comparator is lawful, whatever the scorer.
pub proof fn lemma_by_score_lawful<T, R: Scorer<T>>(sorter: &ByScore<R>, query: Seq<char>)
    ensures
        lawful::<T, ByScore<R>>(sorter, query),
{
}

/// Inverting a lawful comparator gives a lawful comparator.
pub proof fn lemma_reversed_lawful<T, S: Sorter<T>>(sorter: &Reversed<S>, query: Seq<char>)
    requires
        lawful::<T, S>(&sorter.inner, query),
    ensures
        lawful::<T, Reversed<S>>(sorter, query),
{
    assert forall|a: T, b: T, c: T|
        #[trigger] sorter.order(&a, &b, query) != Order::Greater && #[trigger] sorter.order(
            &b,
            &c,
            query,
        ) != Order::Greater implies sorter.order(&a, &c, query) != Order::Greater by {
        let inner = &sorter.inner;
        assert(inner.order(&b, &a, query) == inner.order(&a, &b, query).flip());
        assert(inner.order(&c, &b, query) == inner.order(&b, &c, query).flip());
        assert(inner.order(&c, &a, query) == inner.order(&a, &c, query).flip());
        assert(inner.order(&c, &b, query) != Order::Greater);
        assert(inner.order(&b, &a, query) != Order::Greater);
    }
}

/// Under a lawful comparator a strict step followed or preceded by a weak one is strict.
pub proof fn lemma_strict_step<T, S: Sorter<T>>(sorter: &S, query: Seq<char>, a: T, b: T, c: T)
    requires
        lawful::<T, S>(sorter, query),
        sorter.order(&a, &b, query) != Order::Greater,
        sorter.order(&b, &c, query) != Order::Greater,
    ensures
        sorter.order(&a, &c, query) != Order::Greater,
        sorter.order(&a, &c, query) == Order::Equal ==> sorter.order(&a, &b, query) == Order::Equal
            && sorter.order(&b, &c, query) == Order::Equal,
{
    assert(sorter.order(&b, &a, query) == sorter.order(&a, &b, query).flip());
    assert(sorter.order(&c, &b, query) == sorter.order(&b, &c, query).flip());
    assert(sorter.order(&c, &a, query) == sorter.order(&a, &c, query).flip());
    if sorter.order(&a, &c, query) == Order::Equal {
        assert(sorter.order(&c, &a, query) != Order::Greater);
        assert(sorter.order(&c, &b, query) != Order::Greater);
        assert(sorter.order(&b, &a, query) != Order::Greater);
    }
}

/// A cascade of two lawful comparators is lawful.
pub proof fn lemma_chain_lawful<T, A: Sorter<T>, B: Sorter<T>>(
    chain: &Chain<A, B>,
    query: Seq<char>,
)
    requires
        lawful::<T, A>(&chain.first, query),
        lawful::<T, B>(&chain.second, query),
    ensures
        lawful::<T, Chain<A, B>>(chain, query),
{
    assert forall|a: T, b: T| #[trigger] chain.order(&b, &a, query) == chain.order(
        &a,
        &b,
        query,
    ).flip() by {
        assert(chain.first.order(&b, &a, query) == chain.first.order(&a, &b, query).flip());
        assert(chain.second.order(&b, &a, query) == chain.second.order(&a, &b, query).flip());
    }
    assert forall|a: T, b: T, c: T|
        #[trigger] chain.order(&a, &b, query) != Order::Greater && #[trigger] chain.order(
            &b,
            &c,
            query,
        ) != Order::Greater implies chain.order(&a, &c, query) != Order::Greater by {
        lemma_strict_step(&chain.first, query, a, b, c);
        if chain.first.order(&a, &c, query) == Order::Equal {
            assert(chain.second.order(&a, &b, query) != Order::Greater);
            assert(chain.second.order(&b, &c, query) != Order::Greater);
        }
    }
}

/// A key confined to a subset is lawful behind a lawful primary key that never ties
/// an entity of the subset with one outside it.
pub proof fn lemma_scoped_chain_lawful<T, A: Sorter<T>, C: Scope<T>, S: Sorter<T>>(
    chain: &Chain<A, Scoped<C, S>>,
    query: Seq<char>,
)
    requires
        lawful::<T, A>(&chain.first, query),
        lawful::<T, S>(&chain.second.inner, query),
        separates::<T, A, C>(&chain.first, &chain.second.scope, query),
    ensures
        lawful::<T, Chain<A, Scoped<C, S>>>(chain, query),
        separates::<T, Chain<A, Scoped<C, S>>, C>(chain, &chain.second.scope, query),
{
    let scope = &chain.second.scope;
    let inner = &chain.second.inner;
    assert forall|a: T, b: T| #[trigger] chain.order(&b, &a, query) == chain.order(
        &a,
        &b,
        query,
    ).flip() by {
        assert(chain.first.order(&b, &a, query) == chain.first.order(&a, &b, query).flip());
        assert(inner.order(&b, &a, query) == inner.order(&a, &b, query).flip());
    }
    assert forall|a: T, b: T, c: T|
        #[trigger] chain.order(&a, &b, query) != Order::Greater && #[trigger] chain.order(
            &b,
            &c,
            query,
        ) != Order::Greater implies chain.order(&a, &c, query) != Order::Greater by {
        lemma_strict_step(&chain.first, query, a, b, c);
        if chain.first.order(&a, &c, query) == Order::Equal {
            assert(chain.first.order(&a, &b, query) == Order::Equal);
            assert(chain.first.order(&b, &c, query) == Order::Equal);
            assert(scope.covers(&a) == scope.covers(&b));
            assert(scope.covers(&b) == scope.covers(&c));
            if scope.covers(&a) {
                assert(inner.order(&a, &b, query) != Order::Greater);
                assert(inner.order(&b, &c, query) != Order::Greater);
            }
        }
    }
    assert forall|a: T, b: T| scope.covers(&a) != scope.covers(&b) implies #[trigger] chain.order(
        &a,
        &b,
        query,
    ) != Order::Equal by {
        assert(chain.first.order(&a, &b, query) != Order::Equal);
    }
}

/// A key confined to a subset is lawful among entities of the subset, where the key
/// inside is: alone it can rank what a filter has narrowed to the subset.
pub proof fn lemma_scoped_lawful_inside<T, C: Scope<T>, S: Sorter<T>>(
    scoped: &Scoped<C, S>,
    pool: Seq<T>,
    tickets: Seq<usize>,
    query: Seq<char>,
)
    requires
        lawful_among(&scoped.inner, pool, tickets, query),
        forall|t: usize| tickets.contains(t) ==> scoped.scope.covers(&pool[t as int]),
    ensures
        lawful_among(scoped, pool, tickets, query),
{
    let inner = &scoped.inner;
    assert forall|x: usize, y: usize|
        tickets.contains(x) && tickets.contains(y) implies #[trigger] scoped.order(
        &pool[y as int],
        &pool[x as int],
        query,
    ) == scoped.order(&pool[x as int], &pool[y as int], query).flip() by {
        assert(inner.order(&pool[y as int], &pool[x as int], query) == inner.order(
            &pool[x as int],
            &pool[y as int],
            query,
        ).flip());
    }
    assert forall|x: usize, y: usize, z: usize|
        tickets.contains(x) && tickets.contains(y) && tickets.contains(z)
            && #[trigger] scoped.order(&pool[x as int], &pool[y as int], query)
            != Order::Greater && #[trigger] scoped.order(
            &pool[y as int],
            &pool[z as int],
            query,
        ) != Order::Greater implies scoped.order(&pool[x as int], &pool[z as int], query)
        != Order::Greater by {
        assert(inner.order(&pool[x as int], &pool[y as int], query) != Order::Greater);
        assert(inner.order(&pool[y as int], &pool[z as int], query) != Order::Greater);
    }
}

/// A key confined to a subset ties every pair with an operand outside the subset.
pub proof fn lemma_scoped_ties_outside<T, C: Scope<T>, S: Sorter<T>>(
    scoped: &Scoped<C, S>,
    lhs: &T,
    rhs: &T,
    query: Seq<char>,
)
    requires
        !scoped.scope.covers(lhs) || !scoped.scope.covers(rhs),
    ensures
        scoped.order(lhs, rhs, query) == Order::Equal,
{
}

/// Stability of a confined key: in a buffer ranked by earlier keys and then by a key
/// confined to a subset, two entities outside the subset stand as the earlier keys
/// and their arrival order place them.
pub proof fn lemma_scoped_key_keeps_order<T, A: Sorter<T>, C: Scope<T>, S: Sorter<T>>(
    chain: &Chain<A, Scoped<C, S>>,
    pool: Seq<T>,
    query: Seq<char>,
    tickets: Seq<usize>,
    i: int,
    j: int,
)
    requires
        in_pool(tickets, pool.len() as int),
        ranked(chain, pool, query, tickets),
        0 <= i < j < tickets.len(),
        !chain.second.scope.covers(&pool[tickets[i] as int]),
        !chain.second.scope.covers(&pool[tickets[j] as int]),
    ensures
        chain.order(&pool[tickets[i] as int], &pool[tickets[j] as int], query)
            == chain.first.order(&pool[tickets[i] as int], &pool[tickets[j] as int], query),
        precedes(&chain.first, pool, query, tickets[i] as int, tickets[j] as int),
{
    assert(precedes(chain, pool, query, tickets[i] as int, tickets[j] as int));
}

/// Stability of a confined key on its own: in a buffer ranked by it, entities outside
/// the subset stay in arrival order.
pub proof fn lemma_scoped_keeps_arrival<T, C: Scope<T>, S: Sorter<T>>(
    scoped: &Scoped<C, S>,
    pool: Seq<T>,
    query: Seq<char>,
    tickets: Seq<usize>,
    i: int,
    j: int,
)
    requires
        in_pool(tickets, pool.len() as int),
        ranked(scoped, pool, query, tickets),
        0 <= i < j < tickets.len(),
        !scoped.scope.covers(&pool[tickets[i] as int]) || !scoped.scope.covers(
            &pool[tickets[j] as int],
        ),
    ensures
        tickets[i] < tickets[j],
{
    assert(precedes(scoped, pool, query, tickets[i] as int, tickets[j] as int));
}

} // verus!
