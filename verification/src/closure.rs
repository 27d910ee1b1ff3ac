//! Stages given as function values.
//!
//! A closure can stand for a stage when it behaves like a function: it returns on
//! every input, and returns the same for the same input. The constructors ask for
//! that, and the stage then is that function.

use crate::order::Order;
use crate::stage::{Filter, Projection, Scope, Sorter, TextScorer};
use std::marker::PhantomData;
use vstd::prelude::*;

verus! {

/// Whether a comparing closure behaves like a function of the two entities and the
/// text of the query.
pub open spec fn is_comparison<T, F: Fn(&T, &T, &str) -> Order>(f: F) -> bool {
    &&& forall|a: &T, b: &T, q: &str| #[trigger] call_requires(f, (a, b, q))
    &&& forall|a: &T, b: &T, q: &str, r: &str, x: Order, y: Order|
        q@ == r@ && #[trigger] call_ensures(f, (a, b, q), x) && #[trigger] call_ensures(
            f,
            (a, b, r),
            y,
        ) ==> x == y
}

/// Whether the comparing closure can give `outcome` for the pair under the query.
pub open spec fn compares_to<T, F: Fn(&T, &T, &str) -> Order>(
    f: F,
    lhs: &T,
    rhs: &T,
    query: Seq<char>,
    outcome: Order,
) -> bool {
    exists|q: &str| q@ == query && #[trigger] call_ensures(f, (lhs, rhs, q), outcome)
}

/// A raw comparator given as a closure.
pub struct SorterFn<T, F: Fn(&T, &T, &str) -> Order> {
    f: F,
    entity: PhantomData<T>,
}

impl<T, F: Fn(&T, &T, &str) -> Order> SorterFn<T, F> {
    #[verifier::type_invariant]
    spec fn well_behaved(self) -> bool {
        is_comparison::<T, F>(self.f)
    }

    /// The closure that the comparator calls.
    pub closed spec fn function(self) -> F {
        self.f
    }

    pub fn new(f: F) -> (sorter: Self)
        requires
            is_comparison::<T, F>(f),
        ensures
            sorter.function() == f,
    {
        SorterFn { f, entity: PhantomData }
    }

    /// The comparator orders a pair as the closure does.
    pub proof fn lemma_order_is_the_closures(self, lhs: &T, rhs: &T, query: &str, outcome: Order)
        requires
            is_comparison::<T, F>(self.function()),
            call_ensures(self.function(), (lhs, rhs, query), outcome),
        ensures
            self.order(lhs, rhs, query@) == outcome,
    {
        assert(compares_to::<T, F>(self.f, lhs, rhs, query@, outcome));
    }
}

impl<T, F: Fn(&T, &T, &str) -> Order> Sorter<T> for SorterFn<T, F> {
    closed spec fn order(&self, lhs: &T, rhs: &T, query: Seq<char>) -> Order {
        choose|outcome: Order| compares_to::<T, F>(self.f, lhs, rhs, query, outcome)
    }

    fn compare(&self, lhs: &T, rhs: &T, query: &str) -> (order: Order) {
        proof {
            use_type_invariant(self);
        }
        let order = (self.f)(lhs, rhs, query);
        assert(compares_to::<T, F>(self.f, lhs, rhs, query@, order));
        order
    }
}

/// Whether a deciding closure behaves like a function of the entity and the text of
/// the query.
pub open spec fn is_decision<T, F: Fn(&T, &str) -> bool>(f: F) -> bool {
    &&& forall|a: &T, q: &str| #[trigger] call_requires(f, (a, q))
    &&& forall|a: &T, q: &str, r: &str, x: bool, y: bool|
        q@ == r@ && #[trigger] call_ensures(f, (a, q), x) && #[trigger] call_ensures(f, (a, r), y)
            ==> x == y
}

/// Whether the deciding closure can give `verdict` for the entity under the query.
pub open spec fn decides<T, F: Fn(&T, &str) -> bool>(
    f: F,
    item: &T,
    query: Seq<char>,
    verdict: bool,
) -> bool {
    exists|q: &str| q@ == query && #[trigger] call_ensures(f, (item, q), verdict)
}

/// A filter given as a closure.
pub struct FilterFn<T, F: Fn(&T, &str) -> bool> {
    f: F,
    entity: PhantomData<T>,
}

impl<T, F: Fn(&T, &str) -> bool> FilterFn<T, F> {
    #[verifier::type_invariant]
    spec fn well_behaved(self) -> bool {
        is_decision::<T, F>(self.f)
    }

    /// The closure that the filter calls.
    pub closed spec fn function(self) -> F {
        self.f
    }

    pub fn new(f: F) -> (filter: Self)
        requires
            is_decision::<T, F>(f),
        ensures
            filter.function() == f,
    {
        FilterFn { f, entity: PhantomData }
    }

    /// The filter accepts an entity exactly when the closure does.
    pub proof fn lemma_accepts_as_the_closure(self, item: &T, query: &str, verdict: bool)
        requires
            is_decision::<T, F>(self.function()),
            call_ensures(self.function(), (item, query), verdict),
        ensures
            self.accepts(item, query@) == verdict,
    {
        assert(decides::<T, F>(self.f, item, query@, verdict));
    }
}

impl<T, F: Fn(&T, &str) -> bool> Filter<T> for FilterFn<T, F> {
    closed spec fn accepts(&self, item: &T, query: Seq<char>) -> bool {
        choose|verdict: bool| decides::<T, F>(self.f, item, query, verdict)
    }

    fn predicate(&self, item: &T, query: &str) -> (keep: bool) {
        proof {
            use_type_invariant(self);
        }
        let keep = (self.f)(item, query);
        assert(decides::<T, F>(self.f, item, query@, keep));
        keep
    }
}

/// Whether a closure on entities behaves like a function.
pub open spec fn is_membership<T, F: Fn(&T) -> bool>(f: F) -> bool {
    &&& forall|a: &T| #[trigger] call_requires(f, (a,))
    &&& forall|a: &T, x: bool, y: bool|
        #[trigger] call_ensures(f, (a,), x) && #[trigger] call_ensures(f, (a,), y) ==> x == y
}

/// A subset of the entities given as a closure.
pub struct ScopeFn<T, F: Fn(&T) -> bool> {
    f: F,
    entity: PhantomData<T>,
}

impl<T, F: Fn(&T) -> bool> ScopeFn<T, F> {
    #[verifier::type_invariant]
    spec fn well_behaved(self) -> bool {
        is_membership::<T, F>(self.f)
    }

    /// The closure that tells what belongs to the subset.
    pub closed spec fn function(self) -> F {
        self.f
    }

    pub fn new(f: F) -> (scope: Self)
        requires
            is_membership::<T, F>(f),
        ensures
            scope.function() == f,
    {
        ScopeFn { f, entity: PhantomData }
    }

    /// The subset holds an entity exactly when the closure says so.
    pub proof fn lemma_covers_as_the_closure(self, item: &T, inside: bool)
        requires
            is_membership::<T, F>(self.function()),
            call_ensures(self.function(), (item,), inside),
        ensures
            self.covers(item) == inside,
    {
    }
}

impl<T, F: Fn(&T) -> bool> Scope<T> for ScopeFn<T, F> {
    closed spec fn covers(&self, item: &T) -> bool {
        choose|inside: bool| call_ensures(self.f, (item,), inside)
    }

    fn applies(&self, item: &T) -> (inside: bool) {
        proof {
            use_type_invariant(self);
        }
        (self.f)(item)
    }
}

/// Whether a projecting closure behaves like a function from entities to texts.
pub open spec fn is_projection<T, F: Fn(&T) -> String>(f: F) -> bool {
    &&& forall|a: &T| #[trigger] call_requires(f, (a,))
    &&& forall|a: &T, x: String, y: String|
        #[trigger] call_ensures(f, (a,), x) && #[trigger] call_ensures(f, (a,), y) ==> x@ == y@
}

/// Whether the projecting closure can give `text` for the entity.
pub open spec fn projects_to<T, F: Fn(&T) -> String>(f: F, item: &T, text: Seq<char>) -> bool {
    exists|out: String| out@ == text && #[trigger] call_ensures(f, (item,), out)
}

/// A mapper given as a closure.
pub struct ProjectionFn<T, F: Fn(&T) -> String> {
    f: F,
    entity: PhantomData<T>,
}

impl<T, F: Fn(&T) -> String> ProjectionFn<T, F> {
    #[verifier::type_invariant]
    spec fn well_behaved(self) -> bool {
        is_projection::<T, F>(self.f)
    }

    /// The closure that the mapper calls.
    pub closed spec fn function(self) -> F {
        self.f
    }

    pub fn new(f: F) -> (mapper: Self)
        requires
            is_projection::<T, F>(f),
        ensures
            mapper.function() == f,
    {
        ProjectionFn { f, entity: PhantomData }
    }

    /// The mapper gives the text that the closure gives.
    pub proof fn lemma_text_is_the_closures(self, item: &T, out: String)
        requires
            is_projection::<T, F>(self.function()),
            call_ensures(self.function(), (item,), out),
        ensures
            self.text(item) == out@,
    {
        assert(projects_to::<T, F>(self.f, item, out@));
    }
}

impl<T, F: Fn(&T) -> String> Projection<T> for ProjectionFn<T, F> {
    closed spec fn text(&self, item: &T) -> Seq<char> {
        choose|text: Seq<char>| projects_to::<T, F>(self.f, item, text)
    }

    fn project(&self, item: &T) -> (text: String) {
        proof {
            use_type_invariant(self);
        }
        let text = (self.f)(item);
        assert(projects_to::<T, F>(self.f, item, text@));
        text
    }
}

/// Whether a scoring closure behaves like a function of the two texts.
pub open spec fn is_scoring<F: Fn(&str, &str) -> u32>(f: F) -> bool {
    &&& forall|t: &str, q: &str| #[trigger] call_requires(f, (t, q))
    &&& forall|t: &str, q: &str, u: &str, r: &str, x: u32, y: u32|
        t@ == u@ && q@ == r@ && #[trigger] call_ensures(f, (t, q), x) && #[trigger] call_ensures(
            f,
            (u, r),
            y,
        ) ==> x == y
}

/// Whether the scoring closure can give `score` for the text under the query.
pub open spec fn scores<F: Fn(&str, &str) -> u32>(
    f: F,
    text: Seq<char>,
    query: Seq<char>,
    score: u32,
) -> bool {
    exists|t: &str, q: &str| t@ == text && q@ == query && #[trigger] call_ensures(f, (t, q), score)
}

/// A scoring provider given as a closure.
pub struct ScorerFn<F: Fn(&str, &str) -> u32> {
    f: F,
}

impl<F: Fn(&str, &str) -> u32> ScorerFn<F> {
    #[verifier::type_invariant]
    spec fn well_behaved(self) -> bool {
        is_scoring::<F>(self.f)
    }

    /// The closure that the provider calls.
    pub closed spec fn function(self) -> F {
        self.f
    }

    pub fn new(f: F) -> (scorer: Self)
        requires
            is_scoring::<F>(f),
        ensures
            scorer.function() == f,
    {
        ScorerFn { f }
    }

    /// The provider gives the score that the closure gives.
    pub proof fn lemma_score_is_the_closures(self, text: &str, query: &str, score: u32)
        requires
            is_scoring::<F>(self.function()),
            call_ensures(self.function(), (text, query), score),
        ensures
            self.text_score(text@, query@) == score,
    {
        assert(scores::<F>(self.f, text@, query@, score));
    }
}

impl<F: Fn(&str, &str) -> u32> TextScorer for ScorerFn<F> {
    closed spec fn text_score(&self, text: Seq<char>, query: Seq<char>) -> u32 {
        choose|score: u32| scores::<F>(self.f, text, query, score)
    }

    fn score_text(&self, text: &str, query: &str) -> (score: u32) {
        proof {
            use_type_invariant(self);
        }
        let score = (self.f)(text, query);
        assert(scores::<F>(self.f, text@, query@, score));
        score
    }
}

} // verus!
