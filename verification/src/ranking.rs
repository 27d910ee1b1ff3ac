//! The total order of a buffer, and the merge and sort steps that establish it.
//!
//! Entities live in a pool and are named by tickets, their positions in the pool.
//! The pool is in arrival order, so a smaller ticket means an earlier arrival.

use crate::order::Order;
use crate::stage::{lawful_among, lemma_lawful_among_fewer, Sorter};
use vstd::prelude::*;

verus! {

/// The ticket `x` must stand before the ticket `y`: the comparator ranks its entity
/// first, or ties them and `x` arrived earlier.
pub open spec fn precedes<T, S: Sorter<T>>(
    sorter: &S,
    pool: Seq<T>,
    query: Seq<char>,
    x: int,
    y: int,
) -> bool {
    match sorter.order(&pool[x], &pool[y], query) {
        Order::Less => true,
        Order::Equal => x < y,
        Order::Greater => false,
    }
}

/// Every ticket names an entity of a pool of `size` entities.
pub open spec fn in_pool(tickets: Seq<usize>, size: int) -> bool {
    forall|i: int| 0 <= i < tickets.len() ==> 0 <= #[trigger] tickets[i] < size
}

/// The tickets stand in the order of a stable sort: each one precedes all that follow.
pub open spec fn ranked<T, S: Sorter<T>>(
    sorter: &S,
    pool: Seq<T>,
    query: Seq<char>,
    tickets: Seq<usize>,
) -> bool {
    forall|i: int, j: int|
        0 <= i < j < tickets.len() ==> precedes(
            sorter,
            pool,
            query,
            #[trigger] tickets[i] as int,
            #[trigger] tickets[j] as int,
        )
}

/// The tickets are in arrival order.
pub open spec fn ascending(tickets: Seq<usize>) -> bool {
    forall|i: int, j: int| 0 <= i < j < tickets.len() ==> #[trigger] tickets[i] < #[trigger] tickets[j]
}

/// The predicate "is one of `tickets`".
pub open spec fn member_of(tickets: Seq<usize>) -> spec_fn(usize) -> bool {
    |t: usize| tickets.contains(t)
}

/// The predicate "arrived before `bound`".
pub open spec fn below(bound: int) -> spec_fn(usize) -> bool {
    |t: usize| t < bound
}

/// Among entities on which the comparator is lawful, "must stand before" is
/// transitive.
pub proof fn lemma_precedes_transitive<T, S: Sorter<T>>(
    sorter: &S,
    pool: Seq<T>,
    among: Seq<usize>,
    query: Seq<char>,
    x: usize,
    y: usize,
    z: usize,
)
    requires
        lawful_among(sorter, pool, among, query),
        among.contains(x),
        among.contains(y),
        among.contains(z),
        precedes(sorter, pool, query, x as int, y as int),
        precedes(sorter, pool, query, y as int, z as int),
    ensures
        precedes(sorter, pool, query, x as int, z as int),
{
    let xy = sorter.order(&pool[x as int], &pool[y as int], query);
    let yz = sorter.order(&pool[y as int], &pool[z as int], query);
    let xz = sorter.order(&pool[x as int], &pool[z as int], query);
    let zx = sorter.order(&pool[z as int], &pool[x as int], query);
    let yx = sorter.order(&pool[y as int], &pool[x as int], query);
    let zy = sorter.order(&pool[z as int], &pool[y as int], query);
    assert(zx == xz.flip());
    assert(yx == xy.flip());
    assert(zy == yz.flip());
    assert(xz != Order::Greater);
    if xz == Order::Equal {
        // z ties x, so z is not after y and y is not after x
        assert(zx != Order::Greater);
        assert(sorter.order(&pool[z as int], &pool[y as int], query) != Order::Greater);
        assert(sorter.order(&pool[y as int], &pool[x as int], query) != Order::Greater);
    }
}

/// Among entities on which the comparator is lawful, of two different tickets one
/// must stand before the other.
pub proof fn lemma_precedes_total<T, S: Sorter<T>>(
    sorter: &S,
    pool: Seq<T>,
    among: Seq<usize>,
    query: Seq<char>,
    x: usize,
    y: usize,
)
    requires
        lawful_among(sorter, pool, among, query),
        among.contains(x),
        among.contains(y),
        x != y,
    ensures
        precedes(sorter, pool, query, x as int, y as int) != precedes(
            sorter,
            pool,
            query,
            y as int,
            x as int,
        ),
{
    assert(sorter.order(&pool[y as int], &pool[x as int], query) == sorter.order(
        &pool[x as int],
        &pool[y as int],
        query,
    ).flip());
}

/// Whether tickets are ranked depends on the entities that they name alone, not on
/// the rest of the pool.
pub proof fn lemma_ranked_same_entities<T, S: Sorter<T>>(
    sorter: &S,
    pool: Seq<T>,
    other: Seq<T>,
    query: Seq<char>,
    tickets: Seq<usize>,
)
    requires
        ranked(sorter, pool, query, tickets),
        forall|t: usize| tickets.contains(t) ==> pool[t as int] == other[t as int],
    ensures
        ranked(sorter, other, query, tickets),
{
    assert forall|i: int, j: int| 0 <= i < j < tickets.len() implies precedes(
        sorter,
        other,
        query,
        #[trigger] tickets[i] as int,
        #[trigger] tickets[j] as int,
    ) by {
        assert(tickets.contains(tickets[i]) && tickets.contains(tickets[j]));
        assert(precedes(sorter, pool, query, tickets[i] as int, tickets[j] as int));
    }
}

/// Filtering a sequence that grew by one element.
pub proof fn lemma_filter_push(s: Seq<usize>, x: usize, pred: spec_fn(usize) -> bool)
    ensures
        s.push(x).filter(pred) == if pred(x) {
            s.filter(pred).push(x)
        } else {
            s.filter(pred)
        },
{
    reveal(Seq::filter);
    assert(s.push(x).drop_last() =~= s);
}

/// Two predicates that agree on the elements of a sequence filter it alike.
pub proof fn lemma_filter_agree(
    s: Seq<usize>,
    p: spec_fn(usize) -> bool,
    q: spec_fn(usize) -> bool,
)
    requires
        forall|i: int| 0 <= i < s.len() ==> p(#[trigger] s[i]) == q(s[i]),
    ensures
        s.filter(p) == s.filter(q),
    decreases s.len(),
{
    reveal(Seq::filter);
    if s.len() > 0 {
        lemma_filter_agree(s.drop_last(), p, q);
    }
}

/// The entity that a ticket names, in a pool kept as two runs.
pub fn entity<'a, T>(front: &'a Vec<T>, back: &'a Vec<T>, ticket: usize) -> (found: &'a T)
    requires
        ticket < front.len() + back.len(),
    ensures
        *found == (front@ + back@)[ticket as int],
{
    if ticket < front.len() {
        &front[ticket]
    } else {
        &back[ticket - front.len()]
    }
}

/// Merges two runs of tickets into one, taking from `older` unless the head of
/// `newer` ranks strictly first. Each run keeps its own order in the result. Where
/// the comparator is lawful among the entities of the two runs, and the runs are
/// ranked, so is the result.
pub fn merge_ranked<T, S: Sorter<T>>(
    sorter: &S,
    front: &Vec<T>,
    back: &Vec<T>,
    query: &str,
    older: &Vec<usize>,
    newer: &Vec<usize>,
) -> (merged: Vec<usize>)
    requires
        in_pool(older@, front.len() + back.len()),
        in_pool(newer@, front.len() + back.len()),
        older@.no_duplicates(),
        newer@.no_duplicates(),
        forall|i: int, j: int|
            0 <= i < older.len() && 0 <= j < newer.len() ==> #[trigger] older@[i]
                < #[trigger] newer@[j],
        lawful_among(sorter, front@ + back@, older@, query@) ==> ranked(
            sorter,
            front@ + back@,
            query@,
            older@,
        ),
        lawful_among(sorter, front@ + back@, newer@, query@) ==> ranked(
            sorter,
            front@ + back@,
            query@,
            newer@,
        ),
    ensures
        merged.len() == older.len() + newer.len(),
        in_pool(merged@, front.len() + back.len()),
        merged@.no_duplicates(),
        forall|t: usize| merged@.contains(t) <==> older@.contains(t) || newer@.contains(t),
        merged@.filter(member_of(older@)) == older@,
        merged@.filter(member_of(newer@)) == newer@,
        lawful_among(sorter, front@ + back@, merged@, query@) ==> ranked(
            sorter,
            front@ + back@,
            query@,
            merged@,
        ),
{
    let ghost pool = front@ + back@;
    let ghost q = query@;
    let ghost among = older@ + newer@;
    let mut merged: Vec<usize> = Vec::new();
    let mut i: usize = 0;
    let mut j: usize = 0;
    proof {
        reveal(Seq::filter);
        assert(older@.take(0) =~= Seq::<usize>::empty());
        assert(newer@.take(0) =~= Seq::<usize>::empty());
        lemma_members_of_both(older@, newer@);
        if lawful_among(sorter, pool, among, q) {
            lemma_lawful_among_fewer(sorter, pool, among, older@, q);
            lemma_lawful_among_fewer(sorter, pool, among, newer@, q);
        }
    }
    while i < older.len() || j < newer.len()
        invariant
            pool == front@ + back@,
            q == query@,
            i <= older.len(),
            j <= newer.len(),
            merged.len() == i + j,
            in_pool(older@, pool.len() as int),
            in_pool(newer@, pool.len() as int),
            older@.no_duplicates(),
            newer@.no_duplicates(),
            forall|a: int, b: int|
                0 <= a < older.len() && 0 <= b < newer.len() ==> #[trigger] older@[a]
                    < #[trigger] newer@[b],
            among == older@ + newer@,
            forall|t: usize| among.contains(t) <==> older@.contains(t) || newer@.contains(t),
            lawful_among(sorter, pool, among, q) ==> ranked(sorter, pool, q, older@) && ranked(
                sorter,
                pool,
                q,
                newer@,
            ),
            forall|k: int|
                0 <= k < merged.len() ==> older@.take(i as int).contains(#[trigger] merged@[k])
                    || newer@.take(j as int).contains(merged@[k]),
            forall|a: int| 0 <= a < i ==> merged@.contains(#[trigger] older@[a]),
            forall|b: int| 0 <= b < j ==> merged@.contains(#[trigger] newer@[b]),
            merged@.no_duplicates(),
            merged@.filter(member_of(older@)) == older@.take(i as int),
            merged@.filter(member_of(newer@)) == newer@.take(j as int),
            lawful_among(sorter, pool, among, q) ==> ranked(sorter, pool, q, merged@),
            lawful_among(sorter, pool, among, q) ==> forall|k: int|
                0 <= k < merged.len() && i < older.len() ==> precedes(
                    sorter,
                    pool,
                    q,
                    #[trigger] merged@[k] as int,
                    older@[i as int] as int,
                ),
            lawful_among(sorter, pool, among, q) ==> forall|k: int|
                0 <= k < merged.len() && j < newer.len() ==> precedes(
                    sorter,
                    pool,
                    q,
                    #[trigger] merged@[k] as int,
                    newer@[j as int] as int,
                ),
        decreases older.len() - i + (newer.len() - j),
    {
        let take_older: bool = if j >= newer.len() {
            true
        } else if i >= older.len() {
            false
        } else {
            let a: &T = entity(front, back, older[i]);
            let b: &T = entity(front, back, newer[j]);
            match sorter.compare(a, b, query) {
                Order::Greater => false,
                _ => true,
            }
        };
        let ghost before = merged@;
        if take_older {
            let t: usize = older[i];
            proof {
                lemma_filter_push(before, t, member_of(older@));
                lemma_filter_push(before, t, member_of(newer@));
                assert(older@.contains(t));
                assert(!newer@.contains(t));
                assert(older@.take(i as int).push(t) =~= older@.take(i as int + 1));
                lemma_take_fresh(older@, i as int);
                assert(!newer@.take(j as int).contains(t));
                assert(!before.contains(t));
                if lawful_among(sorter, pool, among, q) {
                    lemma_push_keeps_heads(
                        sorter,
                        pool,
                        among,
                        q,
                        before,
                        older@,
                        i as int,
                        newer@,
                        j as int,
                    );
                }
            }
            merged.push(t);
            i = i + 1;
            proof {
                lemma_members_after_push(before, t, older@, i as int, newer@, j as int);
            }
        } else {
            let t: usize = newer[j];
            proof {
                lemma_filter_push(before, t, member_of(older@));
                lemma_filter_push(before, t, member_of(newer@));
                assert(newer@.contains(t));
                assert(!older@.contains(t));
                assert(newer@.take(j as int).push(t) =~= newer@.take(j as int + 1));
                lemma_take_fresh(newer@, j as int);
                assert(!older@.take(i as int).contains(t));
                assert(!before.contains(t));
                if lawful_among(sorter, pool, among, q) {
                    if i < older.len() {
                        assert(sorter.order(
                            &pool[newer@[j as int] as int],
                            &pool[older@[i as int] as int],
                            q,
                        ) == sorter.order(
                            &pool[older@[i as int] as int],
                            &pool[newer@[j as int] as int],
                            q,
                        ).flip());
                    }
                    lemma_push_keeps_heads(
                        sorter,
                        pool,
                        among,
                        q,
                        before,
                        newer@,
                        j as int,
                        older@,
                        i as int,
                    );
                }
            }
            merged.push(t);
            j = j + 1;
            proof {
                lemma_members_after_push(before, t, newer@, j as int, older@, i as int);
            }
        }
    }
    proof {
        assert(older@.take(i as int) =~= older@);
        assert(newer@.take(j as int) =~= newer@);
        if lawful_among(sorter, pool, merged@, q) {
            assert forall|t: usize| among.contains(t) implies merged@.contains(t) by {
                if older@.contains(t) {
                    let a = choose|a: int| 0 <= a < older@.len() && older@[a] == t;
                    assert(merged@.contains(older@[a]));
                } else {
                    let b = choose|b: int| 0 <= b < newer@.len() && newer@[b] == t;
                    assert(merged@.contains(newer@[b]));
                }
            }
            lemma_lawful_among_fewer(sorter, pool, merged@, among, q);
        }
        assert forall|t: usize| merged@.contains(t) implies older@.contains(t) || newer@.contains(
            t,
        ) by {
            let k = choose|k: int| 0 <= k < merged@.len() && merged@[k] == t;
            assert(older@.take(i as int).contains(merged@[k]) || newer@.take(j as int).contains(
                merged@[k],
            ));
        }
        assert forall|t: usize| older@.contains(t) || newer@.contains(t) implies merged@.contains(
            t,
        ) by {
            if older@.contains(t) {
                let a = choose|a: int| 0 <= a < older@.len() && older@[a] == t;
                assert(merged@.contains(older@[a]));
            } else {
                let b = choose|b: int| 0 <= b < newer@.len() && newer@[b] == t;
                assert(merged@.contains(newer@[b]));
            }
        }
        assert forall|k: int| 0 <= k < merged@.len() implies 0 <= #[trigger] merged@[k]
            < front.len() + back.len() by {
            let t = merged@[k];
            assert(merged@.contains(t));
            if older@.contains(t) {
                let a = choose|a: int| 0 <= a < older@.len() && older@[a] == t;
            } else {
                let b = choose|b: int| 0 <= b < newer@.len() && newer@[b] == t;
            }
        }
    }
    merged
}

/// What two runs hold together is what one of them holds.
proof fn lemma_members_of_both(one: Seq<usize>, other: Seq<usize>)
    ensures
        forall|t: usize| (one + other).contains(t) <==> one.contains(t) || other.contains(t),
{
    let both = one + other;
    assert forall|t: usize| both.contains(t) <==> one.contains(t) || other.contains(t) by {
        if both.contains(t) {
            let k = choose|k: int| 0 <= k < both.len() && both[k] == t;
            if k < one.len() {
                assert(one[k] == t);
            } else {
                assert(other[k - one.len()] == t);
            }
        }
        if one.contains(t) {
            let k = choose|k: int| 0 <= k < one.len() && one[k] == t;
            assert(both[k] == t);
        }
        if other.contains(t) {
            let k = choose|k: int| 0 <= k < other.len() && other[k] == t;
            assert(both[one.len() + k] == t);
        }
    }
}

/// The element at position `n` of a duplicate-free run is not among the first `n`.
proof fn lemma_take_fresh(run: Seq<usize>, n: int)
    requires
        run.no_duplicates(),
        0 <= n < run.len(),
    ensures
        !run.take(n).contains(run[n]),
{
    if run.take(n).contains(run[n]) {
        let k = choose|k: int| 0 <= k < run.take(n).len() && run.take(n)[k] == run[n];
        assert(run[k] == run[n]);
    }
}

/// Bookkeeping of membership after the head of `from` was moved to the output.
proof fn lemma_members_after_push(
    before: Seq<usize>,
    t: usize,
    from: Seq<usize>,
    taken: int,
    other: Seq<usize>,
    other_taken: int,
)
    requires
        1 <= taken <= from.len(),
        0 <= other_taken <= other.len(),
        t == from[taken - 1],
        forall|k: int|
            0 <= k < before.len() ==> from.take(taken - 1).contains(#[trigger] before[k])
                || other.take(other_taken).contains(before[k]),
        forall|a: int| 0 <= a < taken - 1 ==> before.contains(#[trigger] from[a]),
        forall|b: int| 0 <= b < other_taken ==> before.contains(#[trigger] other[b]),
        before.no_duplicates(),
        !before.contains(t),
    ensures
        forall|k: int|
            0 <= k < before.push(t).len() ==> from.take(taken).contains(
                #[trigger] before.push(t)[k],
            ) || other.take(other_taken).contains(before.push(t)[k]),
        forall|a: int| 0 <= a < taken ==> before.push(t).contains(#[trigger] from[a]),
        forall|b: int| 0 <= b < other_taken ==> before.push(t).contains(#[trigger] other[b]),
        before.push(t).no_duplicates(),
{
    let after = before.push(t);
    assert forall|k: int| 0 <= k < after.len() implies from.take(taken).contains(
        #[trigger] after[k],
    ) || other.take(other_taken).contains(after[k]) by {
        if k < before.len() {
            assert(after[k] == before[k]);
            let prior = from.take(taken - 1);
            if prior.contains(before[k]) {
                let a = choose|a: int| 0 <= a < prior.len() && prior[a] == before[k];
                assert(from.take(taken)[a] == before[k]);
            }
        } else {
            assert(from.take(taken)[taken - 1] == t);
        }
    }
    assert forall|a: int| 0 <= a < taken implies after.contains(#[trigger] from[a]) by {
        if a < taken - 1 {
            let k = choose|k: int| 0 <= k < before.len() && before[k] == from[a];
            assert(after[k] == from[a]);
        } else {
            assert(after[before.len() as int] == t);
        }
    }
    assert forall|b: int| 0 <= b < other_taken implies after.contains(#[trigger] other[b]) by {
        let k = choose|k: int| 0 <= k < before.len() && before[k] == other[b];
        assert(after[k] == other[b]);
    }
    assert forall|x: int, y: int| 0 <= x < after.len() && 0 <= y < after.len() && x != y implies after[x] != after[y] by {
        if x < before.len() && y < before.len() {
        } else if x < before.len() {
            assert(before.contains(before[x]));
        } else {
            assert(before.contains(before[y]));
        }
    }
}

/// Moving the head of `from` to the output keeps the output ranked and before the
/// heads that remain.
proof fn lemma_push_keeps_heads<T, S: Sorter<T>>(
    sorter: &S,
    pool: Seq<T>,
    among: Seq<usize>,
    q: Seq<char>,
    before: Seq<usize>,
    from: Seq<usize>,
    at: int,
    other: Seq<usize>,
    other_at: int,
)
    requires
        lawful_among(sorter, pool, among, q),
        forall|k: int| 0 <= k < before.len() ==> among.contains(#[trigger] before[k]),
        forall|k: int| 0 <= k < from.len() ==> among.contains(#[trigger] from[k]),
        forall|k: int| 0 <= k < other.len() ==> among.contains(#[trigger] other[k]),
        0 <= at < from.len(),
        0 <= other_at <= other.len(),
        ranked(sorter, pool, q, before),
        ranked(sorter, pool, q, from),
        ranked(sorter, pool, q, other),
        forall|k: int|
            0 <= k < before.len() ==> precedes(
                sorter,
                pool,
                q,
                #[trigger] before[k] as int,
                from[at] as int,
            ),
        forall|k: int|
            0 <= k < before.len() && other_at < other.len() ==> precedes(
                sorter,
                pool,
                q,
                #[trigger] before[k] as int,
                other[other_at] as int,
            ),
        other_at < other.len() ==> precedes(
            sorter,
            pool,
            q,
            from[at] as int,
            other[other_at] as int,
        ),
    ensures
        ranked(sorter, pool, q, before.push(from[at])),
        forall|k: int|
            0 <= k < before.push(from[at]).len() && at + 1 < from.len() ==> precedes(
                sorter,
                pool,
                q,
                #[trigger] before.push(from[at])[k] as int,
                from[at + 1] as int,
            ),
        forall|k: int|
            0 <= k < before.push(from[at]).len() && other_at < other.len() ==> precedes(
                sorter,
                pool,
                q,
                #[trigger] before.push(from[at])[k] as int,
                other[other_at] as int,
            ),
{
    let after = before.push(from[at]);
    assert forall|x: int, y: int| 0 <= x < y < after.len() implies precedes(
        sorter,
        pool,
        q,
        #[trigger] after[x] as int,
        #[trigger] after[y] as int,
    ) by {
        if y < before.len() {
            assert(after[x] == before[x] && after[y] == before[y]);
        } else {
            assert(after[x] == before[x]);
        }
    }
    assert forall|k: int| 0 <= k < after.len() && at + 1 < from.len() implies precedes(
        sorter,
        pool,
        q,
        #[trigger] after[k] as int,
        from[at + 1] as int,
    ) by {
        assert(precedes(sorter, pool, q, from[at] as int, from[at + 1] as int));
        if k < before.len() {
            assert(after[k] == before[k]);
            lemma_precedes_transitive(
                sorter,
                pool,
                among,
                q,
                before[k],
                from[at],
                from[at + 1],
            );
        }
    }
    assert forall|k: int| 0 <= k < after.len() && other_at < other.len() implies precedes(
        sorter,
        pool,
        q,
        #[trigger] after[k] as int,
        other[other_at] as int,
    ) by {
        if k < before.len() {
            assert(after[k] == before[k]);
        }
    }
}

/// Sorts the tickets `run[lo..hi]`, which are in arrival order, by repeated merging.
/// The result holds the same tickets. Where the comparator is lawful among their
/// entities, it is ranked, so tickets that tie stay in arrival order.
pub fn sort_run<T, S: Sorter<T>>(
    sorter: &S,
    front: &Vec<T>,
    back: &Vec<T>,
    query: &str,
    run: &Vec<usize>,
    lo: usize,
    hi: usize,
) -> (sorted: Vec<usize>)
    requires
        lo <= hi <= run.len(),
        in_pool(run@, front.len() + back.len()),
        ascending(run@),
    ensures
        sorted.len() == hi - lo,
        in_pool(sorted@, front.len() + back.len()),
        sorted@.no_duplicates(),
        forall|t: usize| sorted@.contains(t) <==> run@.subrange(lo as int, hi as int).contains(t),
        lawful_among(sorter, front@ + back@, sorted@, query@) ==> ranked(
            sorter,
            front@ + back@,
            query@,
            sorted@,
        ),
    decreases hi - lo,
{
    if hi - lo == 0 {
        let sorted: Vec<usize> = Vec::new();
        assert(run@.subrange(lo as int, hi as int) =~= sorted@);
        sorted
    } else if hi - lo == 1 {
        let mut sorted: Vec<usize> = Vec::new();
        sorted.push(run[lo]);
        assert(run@.subrange(lo as int, hi as int) =~= sorted@);
        sorted
    } else {
        let mid: usize = lo + (hi - lo) / 2;
        let left = sort_run(sorter, front, back, query, run, lo, mid);
        let right = sort_run(sorter, front, back, query, run, mid, hi);
        let ghost whole = run@.subrange(lo as int, hi as int);
        let ghost low = run@.subrange(lo as int, mid as int);
        let ghost high = run@.subrange(mid as int, hi as int);
        proof {
            assert forall|i: int, j: int|
                0 <= i < left.len() && 0 <= j < right.len() implies #[trigger] left@[i]
                < #[trigger] right@[j] by {
                assert(left@.contains(left@[i]));
                assert(right@.contains(right@[j]));
                let a = choose|a: int| 0 <= a < low.len() && low[a] == left@[i];
                let b = choose|b: int| 0 <= b < high.len() && high[b] == right@[j];
                assert(run@[lo + a] < run@[mid + b]);
            }
        }
        let sorted = merge_ranked(sorter, front, back, query, &left, &right);
        proof {
            assert forall|t: usize| sorted@.contains(t) <==> whole.contains(t) by {
                if low.contains(t) {
                    let a = choose|a: int| 0 <= a < low.len() && low[a] == t;
                    assert(whole[a] == t);
                }
                if high.contains(t) {
                    let b = choose|b: int| 0 <= b < high.len() && high[b] == t;
                    assert(whole[mid - lo + b] == t);
                }
                if whole.contains(t) {
                    let c = choose|c: int| 0 <= c < whole.len() && whole[c] == t;
                    if c < mid - lo {
                        assert(low[c] == t);
                    } else {
                        assert(high[c - (mid - lo)] == t);
                    }
                }
            }
        }
        sorted
    }
}

/// Two ranked arrangements of the same tickets are the same arrangement: where the
/// comparator is lawful among their entities, the result of sorting is determined by
/// what was sorted.
pub proof fn lemma_ranked_unique<T, S: Sorter<T>>(
    sorter: &S,
    pool: Seq<T>,
    query: Seq<char>,
    one: Seq<usize>,
    other: Seq<usize>,
)
    requires
        lawful_among(sorter, pool, one, query),
        ranked(sorter, pool, query, one),
        ranked(sorter, pool, query, other),
        forall|t: usize| one.contains(t) <==> other.contains(t),
    ensures
        one == other,
    decreases one.len(),
{
    lemma_lawful_among_fewer(sorter, pool, one, other, query);
    lemma_ranked_distinct(sorter, pool, query, one);
    lemma_ranked_distinct(sorter, pool, query, other);
    if one.len() == 0 {
        if other.len() > 0 {
            assert(other.contains(other[0]));
        }
        assert(one =~= other);
    } else if other.len() == 0 {
        assert(one.contains(one[0]));
    } else {
        // both arrangements start with the ticket that precedes all others
        let a = one[0];
        let b = other[0];
        assert(one.contains(a) && other.contains(b));
        if a != b {
            let i = choose|i: int| 0 <= i < other.len() && other[i] == a;
            let j = choose|j: int| 0 <= j < one.len() && one[j] == b;
            assert(precedes(sorter, pool, query, other[0] as int, other[i] as int));
            assert(precedes(sorter, pool, query, one[0] as int, one[j] as int));
            lemma_precedes_total(sorter, pool, one, query, a, b);
        }
        let rest_one = one.skip(1);
        let rest_other = other.skip(1);
        assert forall|t: usize| rest_one.contains(t) <==> rest_other.contains(t) by {
            if rest_one.contains(t) {
                let i = choose|i: int| 0 <= i < rest_one.len() && rest_one[i] == t;
                assert(one[i + 1] == t);
                assert(one.contains(t));
                let j = choose|j: int| 0 <= j < other.len() && other[j] == t;
                assert(rest_other[j - 1] == t);
            }
            if rest_other.contains(t) {
                let i = choose|i: int| 0 <= i < rest_other.len() && rest_other[i] == t;
                assert(other[i + 1] == t);
                assert(other.contains(t));
                let j = choose|j: int| 0 <= j < one.len() && one[j] == t;
                assert(rest_one[j - 1] == t);
            }
        }
        assert forall|i: int, j: int| 0 <= i < j < rest_one.len() implies precedes(
            sorter,
            pool,
            query,
            #[trigger] rest_one[i] as int,
            #[trigger] rest_one[j] as int,
        ) by {
            assert(rest_one[i] == one[i + 1] && rest_one[j] == one[j + 1]);
        }
        assert forall|i: int, j: int| 0 <= i < j < rest_other.len() implies precedes(
            sorter,
            pool,
            query,
            #[trigger] rest_other[i] as int,
            #[trigger] rest_other[j] as int,
        ) by {
            assert(rest_other[i] == other[i + 1] && rest_other[j] == other[j + 1]);
        }
        assert forall|t: usize| rest_one.contains(t) implies one.contains(t) by {
            let i = choose|i: int| 0 <= i < rest_one.len() && rest_one[i] == t;
            assert(one[i + 1] == t);
        }
        lemma_lawful_among_fewer(sorter, pool, one, rest_one, query);
        lemma_ranked_unique(sorter, pool, query, rest_one, rest_other);
        assert(one =~= seq![a] + rest_one);
        assert(other =~= seq![b] + rest_other);
    }
}

/// A ranked arrangement names no ticket twice, where the comparator is lawful among
/// its entities.
pub proof fn lemma_ranked_distinct<T, S: Sorter<T>>(
    sorter: &S,
    pool: Seq<T>,
    query: Seq<char>,
    tickets: Seq<usize>,
)
    requires
        lawful_among(sorter, pool, tickets, query),
        ranked(sorter, pool, query, tickets),
    ensures
        tickets.no_duplicates(),
{
    assert forall|i: int, j: int|
        0 <= i < tickets.len() && 0 <= j < tickets.len() && i != j implies tickets[i]
        != tickets[j] by {
        let x = tickets[i];
        assert(tickets.contains(x));
        assert(sorter.order(&pool[x as int], &pool[x as int], query) == sorter.order(
            &pool[x as int],
            &pool[x as int],
            query,
        ).flip());
        if i < j {
            assert(precedes(sorter, pool, query, tickets[i] as int, tickets[j] as int));
        } else {
            assert(precedes(sorter, pool, query, tickets[j] as int, tickets[i] as int));
        }
    }
}

} // verus!
