//! The batcher: the engine between the producers and the front end.
//!
//! Producers hand their entities to the batcher as they arrive. The front end owns a
//! [`Buffer`] and asks the batcher to merge the next batch into it. The buffer holds
//! tickets; the entities stay with the batcher until one is selected. A buffer goes
//! with the batcher that seeded it, and with no other.
//!
//! Entities that sources delivered are kept when the query changes and are filtered
//! and ranked again under the new query. Entities that generators produced belong to
//! one query and are dropped when the next one is seeded.
//!
//! A source that fails while it delivers has delivered its last entity; the others
//! go on. The producers are exhausted when the caller says so, which is when the
//! last source has ended, in whichever way.
//!
//! The buffer is sorted in the full sense where the composed comparator is a total
//! preorder among the entities that the buffer shows. Entities that still wait, and
//! entities that the filter rejected, do not matter. Under a comparator that is not
//! one, each merge still keeps what was shown in its order and adds exactly what
//! passed the filter.

use crate::error::SessionError;
use crate::generator::Trigger;
use crate::order::Order;
use crate::ranking::{
    ascending, below, entity, in_pool, lemma_filter_agree, lemma_ranked_same_entities,
    lemma_ranked_unique, member_of, merge_ranked, precedes, ranked, sort_run,
};
use crate::stage::{
    lawful_among, lemma_lawful_among_fewer, lemma_lawful_among_same_entities, Filter, Sorter,
};
use vstd::prelude::*;

verus! {

/// The ordered sequence that the front end shows: tickets in ranked order.
pub struct Buffer {
    tickets: Vec<usize>,
}

impl View for Buffer {
    type V = Seq<usize>;

    closed spec fn view(&self) -> Seq<usize> {
        self.tickets@
    }
}

impl Buffer {
    /// An empty buffer.
    pub fn new() -> (buffer: Buffer)
        ensures
            buffer@ == Seq::<usize>::empty(),
    {
        Buffer { tickets: Vec::new() }
    }

    /// The number of entities on display.
    pub fn len(&self) -> (length: usize)
        ensures
            length == self@.len(),
    {
        self.tickets.len()
    }

    /// Whether nothing is on display.
    pub fn is_empty(&self) -> (empty: bool)
        ensures
            empty == (self@.len() == 0),
    {
        self.tickets.len() == 0
    }

    /// The ticket at a position, if the buffer has that position.
    pub fn ticket(&self, index: usize) -> (found: Option<usize>)
        ensures
            found == if index < self@.len() {
                Some(self@[index as int])
            } else {
                None
            },
    {
        if index < self.tickets.len() {
            Some(self.tickets[index])
        } else {
            None
        }
    }
}

/// How many of `pending` candidates one merge takes under a batch size:
/// all of them when the size is zero, else at most the size.
pub open spec fn batch_take(batch_size: usize, pending: int) -> int {
    if batch_size == 0 || batch_size >= pending {
        pending
    } else {
        batch_size as int
    }
}

/// The engine that filters, ranks and merges what the producers deliver.
pub struct Batcher<T, F, S> {
    filter: F,
    sorter: S,
    batch_size: usize,
    query: String,
    generated: Vec<T>,
    sourced: Vec<T>,
    cursor: usize,
    closed: bool,
}

impl<T, F: Filter<T>, S: Sorter<T>> Batcher<T, F, S> {
    /// The composed filter.
    pub closed spec fn filter(&self) -> &F {
        &self.filter
    }

    /// The composed comparator.
    pub closed spec fn sorter(&self) -> &S {
        &self.sorter
    }

    /// The configured batch size.
    pub closed spec fn batch_limit(&self) -> usize {
        self.batch_size
    }

    /// The query that was seeded last.
    pub closed spec fn query_text(&self) -> Seq<char> {
        self.query@
    }

    /// The entities that the generators produced for the current query.
    pub closed spec fn generated(&self) -> Seq<T> {
        self.generated@
    }

    /// The entities that the sources have delivered so far, in arrival order.
    pub closed spec fn sourced(&self) -> Seq<T> {
        self.sourced@
    }

    /// The candidates of the current query in arrival order: what the generators
    /// produced, then what the sources delivered. A ticket is a position in it.
    pub open spec fn pool(&self) -> Seq<T> {
        self.generated() + self.sourced()
    }

    /// How many candidates have been taken into batches under the current query.
    pub closed spec fn taken(&self) -> int {
        self.cursor as int
    }

    /// Whether the producers have announced that nothing more will come.
    pub closed spec fn exhausted(&self) -> bool {
        self.closed
    }

    /// The internal invariant.
    pub closed spec fn wf(&self) -> bool {
        &&& self.cursor <= self.generated.len() + self.sourced.len()
        &&& self.generated.len() + self.sourced.len() <= usize::MAX
    }

    /// Whether the ticket's entity passes the filter under the current query.
    pub open spec fn admits(&self, ticket: int) -> bool {
        self.filter().accepts(&self.pool()[ticket], self.query_text())
    }

    /// The buffer shows this batcher's output so far: exactly the taken candidates
    /// that pass the filter, each once, and in ranked order if the comparator is
    /// lawful among the entities that the buffer shows.
    pub open spec fn tracks(&self, buffer: &Buffer) -> bool {
        &&& in_pool(buffer@, self.taken())
        &&& buffer@.no_duplicates()
        &&& forall|t: usize| buffer@.contains(t) <==> t < self.taken() && self.admits(t as int)
        &&& lawful_among(self.sorter(), self.pool(), buffer@, self.query_text()) ==> ranked(
            self.sorter(),
            self.pool(),
            self.query_text(),
            buffer@,
        )
    }

    /// In a buffer that the batcher tracks, no entity ranks after one that stands
    /// behind it, provided the comparator is lawful among the entities shown.
    pub proof fn lemma_buffer_in_order(&self, buffer: &Buffer, i: int, j: int)
        requires
            self.tracks(buffer),
            lawful_among(self.sorter(), self.pool(), buffer@, self.query_text()),
            0 <= i < j < buffer@.len(),
        ensures
            self.sorter().order(
                &self.pool()[buffer@[i] as int],
                &self.pool()[buffer@[j] as int],
                self.query_text(),
            ) != Order::Greater,
    {
        assert(precedes(
            self.sorter(),
            self.pool(),
            self.query_text(),
            buffer@[i] as int,
            buffer@[j] as int,
        ));
    }

    /// In a buffer that the batcher tracks, entities that the comparator ties stand in
    /// the order of their arrival, provided the comparator is lawful among the
    /// entities shown.
    pub proof fn lemma_buffer_is_stable(&self, buffer: &Buffer, i: int, j: int)
        requires
            self.tracks(buffer),
            lawful_among(self.sorter(), self.pool(), buffer@, self.query_text()),
            0 <= i < j < buffer@.len(),
            self.sorter().order(
                &self.pool()[buffer@[i] as int],
                &self.pool()[buffer@[j] as int],
                self.query_text(),
            ) == Order::Equal,
        ensures
            buffer@[i] < buffer@[j],
    {
        assert(precedes(
            self.sorter(),
            self.pool(),
            self.query_text(),
            buffer@[i] as int,
            buffer@[j] as int,
        ));
    }

    /// What a tracked buffer shows is determined by the state of the batcher: it is
    /// the one arrangement that sorting the admitted candidates from scratch gives,
    /// however the batches were cut. This holds where the comparator is lawful among
    /// the entities shown.
    pub proof fn lemma_buffer_is_determined(&self, buffer: &Buffer, other: &Buffer)
        requires
            self.tracks(buffer),
            self.tracks(other),
            lawful_among(self.sorter(), self.pool(), buffer@, self.query_text()),
        ensures
            buffer@ == other@,
    {
        lemma_lawful_among_fewer(
            self.sorter(),
            self.pool(),
            buffer@,
            other@,
            self.query_text(),
        );
        lemma_ranked_unique(self.sorter(), self.pool(), self.query_text(), buffer@, other@);
    }

    /// The batcher has taken no more candidates than the pool holds, and the pool
    /// can be counted.
    pub proof fn lemma_taken_in_pool(&self)
        requires
            self.wf(),
        ensures
            0 <= self.taken() <= self.pool().len() <= usize::MAX,
    {
    }

    /// A batcher with no entities, an empty query and open producers.
    pub fn new(filter: F, sorter: S, batch_size: usize) -> (batcher: Self)
        ensures
            batcher.wf(),
            batcher.filter() == filter,
            batcher.sorter() == sorter,
            batcher.batch_limit() == batch_size,
            batcher.query_text() == Seq::<char>::empty(),
            batcher.generated() == Seq::<T>::empty(),
            batcher.sourced() == Seq::<T>::empty(),
            batcher.taken() == 0,
            !batcher.exhausted(),
    {
        Batcher {
            filter,
            sorter,
            batch_size,
            query: String::new(),
            generated: Vec::new(),
            sourced: Vec::new(),
            cursor: 0,
            closed: false,
        }
    }

    /// The batch size.
    pub fn batch_size(&self) -> (size: usize)
        ensures
            size == self.batch_limit(),
    {
        self.batch_size
    }

    /// The current query.
    pub fn query(&self) -> (query: &str)
        ensures
            query@ == self.query_text(),
    {
        self.query.as_str()
    }

    /// Whether the producers are exhausted.
    pub fn is_exhausted(&self) -> (exhausted: bool)
        ensures
            exhausted == self.exhausted(),
    {
        self.closed
    }

    /// The number of candidates that wait to be merged.
    pub fn pending(&self) -> (waiting: usize)
        requires
            self.wf(),
        ensures
            waiting == self.pool().len() - self.taken(),
            self.taken() <= self.pool().len(),
    {
        self.generated.len() + self.sourced.len() - self.cursor
    }

    /// Whether a merge would deliver a full batch or the rest of the output, so that
    /// the caller need not wait for the producers first.
    pub fn is_ready(&self) -> (ready: bool)
        requires
            self.wf(),
        ensures
            ready == (self.exhausted() || (self.batch_limit() > 0 && self.pool().len()
                - self.taken() >= self.batch_limit())),
    {
        self.closed || (self.batch_size > 0 && self.pending() >= self.batch_size)
    }

    /// Takes an entity that a source delivered. It waits, behind those delivered
    /// before it, for the next merge.
    pub fn offer(&mut self, item: T)
        requires
            old(self).wf(),
            old(self).pool().len() < usize::MAX,
        ensures
            final(self).wf(),
            final(self).sourced() == old(self).sourced().push(item),
            final(self).generated() == old(self).generated(),
            final(self).pool() == old(self).pool().push(item),
            final(self).taken() == old(self).taken(),
            final(self).filter() == old(self).filter(),
            final(self).sorter() == old(self).sorter(),
            final(self).batch_limit() == old(self).batch_limit(),
            final(self).query_text() == old(self).query_text(),
            final(self).exhausted() == old(self).exhausted(),
            forall|buffer: Buffer| #[trigger]
                old(self).tracks(&buffer) ==> final(self).tracks(&buffer),
    {
        let ghost before = self.pool();
        self.sourced.push(item);
        proof {
            let after = self.pool();
            assert(after =~= before.push(item));
            assert forall|buffer: Buffer| #[trigger] old(self).tracks(&buffer) implies self.tracks(
                &buffer,
            ) by {
                assert forall|t: usize| buffer@.contains(t) implies after[t as int]
                    == before[t as int] by {
                    let k = choose|k: int| 0 <= k < buffer@.len() && buffer@[k] == t;
                }
                if lawful_among(self.sorter(), after, buffer@, self.query_text()) {
                    lemma_lawful_among_same_entities(
                        self.sorter(),
                        after,
                        before,
                        buffer@,
                        self.query_text(),
                    );
                    lemma_ranked_same_entities(
                        self.sorter(),
                        before,
                        after,
                        self.query_text(),
                        buffer@,
                    );
                }
                assert forall|t: usize| buffer@.contains(t) <==> t < self.taken() && self.admits(
                    t as int,
                ) by {
                    if t < self.taken() {
                        assert(after[t as int] == before[t as int]);
                    }
                }
            }
        }
    }

    /// Records that the producers are exhausted.
    pub fn close(&mut self)
        ensures
            final(self).exhausted(),
            final(self).wf() == old(self).wf(),
            final(self).sourced() == old(self).sourced(),
            final(self).generated() == old(self).generated(),
            final(self).taken() == old(self).taken(),
            final(self).filter() == old(self).filter(),
            final(self).sorter() == old(self).sorter(),
            final(self).batch_limit() == old(self).batch_limit(),
            final(self).query_text() == old(self).query_text(),
            forall|buffer: Buffer| #[trigger]
                old(self).tracks(&buffer) ==> final(self).tracks(&buffer),
    {
        self.closed = true;
    }

    /// Starts the pipeline over for a new query. The buffer is emptied, `generated`
    /// replaces what the generators produced for the previous query, and every
    /// entity that the sources delivered waits again to be filtered and ranked.
    pub fn seed(&mut self, buffer: &mut Buffer, query: &str, generated: Vec<T>)
        requires
            old(self).wf(),
            generated.len() + old(self).sourced().len() <= usize::MAX,
        ensures
            final(self).wf(),
            final(self).tracks(final(buffer)),
            final(buffer)@ == Seq::<usize>::empty(),
            final(self).query_text() == query@,
            final(self).generated() == generated@,
            final(self).sourced() == old(self).sourced(),
            final(self).taken() == 0,
            final(self).filter() == old(self).filter(),
            final(self).sorter() == old(self).sorter(),
            final(self).batch_limit() == old(self).batch_limit(),
            final(self).exhausted() == old(self).exhausted(),
    {
        self.query = query.to_owned();
        self.generated = generated;
        self.cursor = 0;
        buffer.tickets = Vec::new();
    }

    /// Starts the pipeline over for a new query, as [`Batcher::seed`] does, and asks
    /// the generator for the entities of the query. The generator is asked only
    /// where its trigger fires on the query; where it does not, the query has no
    /// generated entities.
    pub fn seed_from<G: FnOnce(&str) -> Vec<T>>(
        &mut self,
        buffer: &mut Buffer,
        query: &str,
        trigger: Trigger,
        generator: G,
    )
        requires
            old(self).wf(),
            trigger.fires_on(query@) ==> call_requires(generator, (query,)),
            forall|produced: Vec<T>| #[trigger]
                call_ensures(generator, (query,), produced) ==> produced.len() + old(
                    self,
                ).sourced().len() <= usize::MAX,
        ensures
            final(self).wf(),
            final(self).tracks(final(buffer)),
            final(buffer)@ == Seq::<usize>::empty(),
            final(self).query_text() == query@,
            trigger.fires_on(query@) ==> exists|produced: Vec<T>| #[trigger]
                call_ensures(generator, (query,), produced) && final(self).generated()
                    == produced@,
            !trigger.fires_on(query@) ==> final(self).generated() == Seq::<T>::empty(),
            final(self).sourced() == old(self).sourced(),
            final(self).taken() == 0,
            final(self).filter() == old(self).filter(),
            final(self).sorter() == old(self).sorter(),
            final(self).batch_limit() == old(self).batch_limit(),
            final(self).exhausted() == old(self).exhausted(),
    {
        let generated = if trigger.fires(query) {
            generator(query)
        } else {
            Vec::new()
        };
        self.seed(buffer, query, generated);
    }

    /// The tickets from `from` up to `to` whose entities pass the filter, in
    /// arrival order.
    fn screen(&self, from: usize, to: usize) -> (batch: Vec<usize>)
        requires
            self.wf(),
            from <= to <= self.pool().len(),
        ensures
            ascending(batch@),
            in_pool(batch@, self.pool().len() as int),
            forall|t: usize| batch@.contains(t) <==> from <= t < to && self.admits(t as int),
    {
        let mut batch: Vec<usize> = Vec::new();
        let mut ticket: usize = from;
        while ticket < to
            invariant
                self.wf(),
                from <= ticket <= to <= self.pool().len(),
                ascending(batch@),
                forall|i: int| 0 <= i < batch.len() ==> from <= #[trigger] batch@[i] < ticket,
                forall|t: usize| batch@.contains(t) <==> from <= t < ticket && self.admits(t as int),
            decreases to - ticket,
        {
            let candidate = entity(&self.generated, &self.sourced, ticket);
            let keep = self.filter.predicate(candidate, self.query.as_str());
            let ghost before = batch@;
            if keep {
                batch.push(ticket);
                proof {
                    assert forall|t: usize| batch@.contains(t) <==> from <= t < ticket + 1
                        && self.admits(t as int) by {
                        if t == ticket {
                            assert(batch@[before.len() as int] == t);
                        } else if before.contains(t) {
                            let i = choose|i: int| 0 <= i < before.len() && before[i] == t;
                            assert(batch@[i] == t);
                        } else if batch@.contains(t) {
                            let i = choose|i: int| 0 <= i < batch@.len() && batch@[i] == t;
                            assert(before[i] == t);
                        }
                    }
                }
            }
            ticket = ticket + 1;
        }
        batch
    }

    /// Merges the next batch into the buffer and tells whether further batches
    /// remain. The batch is made of the candidates that waited longest: all of them
    /// when the batch size is zero, else at most that many. Those that pass the
    /// filter are ranked and merged; what the buffer showed before keeps its order.
    ///
    /// The call does not wait: it takes what is there. A caller that wants full
    /// batches asks [`Batcher::is_ready`] first.
    pub fn merge(&mut self, buffer: &mut Buffer) -> (more: bool)
        requires
            old(self).wf(),
            old(self).tracks(old(buffer)),
        ensures
            final(self).wf(),
            final(self).tracks(final(buffer)),
            final(self).taken() == old(self).taken() + batch_take(
                old(self).batch_limit(),
                old(self).pool().len() - old(self).taken(),
            ),
            more == (final(self).taken() < final(self).pool().len() || !final(self).exhausted()),
            old(self).batch_limit() == 0 ==> final(self).taken() == final(self).pool().len(),
            old(self).batch_limit() == 0 && old(self).exhausted() ==> !more,
            final(buffer)@.filter(below(old(self).taken())) == old(buffer)@,
            final(self).generated() == old(self).generated(),
            final(self).sourced() == old(self).sourced(),
            final(self).filter() == old(self).filter(),
            final(self).sorter() == old(self).sorter(),
            final(self).batch_limit() == old(self).batch_limit(),
            final(self).query_text() == old(self).query_text(),
            final(self).exhausted() == old(self).exhausted(),
    {
        let total: usize = self.generated.len() + self.sourced.len();
        let waiting: usize = total - self.cursor;
        let take: usize = if self.batch_size == 0 || self.batch_size >= waiting {
            waiting
        } else {
            self.batch_size
        };
        let end: usize = self.cursor + take;
        let batch = self.screen(self.cursor, end);
        let sorted = sort_run(
            &self.sorter,
            &self.generated,
            &self.sourced,
            self.query.as_str(),
            &batch,
            0,
            batch.len(),
        );
        proof {
            assert(batch@.subrange(0, batch.len() as int) =~= batch@);
            assert forall|i: int, j: int|
                0 <= i < buffer.tickets.len() && 0 <= j < sorted.len() implies #[trigger] buffer.tickets@[i]
                < #[trigger] sorted@[j] by {
                assert(sorted@.contains(sorted@[j]));
            }
        }
        let merged = merge_ranked(
            &self.sorter,
            &self.generated,
            &self.sourced,
            self.query.as_str(),
            &buffer.tickets,
            &sorted,
        );
        proof {
            let older = buffer.tickets@;
            let bound = self.cursor as int;
            assert forall|k: int| 0 <= k < merged@.len() implies member_of(older)(
                #[trigger] merged@[k],
            ) == below(bound)(merged@[k]) by {
                let t = merged@[k];
                assert(merged@.contains(t));
                if older.contains(t) {
                    let i = choose|i: int| 0 <= i < older.len() && older[i] == t;
                } else {
                    assert(sorted@.contains(t));
                }
            }
            lemma_filter_agree(merged@, member_of(older), below(bound));
            assert forall|k: int| 0 <= k < merged@.len() implies 0 <= #[trigger] merged@[k]
                < end by {
                let t = merged@[k];
                assert(merged@.contains(t));
                if older.contains(t) {
                    let i = choose|i: int| 0 <= i < older.len() && older[i] == t;
                } else {
                    assert(sorted@.contains(t));
                }
            }
        }
        buffer.tickets = merged;
        self.cursor = end;
        end < total || !self.closed
    }

    /// The entity shown at a position of the buffer, if the buffer has that position.
    pub fn row(&self, buffer: &Buffer, index: usize) -> (shown: Option<&T>)
        requires
            self.wf(),
            self.tracks(buffer),
        ensures
            index < buffer@.len() ==> shown == Some(&self.pool()[buffer@[index as int] as int]),
            index >= buffer@.len() ==> shown.is_none(),
    {
        if index < buffer.tickets.len() {
            let ticket: usize = buffer.tickets[index];
            Some(entity(&self.generated, &self.sourced, ticket))
        } else {
            None
        }
    }

    /// Ends the session with the entity at a position of the buffer. A position that
    /// the buffer does not have is an error.
    pub fn finalize(self, buffer: &Buffer, index: usize) -> (selected: Result<T, SessionError>)
        requires
            self.wf(),
            self.tracks(buffer),
        ensures
            index < buffer@.len() ==> selected == Ok::<T, SessionError>(
                self.pool()[buffer@[index as int] as int],
            ),
            index >= buffer@.len() ==> selected == Err::<T, SessionError>(
                SessionError::OutOfRange { index, length: buffer@.len() as usize },
            ),
    {
        if index >= buffer.tickets.len() {
            return Err(SessionError::OutOfRange { index, length: buffer.tickets.len() });
        }
        let ticket: usize = buffer.tickets[index];
        let mut generated = self.generated;
        let mut sourced = self.sourced;
        if ticket < generated.len() {
            Ok(generated.swap_remove(ticket))
        } else {
            Ok(sourced.swap_remove(ticket - generated.len()))
        }
    }
}

} // verus!
