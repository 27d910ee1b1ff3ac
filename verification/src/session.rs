//! The session: one interactive run, from the first query to a selection or an abort.
//!
//! A session owns the batcher and the buffer that goes with it, so the two cannot
//! come apart.

use crate::batcher::{batch_take, Batcher, Buffer};
use crate::error::SessionError;
use crate::generator::Trigger;
use crate::order::Order;
use crate::ranking::below;
use crate::stage::{lawful_among, Filter, Sorter};
use vstd::prelude::*;

verus! {

/// What the front end returns when it is done.
#[derive(Clone, Copy, PartialEq, Eq, Structural, Debug)]
pub enum Choice {
    /// The user selected the entity at a position of the buffer.
    Selected(usize),
    /// The user left without a selection.
    Aborted,
}

/// One interactive run of a pipeline.
pub struct Session<T, F, S> {
    batcher: Batcher<T, F, S>,
    buffer: Buffer,
}

impl<T, F: Filter<T>, S: Sorter<T>> Session<T, F, S> {
    /// The engine of the session.
    pub closed spec fn batcher(&self) -> &Batcher<T, F, S> {
        &self.batcher
    }

    /// What the front end shows: tickets in ranked order.
    pub closed spec fn shown(&self) -> Seq<usize> {
        self.buffer@
    }

    /// The internal invariant: the buffer shows the output of the batcher.
    pub closed spec fn wf(&self) -> bool {
        self.batcher.wf() && self.batcher.tracks(&self.buffer)
    }

    /// What the invariant means for the front end: the buffer shows exactly the
    /// taken candidates that pass the filter, each once.
    pub proof fn lemma_shows_what_passed(&self)
        requires
            self.wf(),
        ensures
            self.shown().no_duplicates(),
            forall|t: usize|
                self.shown().contains(t) <==> t < self.batcher().taken() && self.batcher().admits(
                    t as int,
                ),
            0 <= self.batcher().taken() <= self.batcher().pool().len(),
    {
        self.batcher.lemma_taken_in_pool();
    }

    /// The buffer is in the order of the composed comparator: no entity ranks after
    /// one that stands behind it, and entities that tie stand in the order of their
    /// arrival. This holds where the comparator is lawful among the entities shown.
    pub proof fn lemma_shown_in_order(&self, i: int, j: int)
        requires
            self.wf(),
            lawful_among(
                self.batcher().sorter(),
                self.batcher().pool(),
                self.shown(),
                self.batcher().query_text(),
            ),
            0 <= i < j < self.shown().len(),
        ensures
            self.batcher().sorter().order(
                &self.batcher().pool()[self.shown()[i] as int],
                &self.batcher().pool()[self.shown()[j] as int],
                self.batcher().query_text(),
            ) != Order::Greater,
            self.batcher().sorter().order(
                &self.batcher().pool()[self.shown()[i] as int],
                &self.batcher().pool()[self.shown()[j] as int],
                self.batcher().query_text(),
            ) == Order::Equal ==> self.shown()[i] < self.shown()[j],
    {
        self.batcher.lemma_buffer_in_order(&self.buffer, i, j);
        if self.batcher().sorter().order(
            &self.batcher().pool()[self.shown()[i] as int],
            &self.batcher().pool()[self.shown()[j] as int],
            self.batcher().query_text(),
        ) == Order::Equal {
            self.batcher.lemma_buffer_is_stable(&self.buffer, i, j);
        }
    }

    /// A session over a batcher, seeded with the empty query.
    pub fn new(batcher: Batcher<T, F, S>) -> (session: Self)
        requires
            batcher.wf(),
        ensures
            session.wf(),
            session.shown() == Seq::<usize>::empty(),
            session.batcher().taken() == 0,
            session.batcher().query_text() == Seq::<char>::empty(),
            session.batcher().generated() == Seq::<T>::empty(),
            session.batcher().sourced() == batcher.sourced(),
            session.batcher().filter() == batcher.filter(),
            session.batcher().sorter() == batcher.sorter(),
            session.batcher().batch_limit() == batcher.batch_limit(),
            session.batcher().exhausted() == batcher.exhausted(),
    {
        let mut batcher = batcher;
        let mut buffer = Buffer::new();
        proof {
            batcher.lemma_taken_in_pool();
            reveal_strlit("");
        }
        batcher.seed(&mut buffer, "", Vec::new());
        assert(batcher.query_text() =~= Seq::<char>::empty());
        Session { batcher, buffer }
    }

    /// The number of entities on display.
    pub fn len(&self) -> (length: usize)
        ensures
            length == self.shown().len(),
    {
        self.buffer.len()
    }

    /// Whether more batches may come.
    pub fn has_more(&self) -> (more: bool)
        requires
            self.wf(),
        ensures
            more == (self.batcher().taken() < self.batcher().pool().len()
                || !self.batcher().exhausted()),
    {
        self.batcher.pending() > 0 || !self.batcher.is_exhausted()
    }

    /// Whether the next merge need not wait for the producers.
    pub fn is_ready(&self) -> (ready: bool)
        requires
            self.wf(),
        ensures
            ready == (self.batcher().exhausted() || (self.batcher().batch_limit() > 0
                && self.batcher().pool().len() - self.batcher().taken()
                >= self.batcher().batch_limit())),
    {
        self.batcher.is_ready()
    }

    /// The entity shown at a position, if the buffer has that position.
    pub fn row(&self, index: usize) -> (shown: Option<&T>)
        requires
            self.wf(),
        ensures
            index < self.shown().len() ==> shown == Some(
                &self.batcher().pool()[self.shown()[index as int] as int],
            ),
            index >= self.shown().len() ==> shown.is_none(),
    {
        self.batcher.row(&self.buffer, index)
    }

    /// Takes an entity that a source delivered.
    pub fn offer(&mut self, item: T)
        requires
            old(self).wf(),
            old(self).batcher().pool().len() < usize::MAX,
        ensures
            final(self).wf(),
            final(self).shown() == old(self).shown(),
            final(self).batcher().sourced() == old(self).batcher().sourced().push(item),
            final(self).batcher().generated() == old(self).batcher().generated(),
            final(self).batcher().taken() == old(self).batcher().taken(),
            final(self).batcher().filter() == old(self).batcher().filter(),
            final(self).batcher().sorter() == old(self).batcher().sorter(),
            final(self).batcher().batch_limit() == old(self).batcher().batch_limit(),
            final(self).batcher().query_text() == old(self).batcher().query_text(),
            final(self).batcher().exhausted() == old(self).batcher().exhausted(),
    {
        self.batcher.offer(item);
    }

    /// Records that the producers are exhausted.
    pub fn close(&mut self)
        requires
            old(self).wf(),
        ensures
            final(self).wf(),
            final(self).shown() == old(self).shown(),
            final(self).batcher().exhausted(),
            final(self).batcher().sourced() == old(self).batcher().sourced(),
            final(self).batcher().generated() == old(self).batcher().generated(),
            final(self).batcher().taken() == old(self).batcher().taken(),
            final(self).batcher().filter() == old(self).batcher().filter(),
            final(self).batcher().sorter() == old(self).batcher().sorter(),
            final(self).batcher().batch_limit() == old(self).batcher().batch_limit(),
            final(self).batcher().query_text() == old(self).batcher().query_text(),
    {
        self.batcher.close();
    }

    /// The user changed the query: the pipeline starts over with the new query and
    /// with what the generators produced for it.
    pub fn requery(&mut self, query: &str, generated: Vec<T>)
        requires
            old(self).wf(),
            generated.len() + old(self).batcher().sourced().len() <= usize::MAX,
        ensures
            final(self).wf(),
            final(self).shown() == Seq::<usize>::empty(),
            final(self).batcher().query_text() == query@,
            final(self).batcher().generated() == generated@,
            final(self).batcher().sourced() == old(self).batcher().sourced(),
            final(self).batcher().taken() == 0,
            final(self).batcher().filter() == old(self).batcher().filter(),
            final(self).batcher().sorter() == old(self).batcher().sorter(),
            final(self).batcher().batch_limit() == old(self).batcher().batch_limit(),
            final(self).batcher().exhausted() == old(self).batcher().exhausted(),
    {
        self.batcher.seed(&mut self.buffer, query, generated);
    }

    /// The user changed the query: the pipeline starts over with the new query, and
    /// the generator is asked for its entities where its trigger fires on the query.
    pub fn requery_from<G: FnOnce(&str) -> Vec<T>>(
        &mut self,
        query: &str,
        trigger: Trigger,
        generator: G,
    )
        requires
            old(self).wf(),
            trigger.fires_on(query@) ==> call_requires(generator, (query,)),
            forall|produced: Vec<T>| #[trigger]
                call_ensures(generator, (query,), produced) ==> produced.len() + old(
                    self,
                ).batcher().sourced().len() <= usize::MAX,
        ensures
            final(self).wf(),
            final(self).shown() == Seq::<usize>::empty(),
            final(self).batcher().query_text() == query@,
            trigger.fires_on(query@) ==> exists|produced: Vec<T>| #[trigger]
                call_ensures(generator, (query,), produced)
                    && final(self).batcher().generated() == produced@,
            !trigger.fires_on(query@) ==> final(self).batcher().generated() == Seq::<T>::empty(),
            final(self).batcher().sourced() == old(self).batcher().sourced(),
            final(self).batcher().taken() == 0,
            final(self).batcher().filter() == old(self).batcher().filter(),
            final(self).batcher().sorter() == old(self).batcher().sorter(),
            final(self).batcher().batch_limit() == old(self).batcher().batch_limit(),
            final(self).batcher().exhausted() == old(self).batcher().exhausted(),
    {
        self.batcher.seed_from(&mut self.buffer, query, trigger, generator);
    }

    /// Merges the next batch into the buffer and tells whether further batches
    /// remain. What the buffer showed before stays, in the same order.
    pub fn advance(&mut self) -> (more: bool)
        requires
            old(self).wf(),
        ensures
            final(self).wf(),
            final(self).batcher().taken() == old(self).batcher().taken() + batch_take(
                old(self).batcher().batch_limit(),
                old(self).batcher().pool().len() - old(self).batcher().taken(),
            ),
            more == (final(self).batcher().taken() < final(self).batcher().pool().len()
                || !final(self).batcher().exhausted()),
            old(self).batcher().batch_limit() == 0 && old(self).batcher().exhausted() ==> !more,
            final(self).shown().filter(below(old(self).batcher().taken())) == old(self).shown(),
            final(self).batcher().generated() == old(self).batcher().generated(),
            final(self).batcher().sourced() == old(self).batcher().sourced(),
            final(self).batcher().filter() == old(self).batcher().filter(),
            final(self).batcher().sorter() == old(self).batcher().sorter(),
            final(self).batcher().batch_limit() == old(self).batcher().batch_limit(),
            final(self).batcher().query_text() == old(self).batcher().query_text(),
            final(self).batcher().exhausted() == old(self).batcher().exhausted(),
    {
        self.batcher.merge(&mut self.buffer)
    }

    /// Ends the session with the entity at a position of the buffer. A position that
    /// the buffer does not have is an error.
    pub fn select(self, index: usize) -> (selected: Result<T, SessionError>)
        requires
            self.wf(),
        ensures
            index < self.shown().len() ==> selected == Ok::<T, SessionError>(
                self.batcher().pool()[self.shown()[index as int] as int],
            ),
            index >= self.shown().len() ==> selected == Err::<T, SessionError>(
                SessionError::OutOfRange { index, length: self.shown().len() as usize },
            ),
    {
        self.batcher.finalize(&self.buffer, index)
    }

    /// Ends the session with what the front end returned: the selected entity, or
    /// none after an abort. A selected position that the buffer does not have is an
    /// error.
    pub fn conclude(self, choice: Choice) -> (selected: Result<Option<T>, SessionError>)
        requires
            self.wf(),
        ensures
            selected == match choice {
                Choice::Aborted => Ok::<Option<T>, SessionError>(None),
                Choice::Selected(index) => if index < self.shown().len() {
                    Ok::<Option<T>, SessionError>(
                        Some(self.batcher().pool()[self.shown()[index as int] as int]),
                    )
                } else {
                    Err::<Option<T>, SessionError>(
                        SessionError::OutOfRange { index, length: self.shown().len() as usize },
                    )
                },
            },
    {
        match choice {
            Choice::Aborted => Ok(None),
            Choice::Selected(index) => match self.select(index) {
                Ok(item) => Ok(Some(item)),
                Err(error) => Err(error),
            },
        }
    }
}

} // verus!
