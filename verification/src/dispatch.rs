//! The action chain: which handlers run on the selected entity, and in what order.
//!
//! The handlers have effects outside the library, so the caller performs them. The
//! library decides which one is due and what the session's result is.

use crate::entity::{Commands, Item};
use crate::error::SessionError;
use vstd::prelude::*;

verus! {

/// A post-selection handler.
#[derive(Clone, Copy, PartialEq, Eq, Structural, Debug)]
pub enum Handler {
    /// Counts the selection in the usage history.
    RecordUsage,
    /// Puts the canonical string on the clipboard.
    Copy,
    /// Prints the canonical string.
    Print,
    /// Runs the command of a task.
    RunTask,
    /// Starts the application of a catalog entry.
    Launch,
}

impl Handler {
    /// Whether the handler has a projection of the entity to act on. Where it has
    /// none, the handler does nothing.
    pub open spec fn takes(self, item: &Item) -> bool {
        match self {
            Handler::RunTask => item is Task,
            Handler::Launch => item is Desktop,
            _ => true,
        }
    }

    /// Whether the handler has a projection of the entity to act on.
    pub fn applies_to(self, item: &Item) -> (applies: bool)
        ensures
            applies == self.takes(item),
    {
        match self {
            Handler::RunTask => item.is_task(),
            Handler::Launch => item.is_desktop(),
            _ => true,
        }
    }
}

/// The handlers of a command in the order of their registration: the usage history
/// first, unless the command reads standard input; then the clipboard, if asked for;
/// then the command's own handler.
pub open spec fn chain_of(command: Commands, copy: bool) -> Seq<Handler> {
    let usage = if command == Commands::Stdin {
        Seq::<Handler>::empty()
    } else {
        seq![Handler::RecordUsage]
    };
    let clipboard = if copy {
        seq![Handler::Copy]
    } else {
        Seq::<Handler>::empty()
    };
    let own = match command {
        Commands::Stdin => Handler::Print,
        Commands::Task => Handler::RunTask,
        Commands::Launch => Handler::Launch,
    };
    (usage + clipboard).push(own)
}

/// The handlers of a command in the order of their registration.
pub fn action_chain(command: Commands, copy: bool) -> (chain: Vec<Handler>)
    ensures
        chain@ == chain_of(command, copy),
{
    let mut chain: Vec<Handler> = Vec::new();
    if !command.is_stdin() {
        chain.push(Handler::RecordUsage);
    }
    if copy {
        chain.push(Handler::Copy);
    }
    let own = match command {
        Commands::Stdin => Handler::Print,
        Commands::Task => Handler::RunTask,
        Commands::Launch => Handler::Launch,
    };
    chain.push(own);
    assert(chain@ =~= chain_of(command, copy));
    chain
}

/// The position of the first handler from `from` on that takes the entity, or the
/// length of the chain where none does.
pub open spec fn next_due(chain: Seq<Handler>, item: &Item, from: int) -> int
    decreases chain.len() - from,
{
    if from < 0 || from >= chain.len() {
        chain.len() as int
    } else if chain[from].takes(item) {
        from
    } else {
        next_due(chain, item, from + 1)
    }
}

/// The run of an action chain on the selected entity. Handlers run one at a time in
/// the order of the chain; the first failure ends the run and is its result.
pub struct Dispatch {
    chain: Vec<Handler>,
    position: usize,
    failure: Option<SessionError>,
}

impl Dispatch {
    /// The handlers of the run.
    pub closed spec fn chain(&self) -> Seq<Handler> {
        self.chain@
    }

    /// How many handlers of the chain are behind the run.
    pub closed spec fn position(&self) -> int {
        self.position as int
    }

    /// The failure that ended the run, if one did.
    pub closed spec fn failure(&self) -> Option<SessionError> {
        self.failure
    }

    /// The internal invariant.
    pub closed spec fn wf(&self) -> bool {
        self.position <= self.chain.len()
    }

    /// A run that has all of `chain` before it.
    pub fn new(chain: Vec<Handler>) -> (run: Self)
        ensures
            run.wf(),
            run.chain() == chain@,
            run.position() == 0,
            run.failure() is None,
    {
        Dispatch { chain, position: 0, failure: None }
    }

    /// The handler that is due on the selected entity. Handlers that do not take the
    /// entity are passed over. None is due after a failure or at the end of the chain.
    pub fn due(&mut self, item: &Item) -> (handler: Option<Handler>)
        requires
            old(self).wf(),
        ensures
            final(self).wf(),
            final(self).chain() == old(self).chain(),
            final(self).failure() == old(self).failure(),
            old(self).failure() is Some ==> handler is None && final(self).position() == old(
                self,
            ).position(),
            old(self).failure() is None ==> final(self).position() == next_due(
                old(self).chain(),
                item,
                old(self).position(),
            ) && handler == if final(self).position() < old(self).chain().len() {
                Some(old(self).chain()[final(self).position()])
            } else {
                None
            },
    {
        if self.failure.is_some() {
            return None;
        }
        while self.position < self.chain.len() && !self.chain[self.position].applies_to(item)
            invariant
                self.position <= self.chain.len(),
                self.chain@ == old(self).chain@,
                self.failure == old(self).failure,
                old(self).position <= self.position,
                next_due(self.chain@, item, old(self).position as int) == next_due(
                    self.chain@,
                    item,
                    self.position as int,
                ),
            decreases self.chain.len() - self.position,
        {
            self.position = self.position + 1;
        }
        if self.position < self.chain.len() {
            Some(self.chain[self.position])
        } else {
            None
        }
    }

    /// Records that the handler that was due has run.
    pub fn succeeded(&mut self)
        requires
            old(self).wf(),
        ensures
            final(self).wf(),
            final(self).chain() == old(self).chain(),
            final(self).failure() == old(self).failure(),
            final(self).position() == if old(self).failure() is None && old(self).position() < old(
                self,
            ).chain().len() {
                old(self).position() + 1
            } else {
                old(self).position()
            },
    {
        if self.failure.is_none() && self.position < self.chain.len() {
            self.position = self.position + 1;
        }
    }

    /// Records that the handler that was due has failed. The run ends here; what the
    /// handlers before it did is not undone. Where no handler was due, nothing is
    /// recorded.
    pub fn failed(&mut self, cause: String)
        requires
            old(self).wf(),
        ensures
            final(self).wf(),
            final(self).chain() == old(self).chain(),
            final(self).position() == old(self).position(),
            final(self).failure() == if old(self).failure() is None && old(self).position() < old(
                self,
            ).chain().len() {
                Some(
                    SessionError::ActionFailed {
                        position: old(self).position() as usize,
                        handler: old(self).chain()[old(self).position()],
                        cause,
                    },
                )
            } else {
                old(self).failure()
            },
    {
        if self.failure.is_none() && self.position < self.chain.len() {
            self.failure = Some(
                SessionError::ActionFailed {
                    position: self.position,
                    handler: self.chain[self.position],
                    cause,
                },
            );
        }
    }

    /// The result of the run: the failure that ended it, or success.
    pub fn outcome(self) -> (result: Result<(), SessionError>)
        ensures
            result == match self.failure() {
                Some(error) => Err::<(), SessionError>(error),
                None => Ok::<(), SessionError>(()),
            },
    {
        match self.failure {
            Some(error) => Err(error),
            None => Ok(()),
        }
    }
}

} // verus!
