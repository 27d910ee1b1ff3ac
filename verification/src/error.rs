//! What can end a session other than a selection.

use crate::dispatch::Handler;
use vstd::prelude::*;

verus! {

/// The ways in which a session fails.
#[derive(Debug)]
pub enum SessionError {
    /// The front end asked for a position that the buffer does not have.
    OutOfRange { index: usize, length: usize },
    /// The handler at `position` of the action chain failed with `cause`; the
    /// handlers before it had run, and their effects stand.
    ActionFailed { position: usize, handler: Handler, cause: String },
}

impl SessionError {
    /// Whether the error reports a position outside the buffer.
    pub fn is_out_of_range(&self) -> (yes: bool)
        ensures
            yes == (self is OutOfRange),
    {
        match self {
            SessionError::OutOfRange { .. } => true,
            _ => false,
        }
    }

    /// Whether the error reports a failed handler.
    pub fn is_action_failed(&self) -> (yes: bool)
        ensures
            yes == (self is ActionFailed),
    {
        match self {
            SessionError::ActionFailed { .. } => true,
            _ => false,
        }
    }
}

} // verus!
