//! When a generator is asked: its trigger is held against the live query.

use vstd::prelude::*;
use vstd::string::StrSliceExecFns;

verus! {

/// The activation condition of a generator: a character that the query must start
/// with, or none.
#[derive(Clone, Copy, Debug)]
pub struct Trigger {
    pub leading: Option<char>,
}

impl Trigger {
    /// The trigger of a generator that is asked on every query.
    pub fn always() -> (trigger: Self)
        ensures
            trigger.leading is None,
    {
        Trigger { leading: None }
    }

    /// The trigger of a generator that is asked when the query starts with `mark`.
    pub fn leading(mark: char) -> (trigger: Self)
        ensures
            trigger.leading == Some(mark),
    {
        Trigger { leading: Some(mark) }
    }

    /// Whether the generator is asked for this query.
    pub open spec fn fires_on(self, query: Seq<char>) -> bool {
        match self.leading {
            None => true,
            Some(mark) => query.len() > 0 && query[0] == mark,
        }
    }

    /// Whether the generator is asked for this query.
    pub fn fires(&self, query: &str) -> (asked: bool)
        ensures
            asked == self.fires_on(query@),
    {
        match self.leading {
            None => true,
            Some(mark) => query.unicode_len() > 0 && query.get_char(0) == mark,
        }
    }
}

} // verus!
