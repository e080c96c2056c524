//! An endless supply of decisions from one command.
use vstd::prelude::*;

use crate::decision::Decision;
use crate::Command;
use crate::Decider;

verus! {

/// Wraps a command so that it can be asked over and over.
#[derive(Debug, PartialEq)]
pub struct QdIter<'a> {
    pub decider: &'a Command,
}

impl<'a> QdIter<'a> {
    /// Wrap the given command.
    pub fn new(decider: &Command) -> (r: QdIter)
        ensures
            r.decider == decider,
    {
        QdIter { decider }
    }

    /// Ask the wrapped command for one more decision; there is always
    /// another one.
    pub fn next(&mut self) -> (d: Option<Decision>)
        requires
            old(self).decider.valid(),
        ensures
            *final(self) == *old(self),
            d matches Some(dec) && old(self).decider.decides(dec),
    {
        Some(self.decider.decide())
    }
}

impl Command {
    /// Convert the Command into an endless iterator that simplifies
    /// calling it multiple times.
    pub fn iter(&self) -> (r: QdIter)
        ensures
            r.decider == self,
    {
        QdIter::new(self)
    }
}

} // verus!
