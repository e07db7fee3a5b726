//! The in-game message log: lines of text with a display color.

use vstd::prelude::*;
use crate::color::Rgb;

verus! {

/// The message log, oldest first.
pub struct Messages {
    messages: Vec<(String, Rgb)>,
}

impl Messages {
    /// The log as a sequence of (text, color) pairs.
    pub closed spec fn view(&self) -> Seq<(String, Rgb)> {
        self.messages@
    }

    /// An empty log.
    pub fn new() -> (r: Messages)
        ensures
            r@ =~= Seq::<(String, Rgb)>::empty(),
    {
        Messages { messages: Vec::new() }
    }

    /// Appends one line.
    pub fn add(&mut self, message: String, color: Rgb)
        ensures
            final(self)@ == old(self)@.push((message, color)),
            final(self)@.len() == old(self)@.len() + 1,
            final(self)@.subrange(0, old(self)@.len() as int) == old(self)@,
            final(self)@.last() == (message, color),
    {
        self.messages.push((message, color));
        proof {
            assert(self@.subrange(0, old(self)@.len() as int) =~= old(self)@);
        }
    }

    pub fn len(&self) -> (r: usize)
        ensures
            r == self@.len(),
    {
        self.messages.len()
    }

    /// The `i`-th line, oldest first.
    pub fn get(&self, i: usize) -> (r: &(String, Rgb))
        requires
            i < self@.len(),
        ensures
            *r == self@[i as int],
    {
        &self.messages[i]
    }
}

} // verus!
