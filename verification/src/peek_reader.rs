//! One byte read ahead of a source, to tell whether the source has ended.
//!
//! The owner of the source does the reading: `is_empty` is told what a read
//! of one byte returned, and `take` hands the byte back for the next read.

use vstd::prelude::*;

verus! {

/// A byte that was read ahead of a source, if one was.
#[derive(Debug)]
pub struct PeekReader {
    /// The byte that was read ahead and not yet handed on.
    pub peeked: Option<u8>,
}

impl PeekReader {
    /// A reader that has read nothing ahead.
    pub fn new() -> (r: PeekReader)
        ensures
            r.peeked is None,
    {
        PeekReader { peeked: None }
    }

    /// Whether a read of one byte is needed before `is_empty` can answer.
    pub fn needs_read(&self) -> (r: bool)
        ensures
            r == (self.peeked is None),
    {
        self.peeked.is_none()
    }

    /// Whether the source is at its end. `read` is what a read of one byte
    /// returned; it is looked at, and kept, only where no byte was read
    /// ahead before.
    pub fn is_empty(&mut self, read: Option<u8>) -> (r: bool)
        ensures
            match old(self).peeked {
                Some(b) => !r && final(self).peeked == Some(b),
                None => r == (read is None) && final(self).peeked == read,
            },
    {
        if self.peeked.is_some() {
            return false;
        }
        match read {
            None => true,
            Some(b) => {
                self.peeked = Some(b);
                false
            },
        }
    }

    /// Hands out the byte that was read ahead, which comes first in the next
    /// read.
    pub fn take(&mut self) -> (r: Option<u8>)
        ensures
            r == old(self).peeked,
            final(self).peeked is None,
    {
        self.peeked.take()
    }
}

} // verus!
