//! The buffer between a streaming source and a slice parser.
//!
//! The buffer holds the bytes that were read from the source and not yet
//! parsed. A parser runs on them; where it asks for more, the owner of the
//! source reads on and hands the bytes to `fill_buf`, and an empty hand-over
//! tells the buffer that the source has ended.

use vstd::prelude::*;
use vstd::slice::{slice_subrange, slice_to_vec};

verus! {

/// Outcome of one attempt to take an item from a buffered source.
#[derive(Debug)]
pub enum Poll<T, E> {
    /// An item was parsed and the buffer moved past it.
    Ready(T),
    /// The bytes at hand are no valid item, or the source ended within one.
    Failed(E),
    /// The bytes at hand end before the item does: read from the source,
    /// hand the bytes to `fill_buf`, and ask again.
    Refill,
    /// The source has ended and every byte of it was parsed.
    Finished,
}

/// The outcome `p` with its item replaced by the item's view.
pub open spec fn poll_view<T: View, E>(p: Poll<T, E>) -> Poll<T::V, E> {
    match p {
        Poll::Ready(v) => Poll::Ready(v@),
        Poll::Failed(e) => Poll::Failed(e),
        Poll::Refill => Poll::Refill,
        Poll::Finished => Poll::Finished,
    }
}

/// An error of a slice parser, as far as the buffer must know it.
pub trait BufferError: Sized {
    /// Whether the error tells that the bytes end before the data does.
    spec fn incomplete_spec(&self) -> bool;

    /// Whether the error tells that the source ended in the middle of the
    /// data.
    spec fn ended_spec(&self) -> bool;

    /// Whether the error tells that the bytes end before the data does.
    fn is_incomplete(&self) -> (r: bool)
        ensures
            r == self.incomplete_spec(),
    ;

    /// The error that tells that the source ended in the middle of the data.
    fn unexpected_eof() -> (r: Self)
        ensures
            r.ended_spec(),
            !r.incomplete_spec(),
    ;
}

/// Whether `answer` is what the parser `parser` can answer on the bytes
/// `unread`.
pub open spec fn answered<O, E, F: FnOnce(&[u8]) -> Result<(usize, O), E>>(
    parser: F,
    unread: Seq<u8>,
    answer: Result<(usize, O), E>,
) -> bool {
    exists|s: &[u8]| s@ == unread && #[trigger] parser.ensures((s,), answer)
}

/// What a `ReadBuffer` stands for.
pub struct ReadBufferView {
    /// The bytes that were read from the source and not yet parsed.
    pub unread: Seq<u8>,
    /// Whether the source has reported its end.
    pub ended: bool,
}

/// Bytes read ahead from a source, with a cursor.
#[derive(Debug)]
pub struct ReadBuffer {
    buffer: Vec<u8>,
    pos: usize,
    ended: bool,
}

impl View for ReadBuffer {
    type V = ReadBufferView;

    closed spec fn view(&self) -> ReadBufferView {
        ReadBufferView {
            unread: if self.pos <= self.buffer@.len() {
                self.buffer@.subrange(self.pos as int, self.buffer@.len() as int)
            } else {
                Seq::empty()
            },
            ended: self.ended,
        }
    }
}

impl ReadBuffer {
    /// An empty buffer on a source that has not ended.
    pub fn new() -> (r: ReadBuffer)
        ensures
            r@.unread == Seq::<u8>::empty(),
            !r@.ended,
    {
        let r = ReadBuffer { buffer: Vec::new(), pos: 0, ended: false };
        assert(r@.unread =~= Seq::<u8>::empty());
        r
    }

    /// Takes over what a read from the source returned: the bytes not yet
    /// parsed move to the front and `data` goes behind them. An empty `data`
    /// marks the end of the source. Returns the number of bytes taken.
    pub fn fill_buf(&mut self, data: &[u8]) -> (r: usize)
        ensures
            final(self)@.unread == old(self)@.unread + data@,
            final(self)@.ended == (old(self)@.ended || data@.len() == 0),
            r == data@.len(),
    {
        let mut kept: Vec<u8> = Vec::new();
        if self.pos <= self.buffer.len() {
            kept.extend_from_slice(slice_subrange(self.buffer.as_slice(), self.pos, self.buffer.len()));
        }
        kept.extend_from_slice(data);
        self.buffer = kept;
        self.pos = 0;
        if data.len() == 0 {
            self.ended = true;
        }
        assert(self@.unread =~= old(self)@.unread + data@);
        data.len()
    }

    /// The bytes that were read and not yet parsed.
    pub fn buffer(&self) -> (r: &[u8])
        ensures
            r@ == self@.unread,
    {
        if self.pos <= self.buffer.len() {
            slice_subrange(self.buffer.as_slice(), self.pos, self.buffer.len())
        } else {
            slice_subrange(self.buffer.as_slice(), 0, 0)
        }
    }

    /// Moves the cursor to `rem`, which lies within the unread bytes: what
    /// a parser left of them. Afterwards the unread bytes are exactly `rem`,
    /// wherever in them it lay; nothing is read from the source.
    pub fn advance(&mut self, rem: &[u8])
        requires
            exists|i: int, j: int|
                0 <= i <= j <= old(self)@.unread.len() && rem@ == #[trigger] old(
                    self,
                )@.unread.subrange(i, j),
        ensures
            final(self)@.unread == rem@,
            final(self)@.ended == old(self)@.ended,
    {
        self.buffer = slice_to_vec(rem);
        self.pos = 0;
        assert(self@.unread =~= rem@);
    }

    /// Moves the cursor forward by `n` bytes.
    pub fn consume(&mut self, n: usize)
        requires
            n <= old(self)@.unread.len(),
        ensures
            final(self)@.unread == old(self)@.unread.subrange(
                n as int,
                old(self)@.unread.len() as int,
            ),
            final(self)@.ended == old(self)@.ended,
    {
        let len = self.buffer.len();
        if self.pos <= len {
            self.pos = self.pos + n;
        }
        assert(self@.unread =~= old(self)@.unread.subrange(
            n as int,
            old(self)@.unread.len() as int,
        ));
    }

    /// Runs the slice parser `parser` on the unread bytes. The parser answers
    /// with the number of bytes that its value took and the value, or with an
    /// error. On a value the cursor moves past those bytes. Where the parser
    /// finds the bytes incomplete, more are asked for while the source goes
    /// on, and the source is found to have ended too early once it has
    /// ended. An error of the parser is handed on, and so is its value with
    /// the number of bytes that it took.
    pub fn parse_with<O, E: BufferError, F: FnOnce(&[u8]) -> Result<(usize, O), E>>(
        &mut self,
        parser: F,
    ) -> (r: Poll<(usize, O), E>)
        requires
            forall|s: &[u8]| s@ == old(self)@.unread ==> parser.requires((s,)),
            forall|s: &[u8], n: usize, o: O|
                s@ == old(self)@.unread && parser.ensures((s,), Ok((n, o))) ==> n <= s@.len(),
        ensures
            final(self)@.ended == old(self)@.ended,
            match r {
                Poll::Ready((n, o)) => answered(parser, old(self)@.unread, Ok::<(usize, O), E>((n, o)))
                    && n <= old(self)@.unread.len() && final(self)@.unread == old(
                    self,
                )@.unread.subrange(n as int, old(self)@.unread.len() as int),
                Poll::Failed(e) => final(self)@ == old(self)@ && if e.incomplete_spec() {
                    false
                } else if answered(parser, old(self)@.unread, Err::<(usize, O), E>(e)) {
                    true
                } else {
                    e.ended_spec() && old(self)@.ended && exists|i: E|
                        i.incomplete_spec() && #[trigger] answered(
                            parser,
                            old(self)@.unread,
                            Err::<(usize, O), E>(i),
                        )
                },
                Poll::Refill => final(self)@ == old(self)@ && !old(self)@.ended && exists|i: E|
                    i.incomplete_spec() && #[trigger] answered(
                        parser,
                        old(self)@.unread,
                        Err::<(usize, O), E>(i),
                    ),
                Poll::Finished => false,
            },
    {
        let ended = self.ended;
        let unread = self.buffer();
        let ghost given = unread;
        let outcome = parser(unread);
        match outcome {
            Ok((taken, value)) => {
                assert(given@ == old(self)@.unread && parser.ensures((given,), Ok((taken, value))));
                self.consume(taken);
                assert(answered(parser, old(self)@.unread, Ok::<(usize, O), E>((taken, value))));
                Poll::Ready((taken, value))
            },
            Err(e) => {
                assert(given@ == old(self)@.unread && parser.ensures((given,), Err(e)));
                assert(answered(parser, old(self)@.unread, Err::<(usize, O), E>(e)));
                if e.is_incomplete() {
                    if ended {
                        Poll::Failed(E::unexpected_eof())
                    } else {
                        Poll::Refill
                    }
                } else {
                    Poll::Failed(e)
                }
            },
        }
    }

    /// True if no unread byte is at hand.
    pub fn is_empty(&self) -> (r: bool)
        ensures
            r == (self@.unread.len() == 0),
    {
        self.pos >= self.buffer.len()
    }

    /// True once the source has reported its end.
    pub fn is_ended(&self) -> (r: bool)
        ensures
            r == self@.ended,
    {
        self.ended
    }

    /// Whether the source has more to give: `Some(true)` while unread bytes
    /// are at hand, `Some(false)` when there are none and the source has
    /// ended, and `None` when only a read from the source can tell.
    pub fn has_data_left(&self) -> (r: Option<bool>)
        ensures
            r == if self@.unread.len() > 0 {
                Some(true)
            } else if self@.ended {
                Some(false)
            } else {
                None::<bool>
            },
    {
        if !self.is_empty() {
            Some(true)
        } else if self.ended {
            Some(false)
        } else {
            None
        }
    }

    /// Gives up the buffer for the bytes that were not parsed.
    pub fn into_inner(self) -> (r: Vec<u8>)
        ensures
            r@ == self@.unread,
    {
        let mut rest: Vec<u8> = Vec::new();
        if self.pos <= self.buffer.len() {
            rest.extend_from_slice(slice_subrange(self.buffer.as_slice(), self.pos, self.buffer.len()));
        }
        assert(rest@ =~= self@.unread);
        rest
    }
}

} // verus!
