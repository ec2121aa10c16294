//! The reader of the PcapNg format: the library holds the bytes read ahead.
//!
//! The reader does not read: the owner of the source does, and hands what
//! a read returned to `fill_buf`. Each call of `next_block` then tells
//! whether a block is there, whether more bytes are needed, or that the
//! source is used up.

use vstd::prelude::*;

use crate::errors::{ErrorKind, PcapError};
use crate::pcapng::blocks::block_common::{Block, BlockView, RawBlock, RawBlockView};
use crate::pcapng::blocks::enhanced_packet::EnhancedPacketBlock;
use crate::pcapng::blocks::interface_description::InterfaceDescriptionBlock;
use crate::pcapng::blocks::section_header::SectionHeaderBlock;
use crate::pcapng::parser::{
    lemma_next_block_prefix, next_block_of, next_raw_block_of, start_of, PcapNgParser,
};
use crate::pcapng::state::{PcapNgState, PcapNgStateView};
use crate::read_buffer::{Poll, ReadBuffer};

verus! {

/// What a `PcapNgReader` stands for.
pub struct PcapNgReaderView {
    /// The state of the stream, once the first section header was read.
    pub state: Option<PcapNgStateView>,
    /// The bytes that were read from the source and not yet parsed.
    pub unread: Seq<u8>,
    /// Whether the source has reported its end.
    pub ended: bool,
}

/// Reads a PcapNg from a source that is handed over piece by piece.
#[derive(Debug)]
pub struct PcapNgReader {
    parser: Option<PcapNgParser>,
    reader: ReadBuffer,
}

impl View for PcapNgReader {
    type V = PcapNgReaderView;

    closed spec fn view(&self) -> PcapNgReaderView {
        PcapNgReaderView {
            state: match self.parser {
                Some(p) => Some(p@),
                None => None,
            },
            unread: self.reader@.unread,
            ended: self.reader@.ended,
        }
    }
}

/// What the kind `k` of a parser's error means to a reader: more bytes are
/// to be read where the item is incomplete and the source goes on; the
/// source ended too early where it is incomplete and the source has ended;
/// else the block is invalid for that reason.
pub open spec fn failure(k: ErrorKind, ended: bool) -> Option<ErrorKind> {
    if k == ErrorKind::IncompleteBuffer {
        if ended {
            Some(ErrorKind::UnexpectedEof)
        } else {
            None
        }
    } else {
        Some(k)
    }
}

/// What an attempt of a reader has come to.
pub enum Outcome<T> {
    /// An item was parsed.
    Ready(T),
    /// The attempt failed with an error of this kind.
    Failed(ErrorKind),
    /// More bytes are needed.
    Refill,
    /// The source is used up.
    Finished,
}

/// The outcome that stands for what the reader returned.
pub open spec fn outcome_of<T: View>(p: Poll<T, PcapError>) -> Outcome<T::V> {
    match p {
        Poll::Ready(v) => Outcome::Ready(v@),
        Poll::Failed(err) => Outcome::Failed(err@),
        Poll::Refill => Outcome::Refill,
        Poll::Finished => Outcome::Finished,
    }
}

/// The outcome of reading the first section header in the state `v`, and the
/// state after it. Where the header was read before, nothing is done.
pub open spec fn section_step(v: PcapNgReaderView) -> (Outcome<()>, PcapNgReaderView) {
    match v.state {
        Some(_) => (Outcome::Ready(()), v),
        None => match start_of(v.unread) {
            Ok((state, n)) => (
                Outcome::Ready(()),
                PcapNgReaderView {
                    state: Some(state),
                    unread: v.unread.subrange(n, v.unread.len() as int),
                    ended: v.ended,
                },
            ),
            Err(k) => match failure(k, v.ended) {
                Some(kind) => (Outcome::Failed(kind), v),
                None => (Outcome::Refill, v),
            },
        },
    }
}

/// The outcome of reading the next block in the state `v`, and the state
/// after it: the first section header is read first where it was not yet;
/// then the end is told where no byte is left and the source has ended, more
/// bytes are asked for where none is left and it goes on, and else the bytes
/// are parsed as the pull parser parses them.
pub open spec fn block_step(v: PcapNgReaderView) -> (Outcome<BlockView>, PcapNgReaderView) {
    let (started, w) = section_step(v);
    match (started, w.state) {
        (Outcome::Ready(_), Some(state)) => if w.unread.len() == 0 {
            if w.ended {
                (Outcome::Finished, w)
            } else {
                (Outcome::Refill, w)
            }
        } else {
            match next_block_of(state, w.unread) {
                Ok((block, next, n)) => (
                    Outcome::Ready(block),
                    PcapNgReaderView {
                        state: Some(next),
                        unread: w.unread.subrange(n, w.unread.len() as int),
                        ended: w.ended,
                    },
                ),
                Err(k) => match failure(k, w.ended) {
                    Some(kind) => (Outcome::Failed(kind), w),
                    None => (Outcome::Refill, w),
                },
            }
        },
        (Outcome::Failed(k), _) => (Outcome::Failed(k), w),
        _ => (Outcome::Refill, w),
    }
}

/// As `block_step`, for a block that is not parsed beyond its frame.
pub open spec fn raw_block_step(v: PcapNgReaderView) -> (Outcome<RawBlockView>, PcapNgReaderView) {
    let (started, w) = section_step(v);
    match (started, w.state) {
        (Outcome::Ready(_), Some(state)) => if w.unread.len() == 0 {
            if w.ended {
                (Outcome::Finished, w)
            } else {
                (Outcome::Refill, w)
            }
        } else {
            match next_raw_block_of(state, w.unread) {
                Ok((block, next, n)) => (
                    Outcome::Ready(block),
                    PcapNgReaderView {
                        state: Some(next),
                        unread: w.unread.subrange(n, w.unread.len() as int),
                        ended: w.ended,
                    },
                ),
                Err(k) => match failure(k, w.ended) {
                    Some(kind) => (Outcome::Failed(kind), w),
                    None => (Outcome::Refill, w),
                },
            }
        },
        (Outcome::Failed(k), _) => (Outcome::Failed(k), w),
        _ => (Outcome::Refill, w),
    }
}

/// The answer of a reader whose parser failed with `err`.
fn refusal<T>(err: PcapError, ended: bool) -> (r: Poll<T, PcapError>)
    ensures
        match failure(err@, ended) {
            Some(kind) => r matches Poll::Failed(e) && e@ == kind,
            None => r is Refill,
        },
{
    match err {
        PcapError::IncompleteBuffer => {
            if ended {
                Poll::Failed(PcapError::UnexpectedEof)
            } else {
                Poll::Refill
            }
        },
        other => Poll::Failed(other),
    }
}

impl PcapNgReader {
    /// Creates a new [`PcapNgReader`] that has read nothing yet.
    pub fn new() -> (r: PcapNgReader)
        ensures
            r@ == (PcapNgReaderView { state: None, unread: Seq::empty(), ended: false }),
    {
        PcapNgReader { parser: None, reader: ReadBuffer::new() }
    }

    /// Takes over what a read from the source returned; an empty `data`
    /// marks the end of the source. Returns the number of bytes taken.
    pub fn fill_buf(&mut self, data: &[u8]) -> (r: usize)
        ensures
            final(self)@ == (PcapNgReaderView {
                unread: old(self)@.unread + data@,
                ended: old(self)@.ended || data@.len() == 0,
                ..old(self)@
            }),
            r == data@.len(),
    {
        self.reader.fill_buf(data)
    }

    /// Reads the first block, which must be a valid SectionHeaderBlock.
    /// Once it was read nothing is done.
    pub fn read_section(&mut self) -> (r: Poll<(), PcapError>)
        ensures
            outcome_of(r) == section_step(old(self)@).0,
            final(self)@ == section_step(old(self)@).1,
    {
        if self.parser.is_some() {
            return Poll::Ready(());
        }
        let unread = self.reader.buffer();
        let outcome = match PcapNgParser::new(unread) {
            Ok((rest, parser)) => Ok((unread.len() - rest.len(), parser)),
            Err(err) => Err(err),
        };
        match outcome {
            Ok((taken, parser)) => {
                self.reader.consume(taken);
                self.parser = Some(parser);
                Poll::Ready(())
            },
            Err(err) => refusal(err, self.reader.is_ended()),
        }
    }

    /// Returns the next [`Block`].
    pub fn next_block(&mut self) -> (r: Poll<Block, PcapError>)
        ensures
            outcome_of(r) == block_step(old(self)@).0,
            final(self)@ == block_step(old(self)@).1,
    {
        match self.read_section() {
            Poll::Ready(_) => {},
            Poll::Failed(err) => { return Poll::Failed(err); },
            _ => { return Poll::Refill; },
        }
        if self.reader.is_empty() {
            return if self.reader.is_ended() {
                Poll::Finished
            } else {
                Poll::Refill
            };
        }
        let ended = self.reader.is_ended();
        let unread = self.reader.buffer();
        let outcome = match &mut self.parser {
            Some(parser) => match parser.next_block(unread) {
                Ok((rest, block)) => Ok((unread.len() - rest.len(), block)),
                Err(err) => Err(err),
            },
            None => { return Poll::Refill; },
        };
        match outcome {
            Ok((taken, block)) => {
                self.reader.consume(taken);
                Poll::Ready(block)
            },
            Err(err) => refusal(err, ended),
        }
    }

    /// Returns the next [`RawBlock`].
    pub fn next_raw_block(&mut self) -> (r: Poll<RawBlock, PcapError>)
        ensures
            outcome_of(r) == raw_block_step(old(self)@).0,
            final(self)@ == raw_block_step(old(self)@).1,
    {
        match self.read_section() {
            Poll::Ready(_) => {},
            Poll::Failed(err) => { return Poll::Failed(err); },
            _ => { return Poll::Refill; },
        }
        if self.reader.is_empty() {
            return if self.reader.is_ended() {
                Poll::Finished
            } else {
                Poll::Refill
            };
        }
        let ended = self.reader.is_ended();
        let unread = self.reader.buffer();
        let outcome = match &mut self.parser {
            Some(parser) => match parser.next_raw_block(unread) {
                Ok((rest, block)) => Ok((unread.len() - rest.len(), block)),
                Err(err) => Err(err),
            },
            None => { return Poll::Refill; },
        };
        match outcome {
            Ok((taken, block)) => {
                self.reader.consume(taken);
                Poll::Ready(block)
            },
            Err(err) => refusal(err, ended),
        }
    }

    /// Returns the current state of the stream, once the first section
    /// header was read.
    pub fn state(&self) -> (r: Option<&PcapNgState>)
        ensures
            match r {
                Some(state) => self@.state == Some(state@),
                None => self@.state is None,
            },
    {
        match &self.parser {
            Some(parser) => Some(parser.state()),
            None => None,
        }
    }

    /// Returns the current [`SectionHeaderBlock`], once it was read.
    pub fn section(&self) -> (r: Option<&SectionHeaderBlock>)
        ensures
            match r {
                Some(section) => self@.state matches Some(state) && state.section == section@,
                None => self@.state is None,
            },
    {
        match &self.parser {
            Some(parser) => Some(parser.section()),
            None => None,
        }
    }

    /// Returns the [`InterfaceDescriptionBlock`] corresponding to the given packet
    pub fn packet_interface(&self, packet: &EnhancedPacketBlock) -> (r: Option<
        &InterfaceDescriptionBlock,
    >)
        ensures
            match r {
                Some(interface) => self@.state matches Some(state) && packet.interface_id
                    < state.interfaces.len() && interface@
                    == state.interfaces[packet.interface_id as int],
                None => self@.state matches Some(state) ==> packet.interface_id
                    >= state.interfaces.len(),
            },
    {
        match &self.parser {
            Some(parser) => parser.packet_interface(packet),
            None => None,
        }
    }

    /// Consumes the [`Self`], returning the bytes that were read from the
    /// source and not parsed.
    pub fn into_inner(self) -> (r: Vec<u8>)
        ensures
            r@ == self@.unread,
    {
        self.reader.into_inner()
    }
}

/// What a reader yields does not depend on how the source was cut into
/// pieces: a reader that holds the start of a stream, however little of it,
/// and does not ask for more yields the block that the pull parser yields on
/// the whole stream, comes to the same state and leaves the same bytes; and
/// where it fails, but for a source that ended too early, the parser fails
/// for the same reason.
pub proof fn lemma_reading_is_parsing(v: PcapNgReaderView, rest: Seq<u8>)
    requires
        v.state is Some,
        v.unread.len() > 0,
    ensures
        ({
            let state = v.state.unwrap();
            let (outcome, after) = block_step(v);
            let whole = next_block_of(state, v.unread + rest);
            match outcome {
                Outcome::Ready(block) => whole matches Ok((b, next, n)) && b == block && after.state
                    == Some(next) && after.unread + rest == (v.unread + rest).subrange(
                    n,
                    (v.unread + rest).len() as int,
                ),
                Outcome::Failed(k) => (k == ErrorKind::UnexpectedEof && v.ended) || whole == Err::<
                    (BlockView, PcapNgStateView, int),
                    ErrorKind,
                >(k),
                Outcome::Refill => !v.ended && after == v,
                Outcome::Finished => false,
            }
        }),
{
    let state = v.state.unwrap();
    let part = next_block_of(state, v.unread);
    if part != Err::<(BlockView, PcapNgStateView, int), ErrorKind>(ErrorKind::IncompleteBuffer) {
        lemma_next_block_prefix(state, v.unread, rest);
        if part is Ok {
            let n = part.unwrap().2;
            lemma_block_length(state, v.unread);
            assert(v.unread.subrange(n, v.unread.len() as int) + rest =~= (v.unread + rest).subrange(
                n,
                (v.unread + rest).len() as int,
            ));
        }
    }
}

/// A block that was parsed lies within the bytes it was parsed from.
pub proof fn lemma_block_length(state: PcapNgStateView, s: Seq<u8>)
    requires
        next_block_of(state, s) is Ok,
    ensures
        12 <= next_block_of(state, s).unwrap().2 <= s.len(),
{
    crate::pcapng::blocks::block_common::lemma_raw_block_lengths(state.section.endianness, s);
}

/// How the reading of a stream ends.
pub enum Ending {
    /// Every byte of the source was parsed.
    Finished,
    /// A block was invalid, or the source ended within one.
    Failed(ErrorKind),
}

/// The pieces `chunks` one after the other.
pub open spec fn joined(chunks: Seq<Seq<u8>>) -> Seq<u8>
    decreases chunks.len(),
{
    if chunks.len() == 0 {
        Seq::empty()
    } else {
        chunks[0] + joined(chunks.drop_first())
    }
}

/// The reader `v` after a read from the source returned `data`.
pub open spec fn fed(v: PcapNgReaderView, data: Seq<u8>) -> PcapNgReaderView {
    PcapNgReaderView {
        state: v.state,
        unread: v.unread + data,
        ended: v.ended || data.len() == 0,
    }
}

/// The blocks that the pull parser yields on the bytes `s`, all of them at
/// hand, from the state `state` on, and how it ends: with the bytes, or with
/// the first block that is invalid or cut short.
pub open spec fn blocks_parsed(state: PcapNgStateView, s: Seq<u8>) -> (Seq<BlockView>, Ending)
    decreases s.len(),
{
    if s.len() == 0 {
        (Seq::empty(), Ending::Finished)
    } else {
        match next_block_of(state, s) {
            Err(k) => (
                Seq::empty(),
                Ending::Failed(
                    if k == ErrorKind::IncompleteBuffer {
                        ErrorKind::UnexpectedEof
                    } else {
                        k
                    },
                ),
            ),
            Ok((block, next, n)) => if 0 < n <= s.len() {
                let (rest, end) = blocks_parsed(next, s.subrange(n, s.len() as int));
                (seq![block] + rest, end)
            } else {
                (Seq::empty(), Ending::Failed(ErrorKind::InvalidField))
            },
        }
    }
}

/// The blocks that the reader `v` yields, and how it ends, when every
/// request for more bytes is answered with the next of the pieces `chunks`,
/// and with the end of the source once they are used up.
pub open spec fn blocks_read(v: PcapNgReaderView, chunks: Seq<Seq<u8>>) -> (Seq<BlockView>, Ending)
    decreases chunks.len(), (if v.ended {
        0nat
    } else {
        1nat
    }), v.unread.len(),
{
    let (outcome, w) = block_step(v);
    match outcome {
        Outcome::Ready(block) => if w.unread.len() < v.unread.len() && w.ended == v.ended {
            let (rest, end) = blocks_read(w, chunks);
            (seq![block] + rest, end)
        } else {
            (Seq::empty(), Ending::Failed(ErrorKind::InvalidField))
        },
        Outcome::Failed(k) => (Seq::empty(), Ending::Failed(k)),
        Outcome::Finished => (Seq::empty(), Ending::Finished),
        Outcome::Refill => if chunks.len() > 0 {
            blocks_read(fed(w, chunks[0]), chunks.drop_first())
        } else if !v.ended && !w.ended {
            blocks_read(fed(w, Seq::empty()), chunks)
        } else {
            (Seq::empty(), Ending::Failed(ErrorKind::UnexpectedEof))
        },
    }
}

/// A reader whose source has ended reads what the pull parser parses: the
/// same blocks from the bytes that are left, and the same end.
pub proof fn lemma_read_to_the_end(v: PcapNgReaderView)
    requires
        v.state is Some,
        v.ended,
    ensures
        blocks_read(v, Seq::empty()) == blocks_parsed(v.state.unwrap(), v.unread),
    decreases v.unread.len(),
{
    let state = v.state.unwrap();
    if v.unread.len() > 0 && next_block_of(state, v.unread) is Ok {
        let (_, next, n) = next_block_of(state, v.unread).unwrap();
        lemma_block_length(state, v.unread);
        let w = block_step(v).1;
        lemma_read_to_the_end(w);
    }
}

/// The reader yields the blocks that the pull parser yields on the whole
/// stream, and ends as it ends, however the stream is cut into pieces: for
/// every reader that has read its section header and whose source goes on,
/// and all pieces in which the rest of the source may come, none of them
/// empty.
pub proof fn lemma_refill_equivalence(v: PcapNgReaderView, chunks: Seq<Seq<u8>>)
    requires
        v.state is Some,
        !v.ended,
        forall|i: int| 0 <= i < chunks.len() ==> (#[trigger] chunks[i]).len() > 0,
    ensures
        blocks_read(v, chunks) == blocks_parsed(v.state.unwrap(), v.unread + joined(chunks)),
    decreases chunks.len(), v.unread.len(),
{
    let state = v.state.unwrap();
    let rest = joined(chunks);
    let whole = v.unread + rest;
    let (outcome, w) = block_step(v);
    let refill = v.unread.len() == 0 || next_block_of(state, v.unread) == Err::<
        (BlockView, PcapNgStateView, int),
        ErrorKind,
    >(ErrorKind::IncompleteBuffer);
    if refill {
        assert(outcome is Refill && w == v);
        if chunks.len() > 0 {
            let later = chunks.drop_first();
            assert forall|i: int| 0 <= i < later.len() implies (#[trigger] later[i]).len() > 0 by {
                assert(later[i] == chunks[i + 1]);
            }
            lemma_refill_equivalence(fed(v, chunks[0]), later);
            assert((v.unread + chunks[0]) + joined(later) =~= whole);
            assert(blocks_read(v, chunks) == blocks_read(fed(v, chunks[0]), later));
        } else {
            assert(rest =~= Seq::<u8>::empty());
            assert(whole =~= v.unread);
            lemma_read_to_the_end(fed(v, Seq::empty()));
            assert(fed(v, Seq::empty()).unread =~= v.unread);
            assert(blocks_read(v, chunks) == blocks_read(fed(v, Seq::empty()), chunks));
            assert(chunks =~= Seq::<Seq<u8>>::empty());
        }
    } else {
        lemma_next_block_prefix(state, v.unread, rest);
        assert(whole.len() > 0);
        if next_block_of(state, v.unread) is Ok {
            let (block, next, n) = next_block_of(state, v.unread).unwrap();
            lemma_block_length(state, v.unread);
            lemma_refill_equivalence(w, chunks);
            assert(w.unread + rest =~= whole.subrange(n, whole.len() as int));
            assert(blocks_read(v, chunks).0 == seq![block] + blocks_read(w, chunks).0);
            assert(blocks_parsed(state, whole).0 == seq![block] + blocks_parsed(
                next,
                whole.subrange(n, whole.len() as int),
            ).0);
        } else {
            assert(blocks_read(v, chunks).0 =~= Seq::<BlockView>::empty());
            assert(blocks_parsed(state, whole).0 =~= Seq::<BlockView>::empty());
        }
    }
}

} // verus!
