//! The reader of the Pcap format: the library holds the bytes read ahead.
//!
//! The reader does not read: the owner of the source does, and hands what
//! a read returned to `fill_buf`. Each call of `next_packet` then tells
//! whether a packet is there, whether more bytes are needed, or that the
//! source is used up.

use vstd::prelude::*;

use crate::pcap::errors::PcapError;
use crate::pcap::header::{header_of, PcapHeader};
use crate::pcap::packet::{
    lemma_packet_prefix, packet_of, raw_packet_of, Packet, PacketView, RawPcapPacket,
    RawPcapPacketView,
};
use crate::pcap::parser::PcapParser;
use crate::read_buffer::{poll_view, Poll, ReadBuffer};

verus! {

/// What a `PcapReader` stands for.
pub struct PcapReaderView {
    /// The file header, once it was read.
    pub header: Option<PcapHeader>,
    /// The bytes that were read from the source and not yet parsed.
    pub unread: Seq<u8>,
    /// Whether the source has reported its end.
    pub ended: bool,
}

/// Reads a Pcap from a source that is handed over piece by piece.
#[derive(Debug)]
pub struct PcapReader {
    parser: Option<PcapParser>,
    reader: ReadBuffer,
}

impl View for PcapReader {
    type V = PcapReaderView;

    closed spec fn view(&self) -> PcapReaderView {
        PcapReaderView {
            header: match self.parser {
                Some(p) => Some(p@),
                None => None,
            },
            unread: self.reader@.unread,
            ended: self.reader@.ended,
        }
    }
}

/// What an attempt to parse makes of its outcome `parsed` on the bytes
/// `unread`: the item and the bytes behind it; a request for more bytes where
/// the item is incomplete and the source goes on; `UnexpectedEof` where it is
/// incomplete and the source has ended; else the parser's error, with the
/// bytes left as they are.
pub open spec fn attempt<T>(unread: Seq<u8>, ended: bool, parsed: Result<(T, int), PcapError>) -> (
    Poll<T, PcapError>,
    Seq<u8>,
) {
    match parsed {
        Ok((v, n)) => (Poll::Ready(v), unread.subrange(n, unread.len() as int)),
        Err(PcapError::IncompleteBuffer(_, _)) => if ended {
            (Poll::Failed(PcapError::UnexpectedEof), unread)
        } else {
            (Poll::Refill, unread)
        },
        Err(e) => (Poll::Failed(e), unread),
    }
}

/// The outcome of reading the file header in the state `v`, and the state
/// after it. A header that was read before is given again.
pub open spec fn header_step(v: PcapReaderView) -> (Poll<PcapHeader, PcapError>, PcapReaderView) {
    match v.header {
        Some(h) => (Poll::Ready(h), v),
        None => {
            let (p, rest) = attempt(v.unread, v.ended, header_of(v.unread));
            match p {
                Poll::Ready(h) => (p, PcapReaderView { header: Some(h), unread: rest, ended: v.ended }),
                _ => (p, v),
            }
        },
    }
}

/// The outcome of reading the next packet in the state `v`, and the state
/// after it: the file header is read first where it was not yet; then the
/// end is told where no byte is left and the source has ended, more bytes
/// are asked for where none is left and it goes on, and else the bytes are
/// parsed as the pull parser parses them.
pub open spec fn packet_step(v: PcapReaderView) -> (Poll<PacketView, PcapError>, PcapReaderView) {
    let (started, w) = header_step(v);
    match started {
        Poll::Ready(h) => if w.unread.len() == 0 {
            if w.ended {
                (Poll::Finished, w)
            } else {
                (Poll::Refill, w)
            }
        } else {
            let (p, rest) = attempt(
                w.unread,
                w.ended,
                packet_of(h.endianness, h, w.unread, h.ts_resolution),
            );
            (p, PcapReaderView { unread: rest, ..w })
        },
        Poll::Failed(e) => (Poll::Failed(e), w),
        _ => (Poll::Refill, w),
    }
}

/// As `packet_step`, for a record that is not checked.
pub open spec fn raw_packet_step(v: PcapReaderView) -> (
    Poll<RawPcapPacketView, PcapError>,
    PcapReaderView,
) {
    let (started, w) = header_step(v);
    match started {
        Poll::Ready(h) => if w.unread.len() == 0 {
            if w.ended {
                (Poll::Finished, w)
            } else {
                (Poll::Refill, w)
            }
        } else {
            let (p, rest) = attempt(w.unread, w.ended, raw_packet_of(h.endianness, w.unread));
            (p, PcapReaderView { unread: rest, ..w })
        },
        Poll::Failed(e) => (Poll::Failed(e), w),
        _ => (Poll::Refill, w),
    }
}

impl PcapReader {
    /// Create a new PcapReader that has read nothing yet.
    pub fn new() -> (r: PcapReader)
        ensures
            r@ == (PcapReaderView { header: None, unread: Seq::empty(), ended: false }),
    {
        PcapReader { parser: None, reader: ReadBuffer::new() }
    }

    /// Takes over what a read from the source returned; an empty `data`
    /// marks the end of the source. Returns the number of bytes taken.
    pub fn fill_buf(&mut self, data: &[u8]) -> (r: usize)
        ensures
            final(self)@ == (PcapReaderView {
                unread: old(self)@.unread + data@,
                ended: old(self)@.ended || data@.len() == 0,
                ..old(self)@
            }),
            r == data@.len(),
    {
        self.reader.fill_buf(data)
    }

    /// Reads the file header, which comes first in the source. Once it was
    /// read it is given again without reading.
    pub fn read_header(&mut self) -> (r: Poll<PcapHeader, PcapError>)
        ensures
            r == header_step(old(self)@).0,
            final(self)@ == header_step(old(self)@).1,
    {
        if let Some(p) = &self.parser {
            return Poll::Ready(p.header());
        }
        let unread = self.reader.buffer();
        let outcome = match PcapParser::new(unread) {
            Ok((rest, parser)) => Ok((unread.len() - rest.len(), parser)),
            Err(e) => Err(e),
        };
        match outcome {
            Ok((taken, parser)) => {
                let header = parser.header();
                self.reader.consume(taken);
                self.parser = Some(parser);
                Poll::Ready(header)
            },
            Err(PcapError::IncompleteBuffer(_, _)) => {
                if self.reader.is_ended() {
                    Poll::Failed(PcapError::UnexpectedEof)
                } else {
                    Poll::Refill
                }
            },
            Err(e) => Poll::Failed(e),
        }
    }

    /// Returns the next `Packet`.
    pub fn next_packet(&mut self) -> (r: Poll<Packet, PcapError>)
        ensures
            poll_view(r) == packet_step(old(self)@).0,
            final(self)@ == packet_step(old(self)@).1,
    {
        match self.read_header() {
            Poll::Ready(_) => {},
            Poll::Failed(e) => { return Poll::Failed(e); },
            _ => { return Poll::Refill; },
        }
        if self.reader.is_empty() {
            return if self.reader.is_ended() {
                Poll::Finished
            } else {
                Poll::Refill
            };
        }
        let parser = match &self.parser {
            Some(p) => p,
            None => { return Poll::Refill; },
        };
        let unread = self.reader.buffer();
        let outcome = match parser.next_packet(unread) {
            Ok((rest, packet)) => Ok((unread.len() - rest.len(), packet)),
            Err(e) => Err(e),
        };
        match outcome {
            Ok((taken, packet)) => {
                self.reader.consume(taken);
                Poll::Ready(packet)
            },
            Err(PcapError::IncompleteBuffer(_, _)) => {
                if self.reader.is_ended() {
                    Poll::Failed(PcapError::UnexpectedEof)
                } else {
                    Poll::Refill
                }
            },
            Err(e) => Poll::Failed(e),
        }
    }

    /// Returns the next `RawPcapPacket`.
    pub fn next_raw_packet(&mut self) -> (r: Poll<RawPcapPacket, PcapError>)
        ensures
            poll_view(r) == raw_packet_step(old(self)@).0,
            final(self)@ == raw_packet_step(old(self)@).1,
    {
        match self.read_header() {
            Poll::Ready(_) => {},
            Poll::Failed(e) => { return Poll::Failed(e); },
            _ => { return Poll::Refill; },
        }
        if self.reader.is_empty() {
            return if self.reader.is_ended() {
                Poll::Finished
            } else {
                Poll::Refill
            };
        }
        let parser = match &self.parser {
            Some(p) => p,
            None => { return Poll::Refill; },
        };
        let unread = self.reader.buffer();
        let outcome = match parser.next_raw_packet(unread) {
            Ok((rest, packet)) => Ok((unread.len() - rest.len(), packet)),
            Err(e) => Err(e),
        };
        match outcome {
            Ok((taken, packet)) => {
                self.reader.consume(taken);
                Poll::Ready(packet)
            },
            Err(PcapError::IncompleteBuffer(_, _)) => {
                if self.reader.is_ended() {
                    Poll::Failed(PcapError::UnexpectedEof)
                } else {
                    Poll::Refill
                }
            },
            Err(e) => Poll::Failed(e),
        }
    }

    /// Returns the file header, once it was read.
    pub fn header(&self) -> (r: Option<PcapHeader>)
        ensures
            r == self@.header,
    {
        match &self.parser {
            Some(p) => Some(p.header()),
            None => None,
        }
    }

    /// Consumes the `PcapReader`, returning the bytes that were read from
    /// the source and not parsed.
    pub fn into_reader(self) -> (r: Vec<u8>)
        ensures
            r@ == self@.unread,
    {
        self.reader.into_inner()
    }
}

/// What a reader yields does not depend on how the source was cut into
/// pieces: a reader that holds the start of the records, however little of
/// them, and does not ask for more yields the packet that the pull parser
/// yields on all of them and leaves the same bytes; and where it fails, but
/// for a source that ended too early, the parser fails for the same reason.
pub proof fn lemma_reading_is_parsing(v: PcapReaderView, rest: Seq<u8>)
    requires
        v.header is Some,
        v.unread.len() > 0,
    ensures
        ({
            let h = v.header.unwrap();
            let (outcome, after) = packet_step(v);
            let whole = packet_of(h.endianness, h, v.unread + rest, h.ts_resolution);
            match outcome {
                Poll::Ready(p) => whole matches Ok((q, n)) && q == p && after.header == v.header
                    && after.unread + rest == (v.unread + rest).subrange(
                    n,
                    (v.unread + rest).len() as int,
                ),
                Poll::Failed(err) => (err == PcapError::UnexpectedEof && v.ended) || whole == Err::<
                    (PacketView, int),
                    PcapError,
                >(err),
                Poll::Refill => !v.ended && after == v,
                Poll::Finished => false,
            }
        }),
{
    let h = v.header.unwrap();
    let part = packet_of(h.endianness, h, v.unread, h.ts_resolution);
    if !(part matches Err(PcapError::IncompleteBuffer(_, _))) {
        lemma_packet_prefix(h.endianness, h, v.unread, h.ts_resolution, rest);
        if part is Ok {
            let n = part.unwrap().1;
            assert(v.unread.subrange(n, v.unread.len() as int) + rest =~= (v.unread + rest).subrange(
                n,
                (v.unread + rest).len() as int,
            ));
        }
    }
}

/// How the reading of a file ends.
pub enum Ending {
    /// Every byte of the source was parsed.
    Finished,
    /// A record was invalid, or the source ended within one.
    Failed(PcapError),
}

/// The pieces `chunks` one after the other.
pub open spec fn joined(chunks: Seq<Seq<u8>>) -> Seq<u8>
    decreases chunks.len(),
{
    if chunks.len() == 0 {
        Seq::empty()
    } else {
        chunks[0] + joined(chunks.drop_first())
    }
}

/// The reader `v` after a read from the source returned `data`.
pub open spec fn fed(v: PcapReaderView, data: Seq<u8>) -> PcapReaderView {
    PcapReaderView {
        header: v.header,
        unread: v.unread + data,
        ended: v.ended || data.len() == 0,
    }
}

/// The packets that the pull parser yields on the bytes `s`, all of them at
/// hand, in a file with the header `h`, and how it ends: with the bytes, or
/// with the first record that is invalid or cut short.
pub open spec fn packets_parsed(h: PcapHeader, s: Seq<u8>) -> (Seq<PacketView>, Ending)
    decreases s.len(),
{
    if s.len() == 0 {
        (Seq::empty(), Ending::Finished)
    } else {
        match packet_of(h.endianness, h, s, h.ts_resolution) {
            Err(PcapError::IncompleteBuffer(_, _)) => (
                Seq::empty(),
                Ending::Failed(PcapError::UnexpectedEof),
            ),
            Err(err) => (Seq::empty(), Ending::Failed(err)),
            Ok((packet, n)) => if 0 < n <= s.len() {
                let (rest, end) = packets_parsed(h, s.subrange(n, s.len() as int));
                (seq![packet] + rest, end)
            } else {
                (Seq::empty(), Ending::Failed(PcapError::UnexpectedEof))
            },
        }
    }
}

/// The packets that the reader `v` yields, and how it ends, when every
/// request for more bytes is answered with the next of the pieces `chunks`,
/// and with the end of the source once they are used up.
pub open spec fn packets_read(v: PcapReaderView, chunks: Seq<Seq<u8>>) -> (Seq<PacketView>, Ending)
    decreases chunks.len(), (if v.ended {
        0nat
    } else {
        1nat
    }), v.unread.len(),
{
    let (outcome, w) = packet_step(v);
    match outcome {
        Poll::Ready(packet) => if w.unread.len() < v.unread.len() && w.ended == v.ended {
            let (rest, end) = packets_read(w, chunks);
            (seq![packet] + rest, end)
        } else {
            (Seq::empty(), Ending::Failed(PcapError::UnexpectedEof))
        },
        Poll::Failed(err) => (Seq::empty(), Ending::Failed(err)),
        Poll::Finished => (Seq::empty(), Ending::Finished),
        Poll::Refill => if chunks.len() > 0 {
            packets_read(fed(w, chunks[0]), chunks.drop_first())
        } else if !v.ended && !w.ended {
            packets_read(fed(w, Seq::empty()), chunks)
        } else {
            (Seq::empty(), Ending::Failed(PcapError::UnexpectedEof))
        },
    }
}

/// A reader whose source has ended reads what the pull parser parses: the
/// same packets from the bytes that are left, and the same end.
pub proof fn lemma_read_to_the_end(v: PcapReaderView)
    requires
        v.header is Some,
        v.ended,
    ensures
        packets_read(v, Seq::empty()) == packets_parsed(v.header.unwrap(), v.unread),
    decreases v.unread.len(),
{
    let h = v.header.unwrap();
    if v.unread.len() > 0 && packet_of(h.endianness, h, v.unread, h.ts_resolution) is Ok {
        let w = packet_step(v).1;
        lemma_read_to_the_end(w);
    }
}

/// The reader yields the packets that the pull parser yields on all the
/// records, and ends as it ends, however the records are cut into pieces:
/// for every reader that has read the file header and whose source goes on,
/// and all pieces in which the rest of the source may come, none of them
/// empty.
pub proof fn lemma_refill_equivalence(v: PcapReaderView, chunks: Seq<Seq<u8>>)
    requires
        v.header is Some,
        !v.ended,
        forall|i: int| 0 <= i < chunks.len() ==> (#[trigger] chunks[i]).len() > 0,
    ensures
        packets_read(v, chunks) == packets_parsed(v.header.unwrap(), v.unread + joined(chunks)),
    decreases chunks.len(), v.unread.len(),
{
    let h = v.header.unwrap();
    let rest = joined(chunks);
    let whole = v.unread + rest;
    let (outcome, w) = packet_step(v);
    let part = packet_of(h.endianness, h, v.unread, h.ts_resolution);
    let refill = v.unread.len() == 0 || part matches Err(PcapError::IncompleteBuffer(_, _));
    if refill {
        assert(outcome is Refill && w == v);
        if chunks.len() > 0 {
            let later = chunks.drop_first();
            assert forall|i: int| 0 <= i < later.len() implies (#[trigger] later[i]).len() > 0 by {
                assert(later[i] == chunks[i + 1]);
            }
            lemma_refill_equivalence(fed(v, chunks[0]), later);
            assert((v.unread + chunks[0]) + joined(later) =~= whole);
            assert(packets_read(v, chunks) == packets_read(fed(v, chunks[0]), later));
        } else {
            assert(rest =~= Seq::<u8>::empty());
            assert(whole =~= v.unread);
            lemma_read_to_the_end(fed(v, Seq::empty()));
            assert(fed(v, Seq::empty()).unread =~= v.unread);
            assert(packets_read(v, chunks) == packets_read(fed(v, Seq::empty()), chunks));
            assert(chunks =~= Seq::<Seq<u8>>::empty());
        }
    } else {
        lemma_packet_prefix(h.endianness, h, v.unread, h.ts_resolution, rest);
        assert(whole.len() > 0);
        if part is Ok {
            let (packet, n) = part.unwrap();
            lemma_refill_equivalence(w, chunks);
            assert(w.unread + rest =~= whole.subrange(n, whole.len() as int));
            assert(packets_read(v, chunks).0 == seq![packet] + packets_read(w, chunks).0);
            assert(packets_parsed(h, whole).0 == seq![packet] + packets_parsed(
                h,
                whole.subrange(n, whole.len() as int),
            ).0);
        } else {
            assert(packets_read(v, chunks).0 =~= Seq::<PacketView>::empty());
            assert(packets_parsed(h, whole).0 =~= Seq::<PacketView>::empty());
        }
    }
}

} // verus!
