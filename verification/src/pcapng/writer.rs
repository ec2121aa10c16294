//! The writer of the PcapNg format.

use vstd::prelude::*;

use crate::codec::write_bytes;
use crate::common::Endianness;
use crate::errors::{ErrorKind, PcapError};
use crate::pcap::writer::native_endianness;
use crate::pcapng::blocks::block_common::{
    block_body, block_bytes, block_of_bytes, lemma_block_round_trip, raw_block_bytes,
    raw_block_of, Block, BlockView, PcapNgBlock, RawBlock, ENHANCED_PACKET_BLOCK,
    INTERFACE_STATISTIC_BLOCK,
};
use crate::pcapng::parser::{next_block_of, start_of};
use crate::pcapng::blocks::interface_description::InterfaceDescriptionBlock;
use crate::pcapng::blocks::opt_common::views;
use crate::pcapng::blocks::section_header::{default_section, SectionHeaderBlock};
use crate::pcapng::state::{
    consistent, initial_state, lemma_consistent_clocks_tick, lemma_updated_is_consistent,
    updated, updated_raw, PcapNgState, PcapNgStateView,
};

verus! {

/// What a `PcapNgWriter` stands for.
pub struct PcapNgWriterView {
    /// Current state of the pcapng format.
    pub state: PcapNgStateView,
    /// Every byte written so far.
    pub written: Seq<u8>,
}

/// Write a PcapNg to a sink of bytes.
///
/// The section header goes out when the writer is made. Every block that is
/// written tells the state what it has to tell, as it would tell a reader,
/// and is written in the byte order of the section and on the clocks of its
/// interfaces.
#[derive(Debug)]
pub struct PcapNgWriter {
    /// Current state of the pcapng format.
    state: PcapNgState,
    /// Sink to which the blocks are written.
    writer: Vec<u8>,
}

impl View for PcapNgWriter {
    type V = PcapNgWriterView;

    closed spec fn view(&self) -> PcapNgWriterView {
        PcapNgWriterView { state: self.state@, written: self.writer@ }
    }
}

/// The interface that the block `block` speaks of and that the table must
/// hold before the block is written, if it is a block of such a type.
pub open spec fn interface_of(block: BlockView) -> Option<u32> {
    match block {
        BlockView::EnhancedPacket(b) => Some(b.interface_id),
        BlockView::InterfaceStatistics(b) => Some(b.interface_id),
        _ => None,
    }
}

/// What writing the block `block` makes of a writer that stands at `v`: the
/// writer after it, and the number of bytes written or the kind of the
/// error. A packet or statistics of an interface that is not in the table
/// is refused with `InvalidInterfaceId`, and an interface whose resolution is
/// invalid with `InvalidTsResolution`. Else the block is written, in the
/// byte order of the section and on the clocks of its interfaces, and tells
/// the state what it has to tell. Where it is refused or cannot be written
/// the writer is left as it was.
pub open spec fn block_written(v: PcapNgWriterView, block: BlockView) -> (
    PcapNgWriterView,
    Result<int, ErrorKind>,
) {
    if interface_of(block) is Some && interface_of(block).unwrap() >= v.state.interfaces.len() {
        (v, Err(ErrorKind::InvalidInterfaceId(interface_of(block).unwrap())))
    } else {
        match updated(v.state, block) {
            Err(k) => (v, Err(k)),
            Ok(state) => match block_bytes(block, v.state.section.endianness, v.state.clocks) {
                Err(k) => (v, Err(k)),
                Ok(bytes) => (
                    PcapNgWriterView { state, written: v.written + bytes },
                    Ok(bytes.len() as int),
                ),
            },
        }
    }
}

impl PcapNgWriter {
    /// Create a new [`PcapNgWriter`] on `writer`, in the byte order of the
    /// machine, and writes the default section header in that order.
    pub fn new(writer: Vec<u8>) -> (r: Result<PcapNgWriter, PcapError>)
        ensures
            r matches Ok(w) && exists|e: Endianness| #[trigger]
                block_written(
                    PcapNgWriterView { state: initial_state(), written: writer@ },
                    BlockView::SectionHeader(default_section(e)),
                ) == (w@, Ok::<int, ErrorKind>(w@.written.len() - writer@.len())),
    {
        PcapNgWriter::with_endianness(writer, native_endianness())
    }

    /// Create a new [`PcapNgWriter`] on `writer` with the given endianness,
    /// and writes the default section header in that order.
    pub fn with_endianness(writer: Vec<u8>, endianness: Endianness) -> (r: Result<
        PcapNgWriter,
        PcapError,
    >)
        ensures
            match (
                r,
                block_written(
                    PcapNgWriterView { state: initial_state(), written: writer@ },
                    BlockView::SectionHeader(default_section(endianness)),
                ),
            ) {
                (Ok(w), (v, Ok(n))) => w@ == v && consistent(w@.state),
                (Err(err), (v, Err(k))) => err@ == k,
                _ => false,
            },
            r is Ok,
    {
        let section = SectionHeaderBlock::with_endianness(endianness);
        proof {
            lemma_default_section_is_written(endianness);
        }
        PcapNgWriter::with_section_header(writer, section)
    }

    /// Create a new [`PcapNgWriter`] on `writer` with the given section
    /// header, and writes it.
    pub fn with_section_header(writer: Vec<u8>, section: SectionHeaderBlock) -> (r: Result<
        PcapNgWriter,
        PcapError,
    >)
        ensures
            match (
                r,
                block_written(
                    PcapNgWriterView { state: initial_state(), written: writer@ },
                    BlockView::SectionHeader(section@),
                ),
            ) {
                (Ok(w), (v, Ok(n))) => w@ == v && consistent(w@.state),
                (Err(err), (v, Err(k))) => err@ == k,
                _ => false,
            },
    {
        let mut out = PcapNgWriter { state: PcapNgState::default(), writer };
        let block = section.into_block();
        match out.write_block(&block) {
            Ok(_) => Ok(out),
            Err(err) => Err(err),
        }
    }

    /// Write a [`Block`].
    pub fn write_block(&mut self, block: &Block) -> (r: Result<usize, PcapError>)
        ensures
            final(self)@ == block_written(old(self)@, block@).0,
            match (r, block_written(old(self)@, block@).1) {
                (Ok(n), Ok(m)) => n == m,
                (Err(err), Err(k)) => err@ == k,
                _ => false,
            },
            consistent(old(self)@.state) ==> consistent(final(self)@.state),
    {
        match block {
            Block::InterfaceStatistics(blk) => {
                if blk.interface_id as usize >= self.state.interfaces().len() {
                    return Err(PcapError::InvalidInterfaceId(blk.interface_id));
                }
            },
            Block::EnhancedPacket(blk) => {
                if blk.interface_id as usize >= self.state.interfaces().len() {
                    return Err(PcapError::InvalidInterfaceId(blk.interface_id));
                }
            },
            _ => (),
        }
        if let Block::InterfaceDescription(blk) = block {
            match blk.clock() {
                Ok(_) => {},
                Err(err) => { return Err(err); },
            }
        }
        let endianness = self.state.section().endianness;
        let mut bytes: Vec<u8> = Vec::new();
        let written = match block.write_to(endianness, &self.state, &mut bytes) {
            Ok(n) => n,
            Err(err) => { return Err(err); },
        };
        match self.state.update_for_block(block) {
            Ok(()) => {},
            Err(err) => { return Err(err); },
        }
        write_bytes(&mut self.writer, bytes.as_slice());
        Ok(written)
    }

    /// Write a [`PcapNgBlock`].
    pub fn write_pcapng_block<B: PcapNgBlock>(&mut self, block: B) -> (r: Result<usize, PcapError>)
        ensures
            final(self)@ == block_written(old(self)@, B::block_of(block@)).0,
            match (r, block_written(old(self)@, B::block_of(block@)).1) {
                (Ok(n), Ok(m)) => n == m,
                (Err(err), Err(k)) => err@ == k,
                _ => false,
            },
            consistent(old(self)@.state) ==> consistent(final(self)@.state),
    {
        let block = block.into_block();
        self.write_block(&block)
    }

    /// Write a [`RawBlock`].
    ///
    /// Doesn't check the validity of the written blocks: the block is
    /// written as it stands, in the byte order of the section, and then
    /// tells the state what it has to tell, if it can.
    pub fn write_raw_block(&mut self, block: &RawBlock) -> (r: Result<usize, PcapError>)
        ensures
            final(self)@.written == old(self)@.written + raw_block_bytes(
                old(self)@.state.section.endianness,
                block@,
            ),
            match (r, updated_raw(old(self)@.state, old(self)@.state.section.endianness, block@)) {
                (Ok(n), Ok(v)) => final(self)@.state == v && n == raw_block_bytes(
                    old(self)@.state.section.endianness,
                    block@,
                ).len(),
                (Err(err), Err(k)) => err@ == k && final(self)@.state == old(self)@.state,
                _ => false,
            },
            consistent(old(self)@.state) ==> consistent(final(self)@.state),
    {
        let endianness = self.state.section().endianness;
        let written = block.write_to(endianness, &mut self.writer);
        match self.state.update_for_raw_block(endianness, block) {
            Ok(()) => Ok(written),
            Err(err) => Err(err),
        }
    }

    /// Consume [`self`], returning the bytes written.
    pub fn into_inner(self) -> (r: Vec<u8>)
        ensures
            r@ == self@.written,
    {
        self.writer
    }

    /// Get a reference to the bytes written.
    pub fn get_ref(&self) -> (r: &Vec<u8>)
        ensures
            r@ == self@.written,
    {
        &self.writer
    }

    /// Hands out the bytes written so far and starts anew with none: for an
    /// owner that passes them on as they come.
    pub fn take_written(&mut self) -> (r: Vec<u8>)
        ensures
            r@ == old(self)@.written,
            final(self)@ == (PcapNgWriterView { state: old(self)@.state, written: Seq::empty() }),
    {
        let mut out: Vec<u8> = Vec::new();
        std::mem::swap(&mut out, &mut self.writer);
        out
    }

    /// Access the current [`PcapNgState`].
    pub fn state(&self) -> (r: &PcapNgState)
        ensures
            r@ == self@.state,
    {
        &self.state
    }

    /// Return the current [`SectionHeaderBlock`].
    pub fn section(&self) -> (r: &SectionHeaderBlock)
        ensures
            r@ == self@.state.section,
    {
        self.state.section()
    }

    /// Return all the current [`InterfaceDescriptionBlock`].
    pub fn interfaces(&self) -> (r: &Vec<InterfaceDescriptionBlock>)
        ensures
            views(r@) == self@.state.interfaces,
    {
        self.state.interfaces()
    }
}

/// A packet or statistics of an interface that is not in the table is
/// refused by the writer with `InvalidInterfaceId`, and nothing is written.
pub proof fn lemma_writer_refuses_unknown_interface(v: PcapNgWriterView, block: BlockView)
    requires
        interface_of(block) matches Some(id) && id >= v.state.interfaces.len(),
    ensures
        block_written(v, block) == (
            v,
            Err::<int, ErrorKind>(ErrorKind::InvalidInterfaceId(interface_of(block).unwrap())),
        ),
{
}

/// A writer writes what a parser has read, and a parser reads from what was
/// written what it had read: where a parser in the state `v` reads a block
/// from the bytes `s`, a writer in that state that can write the block
/// comes to the state to which the parser came, and a parser in the state `v`
/// reads the same block from what the writer wrote, whatever follows it,
/// and comes to the same state again.
pub proof fn lemma_written_block_is_read_back(
    v: PcapNgStateView,
    s: Seq<u8>,
    written: Seq<u8>,
    tail: Seq<u8>,
)
    requires
        consistent(v),
        next_block_of(v, s) is Ok,
    ensures
        ({
            let (block, state, _) = next_block_of(v, s).unwrap();
            let before = PcapNgWriterView { state: v, written };
            let (after, outcome) = block_written(before, block);
            let order = v.section.endianness;
            &&& outcome is Ok <==> block_bytes(block, order, v.clocks) is Ok
            &&& outcome is Err ==> after == before
            &&& outcome is Ok ==> {
                let bytes = block_bytes(block, order, v.clocks).unwrap();
                &&& after == (PcapNgWriterView { state, written: written + bytes })
                &&& next_block_of(v, bytes + tail) == Ok::<
                    (BlockView, PcapNgStateView, int),
                    ErrorKind,
                >((block, state, bytes.len() as int))
            }
            &&& !(block is NameResolution) ==> block_body(block, order, v.clocks) is Ok && (outcome is Ok
                <==> block_body(block, order, v.clocks).unwrap().len() + 12 <= u32::MAX)
        }),
{
    lemma_consistent_clocks_tick(v);
    let order = v.section.endianness;
    lemma_block_round_trip(order, order, v.clocks, s, tail);
    let block = block_of_bytes(order, v.clocks, s).unwrap().0;
    let raw = raw_block_of(order, s).unwrap().0;
    if raw.type_ == ENHANCED_PACKET_BLOCK {
        assert(interface_of(block).unwrap() < v.clocks.len());
    }
    if raw.type_ == INTERFACE_STATISTIC_BLOCK {
        assert(interface_of(block).unwrap() < v.clocks.len());
    }
}

/// The blocks of a stream: those of the bytes `s`, where `s` is whole valid
/// blocks from its first byte to its last, read from the state `v` on.
pub open spec fn blocks_of(v: PcapNgStateView, s: Seq<u8>) -> Option<Seq<BlockView>>
    decreases s.len(),
{
    if s.len() == 0 {
        Some(Seq::empty())
    } else {
        match next_block_of(v, s) {
            Err(_) => None,
            Ok((block, state, n)) => if 0 < n <= s.len() {
                match blocks_of(state, s.subrange(n, s.len() as int)) {
                    None => None,
                    Some(rest) => Some(seq![block] + rest),
                }
            } else {
                None
            },
        }
    }
}

/// The writer after the blocks `blocks` were written one after the other
/// from the writer `v` on, if all of them can be written.
pub open spec fn blocks_written(v: PcapNgWriterView, blocks: Seq<BlockView>) -> Option<
    PcapNgWriterView,
>
    decreases blocks.len(),
{
    if blocks.len() == 0 {
        Some(v)
    } else {
        let (after, outcome) = block_written(v, blocks[0]);
        if outcome is Ok {
            blocks_written(after, blocks.drop_first())
        } else {
            None
        }
    }
}

/// A stream that was parsed into blocks, and whose blocks are written back
/// by a writer that starts in the state in which the parser started, gives a
/// stream in which every block is, when parsed again, the block that it was:
/// the bytes that the writer adds hold the same blocks.
pub proof fn lemma_stream_round_trip(v: PcapNgStateView, s: Seq<u8>, written: Seq<u8>)
    requires
        consistent(v),
        blocks_of(v, s) is Some,
        blocks_written(PcapNgWriterView { state: v, written }, blocks_of(v, s).unwrap()) is Some,
    ensures
        ({
            let blocks = blocks_of(v, s).unwrap();
            let after = blocks_written(PcapNgWriterView { state: v, written }, blocks).unwrap();
            &&& written.len() <= after.written.len()
            &&& after.written.subrange(0, written.len() as int) == written
            &&& blocks_of(v, after.written.subrange(written.len() as int, after.written.len() as int))
                == Some(blocks)
        }),
    decreases s.len(),
{
    let blocks = blocks_of(v, s).unwrap();
    let before = PcapNgWriterView { state: v, written };
    let after = blocks_written(before, blocks).unwrap();
    if s.len() == 0 {
        assert(after.written.subrange(0, written.len() as int) =~= written);
        assert(after.written.subrange(written.len() as int, after.written.len() as int)
            =~= Seq::<u8>::empty());
    } else {
        let (block, state, n) = next_block_of(v, s).unwrap();
        let tail = s.subrange(n, s.len() as int);
        let rest = blocks_of(state, tail).unwrap();
        assert(blocks == seq![block] + rest);
        assert(blocks[0] == block);
        assert(blocks.drop_first() =~= rest);
        let (next, outcome) = block_written(before, block);
        let bytes = block_bytes(block, v.section.endianness, v.clocks).unwrap();
        lemma_updated_is_consistent(v, block);
        lemma_stream_round_trip(state, tail, written + bytes);
        let added = after.written.subrange(written.len() as int, after.written.len() as int);
        let later = after.written.subrange(
            (written + bytes).len() as int,
            after.written.len() as int,
        );
        lemma_written_block_is_read_back(v, s, written, later);
        assert(next == (PcapNgWriterView { state, written: written + bytes }));
        assert(after.written.subrange(0, (written + bytes).len() as int) == written + bytes);
        assert(after.written.subrange(0, written.len() as int) =~= written) by {
            assert((written + bytes).subrange(0, written.len() as int) =~= written);
            assert(after.written.subrange(0, written.len() as int) =~= after.written.subrange(
                0,
                (written + bytes).len() as int,
            ).subrange(0, written.len() as int));
        }
        let k = (written + bytes).len() as int;
        assert(after.written =~= after.written.subrange(0, k) + later);
        assert(after.written =~= (written + bytes) + later);
        assert(added =~= bytes + later);
        assert(bytes.len() >= 12) by {
            crate::pcapng::reader::lemma_block_length(v, bytes + later);
        }
        assert(added.subrange(bytes.len() as int, added.len() as int) =~= later);
    }
}

/// The default section header can always be written: it takes 28 bytes.
pub proof fn lemma_default_section_is_written(e: Endianness)
    ensures
        block_bytes(BlockView::SectionHeader(default_section(e)), Endianness::Big, Seq::empty())
            is Ok,
        block_bytes(
            BlockView::SectionHeader(default_section(e)),
            Endianness::Big,
            Seq::empty(),
        ).unwrap().len() == 28,
{
    broadcast use crate::codec::group_codec;

    let section = default_section(e);
    assert(section.options.len() == 0);
    let body = block_body(BlockView::SectionHeader(section), Endianness::Big, Seq::empty());
    assert(body is Ok);
    assert(body.unwrap().len() == 16);
    crate::pcapng::blocks::block_common::lemma_frame_fields(
        e,
        crate::pcapng::blocks::block_common::SECTION_HEADER_BLOCK,
        body.unwrap(),
        Seq::empty(),
    );
}

/// A writer that is made with the section header with which a stream
/// starts writes a start from which a parser comes to the same state: where
/// the bytes `s` start a stream, the section header of that stream can be
/// written by a new writer, unless it is too long for a block, and what is
/// written starts a stream in the same state, whatever follows it.
pub proof fn lemma_written_section_is_read_back(s: Seq<u8>, written: Seq<u8>, tail: Seq<u8>)
    requires
        start_of(s) is Ok,
    ensures
        ({
            let state = start_of(s).unwrap().0;
            let block = BlockView::SectionHeader(state.section);
            let before = PcapNgWriterView { state: initial_state(), written };
            let (after, outcome) = block_written(before, block);
            &&& state == (PcapNgStateView {
                section: state.section,
                interfaces: Seq::empty(),
                clocks: Seq::empty(),
            })
            &&& block_body(block, Endianness::Big, Seq::empty()) is Ok
            &&& outcome is Ok <==> block_body(block, Endianness::Big, Seq::empty()).unwrap().len() + 12
                <= u32::MAX
            &&& outcome is Ok ==> {
                let bytes = block_bytes(block, Endianness::Big, Seq::empty()).unwrap();
                &&& after == (PcapNgWriterView { state, written: written + bytes })
                &&& start_of(bytes + tail) == Ok::<(PcapNgStateView, int), ErrorKind>(
                    (state, bytes.len() as int),
                )
            }
        }),
{
    lemma_block_round_trip(Endianness::Big, Endianness::Big, Seq::empty(), s, tail);
}

} // verus!
