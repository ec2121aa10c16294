//! The pull parser of the PcapNg format: the caller holds the bytes.

use vstd::prelude::*;

use crate::common::Endianness;
use crate::errors::{ErrorKind, PcapError};
use crate::codec::u32_at;
use crate::pcapng::blocks::block_common::{
    block_of_bytes, lemma_block_prefix, lemma_raw_block_prefix, lemma_typed_is_complete,
    raw_block_of, Block, BlockView, ENHANCED_PACKET_BLOCK, RawBlock, RawBlockView,
};
use crate::pcapng::blocks::enhanced_packet::EnhancedPacketBlock;
use crate::pcapng::blocks::interface_description::InterfaceDescriptionBlock;
use crate::pcapng::blocks::opt_common::views;
use crate::pcapng::blocks::section_header::SectionHeaderBlock;
use crate::pcapng::state::{
    consistent, initial_state, updated, updated_raw, PcapNgState, PcapNgStateView,
};

verus! {

/// Parses a PcapNg from a slice of bytes.
///
/// The parser is made from the section header at the start of the stream and
/// then reads one block at a time from the slice it is handed, which the
/// caller moves forward. `IncompleteBuffer` tells the caller to come back
/// with more bytes.
#[derive(Debug)]
pub struct PcapNgParser {
    /// Current state of the pcapng format.
    state: PcapNgState,
}

impl View for PcapNgParser {
    type V = PcapNgStateView;

    closed spec fn view(&self) -> PcapNgStateView {
        self.state@
    }
}

/// The state of a parser that starts on the bytes `s`, and the number of
/// bytes that its section header takes. The first block is read in big
/// endian, which a section header corrects by itself, with no interface; a
/// first block of another type is refused with `InvalidField`.
pub open spec fn start_of(s: Seq<u8>) -> Result<(PcapNgStateView, int), ErrorKind> {
    match block_of_bytes(Endianness::Big, Seq::empty(), s) {
        Err(k) => Err(k),
        Ok((block, n)) => if block is SectionHeader {
            match updated(initial_state(), block) {
                Ok(v) => Ok((v, n)),
                Err(k) => Err(k),
            }
        } else {
            Err(ErrorKind::InvalidField)
        },
    }
}

/// What the next block of the bytes `s` is in the state `v`: the block, the
/// state after it and the length of the block. The block is framed and
/// parsed in the byte order of the section and on the clocks of its
/// interfaces, and then tells the state what it has to tell.
pub open spec fn next_block_of(v: PcapNgStateView, s: Seq<u8>) -> Result<
    (BlockView, PcapNgStateView, int),
    ErrorKind,
> {
    match block_of_bytes(v.section.endianness, v.clocks, s) {
        Err(k) => Err(k),
        Ok((block, n)) => match updated(v, block) {
            Err(k) => Err(k),
            Ok(w) => Ok((block, w, n)),
        },
    }
}

/// What the next raw block of the bytes `s` is in the state `v`: the raw
/// block, the state after it and the length of the block. Only a section
/// header and an interface description are parsed, for what they tell the
/// state.
pub open spec fn next_raw_block_of(v: PcapNgStateView, s: Seq<u8>) -> Result<
    (RawBlockView, PcapNgStateView, int),
    ErrorKind,
> {
    match raw_block_of(v.section.endianness, s) {
        Err(k) => Err(k),
        Ok((raw, n)) => match updated_raw(v, v.section.endianness, raw) {
            Err(k) => Err(k),
            Ok(w) => Ok((raw, w, n)),
        },
    }
}

impl PcapNgParser {
    /// Creates a new [`PcapNgParser`].
    ///
    /// Parses the first block which must be a valid SectionHeaderBlock.
    pub fn new(src: &[u8]) -> (r: Result<(&[u8], PcapNgParser), PcapError>)
        ensures
            match (r, start_of(src@)) {
                (Ok((rem, parser)), Ok((v, n))) => parser@ == v && 0 <= n <= src@.len() && rem@
                    == src@.subrange(n, src@.len() as int) && consistent(parser@),
                (Err(err), Err(k)) => err@ == k,
                _ => false,
            },
    {
        // Always use BigEndian here because we can't know the SectionHeaderBlock endianness
        let mut state = PcapNgState::default();
        let (rem, block) = match Block::from_slice(Endianness::Big, &state, src) {
            Ok(v) => v,
            Err(err) => { return Err(err); },
        };
        if let Block::SectionHeader(_) = &block {
        } else {
            return Err(PcapError::InvalidField("PcapNg: SectionHeader invalid or missing"));
        }
        match state.update_for_block(&block) {
            Ok(()) => {},
            Err(err) => { return Err(err); },
        }
        Ok((rem, PcapNgParser { state }))
    }

    /// Returns the remainder and the next [`Block`]. Where that fails the
    /// parser is left as it was.
    pub fn next_block<'a>(&mut self, src: &'a [u8]) -> (r: Result<(&'a [u8], Block), PcapError>)
        ensures
            match (r, next_block_of(old(self)@, src@)) {
                (Ok((rem, block)), Ok((b, v, n))) => block@ == b && final(self)@ == v && 0 <= n
                    <= src@.len() && rem@ == src@.subrange(n, src@.len() as int),
                (Err(err), Err(k)) => err@ == k && final(self)@ == old(self)@,
                _ => false,
            },
            consistent(old(self)@) ==> consistent(final(self)@),
    {
        let endianness = self.state.section().endianness;
        let (rem, block) = match Block::from_slice(endianness, &self.state, src) {
            Ok(v) => v,
            Err(err) => { return Err(err); },
        };
        match self.state.update_for_block(&block) {
            Ok(()) => Ok((rem, block)),
            Err(err) => Err(err),
        }
    }

    /// Returns the remainder and the next [`RawBlock`]. Where that fails the
    /// parser is left as it was.
    pub fn next_raw_block<'a>(&mut self, src: &'a [u8]) -> (r: Result<(&'a [u8], RawBlock), PcapError>)
        ensures
            match (r, next_raw_block_of(old(self)@, src@)) {
                (Ok((rem, block)), Ok((b, v, n))) => block@ == b && final(self)@ == v && 0 <= n
                    <= src@.len() && rem@ == src@.subrange(n, src@.len() as int),
                (Err(err), Err(k)) => err@ == k && final(self)@ == old(self)@,
                _ => false,
            },
            consistent(old(self)@) ==> consistent(final(self)@),
    {
        let endianness = self.state.section().endianness;
        let (rem, raw_block) = match RawBlock::from_slice(endianness, src) {
            Ok(v) => v,
            Err(err) => { return Err(err); },
        };
        match self.state.update_for_raw_block(endianness, &raw_block) {
            Ok(()) => Ok((rem, raw_block)),
            Err(err) => Err(err),
        }
    }

    /// Returns the current state of the stream.
    pub fn state(&self) -> (r: &PcapNgState)
        ensures
            r@ == self@,
    {
        &self.state
    }

    /// Returns the current [`SectionHeaderBlock`].
    pub fn section(&self) -> (r: &SectionHeaderBlock)
        ensures
            r@ == self@.section,
    {
        self.state.section()
    }

    /// Returns all the current [`InterfaceDescriptionBlock`].
    pub fn interfaces(&self) -> (r: &Vec<InterfaceDescriptionBlock>)
        ensures
            views(r@) == self@.interfaces,
    {
        self.state.interfaces()
    }

    /// Returns the [`InterfaceDescriptionBlock`] corresponding to the given packet.
    pub fn packet_interface(&self, packet: &EnhancedPacketBlock) -> (r: Option<
        &InterfaceDescriptionBlock,
    >)
        ensures
            match r {
                Some(interface) => packet.interface_id < self@.interfaces.len() && interface@
                    == self@.interfaces[packet.interface_id as int],
                None => packet.interface_id >= self@.interfaces.len(),
            },
    {
        let interfaces = self.state.interfaces();
        let id = packet.interface_id as usize;
        if id < interfaces.len() {
            Some(&interfaces[id])
        } else {
            None
        }
    }
}

/// What a reader holds of a stream is enough once the parser does not ask for
/// more: where the bytes `s` give a block or an invalid one, the bytes `s`
/// with `more` behind them give the same, with the same state after it.
pub proof fn lemma_next_block_prefix(v: PcapNgStateView, s: Seq<u8>, more: Seq<u8>)
    requires
        next_block_of(v, s) != Err::<(BlockView, PcapNgStateView, int), ErrorKind>(
            ErrorKind::IncompleteBuffer,
        ),
    ensures
        next_block_of(v, s + more) == next_block_of(v, s),
{
    lemma_not_incomplete(v, s);
    lemma_block_prefix(v.section.endianness, v.clocks, s, more);
}

/// As `lemma_next_block_prefix`, for a block that is not parsed beyond its
/// frame.
pub proof fn lemma_next_raw_block_prefix(v: PcapNgStateView, s: Seq<u8>, more: Seq<u8>)
    requires
        next_raw_block_of(v, s) != Err::<(RawBlockView, PcapNgStateView, int), ErrorKind>(
            ErrorKind::IncompleteBuffer,
        ),
    ensures
        next_raw_block_of(v, s + more) == next_raw_block_of(v, s),
{
    lemma_not_incomplete(v, s);
    lemma_raw_block_prefix(v.section.endianness, s, more);
}

/// As `lemma_next_block_prefix`, for the start of a stream.
pub proof fn lemma_start_prefix(s: Seq<u8>, more: Seq<u8>)
    requires
        start_of(s) != Err::<(PcapNgStateView, int), ErrorKind>(ErrorKind::IncompleteBuffer),
    ensures
        start_of(s + more) == start_of(s),
{
    lemma_block_prefix(Endianness::Big, Seq::empty(), s, more);
}

/// Only the frame of a block can be incomplete: the state never answers
/// `IncompleteBuffer` to a block, nor does the body of a block.
pub proof fn lemma_not_incomplete(v: PcapNgStateView, s: Seq<u8>)
    ensures
        next_block_of(v, s) == Err::<(BlockView, PcapNgStateView, int), ErrorKind>(
            ErrorKind::IncompleteBuffer,
        ) <==> raw_block_of(v.section.endianness, s) == Err::<(RawBlockView, int), ErrorKind>(
            ErrorKind::IncompleteBuffer,
        ),
        next_raw_block_of(v, s) == Err::<(RawBlockView, PcapNgStateView, int), ErrorKind>(
            ErrorKind::IncompleteBuffer,
        ) <==> raw_block_of(v.section.endianness, s) == Err::<(RawBlockView, int), ErrorKind>(
            ErrorKind::IncompleteBuffer,
        ),
        block_of_bytes(v.section.endianness, v.clocks, s) == Err::<(BlockView, int), ErrorKind>(
            ErrorKind::IncompleteBuffer,
        ) <==> raw_block_of(v.section.endianness, s) == Err::<(RawBlockView, int), ErrorKind>(
            ErrorKind::IncompleteBuffer,
        ),
{
    if raw_block_of(v.section.endianness, s) is Ok {
        lemma_typed_is_complete(v.section.endianness, v.clocks, raw_block_of(v.section.endianness, s).unwrap().0);
    }
}

/// An enhanced packet of an interface that is not in the table of the
/// section is rejected with `InvalidInterfaceId`: so it is right behind a
/// section header, whose table is empty.
pub proof fn lemma_packet_of_unknown_interface(v: PcapNgStateView, s: Seq<u8>)
    requires
        consistent(v),
        raw_block_of(v.section.endianness, s) matches Ok((raw, _)) && raw.type_
            == ENHANCED_PACKET_BLOCK && raw.body.len() >= 20 && u32_at(
            v.section.endianness,
            raw.body,
            0,
        ) >= v.interfaces.len(),
    ensures
        next_block_of(v, s) == Err::<(BlockView, PcapNgStateView, int), ErrorKind>(
            ErrorKind::InvalidInterfaceId(
                u32_at(v.section.endianness, raw_block_of(v.section.endianness, s).unwrap().0.body, 0),
            ),
        ),
{
}

} // verus!
