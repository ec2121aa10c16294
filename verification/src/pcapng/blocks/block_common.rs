//! Common block types.
//!
//! On the wire a block is its type, its total length, its body padded to 32
//! bits, and the total length once more. The length counts all four parts.

use vstd::prelude::*;
use vstd::slice::{slice_subrange, slice_to_vec};

use crate::codec::{
    bytes_u32, group_codec, pad_len, padding, read_u32, u32_at, write_bytes, write_u32,
    write_zeros, zeros,
};
use crate::common::Endianness;
use crate::errors::{converted, emitted, parsed, ErrorKind, PcapError};
use crate::pcapng::blocks::custom::{lemma_custom_round_trip, CustomBlock, CustomBlockView};
use crate::pcapng::blocks::enhanced_packet::{
    lemma_enhanced_packet_round_trip, EnhancedPacketBlock, EnhancedPacketBlockView,
};
use crate::pcapng::blocks::interface_description::{
    lemma_interface_description_round_trip, InterfaceDescriptionBlock,
    InterfaceDescriptionBlockView,
};
use crate::pcapng::blocks::interface_statistics::{
    lemma_interface_statistics_round_trip, InterfaceStatisticsBlock,
    InterfaceStatisticsBlockView,
};
use crate::pcapng::blocks::name_resolution::{
    lemma_name_resolution_round_trip, NameResolutionBlock, NameResolutionBlockView,
};
use crate::pcapng::blocks::opt_common::Duplicate;
use crate::pcapng::blocks::packet::{lemma_packet_round_trip, PacketBlock, PacketBlockView};
use crate::pcapng::blocks::section_header::{
    byte_order_of, lemma_section_header_round_trip, SectionHeaderBlock, SectionHeaderBlockView,
};
use crate::pcapng::blocks::simple_packet::{
    lemma_simple_packet_round_trip, SimplePacketBlock, SimplePacketBlockView,
};
use crate::pcapng::blocks::systemd_journal_export::{
    lemma_journal_round_trip, SystemdJournalExportBlock, SystemdJournalExportBlockView,
};
use crate::pcapng::blocks::unknown::{UnknownBlock, UnknownBlockView};
use crate::pcapng::state::{ticking, InterfaceClock, PcapNgState};

verus! {

/// Section header block type
pub const SECTION_HEADER_BLOCK: u32 = 0x0A0D0D0A;

/// Interface description block type
pub const INTERFACE_DESCRIPTION_BLOCK: u32 = 0x00000001;

/// Packet block type
pub const PACKET_BLOCK: u32 = 0x00000002;

/// Simple packet block type
pub const SIMPLE_PACKET_BLOCK: u32 = 0x00000003;

/// Name resolution block type
pub const NAME_RESOLUTION_BLOCK: u32 = 0x00000004;

/// Interface statistic block type
pub const INTERFACE_STATISTIC_BLOCK: u32 = 0x00000005;

/// Enhanced packet block type
pub const ENHANCED_PACKET_BLOCK: u32 = 0x00000006;

/// Systemd journal export block type
pub const SYSTEMD_JOURNAL_EXPORT_BLOCK: u32 = 0x00000009;

/// Custom block type, copiable
pub const CUSTOM_BLOCK_COPIABLE: u32 = 0x00000BAD;

/// Custom block type, non-copiable
pub const CUSTOM_BLOCK_NON_COPIABLE: u32 = 0x40000BAD;

/// The types of block that the format knows, and the others with their code.
#[derive(Copy, Clone, Debug, PartialEq, Eq, Structural)]
pub enum BlockType {
    /// Section Header block
    SectionHeader,
    /// Interface Description block
    InterfaceDescription,
    /// Packet block
    Packet,
    /// Simple packet block
    SimplePacket,
    /// Name Resolution block
    NameResolution,
    /// Interface statistics block
    InterfaceStatistics,
    /// Enhanced packet block
    EnhancedPacket,
    /// Systemd Journal Export block
    SystemdJournalExport,
    /// Custom block, copiable
    CustomCopiable,
    /// Custom block, non-copiable
    CustomNonCopiable,
    /// A block type that the format does not know, with its code
    Unknown(u32),
}

/// The type of block that the code `code` stands for.
pub open spec fn block_type_of(code: u32) -> BlockType {
    if code == 0x0A0D0D0A {
        BlockType::SectionHeader
    } else if code == 0x00000001 {
        BlockType::InterfaceDescription
    } else if code == 0x00000002 {
        BlockType::Packet
    } else if code == 0x00000003 {
        BlockType::SimplePacket
    } else if code == 0x00000004 {
        BlockType::NameResolution
    } else if code == 0x00000005 {
        BlockType::InterfaceStatistics
    } else if code == 0x00000006 {
        BlockType::EnhancedPacket
    } else if code == 0x00000009 {
        BlockType::SystemdJournalExport
    } else if code == 0x00000BAD {
        BlockType::CustomCopiable
    } else if code == 0x40000BAD {
        BlockType::CustomNonCopiable
    } else {
        BlockType::Unknown(code)
    }
}

/// The code that stands for the type of block `t`.
pub open spec fn block_type_code(t: BlockType) -> u32 {
    match t {
        BlockType::SectionHeader => 0x0A0D0D0A,
        BlockType::InterfaceDescription => 0x00000001,
        BlockType::Packet => 0x00000002,
        BlockType::SimplePacket => 0x00000003,
        BlockType::NameResolution => 0x00000004,
        BlockType::InterfaceStatistics => 0x00000005,
        BlockType::EnhancedPacket => 0x00000006,
        BlockType::SystemdJournalExport => 0x00000009,
        BlockType::CustomCopiable => 0x00000BAD,
        BlockType::CustomNonCopiable => 0x40000BAD,
        BlockType::Unknown(code) => code,
    }
}

impl From<u32> for BlockType {
    fn from(src: u32) -> (r: BlockType) {
        if src == SECTION_HEADER_BLOCK {
            BlockType::SectionHeader
        } else if src == INTERFACE_DESCRIPTION_BLOCK {
            BlockType::InterfaceDescription
        } else if src == PACKET_BLOCK {
            BlockType::Packet
        } else if src == SIMPLE_PACKET_BLOCK {
            BlockType::SimplePacket
        } else if src == NAME_RESOLUTION_BLOCK {
            BlockType::NameResolution
        } else if src == INTERFACE_STATISTIC_BLOCK {
            BlockType::InterfaceStatistics
        } else if src == ENHANCED_PACKET_BLOCK {
            BlockType::EnhancedPacket
        } else if src == SYSTEMD_JOURNAL_EXPORT_BLOCK {
            BlockType::SystemdJournalExport
        } else if src == CUSTOM_BLOCK_COPIABLE {
            BlockType::CustomCopiable
        } else if src == CUSTOM_BLOCK_NON_COPIABLE {
            BlockType::CustomNonCopiable
        } else {
            BlockType::Unknown(src)
        }
    }
}

impl vstd::std_specs::convert::FromSpecImpl<u32> for BlockType {
    open spec fn obeys_from_spec() -> bool {
        true
    }

    open spec fn from_spec(src: u32) -> BlockType {
        block_type_of(src)
    }
}

impl From<BlockType> for u32 {
    fn from(src: BlockType) -> (r: u32) {
        match src {
            BlockType::SectionHeader => SECTION_HEADER_BLOCK,
            BlockType::InterfaceDescription => INTERFACE_DESCRIPTION_BLOCK,
            BlockType::Packet => PACKET_BLOCK,
            BlockType::SimplePacket => SIMPLE_PACKET_BLOCK,
            BlockType::NameResolution => NAME_RESOLUTION_BLOCK,
            BlockType::InterfaceStatistics => INTERFACE_STATISTIC_BLOCK,
            BlockType::EnhancedPacket => ENHANCED_PACKET_BLOCK,
            BlockType::SystemdJournalExport => SYSTEMD_JOURNAL_EXPORT_BLOCK,
            BlockType::CustomCopiable => CUSTOM_BLOCK_COPIABLE,
            BlockType::CustomNonCopiable => CUSTOM_BLOCK_NON_COPIABLE,
            BlockType::Unknown(code) => code,
        }
    }
}

impl vstd::std_specs::convert::FromSpecImpl<BlockType> for u32 {
    open spec fn obeys_from_spec() -> bool {
        true
    }

    open spec fn from_spec(src: BlockType) -> u32 {
        block_type_code(src)
    }
}

/// PcapNg Block
#[derive(Debug, PartialEq, Eq)]
pub struct RawBlock {
    /// Type field
    pub type_: u32,
    /// Initial length field
    pub initial_len: u32,
    /// Body of the block
    pub body: Vec<u8>,
    /// Trailer length field
    pub trailer_len: u32,
}

/// What a `RawBlock` holds.
pub struct RawBlockView {
    /// Type field
    pub type_: u32,
    /// Initial length field
    pub initial_len: u32,
    /// Body of the block
    pub body: Seq<u8>,
    /// Trailer length field
    pub trailer_len: u32,
}

impl View for RawBlock {
    type V = RawBlockView;

    open spec fn view(&self) -> RawBlockView {
        RawBlockView {
            type_: self.type_,
            initial_len: self.initial_len,
            body: self.body@,
            trailer_len: self.trailer_len,
        }
    }
}

impl Duplicate for RawBlock {
    fn duplicate(&self) -> (r: RawBlock) {
        RawBlock {
            type_: self.type_,
            initial_len: self.initial_len,
            body: self.body.clone(),
            trailer_len: self.trailer_len,
        }
    }
}

impl Clone for RawBlock {
    fn clone(&self) -> (r: RawBlock)
        ensures
            r@ == self@,
    {
        self.duplicate()
    }
}

/// The block of the type `type_` that the bytes `s` start with when its
/// lengths are read in the byte order `e`: `InvalidField` where the length
/// is no multiple of 4 or below 12; `IncompleteBuffer` where `s` is shorter
/// than the length says; `InvalidField` where the length behind the body is
/// not the length before it.
pub open spec fn framed_of(e: Endianness, s: Seq<u8>, type_: u32) -> Result<(RawBlockView, int), ErrorKind> {
    let initial_len = u32_at(e, s, 4);
    if initial_len % 4 != 0 {
        Err(ErrorKind::InvalidField)
    } else if initial_len < 12 {
        Err(ErrorKind::InvalidField)
    } else if s.len() < initial_len {
        Err(ErrorKind::IncompleteBuffer)
    } else {
        let trailer_len = u32_at(e, s, initial_len - 4);
        if trailer_len != initial_len {
            Err(ErrorKind::InvalidField)
        } else {
            Ok(
                (
                    RawBlockView {
                        type_,
                        initial_len,
                        body: s.subrange(8, initial_len - 4),
                        trailer_len,
                    },
                    initial_len as int,
                ),
            )
        }
    }
}

/// The block that the bytes `s` start with in a section of the byte order
/// `e`, and its length: `IncompleteBuffer` on fewer than 12 bytes. A section
/// header tells its own byte order, by the magic number at the start of its
/// body, and its lengths are read in that order: `InvalidField` where the
/// magic number is none of the two.
pub open spec fn raw_block_of(e: Endianness, s: Seq<u8>) -> Result<(RawBlockView, int), ErrorKind> {
    if s.len() < 12 {
        Err(ErrorKind::IncompleteBuffer)
    } else {
        let type_ = u32_at(e, s, 0);
        if type_ == SECTION_HEADER_BLOCK {
            let magic = u32_at(Endianness::Big, s, 8);
            if magic == 0x1A2B3C4D {
                framed_of(Endianness::Big, s, type_)
            } else if magic == 0x4D3C2B1A {
                framed_of(Endianness::Little, s, type_)
            } else {
                Err(ErrorKind::InvalidField)
            }
        } else {
            framed_of(e, s, type_)
        }
    }
}

/// The length that the block at the start of `s` declares, in a section of
/// the byte order `e`: `IncompleteBuffer` on fewer than 12 bytes, and
/// `InvalidField` where the block is a section header with an unknown magic
/// number or the length is no multiple of 4 or below 12.
pub open spec fn declared_len(e: Endianness, s: Seq<u8>) -> Result<int, ErrorKind> {
    if s.len() < 12 {
        Err(ErrorKind::IncompleteBuffer)
    } else {
        match length_order(e, s) {
            None => Err(ErrorKind::InvalidField),
            Some(order) => {
                let len = u32_at(order, s, 4);
                if len % 4 != 0 || len < 12 {
                    Err(ErrorKind::InvalidField)
                } else {
                    Ok(len as int)
                }
            },
        }
    }
}

/// The bytes of the raw block `raw` in the byte order `e`: its four fields
/// as they stand.
pub open spec fn raw_block_bytes(e: Endianness, raw: RawBlockView) -> Seq<u8> {
    bytes_u32(e, raw.type_) + bytes_u32(e, raw.initial_len) + raw.body + bytes_u32(
        e,
        raw.trailer_len,
    )
}

impl RawBlock {
    /// Parses a [`RawBlock`] from a slice.
    pub fn from_slice<'a>(e: Endianness, slice: &'a [u8]) -> (r: Result<(&'a [u8], RawBlock), PcapError>)
        ensures
            parsed(r, slice@, raw_block_of(e, slice@)),
    {
        if slice.len() < 12 {
            return Err(PcapError::IncompleteBuffer);
        }
        let type_ = read_u32(e, slice, 0).unwrap();
        // Special case for the section header because we don't know the endianness yet
        if type_ == SECTION_HEADER_BLOCK {
            // Check the first field of the Section header to find the endianness
            let magic = read_u32(Endianness::Big, slice, 8).unwrap();
            if magic == 0x1A2B3C4D {
                RawBlock::inner_parse(Endianness::Big, slice, type_)
            } else if magic == 0x4D3C2B1A {
                RawBlock::inner_parse(Endianness::Little, slice, type_)
            } else {
                Err(PcapError::InvalidField("SectionHeaderBlock: invalid magic number"))
            }
        } else {
            RawBlock::inner_parse(e, slice, type_)
        }
    }

    /// Parses the lengths and the body behind the type of a block.
    fn inner_parse<'a>(e: Endianness, slice: &'a [u8], type_: u32) -> (r: Result<
        (&'a [u8], RawBlock),
        PcapError,
    >)
        requires
            slice@.len() >= 12,
        ensures
            parsed(r, slice@, framed_of(e, slice@, type_)),
    {
        let initial_len = read_u32(e, slice, 4).unwrap();
        if initial_len % 4 != 0 {
            return Err(PcapError::InvalidField("Block: (initial_len % 4) != 0"));
        }
        if initial_len < 12 {
            return Err(PcapError::InvalidField("Block: initial_len < 12"));
        }
        let len = initial_len as usize;
        // Check if there is enough data for the body and the trailer_len
        if slice.len() < len {
            return Err(PcapError::IncompleteBuffer);
        }
        let body = slice_to_vec(slice_subrange(slice, 8, len - 4));
        let trailer_len = read_u32(e, slice, len - 4).unwrap();
        if initial_len != trailer_len {
            return Err(PcapError::InvalidField("Block: initial_length != trailer_length"));
        }
        let block = RawBlock { type_, initial_len, body, trailer_len };
        Ok((slice_subrange(slice, len, slice.len()), block))
    }

    /// Tells from the first twelve bytes of a block how many bytes the block
    /// takes, for a reader that must fetch the rest of it.
    pub fn total_len(e: Endianness, head: &[u8]) -> (r: Result<usize, PcapError>)
        ensures
            match (r, declared_len(e, head@)) {
                (Ok(n), Ok(m)) => n == m,
                (Err(err), Err(k)) => err@ == k,
                _ => false,
            },
    {
        if head.len() < 12 {
            return Err(PcapError::IncompleteBuffer);
        }
        let type_ = read_u32(e, head, 0).unwrap();
        let order = if type_ == SECTION_HEADER_BLOCK {
            let magic = read_u32(Endianness::Big, head, 8).unwrap();
            if magic == 0x1A2B3C4D {
                Endianness::Big
            } else if magic == 0x4D3C2B1A {
                Endianness::Little
            } else {
                return Err(PcapError::InvalidField("SectionHeaderBlock: invalid magic number"));
            }
        } else {
            e
        };
        let initial_len = read_u32(order, head, 4).unwrap();
        if initial_len % 4 != 0 {
            return Err(PcapError::InvalidField("Block: (initial_len % 4) != 0"));
        }
        if initial_len < 12 {
            return Err(PcapError::InvalidField("Block: initial_len < 12"));
        }
        Ok(initial_len as usize)
    }

    /// Writes a [`RawBlock`] to a writer as it stands, in the byte order
    /// `e`, and returns the number of bytes written.
    pub fn write_to(&self, e: Endianness, writer: &mut Vec<u8>) -> (r: usize)
        ensures
            final(writer)@ == old(writer)@ + raw_block_bytes(e, self@),
            r == raw_block_bytes(e, self@).len(),
    {
        let before = writer.len();
        write_u32(e, writer, self.type_);
        write_u32(e, writer, self.initial_len);
        write_bytes(writer, self.body.as_slice());
        write_u32(e, writer, self.trailer_len);
        assert(writer@ =~= old(writer)@ + raw_block_bytes(e, self@));
        writer.len() - before
    }

    /// Parses the [`Block`] that the raw block holds, using a [`PcapNgState`].
    pub fn parsed(&self, e: Endianness, state: &PcapNgState) -> (r: Result<Block, PcapError>)
        ensures
            converted(r, typed_of(e, state@.clocks, self@)),
    {
        Block::try_from_raw_parts(e, state, self.type_, self.initial_len, self.body.as_slice())
    }

    /// Tries to convert a [`RawBlock`] into a [`Block`], using a [`PcapNgState`].
    pub fn try_into_block(self, e: Endianness, state: &PcapNgState) -> (r: Result<Block, PcapError>)
        ensures
            converted(r, typed_of(e, state@.clocks, self@)),
    {
        Block::try_from_raw_block(e, state, self)
    }
}

/// PcapNg parsed blocks
#[derive(Debug, PartialEq, Eq)]
pub enum Block {
    /// Section Header block
    SectionHeader(SectionHeaderBlock),
    /// Interface Description block
    InterfaceDescription(InterfaceDescriptionBlock),
    /// Packet block
    Packet(PacketBlock),
    /// Simple packet block
    SimplePacket(SimplePacketBlock),
    /// Name Resolution block
    NameResolution(NameResolutionBlock),
    /// Interface statistics block
    InterfaceStatistics(InterfaceStatisticsBlock),
    /// Enhanced packet block
    EnhancedPacket(EnhancedPacketBlock),
    /// Systemd Journal Export block
    SystemdJournalExport(SystemdJournalExportBlock),
    /// Custom block, copiable
    CustomCopiable(CustomBlock<true>),
    /// Custom block, non-copiable
    CustomNonCopiable(CustomBlock<false>),
    /// Unknown block
    Unknown(UnknownBlock),
}

/// PcapNg parsed blocks
pub type ParsedBlock = Block;

/// What a `Block` holds.
pub enum BlockView {
    /// Section Header block
    SectionHeader(SectionHeaderBlockView),
    /// Interface Description block
    InterfaceDescription(InterfaceDescriptionBlockView),
    /// Packet block
    Packet(PacketBlockView),
    /// Simple packet block
    SimplePacket(SimplePacketBlockView),
    /// Name Resolution block
    NameResolution(NameResolutionBlockView),
    /// Interface statistics block
    InterfaceStatistics(InterfaceStatisticsBlockView),
    /// Enhanced packet block
    EnhancedPacket(EnhancedPacketBlockView),
    /// Systemd Journal Export block
    SystemdJournalExport(SystemdJournalExportBlockView),
    /// Custom block, copiable
    CustomCopiable(CustomBlockView),
    /// Custom block, non-copiable
    CustomNonCopiable(CustomBlockView),
    /// Unknown block
    Unknown(UnknownBlockView),
}

impl View for Block {
    type V = BlockView;

    open spec fn view(&self) -> BlockView {
        match self {
            Block::SectionHeader(b) => BlockView::SectionHeader(b@),
            Block::InterfaceDescription(b) => BlockView::InterfaceDescription(b@),
            Block::Packet(b) => BlockView::Packet(b@),
            Block::SimplePacket(b) => BlockView::SimplePacket(b@),
            Block::NameResolution(b) => BlockView::NameResolution(b@),
            Block::InterfaceStatistics(b) => BlockView::InterfaceStatistics(b@),
            Block::EnhancedPacket(b) => BlockView::EnhancedPacket(b@),
            Block::SystemdJournalExport(b) => BlockView::SystemdJournalExport(b@),
            Block::CustomCopiable(b) => BlockView::CustomCopiable(b@),
            Block::CustomNonCopiable(b) => BlockView::CustomNonCopiable(b@),
            Block::Unknown(b) => BlockView::Unknown(b@),
        }
    }
}

impl Duplicate for Block {
    fn duplicate(&self) -> (r: Block) {
        match self {
            Block::SectionHeader(b) => Block::SectionHeader(b.duplicate()),
            Block::InterfaceDescription(b) => Block::InterfaceDescription(b.duplicate()),
            Block::Packet(b) => Block::Packet(b.duplicate()),
            Block::SimplePacket(b) => Block::SimplePacket(b.duplicate()),
            Block::NameResolution(b) => Block::NameResolution(b.duplicate()),
            Block::InterfaceStatistics(b) => Block::InterfaceStatistics(b.duplicate()),
            Block::EnhancedPacket(b) => Block::EnhancedPacket(b.duplicate()),
            Block::SystemdJournalExport(b) => Block::SystemdJournalExport(b.duplicate()),
            Block::CustomCopiable(b) => Block::CustomCopiable(b.duplicate()),
            Block::CustomNonCopiable(b) => Block::CustomNonCopiable(b.duplicate()),
            Block::Unknown(b) => Block::Unknown(b.duplicate()),
        }
    }
}

impl Clone for Block {
    fn clone(&self) -> (r: Block)
        ensures
            r@ == self@,
    {
        self.duplicate()
    }
}

/// Common interface for the PcapNg blocks
pub trait PcapNgBlock: Sized + View {
    /// The block that the body `s` holds, and the number of bytes of `s` that
    /// it takes, in a section of the byte order `e` whose interfaces have the
    /// clocks `clocks`.
    spec fn body_of(e: Endianness, clocks: Seq<InterfaceClock>, s: Seq<u8>) -> Result<
        (Self::V, int),
        ErrorKind,
    >;

    /// The body of the block `block` in a section of the byte order `e`
    /// whose interfaces have the clocks `clocks`, without its padding.
    spec fn body_bytes(block: Self::V, e: Endianness, clocks: Seq<InterfaceClock>) -> Result<
        Seq<u8>,
        ErrorKind,
    >;

    /// The block `block` as one of the blocks of the format.
    spec fn block_of(block: Self::V) -> BlockView;

    /// Parse a new block from a slice, using a [`PcapNgState`].
    fn from_slice<'a>(e: Endianness, state: &PcapNgState, slice: &'a [u8]) -> (r: Result<
        (&'a [u8], Self),
        PcapError,
    >)
        ensures
            parsed(r, slice@, Self::body_of(e, state@.clocks, slice@)),
    ;

    /// Write the content of a block into a writer, using a [`PcapNgState`].
    fn write_to(&self, e: Endianness, state: &PcapNgState, writer: &mut Vec<u8>) -> (r: Result<
        usize,
        PcapError,
    >)
        ensures
            emitted(
                r,
                old(writer)@,
                final(writer)@,
                Self::body_bytes(self@, e, state@.clocks),
            ),
    ;

    /// Convert a block into the [`Block`] enumeration
    fn into_block(self) -> (r: Block)
        ensures
            r@ == Self::block_of(self@),
    ;
}

/// The outcome `r` of parsing a body as one of the blocks of the format. A
/// body that ends too early is an invalid block: more bytes would not mend
/// it.
pub open spec fn as_block<B: PcapNgBlock>(r: Result<(B::V, int), ErrorKind>) -> Result<
    BlockView,
    ErrorKind,
> {
    match r {
        Ok((block, _)) => Ok(B::block_of(block)),
        Err(ErrorKind::IncompleteBuffer) => Err(ErrorKind::InvalidField),
        Err(k) => Err(k),
    }
}

/// The block that the raw block `raw` holds, by its type, in a section of
/// the byte order `e` whose interfaces have the clocks `clocks`. A type that
/// the format does not know gives an unknown block, which keeps the type, the
/// length and the body.
pub open spec fn typed_of(e: Endianness, clocks: Seq<InterfaceClock>, raw: RawBlockView) -> Result<
    BlockView,
    ErrorKind,
> {
    if raw.type_ == SECTION_HEADER_BLOCK {
        as_block::<SectionHeaderBlock>(SectionHeaderBlock::body_of(e, clocks, raw.body))
    } else if raw.type_ == INTERFACE_DESCRIPTION_BLOCK {
        as_block::<InterfaceDescriptionBlock>(InterfaceDescriptionBlock::body_of(e, clocks, raw.body))
    } else if raw.type_ == PACKET_BLOCK {
        as_block::<PacketBlock>(PacketBlock::body_of(e, clocks, raw.body))
    } else if raw.type_ == SIMPLE_PACKET_BLOCK {
        as_block::<SimplePacketBlock>(SimplePacketBlock::body_of(e, clocks, raw.body))
    } else if raw.type_ == NAME_RESOLUTION_BLOCK {
        as_block::<NameResolutionBlock>(NameResolutionBlock::body_of(e, clocks, raw.body))
    } else if raw.type_ == INTERFACE_STATISTIC_BLOCK {
        as_block::<InterfaceStatisticsBlock>(InterfaceStatisticsBlock::body_of(e, clocks, raw.body))
    } else if raw.type_ == ENHANCED_PACKET_BLOCK {
        as_block::<EnhancedPacketBlock>(EnhancedPacketBlock::body_of(e, clocks, raw.body))
    } else if raw.type_ == SYSTEMD_JOURNAL_EXPORT_BLOCK {
        as_block::<SystemdJournalExportBlock>(SystemdJournalExportBlock::body_of(e, clocks, raw.body))
    } else if raw.type_ == CUSTOM_BLOCK_COPIABLE {
        as_block::<CustomBlock<true>>(CustomBlock::<true>::body_of(e, clocks, raw.body))
    } else if raw.type_ == CUSTOM_BLOCK_NON_COPIABLE {
        as_block::<CustomBlock<false>>(CustomBlock::<false>::body_of(e, clocks, raw.body))
    } else {
        Ok(
            BlockView::Unknown(
                UnknownBlockView { type_: raw.type_, length: raw.initial_len, value: raw.body },
            ),
        )
    }
}

/// The block that the bytes `s` start with, and its length, in a section of
/// the byte order `e` whose interfaces have the clocks `clocks`.
pub open spec fn block_of_bytes(e: Endianness, clocks: Seq<InterfaceClock>, s: Seq<u8>) -> Result<
    (BlockView, int),
    ErrorKind,
> {
    match raw_block_of(e, s) {
        Err(k) => Err(k),
        Ok((raw, n)) => match typed_of(e, clocks, raw) {
            Err(k) => Err(k),
            Ok(block) => Ok((block, n)),
        },
    }
}

/// The bytes of a block of the type `type_` with the body `body`: the type,
/// the total length, the body, its padding and the total length again.
/// `InvalidField` where the total length is beyond 32 bits.
pub open spec fn frame(e: Endianness, type_: u32, body: Seq<u8>) -> Result<Seq<u8>, ErrorKind> {
    let total = body.len() + pad_len(body.len() as int) + 12;
    if total > u32::MAX {
        Err(ErrorKind::InvalidField)
    } else {
        Ok(
            bytes_u32(e, type_) + bytes_u32(e, total as u32) + body + zeros(
                pad_len(body.len() as int),
            ) + bytes_u32(e, total as u32),
        )
    }
}

/// As `frame`, for a body that may have failed.
pub open spec fn framed(e: Endianness, type_: u32, body: Result<Seq<u8>, ErrorKind>) -> Result<
    Seq<u8>,
    ErrorKind,
> {
    match body {
        Err(k) => Err(k),
        Ok(body) => frame(e, type_, body),
    }
}

/// The code of the type of the block `block`.
pub open spec fn type_code(block: BlockView) -> u32 {
    match block {
        BlockView::SectionHeader(_) => SECTION_HEADER_BLOCK,
        BlockView::InterfaceDescription(_) => INTERFACE_DESCRIPTION_BLOCK,
        BlockView::Packet(_) => PACKET_BLOCK,
        BlockView::SimplePacket(_) => SIMPLE_PACKET_BLOCK,
        BlockView::NameResolution(_) => NAME_RESOLUTION_BLOCK,
        BlockView::InterfaceStatistics(_) => INTERFACE_STATISTIC_BLOCK,
        BlockView::EnhancedPacket(_) => ENHANCED_PACKET_BLOCK,
        BlockView::SystemdJournalExport(_) => SYSTEMD_JOURNAL_EXPORT_BLOCK,
        BlockView::CustomCopiable(_) => CUSTOM_BLOCK_COPIABLE,
        BlockView::CustomNonCopiable(_) => CUSTOM_BLOCK_NON_COPIABLE,
        BlockView::Unknown(b) => b.type_,
    }
}

/// The byte order in which the block `block` is written in a section of the
/// byte order `e`: a section header is written in its own byte order.
pub open spec fn order_of(block: BlockView, e: Endianness) -> Endianness {
    match block {
        BlockView::SectionHeader(b) => b.endianness,
        _ => e,
    }
}

/// The body of the block `block` in a section of the byte order `e` whose
/// interfaces have the clocks `clocks`.
pub open spec fn block_body(block: BlockView, e: Endianness, clocks: Seq<InterfaceClock>) -> Result<
    Seq<u8>,
    ErrorKind,
> {
    match block {
        BlockView::SectionHeader(b) => SectionHeaderBlock::body_bytes(b, e, clocks),
        BlockView::InterfaceDescription(b) => InterfaceDescriptionBlock::body_bytes(b, e, clocks),
        BlockView::Packet(b) => PacketBlock::body_bytes(b, e, clocks),
        BlockView::SimplePacket(b) => SimplePacketBlock::body_bytes(b, e, clocks),
        BlockView::NameResolution(b) => NameResolutionBlock::body_bytes(b, e, clocks),
        BlockView::InterfaceStatistics(b) => InterfaceStatisticsBlock::body_bytes(b, e, clocks),
        BlockView::EnhancedPacket(b) => EnhancedPacketBlock::body_bytes(b, e, clocks),
        BlockView::SystemdJournalExport(b) => SystemdJournalExportBlock::body_bytes(b, e, clocks),
        BlockView::CustomCopiable(b) => CustomBlock::<true>::body_bytes(b, e, clocks),
        BlockView::CustomNonCopiable(b) => CustomBlock::<false>::body_bytes(b, e, clocks),
        BlockView::Unknown(b) => UnknownBlock::body_bytes(b, e, clocks),
    }
}

/// The bytes of the block `block` in a section of the byte order `e` whose
/// interfaces have the clocks `clocks`: its body in its frame. A section
/// header is written in its own byte order, whatever `e` is.
pub open spec fn block_bytes(block: BlockView, e: Endianness, clocks: Seq<InterfaceClock>) -> Result<
    Seq<u8>,
    ErrorKind,
> {
    framed(order_of(block, e), type_code(block), block_body(block, e, clocks))
}

/// Parses the body `body` as a block of the kind `B`.
fn typed<B: PcapNgBlock>(e: Endianness, state: &PcapNgState, body: &[u8]) -> (r: Result<Block, PcapError>)
    ensures
        converted(r, as_block::<B>(B::body_of(e, state@.clocks, body@))),
{
    match B::from_slice(e, state, body) {
        Ok((_, block)) => Ok(block.into_block()),
        Err(PcapError::IncompleteBuffer) => Err(PcapError::InvalidField("Block: body too short")),
        Err(err) => Err(err),
    }
}

/// Writes the block `block` of the type `block_code`: its body is written
/// apart, so that its length is known before the block begins.
fn inner_write_to<B: PcapNgBlock>(
    e: Endianness,
    state: &PcapNgState,
    block: &B,
    block_code: u32,
    writer: &mut Vec<u8>,
) -> (r: Result<usize, PcapError>)
    ensures
        emitted(
            r,
            old(writer)@,
            final(writer)@,
            framed(e, block_code, B::body_bytes(block@, e, state@.clocks)),
        ),
{
    let mut body: Vec<u8> = Vec::new();
    let data_len = match block.write_to(e, state, &mut body) {
        Ok(n) => n,
        Err(err) => { return Err(err); },
    };
    assert(body@ =~= B::body_bytes(block@, e, state@.clocks).unwrap());
    let pad_len = padding(data_len);
    if data_len > 0xFFFF_FFF0 {
        return Err(PcapError::InvalidField("Block: longer than 4 GiB"));
    }
    let block_len = data_len + pad_len + 12;
    if block_len > u32::MAX as usize {
        return Err(PcapError::InvalidField("Block: longer than 4 GiB"));
    }
    let before = writer.len();
    write_u32(e, writer, block_code);
    write_u32(e, writer, block_len as u32);
    write_bytes(writer, body.as_slice());
    write_zeros(writer, pad_len);
    write_u32(e, writer, block_len as u32);
    proof {
        broadcast use group_codec;

        assert(writer@ =~= old(writer)@ + frame(e, block_code, body@).unwrap());
        assert(frame(e, block_code, body@).unwrap().len() == block_len);
    }
    Ok(block_len)
}

impl Block {
    /// Parses a [`Block`] from a slice, using a [`PcapNgState`].
    pub fn from_slice<'a>(e: Endianness, state: &PcapNgState, slice: &'a [u8]) -> (r: Result<
        (&'a [u8], Block),
        PcapError,
    >)
        ensures
            parsed(r, slice@, block_of_bytes(e, state@.clocks, slice@)),
    {
        let (rem, raw_block) = match RawBlock::from_slice(e, slice) {
            Ok(v) => v,
            Err(err) => { return Err(err); },
        };
        match Block::try_from_raw_block(e, state, raw_block) {
            Ok(block) => Ok((rem, block)),
            Err(err) => Err(err),
        }
    }

    /// Writes a [`Block`] to a writer, using a [`PcapNgState`]; nothing is
    /// written where the block cannot be.
    pub fn write_to(&self, e: Endianness, state: &PcapNgState, writer: &mut Vec<u8>) -> (r: Result<
        usize,
        PcapError,
    >)
        ensures
            emitted(r, old(writer)@, final(writer)@, block_bytes(self@, e, state@.clocks)),
    {
        match self {
            Block::SectionHeader(b) => {
                let own = b.endianness;
                proof {
                    assert(SectionHeaderBlock::body_bytes(b@, own, state@.clocks)
                        == SectionHeaderBlock::body_bytes(b@, e, state@.clocks));
                }
                inner_write_to(own, state, b, SECTION_HEADER_BLOCK, writer)
            },
            Block::InterfaceDescription(b) => inner_write_to(
                e,
                state,
                b,
                INTERFACE_DESCRIPTION_BLOCK,
                writer,
            ),
            Block::Packet(b) => inner_write_to(e, state, b, PACKET_BLOCK, writer),
            Block::SimplePacket(b) => inner_write_to(e, state, b, SIMPLE_PACKET_BLOCK, writer),
            Block::NameResolution(b) => inner_write_to(e, state, b, NAME_RESOLUTION_BLOCK, writer),
            Block::InterfaceStatistics(b) => inner_write_to(
                e,
                state,
                b,
                INTERFACE_STATISTIC_BLOCK,
                writer,
            ),
            Block::EnhancedPacket(b) => inner_write_to(e, state, b, ENHANCED_PACKET_BLOCK, writer),
            Block::SystemdJournalExport(b) => inner_write_to(
                e,
                state,
                b,
                SYSTEMD_JOURNAL_EXPORT_BLOCK,
                writer,
            ),
            Block::CustomCopiable(b) => inner_write_to(e, state, b, CUSTOM_BLOCK_COPIABLE, writer),
            Block::CustomNonCopiable(b) => inner_write_to(
                e,
                state,
                b,
                CUSTOM_BLOCK_NON_COPIABLE,
                writer,
            ),
            Block::Unknown(b) => inner_write_to(e, state, b, b.type_, writer),
        }
    }

    /// Tries to create a [`Block`] from a [`RawBlock`], given a [`PcapNgState`].
    pub fn try_from_raw_block(e: Endianness, state: &PcapNgState, raw_block: RawBlock) -> (r: Result<
        Block,
        PcapError,
    >)
        ensures
            converted(r, typed_of(e, state@.clocks, raw_block@)),
    {
        Block::try_from_raw_parts(
            e,
            state,
            raw_block.type_,
            raw_block.initial_len,
            raw_block.body.as_slice(),
        )
    }

    /// Tries to create a [`Block`] from the type, the length and the body of
    /// a raw block, given a [`PcapNgState`].
    pub fn try_from_raw_parts(
        e: Endianness,
        state: &PcapNgState,
        type_: u32,
        initial_len: u32,
        body: &[u8],
    ) -> (r: Result<Block, PcapError>)
        ensures
            converted(
                r,
                typed_of(
                    e,
                    state@.clocks,
                    RawBlockView { type_, initial_len, body: body@, trailer_len: initial_len },
                ),
            ),
    {
        if type_ == SECTION_HEADER_BLOCK {
            typed::<SectionHeaderBlock>(e, state, body)
        } else if type_ == INTERFACE_DESCRIPTION_BLOCK {
            typed::<InterfaceDescriptionBlock>(e, state, body)
        } else if type_ == PACKET_BLOCK {
            typed::<PacketBlock>(e, state, body)
        } else if type_ == SIMPLE_PACKET_BLOCK {
            typed::<SimplePacketBlock>(e, state, body)
        } else if type_ == NAME_RESOLUTION_BLOCK {
            typed::<NameResolutionBlock>(e, state, body)
        } else if type_ == INTERFACE_STATISTIC_BLOCK {
            typed::<InterfaceStatisticsBlock>(e, state, body)
        } else if type_ == ENHANCED_PACKET_BLOCK {
            typed::<EnhancedPacketBlock>(e, state, body)
        } else if type_ == SYSTEMD_JOURNAL_EXPORT_BLOCK {
            typed::<SystemdJournalExportBlock>(e, state, body)
        } else if type_ == CUSTOM_BLOCK_COPIABLE {
            typed::<CustomBlock<true>>(e, state, body)
        } else if type_ == CUSTOM_BLOCK_NON_COPIABLE {
            typed::<CustomBlock<false>>(e, state, body)
        } else {
            Ok(Block::Unknown(UnknownBlock::new(type_, initial_len, body)))
        }
    }

    /// Tries to downcast the current block into an [`EnhancedPacketBlock`]
    pub fn into_enhanced_packet(self) -> (r: Option<EnhancedPacketBlock>)
        ensures
            match r {
                Some(b) => self@ == BlockView::EnhancedPacket(b@),
                None => !(self is EnhancedPacket),
            },
    {
        match self {
            Block::EnhancedPacket(a) => Some(a),
            _ => None,
        }
    }

    /// Tries to downcast the current block as an [`EnhancedPacketBlock`]
    pub fn as_enhanced_packet(&self) -> (r: Option<&EnhancedPacketBlock>)
        ensures
            match r {
                Some(b) => self@ == BlockView::EnhancedPacket(b@),
                None => !(self is EnhancedPacket),
            },
    {
        match self {
            Block::EnhancedPacket(a) => Some(a),
            _ => None,
        }
    }

    /// Tries to downcast the current block into an [`InterfaceDescriptionBlock`]
    pub fn into_interface_description(self) -> (r: Option<InterfaceDescriptionBlock>)
        ensures
            match r {
                Some(b) => self@ == BlockView::InterfaceDescription(b@),
                None => !(self is InterfaceDescription),
            },
    {
        match self {
            Block::InterfaceDescription(a) => Some(a),
            _ => None,
        }
    }

    /// Tries to downcast the current block as an [`InterfaceDescriptionBlock`]
    pub fn as_interface_description(&self) -> (r: Option<&InterfaceDescriptionBlock>)
        ensures
            match r {
                Some(b) => self@ == BlockView::InterfaceDescription(b@),
                None => !(self is InterfaceDescription),
            },
    {
        match self {
            Block::InterfaceDescription(a) => Some(a),
            _ => None,
        }
    }

    /// Tries to downcast the current block into an [`InterfaceStatisticsBlock`]
    pub fn into_interface_statistics(self) -> (r: Option<InterfaceStatisticsBlock>)
        ensures
            match r {
                Some(b) => self@ == BlockView::InterfaceStatistics(b@),
                None => !(self is InterfaceStatistics),
            },
    {
        match self {
            Block::InterfaceStatistics(a) => Some(a),
            _ => None,
        }
    }

    /// Tries to downcast the current block as an [`InterfaceStatisticsBlock`]
    pub fn as_interface_statistics(&self) -> (r: Option<&InterfaceStatisticsBlock>)
        ensures
            match r {
                Some(b) => self@ == BlockView::InterfaceStatistics(b@),
                None => !(self is InterfaceStatistics),
            },
    {
        match self {
            Block::InterfaceStatistics(a) => Some(a),
            _ => None,
        }
    }

    /// Tries to downcast the current block into a [`NameResolutionBlock`]
    pub fn into_name_resolution(self) -> (r: Option<NameResolutionBlock>)
        ensures
            match r {
                Some(b) => self@ == BlockView::NameResolution(b@),
                None => !(self is NameResolution),
            },
    {
        match self {
            Block::NameResolution(a) => Some(a),
            _ => None,
        }
    }

    /// Tries to downcast the current block as a [`NameResolutionBlock`]
    pub fn as_name_resolution(&self) -> (r: Option<&NameResolutionBlock>)
        ensures
            match r {
                Some(b) => self@ == BlockView::NameResolution(b@),
                None => !(self is NameResolution),
            },
    {
        match self {
            Block::NameResolution(a) => Some(a),
            _ => None,
        }
    }

    /// Tries to downcast the current block into a [`PacketBlock`]
    pub fn into_packet(self) -> (r: Option<PacketBlock>)
        ensures
            match r {
                Some(b) => self@ == BlockView::Packet(b@),
                None => !(self is Packet),
            },
    {
        match self {
            Block::Packet(a) => Some(a),
            _ => None,
        }
    }

    /// Tries to downcast the current block as a [`PacketBlock`]
    pub fn as_packet(&self) -> (r: Option<&PacketBlock>)
        ensures
            match r {
                Some(b) => self@ == BlockView::Packet(b@),
                None => !(self is Packet),
            },
    {
        match self {
            Block::Packet(a) => Some(a),
            _ => None,
        }
    }

    /// Tries to downcast the current block into a [`SectionHeaderBlock`]
    pub fn into_section_header(self) -> (r: Option<SectionHeaderBlock>)
        ensures
            match r {
                Some(b) => self@ == BlockView::SectionHeader(b@),
                None => !(self is SectionHeader),
            },
    {
        match self {
            Block::SectionHeader(a) => Some(a),
            _ => None,
        }
    }

    /// Tries to downcast the current block as a [`SectionHeaderBlock`]
    pub fn as_section_header(&self) -> (r: Option<&SectionHeaderBlock>)
        ensures
            match r {
                Some(b) => self@ == BlockView::SectionHeader(b@),
                None => !(self is SectionHeader),
            },
    {
        match self {
            Block::SectionHeader(a) => Some(a),
            _ => None,
        }
    }

    /// Tries to downcast the current block into a [`SimplePacketBlock`]
    pub fn into_simple_packet(self) -> (r: Option<SimplePacketBlock>)
        ensures
            match r {
                Some(b) => self@ == BlockView::SimplePacket(b@),
                None => !(self is SimplePacket),
            },
    {
        match self {
            Block::SimplePacket(a) => Some(a),
            _ => None,
        }
    }

    /// Tries to downcast the current block as a [`SimplePacketBlock`]
    pub fn as_simple_packet(&self) -> (r: Option<&SimplePacketBlock>)
        ensures
            match r {
                Some(b) => self@ == BlockView::SimplePacket(b@),
                None => !(self is SimplePacket),
            },
    {
        match self {
            Block::SimplePacket(a) => Some(a),
            _ => None,
        }
    }

    /// Tries to downcast the current block into a [`SystemdJournalExportBlock`]
    pub fn into_systemd_journal_export(self) -> (r: Option<SystemdJournalExportBlock>)
        ensures
            match r {
                Some(b) => self@ == BlockView::SystemdJournalExport(b@),
                None => !(self is SystemdJournalExport),
            },
    {
        match self {
            Block::SystemdJournalExport(a) => Some(a),
            _ => None,
        }
    }

    /// Tries to downcast the current block as a [`SystemdJournalExportBlock`]
    pub fn as_systemd_journal_export(&self) -> (r: Option<&SystemdJournalExportBlock>)
        ensures
            match r {
                Some(b) => self@ == BlockView::SystemdJournalExport(b@),
                None => !(self is SystemdJournalExport),
            },
    {
        match self {
            Block::SystemdJournalExport(a) => Some(a),
            _ => None,
        }
    }

    /// Tries to downcast the current block into a copiable [`CustomBlock`]
    pub fn into_custom_copiable(self) -> (r: Option<CustomBlock<true>>)
        ensures
            match r {
                Some(b) => self@ == BlockView::CustomCopiable(b@),
                None => !(self is CustomCopiable),
            },
    {
        match self {
            Block::CustomCopiable(a) => Some(a),
            _ => None,
        }
    }

    /// Tries to downcast the current block as a copiable [`CustomBlock`]
    pub fn as_custom_copiable(&self) -> (r: Option<&CustomBlock<true>>)
        ensures
            match r {
                Some(b) => self@ == BlockView::CustomCopiable(b@),
                None => !(self is CustomCopiable),
            },
    {
        match self {
            Block::CustomCopiable(a) => Some(a),
            _ => None,
        }
    }

    /// Tries to downcast the current block into a non-copiable [`CustomBlock`]
    pub fn into_custom_non_copiable(self) -> (r: Option<CustomBlock<false>>)
        ensures
            match r {
                Some(b) => self@ == BlockView::CustomNonCopiable(b@),
                None => !(self is CustomNonCopiable),
            },
    {
        match self {
            Block::CustomNonCopiable(a) => Some(a),
            _ => None,
        }
    }

    /// Tries to downcast the current block as a non-copiable [`CustomBlock`]
    pub fn as_custom_non_copiable(&self) -> (r: Option<&CustomBlock<false>>)
        ensures
            match r {
                Some(b) => self@ == BlockView::CustomNonCopiable(b@),
                None => !(self is CustomNonCopiable),
            },
    {
        match self {
            Block::CustomNonCopiable(a) => Some(a),
            _ => None,
        }
    }
}

/// The type of a section header reads alike in both byte orders.
pub proof fn lemma_section_type_reads_alike(e: Endianness, section: Endianness)
    ensures
        u32_at(section, bytes_u32(e, SECTION_HEADER_BLOCK), 0) == SECTION_HEADER_BLOCK,
{
    reveal(u32_at);
    reveal(bytes_u32);
}

/// Where the fields of a frame stand: the type, the length, the body and the
/// length again, and what follows the frame.
pub proof fn lemma_frame_fields(e: Endianness, type_: u32, body: Seq<u8>, tail: Seq<u8>)
    requires
        body.len() % 4 == 0,
        body.len() + 12 <= u32::MAX,
    ensures
        frame(e, type_, body) is Ok,
        ({
            let total = body.len() + 12;
            let s = frame(e, type_, body).unwrap() + tail;
            &&& frame(e, type_, body).unwrap().len() == total
            &&& s.subrange(0, 4) == bytes_u32(e, type_)
            &&& u32_at(e, s, 0) == type_
            &&& u32_at(e, s, 4) == total
            &&& u32_at(e, s, total - 4) == total
            &&& s.subrange(8, total - 4) == body
            &&& body.len() >= 4 ==> u32_at(Endianness::Big, s, 8) == u32_at(Endianness::Big, body, 0)
        }),
{
    broadcast use group_codec;

    let total = (body.len() + 12) as u32;
    let bytes = frame(e, type_, body).unwrap();
    let s = bytes + tail;
    let head = bytes_u32(e, type_) + bytes_u32(e, total);
    assert(zeros(0) =~= Seq::<u8>::empty());
    assert(bytes =~= head + body + bytes_u32(e, total));
    assert(s =~= head + (body + bytes_u32(e, total) + tail));
    assert(s =~= (head + body) + (bytes_u32(e, total) + tail));
    assert(u32_at(e, head, 0) == type_);
    assert(u32_at(e, head, 4) == total);
    assert(u32_at(e, s, total - 4) == total);
    assert(s.subrange(8, total - 4) =~= body);
    assert(s.subrange(0, 4) =~= bytes_u32(e, type_));
    if body.len() >= 4 {
        assert(s =~= head + (body + (bytes_u32(e, total) + tail)));
    }
}

/// A frame that was written is parsed back, whatever follows it: a body
/// that ends on a 32-bit boundary, in the frame of the type `type_` and in
/// the byte order `e`, is read as a raw block with that type and that body. A
/// section header is read so in a section of either byte order; its body must
/// start with the magic number of `e`.
pub proof fn lemma_frame_read_back(
    e: Endianness,
    section: Endianness,
    type_: u32,
    body: Seq<u8>,
    tail: Seq<u8>,
)
    requires
        body.len() % 4 == 0,
        body.len() + 12 <= u32::MAX,
        type_ == SECTION_HEADER_BLOCK ==> body.len() >= 4 && byte_order_of(body) == Some(e),
        type_ != SECTION_HEADER_BLOCK ==> section == e,
    ensures
        frame(e, type_, body) is Ok,
        frame(e, type_, body).unwrap().len() == body.len() + 12,
        raw_block_of(section, frame(e, type_, body).unwrap() + tail) == Ok::<
            (RawBlockView, int),
            ErrorKind,
        >(
            (
                RawBlockView {
                    type_,
                    initial_len: (body.len() + 12) as u32,
                    body,
                    trailer_len: (body.len() + 12) as u32,
                },
                body.len() as int + 12,
            ),
        ),
{
    lemma_frame_fields(e, type_, body, tail);
    let s = frame(e, type_, body).unwrap() + tail;
    if type_ == SECTION_HEADER_BLOCK {
        lemma_section_type_reads_alike(e, section);
        assert(u32_at(section, s, 0) == type_) by {
            crate::codec::lemma_u32_at_subrange(section, s, 0, 4, 0);
        }
    }
}

/// A block that was parsed, in whatever byte order, and whose body can be
/// written is parsed again as itself from the body that is written, in every
/// byte order; and every parsed block but the name resolution block can be
/// written so.
pub proof fn lemma_typed_round_trip(
    e: Endianness,
    other: Endianness,
    clocks: Seq<InterfaceClock>,
    raw: RawBlockView,
)
    requires
        ticking(clocks),
        raw.body.len() % 4 == 0,
        raw.initial_len == raw.body.len() + 12,
        typed_of(e, clocks, raw) is Ok,
    ensures
        ({
            let block = typed_of(e, clocks, raw).unwrap();
            &&& !(block is NameResolution) ==> block_body(block, other, clocks) is Ok
            &&& block_body(block, other, clocks) matches Ok(body) ==> {
                &&& body.len() % 4 == 0
                &&& body.len() + 12 <= u32::MAX ==> typed_of(
                    other,
                    clocks,
                    RawBlockView {
                        type_: type_code(block),
                        initial_len: (body.len() + 12) as u32,
                        body,
                        trailer_len: (body.len() + 12) as u32,
                    },
                ) == Ok::<BlockView, ErrorKind>(block)
                &&& block matches BlockView::SectionHeader(b) ==> body.len() >= 16 && byte_order_of(body)
                    == Some(b.endianness)
            }
        }),
{
    let s = raw.body;
    if raw.type_ == SECTION_HEADER_BLOCK {
        lemma_section_header_round_trip(e, other, clocks, s);
    } else if raw.type_ == INTERFACE_DESCRIPTION_BLOCK {
        lemma_interface_description_round_trip(e, other, clocks, s);
    } else if raw.type_ == PACKET_BLOCK {
        lemma_packet_round_trip(e, other, clocks, s);
    } else if raw.type_ == SIMPLE_PACKET_BLOCK {
        lemma_simple_packet_round_trip(e, other, clocks, s);
    } else if raw.type_ == NAME_RESOLUTION_BLOCK {
        let block = NameResolutionBlock::body_of(e, clocks, s).unwrap().0;
        if NameResolutionBlock::body_bytes(block, other, clocks) is Ok {
            lemma_name_resolution_round_trip(e, other, clocks, s);
        }
    } else if raw.type_ == INTERFACE_STATISTIC_BLOCK {
        lemma_interface_statistics_round_trip(e, other, clocks, s);
    } else if raw.type_ == ENHANCED_PACKET_BLOCK {
        lemma_enhanced_packet_round_trip(e, other, clocks, s);
    } else if raw.type_ == SYSTEMD_JOURNAL_EXPORT_BLOCK {
        lemma_journal_round_trip(e, other, clocks, s);
    } else if raw.type_ == CUSTOM_BLOCK_COPIABLE {
        lemma_custom_round_trip::<true>(e, other, clocks, s);
    } else if raw.type_ == CUSTOM_BLOCK_NON_COPIABLE {
        lemma_custom_round_trip::<false>(e, other, clocks, s);
    }
}

/// What a raw block that was parsed holds: a body that ends on a 32-bit
/// boundary, and the length of the body and its frame, twice.
pub proof fn lemma_raw_block_lengths(e: Endianness, s: Seq<u8>)
    requires
        raw_block_of(e, s) is Ok,
    ensures
        ({
            let (raw, n) = raw_block_of(e, s).unwrap();
            &&& raw.body.len() % 4 == 0
            &&& raw.initial_len == raw.body.len() + 12
            &&& raw.trailer_len == raw.initial_len
            &&& n == raw.initial_len
            &&& 12 <= n <= s.len()
        }),
{
}

/// A block that was parsed from a stream, in whatever byte order, and is
/// written again, in whatever byte order, is parsed from what is written as
/// the same block, whatever follows it. And every block that was parsed can
/// be written, unless its new body is too long for a block or it is a name
/// resolution block.
pub proof fn lemma_block_round_trip(
    e: Endianness,
    other: Endianness,
    clocks: Seq<InterfaceClock>,
    s: Seq<u8>,
    tail: Seq<u8>,
)
    requires
        ticking(clocks),
        block_of_bytes(e, clocks, s) is Ok,
    ensures
        ({
            let block = block_of_bytes(e, clocks, s).unwrap().0;
            &&& block_bytes(block, other, clocks) matches Ok(bytes) ==> block_of_bytes(
                other,
                clocks,
                bytes + tail,
            ) == Ok::<(BlockView, int), ErrorKind>((block, bytes.len() as int))
            &&& !(block is NameResolution) ==> block_body(block, other, clocks) is Ok && (block_bytes(
                block,
                other,
                clocks,
            ) is Ok <==> block_body(block, other, clocks).unwrap().len() + 12 <= u32::MAX)
        }),
{
    lemma_raw_block_lengths(e, s);
    let raw = raw_block_of(e, s).unwrap().0;
    lemma_typed_round_trip(e, other, clocks, raw);
    let block = typed_of(e, clocks, raw).unwrap();
    if block_bytes(block, other, clocks) is Ok {
        let body = block_body(block, other, clocks).unwrap();
        lemma_frame_read_back(order_of(block, other), other, type_code(block), body, tail);
    }
}

/// The byte order in which the lengths of the block at the start of `s` are
/// read in a section of the byte order `e`: that of the section, but for a
/// section header, which tells its own by its magic number, if it tells one.
pub open spec fn length_order(e: Endianness, s: Seq<u8>) -> Option<Endianness> {
    if u32_at(e, s, 0) == SECTION_HEADER_BLOCK {
        let magic = u32_at(Endianness::Big, s, 8);
        if magic == 0x1A2B3C4D {
            Some(Endianness::Big)
        } else if magic == 0x4D3C2B1A {
            Some(Endianness::Little)
        } else {
            None
        }
    } else {
        Some(e)
    }
}

/// A block whose length is no multiple of 4 is rejected as an invalid field,
/// and so is one whose length is below 12.
pub proof fn lemma_unaligned_length_is_rejected(e: Endianness, clocks: Seq<InterfaceClock>, s: Seq<u8>)
    requires
        s.len() >= 12,
        length_order(e, s) matches Some(order) && (u32_at(order, s, 4) % 4 != 0 || u32_at(
            order,
            s,
            4,
        ) < 12),
    ensures
        raw_block_of(e, s) == Err::<(RawBlockView, int), ErrorKind>(ErrorKind::InvalidField),
        block_of_bytes(e, clocks, s) == Err::<(BlockView, int), ErrorKind>(ErrorKind::InvalidField),
{
}

/// A block whose length behind the body is not the length before it is
/// rejected as an invalid field.
pub proof fn lemma_mismatched_lengths_are_rejected(e: Endianness, clocks: Seq<InterfaceClock>, s: Seq<u8>)
    requires
        s.len() >= 12,
        length_order(e, s) matches Some(order) && u32_at(order, s, 4) <= s.len() && u32_at(
            order,
            s,
            u32_at(order, s, 4) - 4,
        ) != u32_at(order, s, 4),
    ensures
        raw_block_of(e, s) == Err::<(RawBlockView, int), ErrorKind>(ErrorKind::InvalidField),
        block_of_bytes(e, clocks, s) == Err::<(BlockView, int), ErrorKind>(ErrorKind::InvalidField),
{
}

/// A section header whose magic number is none of the two is rejected as
/// an invalid field.
pub proof fn lemma_unknown_magic_is_rejected(e: Endianness, clocks: Seq<InterfaceClock>, s: Seq<u8>)
    requires
        s.len() >= 12,
        u32_at(e, s, 0) == SECTION_HEADER_BLOCK,
        u32_at(Endianness::Big, s, 8) != 0x1A2B3C4D,
        u32_at(Endianness::Big, s, 8) != 0x4D3C2B1A,
    ensures
        raw_block_of(e, s) == Err::<(RawBlockView, int), ErrorKind>(ErrorKind::InvalidField),
        block_of_bytes(e, clocks, s) == Err::<(BlockView, int), ErrorKind>(ErrorKind::InvalidField),
{
}

/// The body of a block is judged by itself: a body that ends too early makes
/// an invalid block, never an incomplete one.
pub proof fn lemma_typed_is_complete(e: Endianness, clocks: Seq<InterfaceClock>, raw: RawBlockView)
    ensures
        typed_of(e, clocks, raw) != Err::<BlockView, ErrorKind>(ErrorKind::IncompleteBuffer),
{
}

/// More bytes behind a block change nothing: what the bytes `s` start with,
/// be it a block or an invalid one, the bytes `s` with `more` behind them
/// start with. Only a block that is incomplete may become something else.
pub proof fn lemma_raw_block_prefix(e: Endianness, s: Seq<u8>, more: Seq<u8>)
    requires
        raw_block_of(e, s) != Err::<(RawBlockView, int), ErrorKind>(ErrorKind::IncompleteBuffer),
    ensures
        raw_block_of(e, s + more) == raw_block_of(e, s),
{
    broadcast use group_codec;

    let t = s + more;
    assert(s.len() >= 12);
    assert(u32_at(e, t, 0) == u32_at(e, s, 0));
    assert(u32_at(Endianness::Big, t, 8) == u32_at(Endianness::Big, s, 8));
    if length_order(e, s) is Some {
        let order = length_order(e, s).unwrap();
        let len = u32_at(order, s, 4);
        assert(u32_at(order, t, 4) == len);
        if len % 4 == 0 && len >= 12 {
            assert(s.len() >= len);
            assert(u32_at(order, t, len - 4) == u32_at(order, s, len - 4));
            assert(t.subrange(8, len - 4) =~= s.subrange(8, len - 4));
        }
    }
}

/// More bytes behind a block change nothing, for the block that is parsed
/// from it as for its frame.
pub proof fn lemma_block_prefix(e: Endianness, clocks: Seq<InterfaceClock>, s: Seq<u8>, more: Seq<u8>)
    requires
        block_of_bytes(e, clocks, s) != Err::<(BlockView, int), ErrorKind>(
            ErrorKind::IncompleteBuffer,
        ),
    ensures
        block_of_bytes(e, clocks, s + more) == block_of_bytes(e, clocks, s),
{
    if raw_block_of(e, s) is Ok {
        lemma_typed_is_complete(e, clocks, raw_block_of(e, s).unwrap().0);
    }
    lemma_raw_block_prefix(e, s, more);
}

/// A block has the length that it declares: a block that is parsed takes
/// as many bytes as its first twelve bytes declare, and a length that is
/// refused is refused of the block.
pub proof fn lemma_declared_len(e: Endianness, s: Seq<u8>)
    requires
        s.len() >= 12,
    ensures
        declared_len(e, s.subrange(0, 12)) == declared_len(e, s),
        raw_block_of(e, s) matches Ok((_, n)) ==> declared_len(e, s) == Ok::<int, ErrorKind>(n),
        declared_len(e, s) matches Err(k) ==> raw_block_of(e, s) == Err::<
            (RawBlockView, int),
            ErrorKind,
        >(k),
{
    broadcast use group_codec;

    let head = s.subrange(0, 12);
    assert(u32_at(e, head, 0) == u32_at(e, s, 0));
    assert(u32_at(Endianness::Big, head, 8) == u32_at(Endianness::Big, s, 8));
    assert(u32_at(Endianness::Big, head, 4) == u32_at(Endianness::Big, s, 4));
    assert(u32_at(Endianness::Little, head, 4) == u32_at(Endianness::Little, s, 4));
}

/// The byte order does not matter to what is kept: a block that was parsed,
/// in whatever byte order, and is written in big endian and in little
/// endian is parsed from either as the same block.
pub proof fn lemma_either_byte_order(e: Endianness, clocks: Seq<InterfaceClock>, s: Seq<u8>)
    requires
        ticking(clocks),
        block_of_bytes(e, clocks, s) is Ok,
    ensures
        ({
            let block = block_of_bytes(e, clocks, s).unwrap().0;
            &&& block_bytes(block, Endianness::Big, clocks) matches Ok(bytes) ==> block_of_bytes(
                Endianness::Big,
                clocks,
                bytes,
            ) == Ok::<(BlockView, int), ErrorKind>((block, bytes.len() as int))
            &&& block_bytes(block, Endianness::Little, clocks) matches Ok(bytes) ==> block_of_bytes(
                Endianness::Little,
                clocks,
                bytes,
            ) == Ok::<(BlockView, int), ErrorKind>((block, bytes.len() as int))
        }),
{
    let block = block_of_bytes(e, clocks, s).unwrap().0;
    lemma_block_round_trip(e, Endianness::Big, clocks, s, Seq::empty());
    lemma_block_round_trip(e, Endianness::Little, clocks, s, Seq::empty());
    if block_bytes(block, Endianness::Big, clocks) is Ok {
        let bytes = block_bytes(block, Endianness::Big, clocks).unwrap();
        assert(bytes + Seq::<u8>::empty() =~= bytes);
    }
    if block_bytes(block, Endianness::Little, clocks) is Ok {
        let bytes = block_bytes(block, Endianness::Little, clocks).unwrap();
        assert(bytes + Seq::<u8>::empty() =~= bytes);
    }
}

/// A raw block that was parsed is written back as the bytes it came from,
/// in the byte order in which its lengths were read.
pub proof fn lemma_raw_block_write_back(e: Endianness, s: Seq<u8>)
    requires
        raw_block_of(e, s) is Ok,
    ensures
        length_order(e, s) is Some,
        (length_order(e, s) == Some(e) || u32_at(e, s, 0) == SECTION_HEADER_BLOCK),
        ({
            let (raw, n) = raw_block_of(e, s).unwrap();
            raw_block_bytes(length_order(e, s).unwrap(), raw) == s.subrange(0, n)
        }),
{
    broadcast use group_codec;

    let (raw, n) = raw_block_of(e, s).unwrap();
    let order = length_order(e, s).unwrap();
    assert(bytes_u32(order, raw.type_) == s.subrange(0, 4)) by {
        if u32_at(e, s, 0) == SECTION_HEADER_BLOCK {
            assert(bytes_u32(e, u32_at(e, s, 0)) == s.subrange(0, 4));
            assert(bytes_u32(order, SECTION_HEADER_BLOCK) == bytes_u32(e, SECTION_HEADER_BLOCK)) by {
                reveal(bytes_u32);
            }
        }
    }
    assert(raw_block_bytes(order, raw) =~= s.subrange(0, 4) + s.subrange(4, 8) + s.subrange(8, n - 4)
        + s.subrange(n - 4, n));
    assert(raw_block_bytes(order, raw) =~= s.subrange(0, n));
}

} // verus!
