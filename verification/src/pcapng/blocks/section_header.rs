//! Section Header Block.

use vstd::prelude::*;
use vstd::slice::{slice_subrange, slice_to_vec};

use crate::codec::{
    bytes_u16, bytes_u32, group_codec, read_u16, read_u32, text_bytes, u16_at, u32_at,
    write_bytes, write_u16, write_u32,
};
use crate::common::Endianness;
use crate::errors::{parsed, ErrorKind, PcapError};
use crate::pcapng::blocks::block_common::{Block, BlockView, PcapNgBlock};
use crate::pcapng::blocks::opt_common::{
    common_of, common_raw_of, duplicate_all, lemma_common_is_stable, lemma_opts_round_trip,
    lemma_parsed_opts_are_stable, opts_bytes, opts_from_slice, opts_of, opts_to_vec,
    text_from_slice, text_value_of, views, CommonOption, CommonOptionView, Duplicate,
    PcapNgOption,
};
use crate::pcapng::state::{ticking, InterfaceClock, PcapNgState};
use crate::codec::{bytes_i64, i64_at, read_i64, write_i64};

verus! {

/// The magic number of a section header, as the section's own byte order
/// reads it.
pub const BYTE_ORDER_MAGIC: u32 = 0x1A2B3C4D;

/// Section Header Block: it defines the most important characteristics of the capture file.
#[derive(Debug, PartialEq, Eq)]
pub struct SectionHeaderBlock {
    /// Endianness of the section.
    pub endianness: Endianness,
    /// Major version of the format.
    /// Current value is 1.
    pub major_version: u16,
    /// Minor version of the format.
    /// Current value is 0.
    pub minor_version: u16,
    /// Length in bytes of the following section excluding this block.
    ///
    /// This block can be used to skip the section for faster navigation in
    /// large files. Length of -1i64 means that the length is unspecified.
    pub section_length: i64,
    /// Options
    pub options: Vec<SectionHeaderOption>,
}

/// What a `SectionHeaderBlock` holds.
pub struct SectionHeaderBlockView {
    /// Endianness of the section.
    pub endianness: Endianness,
    /// Major version of the format.
    pub major_version: u16,
    /// Minor version of the format.
    pub minor_version: u16,
    /// Length in bytes of the following section excluding this block.
    pub section_length: i64,
    /// Options
    pub options: Seq<SectionHeaderOptionView>,
}

impl View for SectionHeaderBlock {
    type V = SectionHeaderBlockView;

    open spec fn view(&self) -> SectionHeaderBlockView {
        SectionHeaderBlockView {
            endianness: self.endianness,
            major_version: self.major_version,
            minor_version: self.minor_version,
            section_length: self.section_length,
            options: views(self.options@),
        }
    }
}

impl Duplicate for SectionHeaderBlock {
    fn duplicate(&self) -> (r: SectionHeaderBlock) {
        SectionHeaderBlock {
            endianness: self.endianness,
            major_version: self.major_version,
            minor_version: self.minor_version,
            section_length: self.section_length,
            options: duplicate_all(&self.options),
        }
    }
}

impl Clone for SectionHeaderBlock {
    fn clone(&self) -> (r: SectionHeaderBlock)
        ensures
            r@ == self@,
    {
        self.duplicate()
    }
}

/// The byte order that the magic number at the start of the body `s` tells,
/// if it is one of the two.
pub open spec fn byte_order_of(s: Seq<u8>) -> Option<Endianness> {
    let magic = u32_at(Endianness::Big, s, 0);
    if magic == 0x1A2B3C4D {
        Some(Endianness::Big)
    } else if magic == 0x4D3C2B1A {
        Some(Endianness::Little)
    } else {
        None
    }
}

/// The default section header in the byte order `endianness`: version 1.0,
/// a length that is not told, no options.
pub open spec fn default_section(endianness: Endianness) -> SectionHeaderBlockView {
    SectionHeaderBlockView {
        endianness,
        major_version: 1,
        minor_version: 0,
        section_length: -1i64,
        options: Seq::empty(),
    }
}

impl PcapNgBlock for SectionHeaderBlock {
    /// The magic number, which tells the byte order of all that follows,
    /// whatever `e` is; the two parts of the version; the length of the
    /// section; and the options.
    open spec fn body_of(e: Endianness, clocks: Seq<InterfaceClock>, s: Seq<u8>) -> Result<
        (SectionHeaderBlockView, int),
        ErrorKind,
    > {
        if s.len() < 16 {
            Err(ErrorKind::InvalidField)
        } else {
            match byte_order_of(s) {
                None => Err(ErrorKind::InvalidField),
                Some(endianness) => match opts_of::<SectionHeaderOption>(
                    endianness,
                    clocks,
                    None,
                    s.subrange(16, s.len() as int),
                ) {
                    Err(k) => Err(k),
                    Ok((options, n)) => Ok(
                        (
                            SectionHeaderBlockView {
                                endianness,
                                major_version: u16_at(endianness, s, 4),
                                minor_version: u16_at(endianness, s, 6),
                                section_length: i64_at(endianness, s, 8),
                                options,
                            },
                            16 + n,
                        ),
                    ),
                },
            }
        }
    }

    /// All of it in the byte order of the block itself, whatever `e` is.
    open spec fn body_bytes(block: SectionHeaderBlockView, e: Endianness, clocks: Seq<InterfaceClock>) -> Result<
        Seq<u8>,
        ErrorKind,
    > {
        let own = block.endianness;
        match opts_bytes::<SectionHeaderOption>(block.options, own, clocks, None) {
            Err(k) => Err(k),
            Ok(options) => Ok(
                bytes_u32(own, 0x1A2B3C4D) + bytes_u16(own, block.major_version) + bytes_u16(
                    own,
                    block.minor_version,
                ) + bytes_i64(own, block.section_length) + options,
            ),
        }
    }

    open spec fn block_of(block: SectionHeaderBlockView) -> BlockView {
        BlockView::SectionHeader(block)
    }

    fn from_slice<'a>(e: Endianness, state: &PcapNgState, slice: &'a [u8]) -> (r: Result<
        (&'a [u8], SectionHeaderBlock),
        PcapError,
    >) {
        broadcast use group_codec;

        if slice.len() < 16 {
            return Err(PcapError::InvalidField("SectionHeaderBlock: block length < 16"));
        }
        let magic = read_u32(Endianness::Big, slice, 0).unwrap();
        let endianness = if magic == 0x1A2B3C4D {
            Endianness::Big
        } else if magic == 0x4D3C2B1A {
            Endianness::Little
        } else {
            return Err(PcapError::InvalidField("SectionHeaderBlock: invalid magic number"));
        };
        let major_version = read_u16(endianness, slice, 4).unwrap();
        let minor_version = read_u16(endianness, slice, 6).unwrap();
        let section_length = read_i64(endianness, slice, 8).unwrap();
        let tail = slice_subrange(slice, 16, slice.len());
        match opts_from_slice::<SectionHeaderOption>(endianness, state.clocks(), None, tail) {
            Ok((rest, options)) => {
                proof {
                    let n = opts_of::<SectionHeaderOption>(endianness, state@.clocks, None, tail@).unwrap().1;
                    assert(rest@ =~= slice@.subrange(16 + n, slice@.len() as int));
                }
                Ok(
                    (
                        rest,
                        SectionHeaderBlock {
                            endianness,
                            major_version,
                            minor_version,
                            section_length,
                            options,
                        },
                    ),
                )
            },
            Err(err) => Err(err),
        }
    }

    fn write_to(&self, e: Endianness, state: &PcapNgState, writer: &mut Vec<u8>) -> (r: Result<
        usize,
        PcapError,
    >) {
        match self.to_body(e, state.clocks()) {
            Ok(body) => {
                write_bytes(writer, body.as_slice());
                Ok(body.len())
            },
            Err(err) => Err(err),
        }
    }

    fn into_block(self) -> (r: Block) {
        Block::SectionHeader(self)
    }
}

impl SectionHeaderBlock {
    /// The default section header in the byte order `endianness`.
    pub fn with_endianness(endianness: Endianness) -> (r: SectionHeaderBlock)
        ensures
            r@ == default_section(endianness),
    {
        let r = SectionHeaderBlock {
            endianness,
            major_version: 1,
            minor_version: 0,
            section_length: -1,
            options: Vec::new(),
        };
        assert(r@.options =~= Seq::empty());
        r
    }

    /// The body of the block on the wire.
    pub fn to_body(&self, e: Endianness, clocks: &Vec<InterfaceClock>) -> (r: Result<Vec<u8>, PcapError>)
        ensures
            match (r, Self::body_bytes(self@, e, clocks@)) {
                (Ok(out), Ok(bytes)) => out@ == bytes,
                (Err(err), Err(k)) => err@ == k,
                _ => false,
            },
    {
        let own = self.endianness;
        let options = match opts_to_vec::<SectionHeaderOption>(&self.options, own, clocks, None) {
            Ok(bytes) => bytes,
            Err(err) => { return Err(err); },
        };
        let mut out: Vec<u8> = Vec::new();
        write_u32(own, &mut out, 0x1A2B3C4D);
        write_u16(own, &mut out, self.major_version);
        write_u16(own, &mut out, self.minor_version);
        write_i64(own, &mut out, self.section_length);
        write_bytes(&mut out, options.as_slice());
        assert(out@ =~= Self::body_bytes(self@, e, clocks@).unwrap());
        Ok(out)
    }
}

impl Default for SectionHeaderBlock {
    /// Big endian, version 1.0, a length that is not told, no options.
    fn default() -> (r: SectionHeaderBlock)
        ensures
            r@ == default_section(Endianness::Big),
    {
        SectionHeaderBlock::with_endianness(Endianness::Big)
    }
}

/// Section Header Block options
#[derive(Debug, PartialEq, Eq)]
pub enum SectionHeaderOption {
    /// Comment associated with the current block
    Comment(String),
    /// Description of the hardware used to create this section
    Hardware(String),
    /// Name of the operating system used to create this section
    OS(String),
    /// Name of the application used to create this section
    UserApplication(String),
    /// A common option applicable to any block type.
    Common(CommonOption),
}

/// What a `SectionHeaderOption` holds.
pub enum SectionHeaderOptionView {
    /// Comment associated with the current block
    Comment(Seq<char>),
    /// Description of the hardware used to create this section
    Hardware(Seq<char>),
    /// Name of the operating system used to create this section
    OS(Seq<char>),
    /// Name of the application used to create this section
    UserApplication(Seq<char>),
    /// A common option applicable to any block type.
    Common(CommonOptionView),
}

impl View for SectionHeaderOption {
    type V = SectionHeaderOptionView;

    open spec fn view(&self) -> SectionHeaderOptionView {
        match self {
            SectionHeaderOption::Comment(v) => SectionHeaderOptionView::Comment(v@),
            SectionHeaderOption::Hardware(v) => SectionHeaderOptionView::Hardware(v@),
            SectionHeaderOption::OS(v) => SectionHeaderOptionView::OS(v@),
            SectionHeaderOption::UserApplication(v) => SectionHeaderOptionView::UserApplication(v@),
            SectionHeaderOption::Common(v) => SectionHeaderOptionView::Common(v@),
        }
    }
}

impl Duplicate for SectionHeaderOption {
    fn duplicate(&self) -> (r: SectionHeaderOption) {
        match self {
            SectionHeaderOption::Comment(v) => SectionHeaderOption::Comment(v.clone()),
            SectionHeaderOption::Hardware(v) => SectionHeaderOption::Hardware(v.clone()),
            SectionHeaderOption::OS(v) => SectionHeaderOption::OS(v.clone()),
            SectionHeaderOption::UserApplication(v) => SectionHeaderOption::UserApplication(v.clone()),
            SectionHeaderOption::Common(v) => SectionHeaderOption::Common(v.duplicate()),
        }
    }
}

impl Clone for SectionHeaderOption {
    fn clone(&self) -> (r: SectionHeaderOption)
        ensures
            r@ == self@,
    {
        self.duplicate()
    }
}

impl PcapNgOption for SectionHeaderOption {
    open spec fn value_of(
        e: Endianness,
        clocks: Seq<InterfaceClock>,
        interface_id: Option<u32>,
        code: u16,
        length: u16,
        value: Seq<u8>,
    ) -> Result<SectionHeaderOptionView, ErrorKind> {
        if code == 1 {
            match text_value_of(value) {
                Ok(text) => Ok(SectionHeaderOptionView::Comment(text)),
                Err(k) => Err(k),
            }
        } else if code == 2 {
            match text_value_of(value) {
                Ok(text) => Ok(SectionHeaderOptionView::Hardware(text)),
                Err(k) => Err(k),
            }
        } else if code == 3 {
            match text_value_of(value) {
                Ok(text) => Ok(SectionHeaderOptionView::OS(text)),
                Err(k) => Err(k),
            }
        } else if code == 4 {
            match text_value_of(value) {
                Ok(text) => Ok(SectionHeaderOptionView::UserApplication(text)),
                Err(k) => Err(k),
            }
        } else {
            match common_of(e, code, length, value) {
                Ok(c) => Ok(SectionHeaderOptionView::Common(c)),
                Err(k) => Err(k),
            }
        }
    }

    open spec fn raw_of(
        opt: SectionHeaderOptionView,
        e: Endianness,
        clocks: Seq<InterfaceClock>,
        interface_id: Option<u32>,
    ) -> Result<(u16, Seq<u8>), ErrorKind> {
        match opt {
            SectionHeaderOptionView::Comment(v) => Ok((1, text_bytes(v))),
            SectionHeaderOptionView::Hardware(v) => Ok((2, text_bytes(v))),
            SectionHeaderOptionView::OS(v) => Ok((3, text_bytes(v))),
            SectionHeaderOptionView::UserApplication(v) => Ok((4, text_bytes(v))),
            SectionHeaderOptionView::Common(v) => Ok(common_raw_of(v, e)),
        }
    }

    fn from_slice(
        e: Endianness,
        clocks: &Vec<InterfaceClock>,
        interface_id: Option<u32>,
        code: u16,
        length: u16,
        slice: &[u8],
    ) -> (r: Result<SectionHeaderOption, PcapError>) {
        broadcast use group_codec;

        if code == 1 {
            match text_from_slice(slice) {
                Ok(text) => Ok(SectionHeaderOption::Comment(text)),
                Err(err) => Err(err),
            }
        } else if code == 2 {
            match text_from_slice(slice) {
                Ok(text) => Ok(SectionHeaderOption::Hardware(text)),
                Err(err) => Err(err),
            }
        } else if code == 3 {
            match text_from_slice(slice) {
                Ok(text) => Ok(SectionHeaderOption::OS(text)),
                Err(err) => Err(err),
            }
        } else if code == 4 {
            match text_from_slice(slice) {
                Ok(text) => Ok(SectionHeaderOption::UserApplication(text)),
                Err(err) => Err(err),
            }
        } else {
            match CommonOption::new(e, code, length, slice) {
                Ok(c) => Ok(SectionHeaderOption::Common(c)),
                Err(err) => Err(err),
            }
        }
    }

    fn to_raw(&self, e: Endianness, clocks: &Vec<InterfaceClock>, interface_id: Option<u32>) -> (r:
        Result<(u16, Vec<u8>), PcapError>) {
        match self {
            SectionHeaderOption::Comment(v) => Ok((1, slice_to_vec(v.as_str().as_bytes()))),
            SectionHeaderOption::Hardware(v) => Ok((2, slice_to_vec(v.as_str().as_bytes()))),
            SectionHeaderOption::OS(v) => Ok((3, slice_to_vec(v.as_str().as_bytes()))),
            SectionHeaderOption::UserApplication(v) => Ok((4, slice_to_vec(v.as_str().as_bytes()))),
            SectionHeaderOption::Common(v) => Ok(v.to_raw(e)),
        }
    }

    proof fn lemma_parsed_is_stable(
        e: Endianness,
        other: Endianness,
        clocks: Seq<InterfaceClock>,
        interface_id: Option<u32>,
        code: u16,
        value: Seq<u8>,
    ) {
        broadcast use group_codec;

        let opt = Self::value_of(e, clocks, interface_id, code, value.len() as u16, value).unwrap();
        let (c, v) = Self::raw_of(opt, other, clocks, interface_id).unwrap();
        if code == 1 {
            assert(v == value);
        } else if code == 2 {
            assert(v == value);
        } else if code == 3 {
            assert(v == value);
        } else if code == 4 {
            assert(v == value);
        } else {
            lemma_common_is_stable(e, other, code, value);
        }
    }
}

/// The magic number of a section, written in the byte order of the section,
/// tells that byte order.
pub proof fn lemma_byte_order_magic(own: Endianness, tail: Seq<u8>)
    ensures
        byte_order_of(bytes_u32(own, 0x1A2B3C4D) + tail) == Some(own),
{
    broadcast use group_codec;

    let magic = bytes_u32(own, 0x1A2B3C4D);
    assert(u32_at(Endianness::Big, magic + tail, 0) == u32_at(Endianness::Big, magic, 0));
    assert(u32_at(Endianness::Big, magic, 0) == match own {
        Endianness::Big => 0x1A2B3C4Du32,
        Endianness::Little => 0x4D3C2B1Au32,
    }) by {
        reveal(u32_at);
        reveal(bytes_u32);
    }
}

/// A block that was parsed from a body that ends on a 32-bit boundary, in
/// whatever byte order, can be written in every byte order; what is written
/// ends on a 32-bit boundary and is parsed as the same block again.
pub proof fn lemma_section_header_round_trip(
    e: Endianness,
    other: Endianness,
    clocks: Seq<InterfaceClock>,
    s: Seq<u8>,
)
    requires
        ticking(clocks),
        s.len() % 4 == 0,
        SectionHeaderBlock::body_of(e, clocks, s) is Ok,
    ensures
        ({
            let block = SectionHeaderBlock::body_of(e, clocks, s).unwrap().0;
            match SectionHeaderBlock::body_bytes(block, other, clocks) {
                Err(_) => false,
                Ok(bytes) => bytes.len() % 4 == 0 && SectionHeaderBlock::body_of(other, clocks, bytes) is Ok
                    && SectionHeaderBlock::body_of(other, clocks, bytes).unwrap().0 == block
                    && bytes.len() >= 16 && byte_order_of(bytes) == Some(block.endianness),
            }
        }),
{
    broadcast use group_codec;

    let block = SectionHeaderBlock::body_of(e, clocks, s).unwrap().0;
    let own = block.endianness;
    lemma_parsed_opts_are_stable::<SectionHeaderOption>(
        own,
        own,
        clocks,
        None,
        s.subrange(16, s.len() as int),
    );
    lemma_opts_round_trip::<SectionHeaderOption>(block.options, own, clocks, None);
    let options = opts_bytes::<SectionHeaderOption>(block.options, own, clocks, None).unwrap();
    let fixed = bytes_u32(own, 0x1A2B3C4D) + bytes_u16(own, block.major_version) + bytes_u16(
        own,
        block.minor_version,
    ) + bytes_i64(own, block.section_length);
    let bytes = SectionHeaderBlock::body_bytes(block, other, clocks).unwrap();
    assert(bytes == fixed + options);
    assert(fixed.len() == 16);
    lemma_byte_order_magic(
        own,
        bytes_u16(own, block.major_version) + bytes_u16(own, block.minor_version) + bytes_i64(
            own,
            block.section_length,
        ) + options,
    );
    assert(bytes =~= bytes_u32(own, 0x1A2B3C4D) + (bytes_u16(own, block.major_version) + bytes_u16(
        own,
        block.minor_version,
    ) + bytes_i64(own, block.section_length) + options));
    assert(bytes.subrange(16, bytes.len() as int) =~= options);
    assert(u16_at(own, bytes, 4) == block.major_version);
    assert(u16_at(own, bytes, 6) == block.minor_version);
    assert(i64_at(own, bytes, 8) == block.section_length);
}

} // verus!
