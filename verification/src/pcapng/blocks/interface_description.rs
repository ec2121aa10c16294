//! Interface Description Block (IDB).

use vstd::prelude::*;
use vstd::slice::{slice_subrange, slice_to_vec};

use crate::codec::{
    bytes_u16, bytes_u32, bytes_u64, group_codec, read_u16, read_u32, read_u64, text_bytes,
    u16_at, u32_at, u64_at, write_bytes, write_u16, write_u32, write_u64,
};
use crate::common::{datalink_code, datalink_of, DataLink, Endianness};
use crate::errors::{parsed, ErrorKind, PcapError};
use crate::pcapng::blocks::block_common::{Block, BlockView, PcapNgBlock};
use crate::pcapng::blocks::opt_common::{
    custom_binary_of, custom_utf8_of, duplicate_all, lemma_opts_round_trip,
    lemma_parsed_opts_are_stable, opts_bytes, opts_from_slice, opts_of, opts_to_vec,
    text_from_slice, text_value_of, views, CustomBinaryOption, CustomBinaryOptionView,
    CustomUtf8Option, CustomUtf8OptionView, Duplicate, PcapNgOption, UnknownOption,
    UnknownOptionView,
};
use crate::pcapng::state::{ticking, InterfaceClock, PcapNgState};

verus! {

/// An Interface Description Block (IDB) is the container for information describing an interface
/// on which packet data is captured.
#[derive(Debug, PartialEq, Eq)]
pub struct InterfaceDescriptionBlock {
    /// A value that defines the link layer type of this interface.
    pub linktype: DataLink,
    /// Maximum number of octets captured from each packet.
    ///
    /// The portion of each packet that exceeds this value will not be stored in the file.
    /// A value of zero indicates no limit.
    pub snaplen: u32,
    /// Options
    pub options: Vec<InterfaceDescriptionOption>,
}

/// What an `InterfaceDescriptionBlock` holds.
pub struct InterfaceDescriptionBlockView {
    /// Link layer type of the interface.
    pub linktype: DataLink,
    /// Maximum number of octets captured from each packet.
    pub snaplen: u32,
    /// Options
    pub options: Seq<InterfaceDescriptionOptionView>,
}

impl View for InterfaceDescriptionBlock {
    type V = InterfaceDescriptionBlockView;

    open spec fn view(&self) -> InterfaceDescriptionBlockView {
        InterfaceDescriptionBlockView {
            linktype: self.linktype,
            snaplen: self.snaplen,
            options: views(self.options@),
        }
    }
}

impl Duplicate for InterfaceDescriptionBlock {
    fn duplicate(&self) -> (r: InterfaceDescriptionBlock) {
        InterfaceDescriptionBlock {
            linktype: self.linktype,
            snaplen: self.snaplen,
            options: duplicate_all(&self.options),
        }
    }
}

impl Clone for InterfaceDescriptionBlock {
    fn clone(&self) -> (r: InterfaceDescriptionBlock)
        ensures
            r@ == self@,
    {
        self.duplicate()
    }
}

/// The `if_tsresol` byte that the options `opts` give: that of the first
/// such option, or 6, microseconds, where there is none.
pub open spec fn resolution_of(opts: Seq<InterfaceDescriptionOptionView>) -> u8
    decreases opts.len(),
{
    if opts.len() == 0 {
        6
    } else {
        match opts[0] {
            InterfaceDescriptionOptionView::IfTsResol(raw) => raw,
            _ => resolution_of(opts.drop_first()),
        }
    }
}

/// The `if_tsoffset` that the options `opts` give: that of the first such
/// option, or 0 where there is none.
pub open spec fn offset_of(opts: Seq<InterfaceDescriptionOptionView>) -> u64
    decreases opts.len(),
{
    if opts.len() == 0 {
        0
    } else {
        match opts[0] {
            InterfaceDescriptionOptionView::IfTsOffset(secs) => secs,
            _ => offset_of(opts.drop_first()),
        }
    }
}

/// The clock of the interface `block`, or `InvalidTsResolution` where its
/// `if_tsresol` is out of range.
pub open spec fn clock_of(block: InterfaceDescriptionBlockView) -> Result<InterfaceClock, ErrorKind> {
    let raw = resolution_of(block.options);
    if valid_resolution(raw) {
        Ok(InterfaceClock { tick_nanos: tick_nanos_of(raw), offset_secs: offset_of(block.options) })
    } else {
        Err(ErrorKind::InvalidTsResolution(raw))
    }
}

impl PcapNgBlock for InterfaceDescriptionBlock {
    /// The link type in 16 bits, 16 reserved bits that are zero, the
    /// snapshot length, and the options.
    open spec fn body_of(e: Endianness, clocks: Seq<InterfaceClock>, s: Seq<u8>) -> Result<
        (InterfaceDescriptionBlockView, int),
        ErrorKind,
    > {
        if s.len() < 8 {
            Err(ErrorKind::InvalidField)
        } else if u16_at(e, s, 2) != 0 {
            Err(ErrorKind::InvalidField)
        } else {
            match opts_of::<InterfaceDescriptionOption>(e, clocks, None, s.subrange(8, s.len() as int)) {
                Err(k) => Err(k),
                Ok((options, n)) => Ok(
                    (
                        InterfaceDescriptionBlockView {
                            linktype: datalink_of(u16_at(e, s, 0) as u32),
                            snaplen: u32_at(e, s, 4),
                            options,
                        },
                        8 + n,
                    ),
                ),
            }
        }
    }

    /// `InvalidField` where the code of the link type is beyond 16 bits.
    open spec fn body_bytes(
        block: InterfaceDescriptionBlockView,
        e: Endianness,
        clocks: Seq<InterfaceClock>,
    ) -> Result<Seq<u8>, ErrorKind> {
        if datalink_code(block.linktype) > 0xFFFF {
            Err(ErrorKind::InvalidField)
        } else {
            match opts_bytes::<InterfaceDescriptionOption>(block.options, e, clocks, None) {
                Err(k) => Err(k),
                Ok(options) => Ok(
                    bytes_u16(e, datalink_code(block.linktype) as u16) + bytes_u16(e, 0) + bytes_u32(
                        e,
                        block.snaplen,
                    ) + options,
                ),
            }
        }
    }

    open spec fn block_of(block: InterfaceDescriptionBlockView) -> BlockView {
        BlockView::InterfaceDescription(block)
    }

    fn from_slice<'a>(e: Endianness, state: &PcapNgState, slice: &'a [u8]) -> (r: Result<
        (&'a [u8], InterfaceDescriptionBlock),
        PcapError,
    >) {
        broadcast use group_codec;

        if slice.len() < 8 {
            return Err(PcapError::InvalidField("InterfaceDescriptionBlock: block length < 8"));
        }
        let linktype = DataLink::from_code(read_u16(e, slice, 0).unwrap() as u32);
        let reserved = read_u16(e, slice, 2).unwrap();
        if reserved != 0 {
            return Err(PcapError::InvalidField("InterfaceDescriptionBlock: reserved != 0"));
        }
        let snaplen = read_u32(e, slice, 4).unwrap();
        let tail = slice_subrange(slice, 8, slice.len());
        match opts_from_slice::<InterfaceDescriptionOption>(e, state.clocks(), None, tail) {
            Ok((rest, options)) => {
                proof {
                    let n = opts_of::<InterfaceDescriptionOption>(e, state@.clocks, None, tail@).unwrap().1;
                    assert(rest@ =~= slice@.subrange(8 + n, slice@.len() as int));
                }
                Ok((rest, InterfaceDescriptionBlock { linktype, snaplen, options }))
            },
            Err(err) => Err(err),
        }
    }

    fn write_to(&self, e: Endianness, state: &PcapNgState, writer: &mut Vec<u8>) -> (r: Result<
        usize,
        PcapError,
    >) {
        match self.to_body(e, state.clocks()) {
            Ok(body) => {
                write_bytes(writer, body.as_slice());
                Ok(body.len())
            },
            Err(err) => Err(err),
        }
    }

    fn into_block(self) -> (r: Block) {
        Block::InterfaceDescription(self)
    }
}

impl InterfaceDescriptionBlock {
    /// Creates a new [`InterfaceDescriptionBlock`]
    pub fn new(linktype: DataLink, snaplen: u32) -> (r: InterfaceDescriptionBlock)
        ensures
            r@ == (InterfaceDescriptionBlockView { linktype, snaplen, options: Seq::empty() }),
    {
        let r = InterfaceDescriptionBlock { linktype, snaplen, options: Vec::new() };
        assert(r@.options =~= Seq::empty());
        r
    }

    /// The body of the block on the wire.
    pub fn to_body(&self, e: Endianness, clocks: &Vec<InterfaceClock>) -> (r: Result<Vec<u8>, PcapError>)
        ensures
            match (r, Self::body_bytes(self@, e, clocks@)) {
                (Ok(out), Ok(bytes)) => out@ == bytes,
                (Err(err), Err(k)) => err@ == k,
                _ => false,
            },
    {
        let code = self.linktype.code();
        if code > 0xFFFF {
            return Err(PcapError::InvalidField("InterfaceDescriptionBlock: linktype > 65535"));
        }
        let options = match opts_to_vec::<InterfaceDescriptionOption>(&self.options, e, clocks, None) {
            Ok(bytes) => bytes,
            Err(err) => { return Err(err); },
        };
        let mut out: Vec<u8> = Vec::new();
        write_u16(e, &mut out, code as u16);
        write_u16(e, &mut out, 0);
        write_u32(e, &mut out, self.snaplen);
        write_bytes(&mut out, options.as_slice());
        assert(out@ =~= Self::body_bytes(self@, e, clocks@).unwrap());
        Ok(out)
    }

    /// Returns the timestamp resolution of the interface.
    /// If no ts_resolution is set, defaults to microseconds.
    pub fn ts_resolution(&self) -> (r: Result<TsResolution, PcapError>)
        ensures
            match r {
                Ok(res) => valid_resolution(resolution_of(self@.options)) && res@ == resolution_of(
                    self@.options,
                ),
                Err(err) => !valid_resolution(resolution_of(self@.options)) && err@
                    == ErrorKind::InvalidTsResolution(resolution_of(self@.options)),
            },
    {
        let mut i: usize = 0;
        let ghost all = self@.options;
        proof {
            assert(all.skip(0) =~= all);
        }
        while i < self.options.len()
            invariant
                i <= self.options@.len(),
                all == self@.options,
                resolution_of(all) == resolution_of(all.skip(i as int)),
            decreases self.options@.len() - i,
        {
            proof {
                assert(all.skip(i as int).drop_first() =~= all.skip(i + 1));
                assert(all.skip(i as int)[0] == self.options@[i as int]@);
            }
            if let InterfaceDescriptionOption::IfTsResol(raw) = &self.options[i] {
                return TsResolution::new(*raw);
            }
            i = i + 1;
        }
        TsResolution::new(6)
    }

    /// Returns the offset of the timestamps of the interface, in seconds.
    /// If no offset is set, defaults to 0.
    pub fn ts_offset(&self) -> (r: u64)
        ensures
            r == offset_of(self@.options),
    {
        let mut i: usize = 0;
        let ghost all = self@.options;
        proof {
            assert(all.skip(0) =~= all);
        }
        while i < self.options.len()
            invariant
                i <= self.options@.len(),
                all == self@.options,
                offset_of(all) == offset_of(all.skip(i as int)),
            decreases self.options@.len() - i,
        {
            proof {
                assert(all.skip(i as int).drop_first() =~= all.skip(i + 1));
                assert(all.skip(i as int)[0] == self.options@[i as int]@);
            }
            if let InterfaceDescriptionOption::IfTsOffset(secs) = &self.options[i] {
                return *secs;
            }
            i = i + 1;
        }
        0
    }

    /// Returns the clock of the interface: the length of its ticks and the
    /// offset of its timestamps.
    pub fn clock(&self) -> (r: Result<InterfaceClock, PcapError>)
        ensures
            match (r, clock_of(self@)) {
                (Ok(c), Ok(d)) => c == d,
                (Err(err), Err(k)) => err@ == k,
                _ => false,
            },
    {
        match self.ts_resolution() {
            Ok(res) => Ok(InterfaceClock { tick_nanos: res.to_nano_secs(), offset_secs: self.ts_offset() }),
            Err(err) => Err(err),
        }
    }
}

/* ----- */

/// The Interface Description Block (IDB) options
#[derive(Debug, PartialEq, Eq)]
pub enum InterfaceDescriptionOption {
    /// The opt_comment option is a UTF-8 string containing human-readable comment text
    /// that is associated to the current block.
    Comment(String),
    /// The if_name option is a UTF-8 string containing the name of the device used to capture data.
    IfName(String),
    /// The if_description option is a UTF-8 string containing the description of the device used to capture data.
    IfDescription(String),
    /// The if_IPv4addr option is an IPv4 network address and corresponding netmask for the interface.
    IfIpv4Addr(Vec<u8>),
    /// The if_IPv6addr option is an IPv6 network address and corresponding prefix length for the interface.
    IfIpv6Addr(Vec<u8>),
    /// The if_MACaddr option is the Interface Hardware MAC address (48 bits), if available.
    IfMacAddr(Vec<u8>),
    /// The if_EUIaddr option is the Interface Hardware EUI address (64 bits), if available.
    IfEuIAddr(u64),
    /// The if_speed option is a 64-bit number for the Interface speed (in bits per second).
    IfSpeed(u64),
    /// The if_tsresol option identifies the resolution of timestamps.
    IfTsResol(u8),
    /// The if_tzone option identifies the time zone for GMT support.
    IfTzone(u32),
    /// The if_filter option identifies the filter (e.g. "capture only TCP traffic") used to capture traffic.
    IfFilter(Vec<u8>),
    /// The if_os option is a UTF-8 string containing the name of the operating system
    /// of the machine in which this interface is installed.
    IfOs(String),
    /// The if_fcslen option is an 8-bit unsigned integer value that specifies
    /// the length of the Frame Check Sequence (in bits) for this interface.
    IfFcsLen(u8),
    /// The if_tsoffset option is a 64-bit integer value that specifies an offset (in seconds)
    /// that must be added to the timestamp of each packet to obtain the absolute timestamp of a packet.
    IfTsOffset(u64),
    /// The if_hardware option is a UTF-8 string containing the description of the interface hardware.
    IfHardware(String),
    /// Custom option containing binary octets in the Custom Data portion
    CustomBinary(CustomBinaryOption),
    /// Custom option containing a UTF-8 string in the Custom Data portion
    CustomUtf8(CustomUtf8Option),
    /// Unknown option
    Unknown(UnknownOption),
}

/// What an `InterfaceDescriptionOption` holds.
pub enum InterfaceDescriptionOptionView {
    /// The opt_comment option is a UTF-8 string containing human-readable comment text
    Comment(Seq<char>),
    /// The if_name option is a UTF-8 string containing the name of the device used to capture data.
    IfName(Seq<char>),
    /// The if_description option is a UTF-8 string containing the description of the device used to capture data.
    IfDescription(Seq<char>),
    /// The if_IPv4addr option is an IPv4 network address and corresponding netmask for the interface.
    IfIpv4Addr(Seq<u8>),
    /// The if_IPv6addr option is an IPv6 network address and corresponding prefix length for the interface.
    IfIpv6Addr(Seq<u8>),
    /// The if_MACaddr option is the Interface Hardware MAC address (48 bits), if available.
    IfMacAddr(Seq<u8>),
    /// The if_EUIaddr option is the Interface Hardware EUI address (64 bits), if available.
    IfEuIAddr(u64),
    /// The if_speed option is a 64-bit number for the Interface speed (in bits per second).
    IfSpeed(u64),
    /// The if_tsresol option identifies the resolution of timestamps.
    IfTsResol(u8),
    /// The if_tzone option identifies the time zone for GMT support.
    IfTzone(u32),
    /// The if_filter option identifies the filter (e.g. "capture only TCP traffic") used to capture traffic.
    IfFilter(Seq<u8>),
    /// The if_os option is a UTF-8 string containing the name of the operating system
    IfOs(Seq<char>),
    /// The if_fcslen option is an 8-bit unsigned integer value that specifies
    IfFcsLen(u8),
    /// The if_tsoffset option is a 64-bit integer value that specifies an offset (in seconds)
    IfTsOffset(u64),
    /// The if_hardware option is a UTF-8 string containing the description of the interface hardware.
    IfHardware(Seq<char>),
    /// Custom option containing binary octets in the Custom Data portion
    CustomBinary(CustomBinaryOptionView),
    /// Custom option containing a UTF-8 string in the Custom Data portion
    CustomUtf8(CustomUtf8OptionView),
    /// Unknown option
    Unknown(UnknownOptionView),
}

impl View for InterfaceDescriptionOption {
    type V = InterfaceDescriptionOptionView;

    open spec fn view(&self) -> InterfaceDescriptionOptionView {
        match self {
            InterfaceDescriptionOption::Comment(v) => InterfaceDescriptionOptionView::Comment(v@),
            InterfaceDescriptionOption::IfName(v) => InterfaceDescriptionOptionView::IfName(v@),
            InterfaceDescriptionOption::IfDescription(v) => InterfaceDescriptionOptionView::IfDescription(v@),
            InterfaceDescriptionOption::IfIpv4Addr(v) => InterfaceDescriptionOptionView::IfIpv4Addr(v@),
            InterfaceDescriptionOption::IfIpv6Addr(v) => InterfaceDescriptionOptionView::IfIpv6Addr(v@),
            InterfaceDescriptionOption::IfMacAddr(v) => InterfaceDescriptionOptionView::IfMacAddr(v@),
            InterfaceDescriptionOption::IfEuIAddr(v) => InterfaceDescriptionOptionView::IfEuIAddr(*v),
            InterfaceDescriptionOption::IfSpeed(v) => InterfaceDescriptionOptionView::IfSpeed(*v),
            InterfaceDescriptionOption::IfTsResol(v) => InterfaceDescriptionOptionView::IfTsResol(*v),
            InterfaceDescriptionOption::IfTzone(v) => InterfaceDescriptionOptionView::IfTzone(*v),
            InterfaceDescriptionOption::IfFilter(v) => InterfaceDescriptionOptionView::IfFilter(v@),
            InterfaceDescriptionOption::IfOs(v) => InterfaceDescriptionOptionView::IfOs(v@),
            InterfaceDescriptionOption::IfFcsLen(v) => InterfaceDescriptionOptionView::IfFcsLen(*v),
            InterfaceDescriptionOption::IfTsOffset(v) => InterfaceDescriptionOptionView::IfTsOffset(*v),
            InterfaceDescriptionOption::IfHardware(v) => InterfaceDescriptionOptionView::IfHardware(v@),
            InterfaceDescriptionOption::CustomBinary(v) => InterfaceDescriptionOptionView::CustomBinary(v@),
            InterfaceDescriptionOption::CustomUtf8(v) => InterfaceDescriptionOptionView::CustomUtf8(v@),
            InterfaceDescriptionOption::Unknown(v) => InterfaceDescriptionOptionView::Unknown(v@),
        }
    }
}

impl Duplicate for InterfaceDescriptionOption {
    fn duplicate(&self) -> (r: InterfaceDescriptionOption) {
        match self {
            InterfaceDescriptionOption::Comment(v) => InterfaceDescriptionOption::Comment(v.clone()),
            InterfaceDescriptionOption::IfName(v) => InterfaceDescriptionOption::IfName(v.clone()),
            InterfaceDescriptionOption::IfDescription(v) => InterfaceDescriptionOption::IfDescription(v.clone()),
            InterfaceDescriptionOption::IfIpv4Addr(v) => InterfaceDescriptionOption::IfIpv4Addr(v.clone()),
            InterfaceDescriptionOption::IfIpv6Addr(v) => InterfaceDescriptionOption::IfIpv6Addr(v.clone()),
            InterfaceDescriptionOption::IfMacAddr(v) => InterfaceDescriptionOption::IfMacAddr(v.clone()),
            InterfaceDescriptionOption::IfEuIAddr(v) => InterfaceDescriptionOption::IfEuIAddr(*v),
            InterfaceDescriptionOption::IfSpeed(v) => InterfaceDescriptionOption::IfSpeed(*v),
            InterfaceDescriptionOption::IfTsResol(v) => InterfaceDescriptionOption::IfTsResol(*v),
            InterfaceDescriptionOption::IfTzone(v) => InterfaceDescriptionOption::IfTzone(*v),
            InterfaceDescriptionOption::IfFilter(v) => InterfaceDescriptionOption::IfFilter(v.clone()),
            InterfaceDescriptionOption::IfOs(v) => InterfaceDescriptionOption::IfOs(v.clone()),
            InterfaceDescriptionOption::IfFcsLen(v) => InterfaceDescriptionOption::IfFcsLen(*v),
            InterfaceDescriptionOption::IfTsOffset(v) => InterfaceDescriptionOption::IfTsOffset(*v),
            InterfaceDescriptionOption::IfHardware(v) => InterfaceDescriptionOption::IfHardware(v.clone()),
            InterfaceDescriptionOption::CustomBinary(v) => InterfaceDescriptionOption::CustomBinary(v.duplicate()),
            InterfaceDescriptionOption::CustomUtf8(v) => InterfaceDescriptionOption::CustomUtf8(v.duplicate()),
            InterfaceDescriptionOption::Unknown(v) => InterfaceDescriptionOption::Unknown(v.duplicate()),
        }
    }
}

impl Clone for InterfaceDescriptionOption {
    fn clone(&self) -> (r: InterfaceDescriptionOption)
        ensures
            r@ == self@,
    {
        self.duplicate()
    }
}

impl PcapNgOption for InterfaceDescriptionOption {
    open spec fn value_of(
        e: Endianness,
        clocks: Seq<InterfaceClock>,
        interface_id: Option<u32>,
        code: u16,
        length: u16,
        value: Seq<u8>,
    ) -> Result<InterfaceDescriptionOptionView, ErrorKind> {
        if code == 1 {
            match text_value_of(value) {
                Ok(text) => Ok(InterfaceDescriptionOptionView::Comment(text)),
                Err(k) => Err(k),
            }
        } else if code == 2 {
            match text_value_of(value) {
                Ok(text) => Ok(InterfaceDescriptionOptionView::IfName(text)),
                Err(k) => Err(k),
            }
        } else if code == 3 {
            match text_value_of(value) {
                Ok(text) => Ok(InterfaceDescriptionOptionView::IfDescription(text)),
                Err(k) => Err(k),
            }
        } else if code == 4 {
            if value.len() != 8 {
                Err(ErrorKind::InvalidField)
            } else {
                Ok(InterfaceDescriptionOptionView::IfIpv4Addr(value))
            }
        } else if code == 5 {
            if value.len() != 17 {
                Err(ErrorKind::InvalidField)
            } else {
                Ok(InterfaceDescriptionOptionView::IfIpv6Addr(value))
            }
        } else if code == 6 {
            if value.len() != 6 {
                Err(ErrorKind::InvalidField)
            } else {
                Ok(InterfaceDescriptionOptionView::IfMacAddr(value))
            }
        } else if code == 7 {
            if value.len() != 8 {
                Err(ErrorKind::InvalidField)
            } else {
                Ok(InterfaceDescriptionOptionView::IfEuIAddr(u64_at(e, value, 0)))
            }
        } else if code == 8 {
            if value.len() != 8 {
                Err(ErrorKind::InvalidField)
            } else {
                Ok(InterfaceDescriptionOptionView::IfSpeed(u64_at(e, value, 0)))
            }
        } else if code == 9 {
            if value.len() != 1 {
                Err(ErrorKind::InvalidField)
            } else if !valid_resolution(value[0]) {
                Err(ErrorKind::InvalidTsResolution(value[0]))
            } else {
                Ok(InterfaceDescriptionOptionView::IfTsResol(value[0]))
            }
        } else if code == 10 {
            if value.len() != 4 {
                Err(ErrorKind::InvalidField)
            } else {
                Ok(InterfaceDescriptionOptionView::IfTzone(u32_at(e, value, 0)))
            }
        } else if code == 11 {
            if value.len() == 0 {
                Err(ErrorKind::InvalidField)
            } else {
                Ok(InterfaceDescriptionOptionView::IfFilter(value))
            }
        } else if code == 12 {
            match text_value_of(value) {
                Ok(text) => Ok(InterfaceDescriptionOptionView::IfOs(text)),
                Err(k) => Err(k),
            }
        } else if code == 13 {
            if value.len() != 1 {
                Err(ErrorKind::InvalidField)
            } else {
                Ok(InterfaceDescriptionOptionView::IfFcsLen(value[0]))
            }
        } else if code == 14 {
            if value.len() != 8 {
                Err(ErrorKind::InvalidField)
            } else {
                Ok(InterfaceDescriptionOptionView::IfTsOffset(u64_at(e, value, 0)))
            }
        } else if code == 15 {
            match text_value_of(value) {
                Ok(text) => Ok(InterfaceDescriptionOptionView::IfHardware(text)),
                Err(k) => Err(k),
            }
        } else if code == 2989 || code == 19373 {
            match custom_binary_of(e, code, value) {
                Ok(c) => Ok(InterfaceDescriptionOptionView::CustomBinary(c)),
                Err(k) => Err(k),
            }
        } else if code == 2988 || code == 19372 {
            match custom_utf8_of(e, code, value) {
                Ok(c) => Ok(InterfaceDescriptionOptionView::CustomUtf8(c)),
                Err(k) => Err(k),
            }
        } else {
            Ok(InterfaceDescriptionOptionView::Unknown(UnknownOptionView { code, length, value }))
        }
    }

    open spec fn raw_of(
        opt: InterfaceDescriptionOptionView,
        e: Endianness,
        clocks: Seq<InterfaceClock>,
        interface_id: Option<u32>,
    ) -> Result<(u16, Seq<u8>), ErrorKind> {
        match opt {
            InterfaceDescriptionOptionView::Comment(v) => Ok((1, text_bytes(v))),
            InterfaceDescriptionOptionView::IfName(v) => Ok((2, text_bytes(v))),
            InterfaceDescriptionOptionView::IfDescription(v) => Ok((3, text_bytes(v))),
            InterfaceDescriptionOptionView::IfIpv4Addr(v) => Ok((4, v)),
            InterfaceDescriptionOptionView::IfIpv6Addr(v) => Ok((5, v)),
            InterfaceDescriptionOptionView::IfMacAddr(v) => Ok((6, v)),
            InterfaceDescriptionOptionView::IfEuIAddr(v) => Ok((7, bytes_u64(e, v))),
            InterfaceDescriptionOptionView::IfSpeed(v) => Ok((8, bytes_u64(e, v))),
            InterfaceDescriptionOptionView::IfTsResol(v) => Ok((9, seq![v])),
            InterfaceDescriptionOptionView::IfTzone(v) => Ok((10, bytes_u32(e, v))),
            InterfaceDescriptionOptionView::IfFilter(v) => Ok((11, v)),
            InterfaceDescriptionOptionView::IfOs(v) => Ok((12, text_bytes(v))),
            InterfaceDescriptionOptionView::IfFcsLen(v) => Ok((13, seq![v])),
            InterfaceDescriptionOptionView::IfTsOffset(v) => Ok((14, bytes_u64(e, v))),
            InterfaceDescriptionOptionView::IfHardware(v) => Ok((15, text_bytes(v))),
            InterfaceDescriptionOptionView::CustomBinary(v) => Ok((v.code, bytes_u32(e, v.pen) + v.value)),
            InterfaceDescriptionOptionView::CustomUtf8(v) => Ok((v.code, bytes_u32(e, v.pen) + text_bytes(v.value))),
            InterfaceDescriptionOptionView::Unknown(v) => Ok((v.code, v.value)),
        }
    }

    fn from_slice(
        e: Endianness,
        clocks: &Vec<InterfaceClock>,
        interface_id: Option<u32>,
        code: u16,
        length: u16,
        slice: &[u8],
    ) -> (r: Result<InterfaceDescriptionOption, PcapError>) {
        broadcast use group_codec;

        if code == 1 {
            match text_from_slice(slice) {
                Ok(text) => Ok(InterfaceDescriptionOption::Comment(text)),
                Err(err) => Err(err),
            }
        } else if code == 2 {
            match text_from_slice(slice) {
                Ok(text) => Ok(InterfaceDescriptionOption::IfName(text)),
                Err(err) => Err(err),
            }
        } else if code == 3 {
            match text_from_slice(slice) {
                Ok(text) => Ok(InterfaceDescriptionOption::IfDescription(text)),
                Err(err) => Err(err),
            }
        } else if code == 4 {
            if slice.len() != 8 {
                Err(PcapError::InvalidField("InterfaceDescriptionOption: IfIpv4Addr length != 8"))
            } else {
                Ok(InterfaceDescriptionOption::IfIpv4Addr(slice_to_vec(slice)))
            }
        } else if code == 5 {
            if slice.len() != 17 {
                Err(PcapError::InvalidField("InterfaceDescriptionOption: IfIpv6Addr length != 17"))
            } else {
                Ok(InterfaceDescriptionOption::IfIpv6Addr(slice_to_vec(slice)))
            }
        } else if code == 6 {
            if slice.len() != 6 {
                Err(PcapError::InvalidField("InterfaceDescriptionOption: IfMacAddr length != 6"))
            } else {
                Ok(InterfaceDescriptionOption::IfMacAddr(slice_to_vec(slice)))
            }
        } else if code == 7 {
            if slice.len() != 8 {
                Err(PcapError::InvalidField("InterfaceDescriptionOption: IfEuIAddr length != 8"))
            } else {
                Ok(InterfaceDescriptionOption::IfEuIAddr(read_u64(e, slice, 0).unwrap()))
            }
        } else if code == 8 {
            if slice.len() != 8 {
                Err(PcapError::InvalidField("InterfaceDescriptionOption: IfSpeed length != 8"))
            } else {
                Ok(InterfaceDescriptionOption::IfSpeed(read_u64(e, slice, 0).unwrap()))
            }
        } else if code == 9 {
            if slice.len() != 1 {
                Err(PcapError::InvalidField("InterfaceDescriptionOption: IfTsResol length != 1"))
            } else {
                match TsResolution::new(slice[0]) {
                    Ok(_) => Ok(InterfaceDescriptionOption::IfTsResol(slice[0])),
                    Err(err) => Err(err),
                }
            }
        } else if code == 10 {
            if slice.len() != 4 {
                Err(PcapError::InvalidField("InterfaceDescriptionOption: IfTzone length != 4"))
            } else {
                Ok(InterfaceDescriptionOption::IfTzone(read_u32(e, slice, 0).unwrap()))
            }
        } else if code == 11 {
            if slice.len() == 0 {
                Err(PcapError::InvalidField("InterfaceDescriptionOption: IfFilter is empty"))
            } else {
                Ok(InterfaceDescriptionOption::IfFilter(slice_to_vec(slice)))
            }
        } else if code == 12 {
            match text_from_slice(slice) {
                Ok(text) => Ok(InterfaceDescriptionOption::IfOs(text)),
                Err(err) => Err(err),
            }
        } else if code == 13 {
            if slice.len() != 1 {
                Err(PcapError::InvalidField("InterfaceDescriptionOption: IfFcsLen length != 1"))
            } else {
                Ok(InterfaceDescriptionOption::IfFcsLen(slice[0]))
            }
        } else if code == 14 {
            if slice.len() != 8 {
                Err(PcapError::InvalidField("InterfaceDescriptionOption: IfTsOffset length != 8"))
            } else {
                Ok(InterfaceDescriptionOption::IfTsOffset(read_u64(e, slice, 0).unwrap()))
            }
        } else if code == 15 {
            match text_from_slice(slice) {
                Ok(text) => Ok(InterfaceDescriptionOption::IfHardware(text)),
                Err(err) => Err(err),
            }
        } else if code == 2989 || code == 19373 {
            match CustomBinaryOption::from_slice(e, code, slice) {
                Ok(c) => Ok(InterfaceDescriptionOption::CustomBinary(c)),
                Err(err) => Err(err),
            }
        } else if code == 2988 || code == 19372 {
            match CustomUtf8Option::from_slice(e, code, slice) {
                Ok(c) => Ok(InterfaceDescriptionOption::CustomUtf8(c)),
                Err(err) => Err(err),
            }
        } else {
            Ok(InterfaceDescriptionOption::Unknown(UnknownOption::new(code, length, slice)))
        }
    }

    fn to_raw(&self, e: Endianness, clocks: &Vec<InterfaceClock>, interface_id: Option<u32>) -> (r:
        Result<(u16, Vec<u8>), PcapError>) {
        match self {
            InterfaceDescriptionOption::Comment(v) => Ok((1, slice_to_vec(v.as_str().as_bytes()))),
            InterfaceDescriptionOption::IfName(v) => Ok((2, slice_to_vec(v.as_str().as_bytes()))),
            InterfaceDescriptionOption::IfDescription(v) => Ok((3, slice_to_vec(v.as_str().as_bytes()))),
            InterfaceDescriptionOption::IfIpv4Addr(v) => Ok((4, v.clone())),
            InterfaceDescriptionOption::IfIpv6Addr(v) => Ok((5, v.clone())),
            InterfaceDescriptionOption::IfMacAddr(v) => Ok((6, v.clone())),
            InterfaceDescriptionOption::IfEuIAddr(v) => {
                let mut value: Vec<u8> = Vec::new();
                write_u64(e, &mut value, *v);
                Ok((7, value))
            },
            InterfaceDescriptionOption::IfSpeed(v) => {
                let mut value: Vec<u8> = Vec::new();
                write_u64(e, &mut value, *v);
                Ok((8, value))
            },
            InterfaceDescriptionOption::IfTsResol(v) => Ok((9, vec![*v])),
            InterfaceDescriptionOption::IfTzone(v) => {
                let mut value: Vec<u8> = Vec::new();
                write_u32(e, &mut value, *v);
                Ok((10, value))
            },
            InterfaceDescriptionOption::IfFilter(v) => Ok((11, v.clone())),
            InterfaceDescriptionOption::IfOs(v) => Ok((12, slice_to_vec(v.as_str().as_bytes()))),
            InterfaceDescriptionOption::IfFcsLen(v) => Ok((13, vec![*v])),
            InterfaceDescriptionOption::IfTsOffset(v) => {
                let mut value: Vec<u8> = Vec::new();
                write_u64(e, &mut value, *v);
                Ok((14, value))
            },
            InterfaceDescriptionOption::IfHardware(v) => Ok((15, slice_to_vec(v.as_str().as_bytes()))),
            InterfaceDescriptionOption::CustomBinary(v) => Ok((v.code, v.to_value(e))),
            InterfaceDescriptionOption::CustomUtf8(v) => Ok((v.code, v.to_value(e))),
            InterfaceDescriptionOption::Unknown(v) => Ok((v.code, v.value.clone())),
        }
    }

    proof fn lemma_parsed_is_stable(
        e: Endianness,
        other: Endianness,
        clocks: Seq<InterfaceClock>,
        interface_id: Option<u32>,
        code: u16,
        value: Seq<u8>,
    ) {
        broadcast use group_codec;

        let opt = Self::value_of(e, clocks, interface_id, code, value.len() as u16, value).unwrap();
        let (c, v) = Self::raw_of(opt, other, clocks, interface_id).unwrap();
        if code == 1 {
            assert(v == value);
        } else if code == 2 {
            assert(v == value);
        } else if code == 3 {
            assert(v == value);
        } else if code == 4 {
            assert(v == value);
        } else if code == 5 {
            assert(v == value);
        } else if code == 6 {
            assert(v == value);
        } else if code == 7 {
            assert(v.len() == 8);
        } else if code == 8 {
            assert(v.len() == 8);
        } else if code == 9 {
            assert(v =~= seq![value[0]]);
            assert(v[0] == value[0]);
        } else if code == 10 {
            assert(v.len() == 4);
        } else if code == 11 {
            assert(v == value);
        } else if code == 12 {
            assert(v == value);
        } else if code == 13 {
            assert(v =~= seq![value[0]]);
            assert(v[0] == value[0]);
        } else if code == 14 {
            assert(v.len() == 8);
        } else if code == 15 {
            assert(v == value);
        } else if code == 2989 || code == 19373 {
            assert(v.subrange(4, v.len() as int) =~= value.subrange(4, value.len() as int));
        } else if code == 2988 || code == 19372 {
            assert(v.subrange(4, v.len() as int) =~= value.subrange(4, value.len() as int));
        } else {
            assert(v == value);
        }
    }
}

/* ----- */

/// Whether `raw` is an `if_tsresol` byte: with the high bit clear, a power of
/// ten from 0 to 9; with the high bit set, a power of two from 0 to 30.
pub open spec fn valid_resolution(raw: u8) -> bool {
    if raw >= 128 {
        raw - 128 <= 30
    } else {
        raw <= 9
    }
}

/// Nanoseconds in a tick of 10 to the minus `n` seconds, for `n` up to 9.
pub open spec fn decimal_tick(n: u8) -> u32 {
    if n == 0 {
        1_000_000_000
    } else if n == 1 {
        100_000_000
    } else if n == 2 {
        10_000_000
    } else if n == 3 {
        1_000_000
    } else if n == 4 {
        100_000
    } else if n == 5 {
        10_000
    } else if n == 6 {
        1_000
    } else if n == 7 {
        100
    } else if n == 8 {
        10
    } else {
        1
    }
}

/// Nanoseconds in a tick of 2 to the minus `n` seconds, where a second is
/// taken as 2 to the 30 nanoseconds, for `n` up to 30.
pub open spec fn binary_tick(n: u8) -> u32 {
    if n == 0 {
        1_073_741_824
    } else if n == 1 {
        536_870_912
    } else if n == 2 {
        268_435_456
    } else if n == 3 {
        134_217_728
    } else if n == 4 {
        67_108_864
    } else if n == 5 {
        33_554_432
    } else if n == 6 {
        16_777_216
    } else if n == 7 {
        8_388_608
    } else if n == 8 {
        4_194_304
    } else if n == 9 {
        2_097_152
    } else if n == 10 {
        1_048_576
    } else if n == 11 {
        524_288
    } else if n == 12 {
        262_144
    } else if n == 13 {
        131_072
    } else if n == 14 {
        65_536
    } else if n == 15 {
        32_768
    } else if n == 16 {
        16_384
    } else if n == 17 {
        8_192
    } else if n == 18 {
        4_096
    } else if n == 19 {
        2_048
    } else if n == 20 {
        1_024
    } else if n == 21 {
        512
    } else if n == 22 {
        256
    } else if n == 23 {
        128
    } else if n == 24 {
        64
    } else if n == 25 {
        32
    } else if n == 26 {
        16
    } else if n == 27 {
        8
    } else if n == 28 {
        4
    } else if n == 29 {
        2
    } else {
        1
    }
}

/// Nanoseconds in a tick at the resolution that the `if_tsresol` byte `raw`
/// tells.
pub open spec fn tick_nanos_of(raw: u8) -> u32 {
    if raw >= 128 {
        binary_tick((raw - 128) as u8)
    } else {
        decimal_tick(raw)
    }
}

/// Timestamp resolution of an interface.
#[derive(Copy, Clone, Debug, PartialEq, Eq)]
pub struct TsResolution(u8);

impl View for TsResolution {
    type V = u8;

    closed spec fn view(&self) -> u8 {
        self.0
    }
}

impl TsResolution {
    #[verifier::type_invariant]
    spec fn valid(self) -> bool {
        valid_resolution(self.0)
    }

    /// Micro-second resolution
    pub fn micro() -> (r: TsResolution)
        ensures
            r@ == 6,
    {
        TsResolution(6)
    }

    /// Milli-second resolution
    pub fn milli() -> (r: TsResolution)
        ensures
            r@ == 3,
    {
        TsResolution(3)
    }

    /// Nano-second resolution
    pub fn nano() -> (r: TsResolution)
        ensures
            r@ == 9,
    {
        TsResolution(9)
    }

    /// Second resolution
    pub fn sec() -> (r: TsResolution)
        ensures
            r@ == 0,
    {
        TsResolution(0)
    }

    /// Creates a new [`TsResolution`] from the `if_tsresol` byte `ts_resol`,
    /// if it is one.
    pub fn new(ts_resol: u8) -> (r: Result<TsResolution, PcapError>)
        ensures
            match r {
                Ok(res) => valid_resolution(ts_resol) && res@ == ts_resol,
                Err(err) => !valid_resolution(ts_resol) && err@ == ErrorKind::InvalidTsResolution(
                    ts_resol,
                ),
            },
    {
        let is_bin = ts_resol >= 128;
        let resol = ts_resol % 128;
        if is_bin && resol > 30 {
            return Err(PcapError::InvalidTsResolution(ts_resol));
        }
        if !is_bin && resol > 9 {
            return Err(PcapError::InvalidTsResolution(ts_resol));
        }
        Ok(TsResolution(ts_resol))
    }

    /// Returns the number of nanoseconds coresponding to the [`TsResolution`].
    pub fn to_nano_secs(&self) -> (r: u32)
        ensures
            r == tick_nanos_of(self@),
            r > 0,
            valid_resolution(self@),
    {
        proof {
            use_type_invariant(self);
        }
        let is_bin = self.0 >= 128;
        let resol = self.0 % 128;
        let mut nanos: u32 = 1;
        let mut i: u8 = if is_bin {
            30
        } else {
            9
        };
        while i > resol
            invariant
                resol <= i,
                is_bin ==> i <= 30 && nanos == binary_tick(i),
                !is_bin ==> i <= 9 && nanos == decimal_tick(i),
            decreases i,
        {
            nanos = if is_bin {
                nanos * 2
            } else {
                nanos * 10
            };
            i = i - 1;
        }
        nanos
    }

    /// Returns the `if_tsresol` byte of the [`TsResolution`].
    pub fn to_raw(&self) -> (r: u8)
        ensures
            r == self@,
    {
        self.0
    }
}

impl Default for TsResolution {
    /// Default to micro-seconds resolution
    fn default() -> (r: TsResolution)
        ensures
            r@ == 6,
    {
        TsResolution(6)
    }
}

/// Where the fields of the body of an interface description stand.
pub proof fn lemma_interface_description_fields(e: Endianness, code: u16, snaplen: u32, options: Seq<u8>)
    ensures
        ({
            let bytes = bytes_u16(e, code) + bytes_u16(e, 0) + bytes_u32(e, snaplen) + options;
            &&& bytes.len() == 8 + options.len()
            &&& u16_at(e, bytes, 0) == code
            &&& u16_at(e, bytes, 2) == 0
            &&& u32_at(e, bytes, 4) == snaplen
            &&& bytes.subrange(8, bytes.len() as int) == options
        }),
{
    broadcast use group_codec;

    let fixed = bytes_u16(e, code) + bytes_u16(e, 0) + bytes_u32(e, snaplen);
    let bytes = fixed + options;
    assert(fixed.len() == 8);
    assert(bytes.subrange(8, bytes.len() as int) =~= options);
}

/// A block that was parsed from a body that ends on a 32-bit boundary, in
/// whatever byte order, can be written in every byte order; what is written
/// ends on a 32-bit boundary and is parsed as the same block again.
pub proof fn lemma_interface_description_round_trip(
    e: Endianness,
    other: Endianness,
    clocks: Seq<InterfaceClock>,
    s: Seq<u8>,
)
    requires
        ticking(clocks),
        s.len() % 4 == 0,
        InterfaceDescriptionBlock::body_of(e, clocks, s) is Ok,
    ensures
        ({
            let block = InterfaceDescriptionBlock::body_of(e, clocks, s).unwrap().0;
            match InterfaceDescriptionBlock::body_bytes(block, other, clocks) {
                Err(_) => false,
                Ok(bytes) => bytes.len() % 4 == 0 && InterfaceDescriptionBlock::body_of(other, clocks, bytes) is Ok
                    && InterfaceDescriptionBlock::body_of(other, clocks, bytes).unwrap().0 == block,
            }
        }),
{
    let block = InterfaceDescriptionBlock::body_of(e, clocks, s).unwrap().0;
    lemma_parsed_opts_are_stable::<InterfaceDescriptionOption>(
        e,
        other,
        clocks,
        None,
        s.subrange(8, s.len() as int),
    );
    lemma_opts_round_trip::<InterfaceDescriptionOption>(block.options, other, clocks, None);
    crate::common::lemma_datalink_code_of(u16_at(e, s, 0) as u32);
    let options = opts_bytes::<InterfaceDescriptionOption>(block.options, other, clocks, None).unwrap();
    lemma_interface_description_fields(
        other,
        datalink_code(block.linktype) as u16,
        block.snaplen,
        options,
    );
}

/// A valid resolution has ticks of at least a nanosecond and of at most a
/// second, where a second of a binary resolution is taken as 2 to the 30
/// nanoseconds.
pub proof fn lemma_valid_resolution_ticks(raw: u8)
    requires
        valid_resolution(raw),
    ensures
        0 < tick_nanos_of(raw) <= 0x4000_0000,
{
}

} // verus!
