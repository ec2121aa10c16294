//! Enhanced Packet Block (EPB).

use vstd::prelude::*;
use vstd::slice::{slice_subrange, slice_to_vec};

use crate::codec::{
    bytes_u32, bytes_u64, group_codec, pad_len, padding, read_u32, read_u64, text_bytes,
    u32_at, u64_at, write_bytes, write_u32, write_u64, write_zeros, zeros,
};
use crate::common::{Duration, Endianness};
use crate::errors::{parsed, ErrorKind, PcapError};
use crate::pcapng::blocks::block_common::{Block, BlockView, PcapNgBlock};
use crate::pcapng::blocks::opt_common::{
    custom_binary_of, custom_utf8_of, duplicate_all, lemma_opts_round_trip,
    lemma_parsed_opts_are_stable, opts_bytes, opts_from_slice, opts_of, opts_to_vec,
    text_from_slice, text_value_of, views, CustomBinaryOption, CustomBinaryOptionView,
    CustomUtf8Option, CustomUtf8OptionView, Duplicate, PcapNgOption, UnknownOption,
    UnknownOptionView,
};
use crate::pcapng::state::{
    decode_timestamp_at, decoded_timestamp, encode_timestamp_to, encoded_timestamp,
    lemma_ticks_read_back, ticking, ticks_at, ticks_bytes, InterfaceClock, PcapNgState,
};

verus! {

/// An Enhanced Packet Block (EPB) is the standard container for storing the packets coming from the network.
#[derive(Debug, PartialEq, Eq)]
pub struct EnhancedPacketBlock {
    /// It specifies the interface this packet comes from.
    ///
    /// The correct interface will be the one whose Interface Description Block
    /// (within the current Section of the file) is identified by the same number of this field.
    pub interface_id: u32,
    /// Time elapsed since 1970-01-01 00:00:00 UTC, on the clock of the
    /// interface.
    pub timestamp: Duration,
    /// Actual length of the packet when it was transmitted on the network.
    pub original_len: u32,
    /// The data coming from the network, including link-layer headers.
    pub data: Vec<u8>,
    /// Options
    pub options: Vec<EnhancedPacketOption>,
}

/// What an `EnhancedPacketBlock` holds.
pub struct EnhancedPacketBlockView {
    /// The interface this packet comes from.
    pub interface_id: u32,
    /// Time elapsed since 1970-01-01 00:00:00 UTC.
    pub timestamp: Duration,
    /// Actual length of the packet when it was transmitted on the network.
    pub original_len: u32,
    /// The data coming from the network, including link-layer headers.
    pub data: Seq<u8>,
    /// Options
    pub options: Seq<EnhancedPacketOptionView>,
}

impl View for EnhancedPacketBlock {
    type V = EnhancedPacketBlockView;

    open spec fn view(&self) -> EnhancedPacketBlockView {
        EnhancedPacketBlockView {
            interface_id: self.interface_id,
            timestamp: self.timestamp,
            original_len: self.original_len,
            data: self.data@,
            options: views(self.options@),
        }
    }
}

impl Duplicate for EnhancedPacketBlock {
    fn duplicate(&self) -> (r: EnhancedPacketBlock) {
        EnhancedPacketBlock {
            interface_id: self.interface_id,
            timestamp: self.timestamp,
            original_len: self.original_len,
            data: self.data.clone(),
            options: duplicate_all(&self.options),
        }
    }
}

impl Clone for EnhancedPacketBlock {
    fn clone(&self) -> (r: EnhancedPacketBlock)
        ensures
            r@ == self@,
    {
        self.duplicate()
    }
}

impl PcapNgBlock for EnhancedPacketBlock {
    /// The interface, which must be in the table; the two halves of the
    /// timestamp; the captured and the original length; the captured bytes,
    /// padded to 32 bits; and the options. `InvalidField` where the body
    /// has fewer than 20 bytes or fewer than the captured length and its
    /// padding ask for, or where more was captured than the packet had;
    /// `InvalidInterfaceId` where the interface is not in the table.
    open spec fn body_of(e: Endianness, clocks: Seq<InterfaceClock>, s: Seq<u8>) -> Result<
        (EnhancedPacketBlockView, int),
        ErrorKind,
    > {
        if s.len() < 20 {
            Err(ErrorKind::InvalidField)
        } else {
            let interface_id = u32_at(e, s, 0);
            let captured = u32_at(e, s, 12);
            let padded = captured + pad_len(captured as int);
            match decoded_timestamp(e, clocks, interface_id, s, 4) {
                Err(k) => Err(k),
                Ok(timestamp) => if s.len() - 20 < padded {
                    Err(ErrorKind::InvalidField)
                } else if u32_at(e, s, 16) < captured {
                    Err(ErrorKind::InvalidField)
                } else {
                    match opts_of::<EnhancedPacketOption>(
                        e,
                        clocks,
                        Some(interface_id),
                        s.subrange(20 + padded, s.len() as int),
                    ) {
                        Err(k) => Err(k),
                        Ok((options, n)) => Ok(
                            (
                                EnhancedPacketBlockView {
                                    interface_id,
                                    timestamp,
                                    original_len: u32_at(e, s, 16),
                                    data: s.subrange(20, 20 + captured),
                                    options,
                                },
                                20 + padded + n,
                            ),
                        ),
                    }
                },
            }
        }
    }

    /// `InvalidInterfaceId` where the interface is not in the table,
    /// `TimestampTooBig` where its clock cannot tell the timestamp,
    /// `InvalidField` where the data is longer than the packet was.
    open spec fn body_bytes(block: EnhancedPacketBlockView, e: Endianness, clocks: Seq<InterfaceClock>) -> Result<
        Seq<u8>,
        ErrorKind,
    > {
        match encoded_timestamp(e, clocks, block.interface_id, block.timestamp) {
            Err(k) => Err(k),
            Ok(timestamp) => if block.data.len() > block.original_len {
                Err(ErrorKind::InvalidField)
            } else {
                match opts_bytes::<EnhancedPacketOption>(
                    block.options,
                    e,
                    clocks,
                    Some(block.interface_id),
                ) {
                    Err(k) => Err(k),
                    Ok(options) => Ok(
                        bytes_u32(e, block.interface_id) + timestamp + bytes_u32(
                            e,
                            block.data.len() as u32,
                        ) + bytes_u32(e, block.original_len) + block.data + zeros(
                            pad_len(block.data.len() as int),
                        ) + options,
                    ),
                }
            },
        }
    }

    open spec fn block_of(block: EnhancedPacketBlockView) -> BlockView {
        BlockView::EnhancedPacket(block)
    }

    fn from_slice<'a>(e: Endianness, state: &PcapNgState, slice: &'a [u8]) -> (r: Result<
        (&'a [u8], EnhancedPacketBlock),
        PcapError,
    >) {
        broadcast use group_codec;

        if slice.len() < 20 {
            return Err(PcapError::InvalidField("EnhancedPacketBlock: block length < 20"));
        }
        let interface_id = read_u32(e, slice, 0).unwrap();
        let timestamp = match decode_timestamp_at(e, state.clocks(), interface_id, slice, 4) {
            Ok(d) => d,
            Err(err) => { return Err(err); },
        };
        let captured_len = read_u32(e, slice, 12).unwrap();
        let original_len = read_u32(e, slice, 16).unwrap();
        let padded: u64 = captured_len as u64 + padding(captured_len as usize) as u64;
        if ((slice.len() - 20) as u64) < padded {
            return Err(
                PcapError::InvalidField("EnhancedPacketBlock: captured_len + padding > block length"),
            );
        }
        if original_len < captured_len {
            return Err(PcapError::InvalidField("EnhancedPacketBlock: original_len < captured_len"));
        }
        let data = slice_to_vec(slice_subrange(slice, 20, 20 + captured_len as usize));
        let tail = slice_subrange(slice, 20 + padded as usize, slice.len());
        match opts_from_slice::<EnhancedPacketOption>(e, state.clocks(), Some(interface_id), tail) {
            Ok((rest, options)) => {
                proof {
                    let n = opts_of::<EnhancedPacketOption>(e, state@.clocks, Some(interface_id), tail@).unwrap().1;
                    assert(rest@ =~= slice@.subrange(20 + padded + n, slice@.len() as int));
                }
                Ok((rest, EnhancedPacketBlock { interface_id, timestamp, original_len, data, options }))
            },
            Err(err) => Err(err),
        }
    }

    fn write_to(&self, e: Endianness, state: &PcapNgState, writer: &mut Vec<u8>) -> (r: Result<
        usize,
        PcapError,
    >) {
        match self.to_body(e, state.clocks()) {
            Ok(body) => {
                write_bytes(writer, body.as_slice());
                Ok(body.len())
            },
            Err(err) => Err(err),
        }
    }

    fn into_block(self) -> (r: Block) {
        Block::EnhancedPacket(self)
    }
}

impl EnhancedPacketBlock {
    /// The body of the block on the wire.
    pub fn to_body(&self, e: Endianness, clocks: &Vec<InterfaceClock>) -> (r: Result<Vec<u8>, PcapError>)
        ensures
            match (r, Self::body_bytes(self@, e, clocks@)) {
                (Ok(out), Ok(bytes)) => out@ == bytes,
                (Err(err), Err(k)) => err@ == k,
                _ => false,
            },
    {
        broadcast use group_codec;

        let mut out: Vec<u8> = Vec::new();
        write_u32(e, &mut out, self.interface_id);
        match encode_timestamp_to(e, clocks, self.interface_id, self.timestamp, &mut out) {
            Ok(()) => {},
            Err(err) => { return Err(err); },
        }
        let len = self.data.len();
        if len > self.original_len as usize {
            return Err(PcapError::InvalidField("EnhancedPacketBlock: original_len < captured_len"));
        }
        let options = match opts_to_vec::<EnhancedPacketOption>(
            &self.options,
            e,
            clocks,
            Some(self.interface_id),
        ) {
            Ok(bytes) => bytes,
            Err(err) => { return Err(err); },
        };
        write_u32(e, &mut out, len as u32);
        write_u32(e, &mut out, self.original_len);
        write_bytes(&mut out, self.data.as_slice());
        write_zeros(&mut out, padding(len));
        write_bytes(&mut out, options.as_slice());
        assert(out@ =~= Self::body_bytes(self@, e, clocks@).unwrap());
        Ok(out)
    }
}

impl Default for EnhancedPacketBlock {
    /// A packet of no bytes on the interface 0 at time zero.
    fn default() -> (r: EnhancedPacketBlock)
        ensures
            r@ == (EnhancedPacketBlockView {
                interface_id: 0,
                timestamp: Duration { nanos: 0 },
                original_len: 0,
                data: Seq::empty(),
                options: Seq::empty(),
            }),
    {
        let r = EnhancedPacketBlock {
            interface_id: 0,
            timestamp: Duration::zero(),
            original_len: 0,
            data: Vec::new(),
            options: Vec::new(),
        };
        assert(r@.options =~= Seq::empty());
        assert(r@.data =~= Seq::empty());
        r
    }
}

/* ----- */

/// The Enhanced Packet Block (EPB) options
#[derive(Debug, PartialEq, Eq)]
pub enum EnhancedPacketOption {
    /// Comment associated with the current block
    Comment(String),
    /// 32-bit flags word containing link-layer information.
    Flags(u32),
    /// Contains a hash of the packet.
    Hash(Vec<u8>),
    /// 64-bit integer value specifying the number of packets lost
    /// (by the interface and the operating system) between this packet and the preceding one for
    /// the same interface or, for the first packet for an interface, between this packet
    /// and the start of the capture process.
    DropCount(u64),
    /// Custom option containing binary octets in the Custom Data portion
    CustomBinary(CustomBinaryOption),
    /// Custom option containing a UTF-8 string in the Custom Data portion
    CustomUtf8(CustomUtf8Option),
    /// Unknown option
    Unknown(UnknownOption),
}

/// What an `EnhancedPacketOption` holds.
pub enum EnhancedPacketOptionView {
    /// Comment associated with the current block
    Comment(Seq<char>),
    /// 32-bit flags word containing link-layer information.
    Flags(u32),
    /// Contains a hash of the packet.
    Hash(Seq<u8>),
    /// 64-bit integer value specifying the number of packets lost
    DropCount(u64),
    /// Custom option containing binary octets in the Custom Data portion
    CustomBinary(CustomBinaryOptionView),
    /// Custom option containing a UTF-8 string in the Custom Data portion
    CustomUtf8(CustomUtf8OptionView),
    /// Unknown option
    Unknown(UnknownOptionView),
}

impl View for EnhancedPacketOption {
    type V = EnhancedPacketOptionView;

    open spec fn view(&self) -> EnhancedPacketOptionView {
        match self {
            EnhancedPacketOption::Comment(v) => EnhancedPacketOptionView::Comment(v@),
            EnhancedPacketOption::Flags(v) => EnhancedPacketOptionView::Flags(*v),
            EnhancedPacketOption::Hash(v) => EnhancedPacketOptionView::Hash(v@),
            EnhancedPacketOption::DropCount(v) => EnhancedPacketOptionView::DropCount(*v),
            EnhancedPacketOption::CustomBinary(v) => EnhancedPacketOptionView::CustomBinary(v@),
            EnhancedPacketOption::CustomUtf8(v) => EnhancedPacketOptionView::CustomUtf8(v@),
            EnhancedPacketOption::Unknown(v) => EnhancedPacketOptionView::Unknown(v@),
        }
    }
}

impl Duplicate for EnhancedPacketOption {
    fn duplicate(&self) -> (r: EnhancedPacketOption) {
        match self {
            EnhancedPacketOption::Comment(v) => EnhancedPacketOption::Comment(v.clone()),
            EnhancedPacketOption::Flags(v) => EnhancedPacketOption::Flags(*v),
            EnhancedPacketOption::Hash(v) => EnhancedPacketOption::Hash(v.clone()),
            EnhancedPacketOption::DropCount(v) => EnhancedPacketOption::DropCount(*v),
            EnhancedPacketOption::CustomBinary(v) => EnhancedPacketOption::CustomBinary(v.duplicate()),
            EnhancedPacketOption::CustomUtf8(v) => EnhancedPacketOption::CustomUtf8(v.duplicate()),
            EnhancedPacketOption::Unknown(v) => EnhancedPacketOption::Unknown(v.duplicate()),
        }
    }
}

impl Clone for EnhancedPacketOption {
    fn clone(&self) -> (r: EnhancedPacketOption)
        ensures
            r@ == self@,
    {
        self.duplicate()
    }
}

impl PcapNgOption for EnhancedPacketOption {
    open spec fn value_of(
        e: Endianness,
        clocks: Seq<InterfaceClock>,
        interface_id: Option<u32>,
        code: u16,
        length: u16,
        value: Seq<u8>,
    ) -> Result<EnhancedPacketOptionView, ErrorKind> {
        if code == 1 {
            match text_value_of(value) {
                Ok(text) => Ok(EnhancedPacketOptionView::Comment(text)),
                Err(k) => Err(k),
            }
        } else if code == 2 {
            if value.len() != 4 {
                Err(ErrorKind::InvalidField)
            } else {
                Ok(EnhancedPacketOptionView::Flags(u32_at(e, value, 0)))
            }
        } else if code == 3 {
            Ok(EnhancedPacketOptionView::Hash(value))
        } else if code == 4 {
            if value.len() != 8 {
                Err(ErrorKind::InvalidField)
            } else {
                Ok(EnhancedPacketOptionView::DropCount(u64_at(e, value, 0)))
            }
        } else if code == 2989 || code == 19373 {
            match custom_binary_of(e, code, value) {
                Ok(c) => Ok(EnhancedPacketOptionView::CustomBinary(c)),
                Err(k) => Err(k),
            }
        } else if code == 2988 || code == 19372 {
            match custom_utf8_of(e, code, value) {
                Ok(c) => Ok(EnhancedPacketOptionView::CustomUtf8(c)),
                Err(k) => Err(k),
            }
        } else {
            Ok(EnhancedPacketOptionView::Unknown(UnknownOptionView { code, length, value }))
        }
    }

    open spec fn raw_of(
        opt: EnhancedPacketOptionView,
        e: Endianness,
        clocks: Seq<InterfaceClock>,
        interface_id: Option<u32>,
    ) -> Result<(u16, Seq<u8>), ErrorKind> {
        match opt {
            EnhancedPacketOptionView::Comment(v) => Ok((1, text_bytes(v))),
            EnhancedPacketOptionView::Flags(v) => Ok((2, bytes_u32(e, v))),
            EnhancedPacketOptionView::Hash(v) => Ok((3, v)),
            EnhancedPacketOptionView::DropCount(v) => Ok((4, bytes_u64(e, v))),
            EnhancedPacketOptionView::CustomBinary(v) => Ok((v.code, bytes_u32(e, v.pen) + v.value)),
            EnhancedPacketOptionView::CustomUtf8(v) => Ok((v.code, bytes_u32(e, v.pen) + text_bytes(v.value))),
            EnhancedPacketOptionView::Unknown(v) => Ok((v.code, v.value)),
        }
    }

    fn from_slice(
        e: Endianness,
        clocks: &Vec<InterfaceClock>,
        interface_id: Option<u32>,
        code: u16,
        length: u16,
        slice: &[u8],
    ) -> (r: Result<EnhancedPacketOption, PcapError>) {
        broadcast use group_codec;

        if code == 1 {
            match text_from_slice(slice) {
                Ok(text) => Ok(EnhancedPacketOption::Comment(text)),
                Err(err) => Err(err),
            }
        } else if code == 2 {
            if slice.len() != 4 {
                Err(PcapError::InvalidField("EnhancedPacketOption: Flags length != 4"))
            } else {
                Ok(EnhancedPacketOption::Flags(read_u32(e, slice, 0).unwrap()))
            }
        } else if code == 3 {
            Ok(EnhancedPacketOption::Hash(slice_to_vec(slice)))
        } else if code == 4 {
            if slice.len() != 8 {
                Err(PcapError::InvalidField("EnhancedPacketOption: DropCount length != 8"))
            } else {
                Ok(EnhancedPacketOption::DropCount(read_u64(e, slice, 0).unwrap()))
            }
        } else if code == 2989 || code == 19373 {
            match CustomBinaryOption::from_slice(e, code, slice) {
                Ok(c) => Ok(EnhancedPacketOption::CustomBinary(c)),
                Err(err) => Err(err),
            }
        } else if code == 2988 || code == 19372 {
            match CustomUtf8Option::from_slice(e, code, slice) {
                Ok(c) => Ok(EnhancedPacketOption::CustomUtf8(c)),
                Err(err) => Err(err),
            }
        } else {
            Ok(EnhancedPacketOption::Unknown(UnknownOption::new(code, length, slice)))
        }
    }

    fn to_raw(&self, e: Endianness, clocks: &Vec<InterfaceClock>, interface_id: Option<u32>) -> (r:
        Result<(u16, Vec<u8>), PcapError>) {
        match self {
            EnhancedPacketOption::Comment(v) => Ok((1, slice_to_vec(v.as_str().as_bytes()))),
            EnhancedPacketOption::Flags(v) => {
                let mut value: Vec<u8> = Vec::new();
                write_u32(e, &mut value, *v);
                Ok((2, value))
            },
            EnhancedPacketOption::Hash(v) => Ok((3, v.clone())),
            EnhancedPacketOption::DropCount(v) => {
                let mut value: Vec<u8> = Vec::new();
                write_u64(e, &mut value, *v);
                Ok((4, value))
            },
            EnhancedPacketOption::CustomBinary(v) => Ok((v.code, v.to_value(e))),
            EnhancedPacketOption::CustomUtf8(v) => Ok((v.code, v.to_value(e))),
            EnhancedPacketOption::Unknown(v) => Ok((v.code, v.value.clone())),
        }
    }

    proof fn lemma_parsed_is_stable(
        e: Endianness,
        other: Endianness,
        clocks: Seq<InterfaceClock>,
        interface_id: Option<u32>,
        code: u16,
        value: Seq<u8>,
    ) {
        broadcast use group_codec;

        let opt = Self::value_of(e, clocks, interface_id, code, value.len() as u16, value).unwrap();
        let (c, v) = Self::raw_of(opt, other, clocks, interface_id).unwrap();
        if code == 1 {
            assert(v == value);
        } else if code == 2 {
            assert(v.len() == 4);
        } else if code == 3 {
            assert(v == value);
        } else if code == 4 {
            assert(v.len() == 8);
        } else if code == 2989 || code == 19373 {
            assert(v.subrange(4, v.len() as int) =~= value.subrange(4, value.len() as int));
        } else if code == 2988 || code == 19372 {
            assert(v.subrange(4, v.len() as int) =~= value.subrange(4, value.len() as int));
        } else {
            assert(v == value);
        }
    }
}

/// Where the fields of the body of an enhanced packet stand.
pub proof fn lemma_enhanced_packet_fields(
    e: Endianness,
    id: u32,
    ticks: u64,
    original: u32,
    data: Seq<u8>,
    options: Seq<u8>,
)
    requires
        data.len() <= u32::MAX,
    ensures
        ({
            let padded = data.len() + pad_len(data.len() as int);
            let bytes = bytes_u32(e, id) + ticks_bytes(e, ticks) + bytes_u32(e, data.len() as u32)
                + bytes_u32(e, original) + data + zeros(pad_len(data.len() as int)) + options;
            &&& bytes.len() == 20 + padded + options.len()
            &&& padded % 4 == 0
            &&& u32_at(e, bytes, 0) == id
            &&& ticks_at(e, bytes, 4) == ticks
            &&& u32_at(e, bytes, 12) == data.len()
            &&& u32_at(e, bytes, 16) == original
            &&& bytes.subrange(20, 20 + data.len() as int) == data
            &&& bytes.subrange(20 + padded, bytes.len() as int) == options
        }),
{
    broadcast use group_codec;

    let padded = data.len() + pad_len(data.len() as int);
    let fixed = bytes_u32(e, id) + ticks_bytes(e, ticks) + bytes_u32(e, data.len() as u32)
        + bytes_u32(e, original);
    let bytes = fixed + data + zeros(pad_len(data.len() as int)) + options;
    assert(fixed.len() == 20);
    assert(bytes =~= fixed + (data + zeros(pad_len(data.len() as int)) + options));
    assert(fixed =~= bytes_u32(e, id) + (ticks_bytes(e, ticks) + bytes_u32(e, data.len() as u32)
        + bytes_u32(e, original)));
    assert(ticks_at(e, ticks_bytes(e, ticks), 0) == ticks);
    assert(ticks_at(e, fixed, 4) == ticks);
    assert(bytes.subrange(20, 20 + data.len() as int) =~= data);
    assert(bytes.subrange(20 + padded, bytes.len() as int) =~= options);
}

/// A block that was parsed from a body that ends on a 32-bit boundary, in
/// whatever byte order, can be written in every byte order; what is written
/// ends on a 32-bit boundary and is parsed as the same block again.
pub proof fn lemma_enhanced_packet_round_trip(
    e: Endianness,
    other: Endianness,
    clocks: Seq<InterfaceClock>,
    s: Seq<u8>,
)
    requires
        ticking(clocks),
        s.len() % 4 == 0,
        EnhancedPacketBlock::body_of(e, clocks, s) is Ok,
    ensures
        ({
            let block = EnhancedPacketBlock::body_of(e, clocks, s).unwrap().0;
            match EnhancedPacketBlock::body_bytes(block, other, clocks) {
                Err(_) => false,
                Ok(bytes) => bytes.len() % 4 == 0 && EnhancedPacketBlock::body_of(other, clocks, bytes) is Ok
                    && EnhancedPacketBlock::body_of(other, clocks, bytes).unwrap().0 == block,
            }
        }),
{
    let block = EnhancedPacketBlock::body_of(e, clocks, s).unwrap().0;
    let id = block.interface_id;
    let captured = u32_at(e, s, 12);
    let padded = captured + pad_len(captured as int);
    let ticks = ticks_at(e, s, 4);
    lemma_ticks_read_back(other, ticks, clocks[id as int]);
    lemma_parsed_opts_are_stable::<EnhancedPacketOption>(
        e,
        other,
        clocks,
        Some(id),
        s.subrange(20 + padded, s.len() as int),
    );
    lemma_opts_round_trip::<EnhancedPacketOption>(block.options, other, clocks, Some(id));
    let options = opts_bytes::<EnhancedPacketOption>(block.options, other, clocks, Some(id)).unwrap();
    lemma_enhanced_packet_fields(other, id, ticks, block.original_len, block.data, options);
}

/// An enhanced packet whose captured bytes and their padding overrun its
/// body is rejected as an invalid field; where its interface is not in the
/// table either, that is told first.
pub proof fn lemma_overrun_is_rejected(e: Endianness, clocks: Seq<InterfaceClock>, s: Seq<u8>)
    requires
        s.len() >= 20,
        u32_at(e, s, 12) + pad_len(u32_at(e, s, 12) as int) > s.len() - 20,
    ensures
        EnhancedPacketBlock::body_of(e, clocks, s) == Err::<(EnhancedPacketBlockView, int), ErrorKind>(
            if u32_at(e, s, 0) < clocks.len() {
                ErrorKind::InvalidField
            } else {
                ErrorKind::InvalidInterfaceId(u32_at(e, s, 0))
            },
        ),
{
}

/// An enhanced packet of an interface that is not in the table is rejected
/// with `InvalidInterfaceId` when it is read, and so it is when it is
/// written.
pub proof fn lemma_unknown_interface_is_rejected(
    e: Endianness,
    clocks: Seq<InterfaceClock>,
    s: Seq<u8>,
    block: EnhancedPacketBlockView,
)
    ensures
        s.len() >= 20 && u32_at(e, s, 0) >= clocks.len() ==> EnhancedPacketBlock::body_of(
            e,
            clocks,
            s,
        ) == Err::<(EnhancedPacketBlockView, int), ErrorKind>(
            ErrorKind::InvalidInterfaceId(u32_at(e, s, 0)),
        ),
        block.interface_id >= clocks.len() ==> EnhancedPacketBlock::body_bytes(block, e, clocks)
            == Err::<Seq<u8>, ErrorKind>(ErrorKind::InvalidInterfaceId(block.interface_id)),
        EnhancedPacketBlock::body_of(e, clocks, s) matches Ok((parsed, _)) ==> parsed.interface_id
            < clocks.len(),
{
}

} // verus!
