//! Packet Block.

use vstd::prelude::*;
use vstd::slice::{slice_subrange, slice_to_vec};

use crate::codec::{
    bytes_u16, bytes_u32, group_codec, pad_len, padding, read_u16, read_u32, u16_at, u32_at,
    write_bytes, write_u16, write_u32, write_zeros, zeros,
};
use crate::common::{Duration, Endianness};
use crate::errors::{parsed, ErrorKind, PcapError};
use crate::pcapng::blocks::block_common::{Block, BlockView, PcapNgBlock};
use crate::pcapng::blocks::opt_common::{
    common_of, common_raw_of, duplicate_all, lemma_common_is_stable, lemma_opts_round_trip,
    lemma_parsed_opts_are_stable, opts_bytes, opts_from_slice, opts_of, opts_to_vec, views,
    CommonOption, CommonOptionView, Duplicate, PcapNgOption,
};
use crate::pcapng::state::{
    decode_timestamp_at, decoded_timestamp, encode_timestamp_to, encoded_timestamp,
    lemma_ticks_read_back, ticking, ticks_at, ticks_bytes, InterfaceClock, PcapNgState,
};

verus! {

/// The Packet Block is obsolete, and MUST NOT be used in new files.
/// Use the Enhanced Packet Block or Simple Packet Block instead.
#[derive(Debug, PartialEq, Eq)]
pub struct PacketBlock {
    /// It specifies the interface this packet comes from.
    pub interface_id: u16,
    /// Local drop counter.
    ///
    /// It specifies the number of packets lost (by the interface and the operating system)
    /// between this packet and the preceding one.
    pub drop_count: u16,
    /// Time elapsed since 1970-01-01 00:00:00 UTC.
    pub timestamp: Duration,
    /// Number of octets captured from the packet (i.e. the length of the Packet Data field).
    pub captured_len: u32,
    /// Actual length of the packet when it was transmitted on the network.
    pub original_len: u32,
    /// The data coming from the network, including link-layer headers.
    pub data: Vec<u8>,
    /// Options
    pub options: Vec<PacketOption>,
}

/// What a `PacketBlock` holds.
pub struct PacketBlockView {
    /// The interface this packet comes from.
    pub interface_id: u16,
    /// Local drop counter.
    pub drop_count: u16,
    /// Time elapsed since 1970-01-01 00:00:00 UTC.
    pub timestamp: Duration,
    /// Number of octets captured from the packet.
    pub captured_len: u32,
    /// Actual length of the packet when it was transmitted on the network.
    pub original_len: u32,
    /// The data coming from the network, including link-layer headers.
    pub data: Seq<u8>,
    /// Options
    pub options: Seq<PacketOptionView>,
}

impl View for PacketBlock {
    type V = PacketBlockView;

    open spec fn view(&self) -> PacketBlockView {
        PacketBlockView {
            interface_id: self.interface_id,
            drop_count: self.drop_count,
            timestamp: self.timestamp,
            captured_len: self.captured_len,
            original_len: self.original_len,
            data: self.data@,
            options: views(self.options@),
        }
    }
}

impl Duplicate for PacketBlock {
    fn duplicate(&self) -> (r: PacketBlock) {
        PacketBlock {
            interface_id: self.interface_id,
            drop_count: self.drop_count,
            timestamp: self.timestamp,
            captured_len: self.captured_len,
            original_len: self.original_len,
            data: self.data.clone(),
            options: duplicate_all(&self.options),
        }
    }
}

impl Clone for PacketBlock {
    fn clone(&self) -> (r: PacketBlock)
        ensures
            r@ == self@,
    {
        self.duplicate()
    }
}

impl PcapNgBlock for PacketBlock {
    /// The interface in 16 bits, which must be in the table; the drop
    /// count; the two halves of the timestamp; the captured and the original
    /// length; the captured bytes, padded to 32 bits; and the options.
    open spec fn body_of(e: Endianness, clocks: Seq<InterfaceClock>, s: Seq<u8>) -> Result<
        (PacketBlockView, int),
        ErrorKind,
    > {
        if s.len() < 20 {
            Err(ErrorKind::InvalidField)
        } else {
            let interface_id = u16_at(e, s, 0);
            let captured = u32_at(e, s, 12);
            let padded = captured + pad_len(captured as int);
            match decoded_timestamp(e, clocks, interface_id as u32, s, 4) {
                Err(k) => Err(k),
                Ok(timestamp) => if s.len() - 20 < padded {
                    Err(ErrorKind::InvalidField)
                } else {
                    match opts_of::<PacketOption>(
                        e,
                        clocks,
                        Some(interface_id as u32),
                        s.subrange(20 + padded, s.len() as int),
                    ) {
                        Err(k) => Err(k),
                        Ok((options, n)) => Ok(
                            (
                                PacketBlockView {
                                    interface_id,
                                    drop_count: u16_at(e, s, 2),
                                    timestamp,
                                    captured_len: captured,
                                    original_len: u32_at(e, s, 16),
                                    data: s.subrange(20, 20 + captured),
                                    options,
                                },
                                20 + padded + n,
                            ),
                        ),
                    }
                },
            }
        }
    }

    /// `InvalidInterfaceId` where the interface is not in the table,
    /// `TimestampTooBig` where its clock cannot tell the timestamp,
    /// `InvalidField` where the captured length is not the length of the
    /// data.
    open spec fn body_bytes(block: PacketBlockView, e: Endianness, clocks: Seq<InterfaceClock>) -> Result<
        Seq<u8>,
        ErrorKind,
    > {
        match encoded_timestamp(e, clocks, block.interface_id as u32, block.timestamp) {
            Err(k) => Err(k),
            Ok(timestamp) => if block.data.len() != block.captured_len {
                Err(ErrorKind::InvalidField)
            } else {
                match opts_bytes::<PacketOption>(
                    block.options,
                    e,
                    clocks,
                    Some(block.interface_id as u32),
                ) {
                    Err(k) => Err(k),
                    Ok(options) => Ok(
                        bytes_u16(e, block.interface_id) + bytes_u16(e, block.drop_count) + timestamp
                            + bytes_u32(e, block.captured_len) + bytes_u32(e, block.original_len)
                            + block.data + zeros(pad_len(block.data.len() as int)) + options,
                    ),
                }
            },
        }
    }

    open spec fn block_of(block: PacketBlockView) -> BlockView {
        BlockView::Packet(block)
    }

    fn from_slice<'a>(e: Endianness, state: &PcapNgState, slice: &'a [u8]) -> (r: Result<
        (&'a [u8], PacketBlock),
        PcapError,
    >) {
        broadcast use group_codec;

        if slice.len() < 20 {
            return Err(PcapError::InvalidField("PacketBlock: block length < 20"));
        }
        let interface_id = read_u16(e, slice, 0).unwrap();
        let drop_count = read_u16(e, slice, 2).unwrap();
        let timestamp = match decode_timestamp_at(e, state.clocks(), interface_id as u32, slice, 4) {
            Ok(d) => d,
            Err(err) => { return Err(err); },
        };
        let captured_len = read_u32(e, slice, 12).unwrap();
        let original_len = read_u32(e, slice, 16).unwrap();
        let padded: u64 = captured_len as u64 + padding(captured_len as usize) as u64;
        if ((slice.len() - 20) as u64) < padded {
            return Err(PcapError::InvalidField("PacketBlock: captured_len + padding > block length"));
        }
        let data = slice_to_vec(slice_subrange(slice, 20, 20 + captured_len as usize));
        let tail = slice_subrange(slice, 20 + padded as usize, slice.len());
        match opts_from_slice::<PacketOption>(e, state.clocks(), Some(interface_id as u32), tail) {
            Ok((rest, options)) => {
                proof {
                    let n = opts_of::<PacketOption>(e, state@.clocks, Some(interface_id as u32), tail@).unwrap().1;
                    assert(rest@ =~= slice@.subrange(20 + padded + n, slice@.len() as int));
                }
                Ok(
                    (
                        rest,
                        PacketBlock {
                            interface_id,
                            drop_count,
                            timestamp,
                            captured_len,
                            original_len,
                            data,
                            options,
                        },
                    ),
                )
            },
            Err(err) => Err(err),
        }
    }

    fn write_to(&self, e: Endianness, state: &PcapNgState, writer: &mut Vec<u8>) -> (r: Result<
        usize,
        PcapError,
    >) {
        match self.to_body(e, state.clocks()) {
            Ok(body) => {
                write_bytes(writer, body.as_slice());
                Ok(body.len())
            },
            Err(err) => Err(err),
        }
    }

    fn into_block(self) -> (r: Block) {
        Block::Packet(self)
    }
}

impl PacketBlock {
    /// The body of the block on the wire.
    pub fn to_body(&self, e: Endianness, clocks: &Vec<InterfaceClock>) -> (r: Result<Vec<u8>, PcapError>)
        ensures
            match (r, Self::body_bytes(self@, e, clocks@)) {
                (Ok(out), Ok(bytes)) => out@ == bytes,
                (Err(err), Err(k)) => err@ == k,
                _ => false,
            },
    {
        broadcast use group_codec;

        let mut out: Vec<u8> = Vec::new();
        write_u16(e, &mut out, self.interface_id);
        write_u16(e, &mut out, self.drop_count);
        match encode_timestamp_to(e, clocks, self.interface_id as u32, self.timestamp, &mut out) {
            Ok(()) => {},
            Err(err) => { return Err(err); },
        }
        let len = self.data.len();
        if len > u32::MAX as usize || len as u32 != self.captured_len {
            return Err(PcapError::InvalidField("PacketBlock: captured_len != data length"));
        }
        let options = match opts_to_vec::<PacketOption>(
            &self.options,
            e,
            clocks,
            Some(self.interface_id as u32),
        ) {
            Ok(bytes) => bytes,
            Err(err) => { return Err(err); },
        };
        write_u32(e, &mut out, self.captured_len);
        write_u32(e, &mut out, self.original_len);
        write_bytes(&mut out, self.data.as_slice());
        write_zeros(&mut out, padding(len));
        write_bytes(&mut out, options.as_slice());
        assert(out@ =~= Self::body_bytes(self@, e, clocks@).unwrap());
        Ok(out)
    }
}

/// Packet Block option
#[derive(Debug, PartialEq, Eq)]
pub enum PacketOption {
    /// 32-bit flags word containing link-layer information.
    Flags(u32),
    /// Contains a hash of the packet.
    Hash(Vec<u8>),
    /// A common option applicable to any block type.
    Common(CommonOption),
}

/// What a `PacketOption` holds.
pub enum PacketOptionView {
    /// 32-bit flags word containing link-layer information.
    Flags(u32),
    /// Contains a hash of the packet.
    Hash(Seq<u8>),
    /// A common option applicable to any block type.
    Common(CommonOptionView),
}

impl View for PacketOption {
    type V = PacketOptionView;

    open spec fn view(&self) -> PacketOptionView {
        match self {
            PacketOption::Flags(v) => PacketOptionView::Flags(*v),
            PacketOption::Hash(v) => PacketOptionView::Hash(v@),
            PacketOption::Common(v) => PacketOptionView::Common(v@),
        }
    }
}

impl Duplicate for PacketOption {
    fn duplicate(&self) -> (r: PacketOption) {
        match self {
            PacketOption::Flags(v) => PacketOption::Flags(*v),
            PacketOption::Hash(v) => PacketOption::Hash(v.clone()),
            PacketOption::Common(v) => PacketOption::Common(v.duplicate()),
        }
    }
}

impl Clone for PacketOption {
    fn clone(&self) -> (r: PacketOption)
        ensures
            r@ == self@,
    {
        self.duplicate()
    }
}

impl PcapNgOption for PacketOption {
    open spec fn value_of(
        e: Endianness,
        clocks: Seq<InterfaceClock>,
        interface_id: Option<u32>,
        code: u16,
        length: u16,
        value: Seq<u8>,
    ) -> Result<PacketOptionView, ErrorKind> {
        if code == 2 {
            if value.len() != 4 {
                Err(ErrorKind::InvalidField)
            } else {
                Ok(PacketOptionView::Flags(u32_at(e, value, 0)))
            }
        } else if code == 3 {
            Ok(PacketOptionView::Hash(value))
        } else {
            match common_of(e, code, length, value) {
                Ok(c) => Ok(PacketOptionView::Common(c)),
                Err(k) => Err(k),
            }
        }
    }

    open spec fn raw_of(
        opt: PacketOptionView,
        e: Endianness,
        clocks: Seq<InterfaceClock>,
        interface_id: Option<u32>,
    ) -> Result<(u16, Seq<u8>), ErrorKind> {
        match opt {
            PacketOptionView::Flags(v) => Ok((2, bytes_u32(e, v))),
            PacketOptionView::Hash(v) => Ok((3, v)),
            PacketOptionView::Common(v) => Ok(common_raw_of(v, e)),
        }
    }

    fn from_slice(
        e: Endianness,
        clocks: &Vec<InterfaceClock>,
        interface_id: Option<u32>,
        code: u16,
        length: u16,
        slice: &[u8],
    ) -> (r: Result<PacketOption, PcapError>) {
        broadcast use group_codec;

        if code == 2 {
            if slice.len() != 4 {
                Err(PcapError::InvalidField("PacketOption: Flags length != 4"))
            } else {
                Ok(PacketOption::Flags(read_u32(e, slice, 0).unwrap()))
            }
        } else if code == 3 {
            Ok(PacketOption::Hash(slice_to_vec(slice)))
        } else {
            match CommonOption::new(e, code, length, slice) {
                Ok(c) => Ok(PacketOption::Common(c)),
                Err(err) => Err(err),
            }
        }
    }

    fn to_raw(&self, e: Endianness, clocks: &Vec<InterfaceClock>, interface_id: Option<u32>) -> (r:
        Result<(u16, Vec<u8>), PcapError>) {
        match self {
            PacketOption::Flags(v) => {
                let mut value: Vec<u8> = Vec::new();
                write_u32(e, &mut value, *v);
                Ok((2, value))
            },
            PacketOption::Hash(v) => Ok((3, v.clone())),
            PacketOption::Common(v) => Ok(v.to_raw(e)),
        }
    }

    proof fn lemma_parsed_is_stable(
        e: Endianness,
        other: Endianness,
        clocks: Seq<InterfaceClock>,
        interface_id: Option<u32>,
        code: u16,
        value: Seq<u8>,
    ) {
        broadcast use group_codec;

        let opt = Self::value_of(e, clocks, interface_id, code, value.len() as u16, value).unwrap();
        let (c, v) = Self::raw_of(opt, other, clocks, interface_id).unwrap();
        if code == 2 {
            assert(v.len() == 4);
        } else if code == 3 {
            assert(v == value);
        } else {
            lemma_common_is_stable(e, other, code, value);
        }
    }
}

/// Where the fields of the body of a packet block stand.
pub proof fn lemma_packet_fields(
    e: Endianness,
    id: u16,
    drop_count: u16,
    ticks: u64,
    original: u32,
    data: Seq<u8>,
    options: Seq<u8>,
)
    requires
        data.len() <= u32::MAX,
    ensures
        ({
            let padded = data.len() + pad_len(data.len() as int);
            let bytes = bytes_u16(e, id) + bytes_u16(e, drop_count) + ticks_bytes(e, ticks)
                + bytes_u32(e, data.len() as u32) + bytes_u32(e, original) + data + zeros(
                pad_len(data.len() as int),
            ) + options;
            &&& bytes.len() == 20 + padded + options.len()
            &&& padded % 4 == 0
            &&& u16_at(e, bytes, 0) == id
            &&& u16_at(e, bytes, 2) == drop_count
            &&& ticks_at(e, bytes, 4) == ticks
            &&& u32_at(e, bytes, 12) == data.len()
            &&& u32_at(e, bytes, 16) == original
            &&& bytes.subrange(20, 20 + data.len() as int) == data
            &&& bytes.subrange(20 + padded, bytes.len() as int) == options
        }),
{
    broadcast use group_codec;

    let padded = data.len() + pad_len(data.len() as int);
    let fixed = bytes_u16(e, id) + bytes_u16(e, drop_count) + ticks_bytes(e, ticks) + bytes_u32(
        e,
        data.len() as u32,
    ) + bytes_u32(e, original);
    let bytes = fixed + data + zeros(pad_len(data.len() as int)) + options;
    assert(fixed.len() == 20);
    assert(bytes =~= fixed + (data + zeros(pad_len(data.len() as int)) + options));
    assert(fixed =~= (bytes_u16(e, id) + bytes_u16(e, drop_count)) + (ticks_bytes(e, ticks)
        + bytes_u32(e, data.len() as u32) + bytes_u32(e, original)));
    assert(ticks_at(e, ticks_bytes(e, ticks), 0) == ticks);
    assert(ticks_at(e, fixed, 4) == ticks);
    assert(bytes.subrange(20, 20 + data.len() as int) =~= data);
    assert(bytes.subrange(20 + padded, bytes.len() as int) =~= options);
}

/// A block that was parsed from a body that ends on a 32-bit boundary, in
/// whatever byte order, can be written in every byte order; what is written
/// ends on a 32-bit boundary and is parsed as the same block again.
pub proof fn lemma_packet_round_trip(
    e: Endianness,
    other: Endianness,
    clocks: Seq<InterfaceClock>,
    s: Seq<u8>,
)
    requires
        ticking(clocks),
        s.len() % 4 == 0,
        PacketBlock::body_of(e, clocks, s) is Ok,
    ensures
        ({
            let block = PacketBlock::body_of(e, clocks, s).unwrap().0;
            match PacketBlock::body_bytes(block, other, clocks) {
                Err(_) => false,
                Ok(bytes) => bytes.len() % 4 == 0 && PacketBlock::body_of(other, clocks, bytes) is Ok
                    && PacketBlock::body_of(other, clocks, bytes).unwrap().0 == block,
            }
        }),
{
    let block = PacketBlock::body_of(e, clocks, s).unwrap().0;
    let id = block.interface_id;
    let captured = u32_at(e, s, 12);
    let padded = captured + pad_len(captured as int);
    let ticks = ticks_at(e, s, 4);
    lemma_ticks_read_back(other, ticks, clocks[id as int]);
    lemma_parsed_opts_are_stable::<PacketOption>(
        e,
        other,
        clocks,
        Some(id as u32),
        s.subrange(20 + padded, s.len() as int),
    );
    lemma_opts_round_trip::<PacketOption>(block.options, other, clocks, Some(id as u32));
    let options = opts_bytes::<PacketOption>(block.options, other, clocks, Some(id as u32)).unwrap();
    lemma_packet_fields(
        other,
        id,
        block.drop_count,
        ticks,
        block.original_len,
        block.data,
        options,
    );
}

} // verus!
