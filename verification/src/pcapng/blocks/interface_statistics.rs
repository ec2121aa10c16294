//! Interface Statistics Block.

use vstd::prelude::*;
use vstd::slice::slice_subrange;

use crate::codec::{
    bytes_u32, bytes_u64, group_codec, read_u32, read_u64, u32_at, u64_at, write_bytes,
    write_u32, write_u64,
};
use crate::common::{Duration, Endianness};
use crate::errors::{parsed, ErrorKind, PcapError};
use crate::pcapng::blocks::block_common::{Block, BlockView, PcapNgBlock};
use crate::pcapng::blocks::opt_common::{
    common_of, common_raw_of, duplicate_all, lemma_common_is_stable, lemma_opts_round_trip,
    lemma_parsed_opts_are_stable, opts_bytes, opts_from_slice, opts_of, opts_to_vec, views,
    CommonOption, CommonOptionView, Duplicate, PcapNgOption,
};
use crate::pcapng::state::{
    decode_timestamp_at, decoded_timestamp, encode_timestamp_to, encoded_timestamp,
    lemma_ticks_read_back, ticking, ticks_at, ticks_bytes, InterfaceClock, PcapNgState,
};

verus! {

/// The Interface Statistics Block contains the capture statistics for a given interface and it is optional.
#[derive(Debug, PartialEq, Eq)]
pub struct InterfaceStatisticsBlock {
    /// Specifies the interface these statistics refers to.
    ///
    /// The correct interface will be the one whose Interface Description Block (within the current Section of the file)
    /// is identified by same number of this field.
    pub interface_id: u32,
    /// Time this statistics refers to.
    pub timestamp: Duration,
    /// Options
    pub options: Vec<InterfaceStatisticsOption>,
}

/// What an `InterfaceStatisticsBlock` holds.
pub struct InterfaceStatisticsBlockView {
    /// The interface these statistics refers to.
    pub interface_id: u32,
    /// Time this statistics refers to.
    pub timestamp: Duration,
    /// Options
    pub options: Seq<InterfaceStatisticsOptionView>,
}

impl View for InterfaceStatisticsBlock {
    type V = InterfaceStatisticsBlockView;

    open spec fn view(&self) -> InterfaceStatisticsBlockView {
        InterfaceStatisticsBlockView {
            interface_id: self.interface_id,
            timestamp: self.timestamp,
            options: views(self.options@),
        }
    }
}

impl Duplicate for InterfaceStatisticsBlock {
    fn duplicate(&self) -> (r: InterfaceStatisticsBlock) {
        InterfaceStatisticsBlock {
            interface_id: self.interface_id,
            timestamp: self.timestamp,
            options: duplicate_all(&self.options),
        }
    }
}

impl Clone for InterfaceStatisticsBlock {
    fn clone(&self) -> (r: InterfaceStatisticsBlock)
        ensures
            r@ == self@,
    {
        self.duplicate()
    }
}

impl PcapNgBlock for InterfaceStatisticsBlock {
    /// The interface, which must be in the table; the two halves of the
    /// timestamp; and the options.
    open spec fn body_of(e: Endianness, clocks: Seq<InterfaceClock>, s: Seq<u8>) -> Result<
        (InterfaceStatisticsBlockView, int),
        ErrorKind,
    > {
        if s.len() < 12 {
            Err(ErrorKind::InvalidField)
        } else {
            let interface_id = u32_at(e, s, 0);
            match decoded_timestamp(e, clocks, interface_id, s, 4) {
                Err(k) => Err(k),
                Ok(timestamp) => match opts_of::<InterfaceStatisticsOption>(
                    e,
                    clocks,
                    Some(interface_id),
                    s.subrange(12, s.len() as int),
                ) {
                    Err(k) => Err(k),
                    Ok((options, n)) => Ok(
                        (InterfaceStatisticsBlockView { interface_id, timestamp, options }, 12 + n),
                    ),
                },
            }
        }
    }

    /// `InvalidInterfaceId` where the interface is not in the table,
    /// `TimestampTooBig` where its clock cannot tell a time.
    open spec fn body_bytes(
        block: InterfaceStatisticsBlockView,
        e: Endianness,
        clocks: Seq<InterfaceClock>,
    ) -> Result<Seq<u8>, ErrorKind> {
        match encoded_timestamp(e, clocks, block.interface_id, block.timestamp) {
            Err(k) => Err(k),
            Ok(timestamp) => match opts_bytes::<InterfaceStatisticsOption>(
                block.options,
                e,
                clocks,
                Some(block.interface_id),
            ) {
                Err(k) => Err(k),
                Ok(options) => Ok(bytes_u32(e, block.interface_id) + timestamp + options),
            },
        }
    }

    open spec fn block_of(block: InterfaceStatisticsBlockView) -> BlockView {
        BlockView::InterfaceStatistics(block)
    }

    fn from_slice<'a>(e: Endianness, state: &PcapNgState, slice: &'a [u8]) -> (r: Result<
        (&'a [u8], InterfaceStatisticsBlock),
        PcapError,
    >) {
        broadcast use group_codec;

        if slice.len() < 12 {
            return Err(PcapError::InvalidField("InterfaceStatisticsBlock: block length < 12"));
        }
        let interface_id = read_u32(e, slice, 0).unwrap();
        let timestamp = match decode_timestamp_at(e, state.clocks(), interface_id, slice, 4) {
            Ok(d) => d,
            Err(err) => { return Err(err); },
        };
        let tail = slice_subrange(slice, 12, slice.len());
        match opts_from_slice::<InterfaceStatisticsOption>(e, state.clocks(), Some(interface_id), tail) {
            Ok((rest, options)) => {
                proof {
                    let n = opts_of::<InterfaceStatisticsOption>(e, state@.clocks, Some(interface_id), tail@).unwrap().1;
                    assert(rest@ =~= slice@.subrange(12 + n, slice@.len() as int));
                }
                Ok((rest, InterfaceStatisticsBlock { interface_id, timestamp, options }))
            },
            Err(err) => Err(err),
        }
    }

    fn write_to(&self, e: Endianness, state: &PcapNgState, writer: &mut Vec<u8>) -> (r: Result<
        usize,
        PcapError,
    >) {
        match self.to_body(e, state.clocks()) {
            Ok(body) => {
                write_bytes(writer, body.as_slice());
                Ok(body.len())
            },
            Err(err) => Err(err),
        }
    }

    fn into_block(self) -> (r: Block) {
        Block::InterfaceStatistics(self)
    }
}

impl InterfaceStatisticsBlock {
    /// The body of the block on the wire.
    pub fn to_body(&self, e: Endianness, clocks: &Vec<InterfaceClock>) -> (r: Result<Vec<u8>, PcapError>)
        ensures
            match (r, Self::body_bytes(self@, e, clocks@)) {
                (Ok(out), Ok(bytes)) => out@ == bytes,
                (Err(err), Err(k)) => err@ == k,
                _ => false,
            },
    {
        broadcast use group_codec;

        let mut out: Vec<u8> = Vec::new();
        write_u32(e, &mut out, self.interface_id);
        match encode_timestamp_to(e, clocks, self.interface_id, self.timestamp, &mut out) {
            Ok(()) => {},
            Err(err) => { return Err(err); },
        }
        let options = match opts_to_vec::<InterfaceStatisticsOption>(
            &self.options,
            e,
            clocks,
            Some(self.interface_id),
        ) {
            Ok(bytes) => bytes,
            Err(err) => { return Err(err); },
        };
        write_bytes(&mut out, options.as_slice());
        assert(out@ =~= Self::body_bytes(self@, e, clocks@).unwrap());
        Ok(out)
    }
}

/// The Interface Statistics Block options
#[derive(Debug, PartialEq, Eq)]
pub enum InterfaceStatisticsOption {
    /// The isb_starttime option specifies the time the capture started.
    ///
    /// The time is relative to 1970-01-01 00:00:00 UTC.
    IsbStartTime(Duration),
    /// The isb_endtime option specifies the time the capture ended.
    ///
    /// The time is relative to 1970-01-01 00:00:00 UTC.
    IsbEndTime(Duration),
    /// The isb_ifrecv option specifies the 64-bit unsigned integer number of packets received from the physical interface
    /// starting from the beginning of the capture.
    IsbIfRecv(u64),
    /// The isb_ifdrop option specifies the 64-bit unsigned integer number of packets dropped by the interface
    /// due to lack of resources starting from the beginning of the capture.
    IsbIfDrop(u64),
    /// The isb_filteraccept option specifies the 64-bit unsigned integer number of packets accepted
    /// by filter starting from the beginning of the capture.
    IsbFilterAccept(u64),
    /// The isb_osdrop option specifies the 64-bit unsigned integer number of packets dropped
    /// by the operating system starting from the beginning of the capture.
    IsbOsDrop(u64),
    /// The isb_usrdeliv option specifies the 64-bit unsigned integer number of packets delivered
    /// to the user starting from the beginning of the capture.
    IsbUsrDeliv(u64),
    /// A common option applicable to any block type.
    Common(CommonOption),
}

/// What an `InterfaceStatisticsOption` holds.
pub enum InterfaceStatisticsOptionView {
    /// The isb_starttime option specifies the time the capture started.
    IsbStartTime(Duration),
    /// The isb_endtime option specifies the time the capture ended.
    IsbEndTime(Duration),
    /// The isb_ifrecv option specifies the 64-bit unsigned integer number of packets received from the physical interface
    IsbIfRecv(u64),
    /// The isb_ifdrop option specifies the 64-bit unsigned integer number of packets dropped by the interface
    IsbIfDrop(u64),
    /// The isb_filteraccept option specifies the 64-bit unsigned integer number of packets accepted
    IsbFilterAccept(u64),
    /// The isb_osdrop option specifies the 64-bit unsigned integer number of packets dropped
    IsbOsDrop(u64),
    /// The isb_usrdeliv option specifies the 64-bit unsigned integer number of packets delivered
    IsbUsrDeliv(u64),
    /// A common option applicable to any block type.
    Common(CommonOptionView),
}

impl View for InterfaceStatisticsOption {
    type V = InterfaceStatisticsOptionView;

    open spec fn view(&self) -> InterfaceStatisticsOptionView {
        match self {
            InterfaceStatisticsOption::IsbStartTime(v) => InterfaceStatisticsOptionView::IsbStartTime(*v),
            InterfaceStatisticsOption::IsbEndTime(v) => InterfaceStatisticsOptionView::IsbEndTime(*v),
            InterfaceStatisticsOption::IsbIfRecv(v) => InterfaceStatisticsOptionView::IsbIfRecv(*v),
            InterfaceStatisticsOption::IsbIfDrop(v) => InterfaceStatisticsOptionView::IsbIfDrop(*v),
            InterfaceStatisticsOption::IsbFilterAccept(v) => InterfaceStatisticsOptionView::IsbFilterAccept(*v),
            InterfaceStatisticsOption::IsbOsDrop(v) => InterfaceStatisticsOptionView::IsbOsDrop(*v),
            InterfaceStatisticsOption::IsbUsrDeliv(v) => InterfaceStatisticsOptionView::IsbUsrDeliv(*v),
            InterfaceStatisticsOption::Common(v) => InterfaceStatisticsOptionView::Common(v@),
        }
    }
}

impl Duplicate for InterfaceStatisticsOption {
    fn duplicate(&self) -> (r: InterfaceStatisticsOption) {
        match self {
            InterfaceStatisticsOption::IsbStartTime(v) => InterfaceStatisticsOption::IsbStartTime(*v),
            InterfaceStatisticsOption::IsbEndTime(v) => InterfaceStatisticsOption::IsbEndTime(*v),
            InterfaceStatisticsOption::IsbIfRecv(v) => InterfaceStatisticsOption::IsbIfRecv(*v),
            InterfaceStatisticsOption::IsbIfDrop(v) => InterfaceStatisticsOption::IsbIfDrop(*v),
            InterfaceStatisticsOption::IsbFilterAccept(v) => InterfaceStatisticsOption::IsbFilterAccept(*v),
            InterfaceStatisticsOption::IsbOsDrop(v) => InterfaceStatisticsOption::IsbOsDrop(*v),
            InterfaceStatisticsOption::IsbUsrDeliv(v) => InterfaceStatisticsOption::IsbUsrDeliv(*v),
            InterfaceStatisticsOption::Common(v) => InterfaceStatisticsOption::Common(v.duplicate()),
        }
    }
}

impl Clone for InterfaceStatisticsOption {
    fn clone(&self) -> (r: InterfaceStatisticsOption)
        ensures
            r@ == self@,
    {
        self.duplicate()
    }
}

impl PcapNgOption for InterfaceStatisticsOption {
    open spec fn value_of(
        e: Endianness,
        clocks: Seq<InterfaceClock>,
        interface_id: Option<u32>,
        code: u16,
        length: u16,
        value: Seq<u8>,
    ) -> Result<InterfaceStatisticsOptionView, ErrorKind> {
        if code == 2 {
            match interface_id {
                None => Err(ErrorKind::InvalidField),
                Some(id) => match decoded_timestamp(e, clocks, id, value, 0) {
                    Ok(d) => Ok(InterfaceStatisticsOptionView::IsbStartTime(d)),
                    Err(k) => Err(k),
                },
            }
        } else if code == 3 {
            match interface_id {
                None => Err(ErrorKind::InvalidField),
                Some(id) => match decoded_timestamp(e, clocks, id, value, 0) {
                    Ok(d) => Ok(InterfaceStatisticsOptionView::IsbEndTime(d)),
                    Err(k) => Err(k),
                },
            }
        } else if code == 4 {
            if value.len() < 8 {
                Err(ErrorKind::IncompleteBuffer)
            } else {
                Ok(InterfaceStatisticsOptionView::IsbIfRecv(u64_at(e, value, 0)))
            }
        } else if code == 5 {
            if value.len() < 8 {
                Err(ErrorKind::IncompleteBuffer)
            } else {
                Ok(InterfaceStatisticsOptionView::IsbIfDrop(u64_at(e, value, 0)))
            }
        } else if code == 6 {
            if value.len() < 8 {
                Err(ErrorKind::IncompleteBuffer)
            } else {
                Ok(InterfaceStatisticsOptionView::IsbFilterAccept(u64_at(e, value, 0)))
            }
        } else if code == 7 {
            if value.len() < 8 {
                Err(ErrorKind::IncompleteBuffer)
            } else {
                Ok(InterfaceStatisticsOptionView::IsbOsDrop(u64_at(e, value, 0)))
            }
        } else if code == 8 {
            if value.len() < 8 {
                Err(ErrorKind::IncompleteBuffer)
            } else {
                Ok(InterfaceStatisticsOptionView::IsbUsrDeliv(u64_at(e, value, 0)))
            }
        } else {
            match common_of(e, code, length, value) {
                Ok(c) => Ok(InterfaceStatisticsOptionView::Common(c)),
                Err(k) => Err(k),
            }
        }
    }

    open spec fn raw_of(
        opt: InterfaceStatisticsOptionView,
        e: Endianness,
        clocks: Seq<InterfaceClock>,
        interface_id: Option<u32>,
    ) -> Result<(u16, Seq<u8>), ErrorKind> {
        match opt {
            InterfaceStatisticsOptionView::IsbStartTime(v) => match interface_id {
                None => Err(ErrorKind::InvalidField),
                Some(id) => match encoded_timestamp(e, clocks, id, v) {
                    Ok(bytes) => Ok((2, bytes)),
                    Err(k) => Err(k),
                },
            },
            InterfaceStatisticsOptionView::IsbEndTime(v) => match interface_id {
                None => Err(ErrorKind::InvalidField),
                Some(id) => match encoded_timestamp(e, clocks, id, v) {
                    Ok(bytes) => Ok((3, bytes)),
                    Err(k) => Err(k),
                },
            },
            InterfaceStatisticsOptionView::IsbIfRecv(v) => Ok((4, bytes_u64(e, v))),
            InterfaceStatisticsOptionView::IsbIfDrop(v) => Ok((5, bytes_u64(e, v))),
            InterfaceStatisticsOptionView::IsbFilterAccept(v) => Ok((6, bytes_u64(e, v))),
            InterfaceStatisticsOptionView::IsbOsDrop(v) => Ok((7, bytes_u64(e, v))),
            InterfaceStatisticsOptionView::IsbUsrDeliv(v) => Ok((8, bytes_u64(e, v))),
            InterfaceStatisticsOptionView::Common(v) => Ok(common_raw_of(v, e)),
        }
    }

    fn from_slice(
        e: Endianness,
        clocks: &Vec<InterfaceClock>,
        interface_id: Option<u32>,
        code: u16,
        length: u16,
        slice: &[u8],
    ) -> (r: Result<InterfaceStatisticsOption, PcapError>) {
        broadcast use group_codec;

        if code == 2 {
            match interface_id {
                None => Err(PcapError::InvalidField("InterfaceStatisticsOption: IsbStartTime outside an interface")),
                Some(id) => match decode_timestamp_at(e, clocks, id, slice, 0) {
                    Ok(d) => Ok(InterfaceStatisticsOption::IsbStartTime(d)),
                    Err(err) => Err(err),
                },
            }
        } else if code == 3 {
            match interface_id {
                None => Err(PcapError::InvalidField("InterfaceStatisticsOption: IsbEndTime outside an interface")),
                Some(id) => match decode_timestamp_at(e, clocks, id, slice, 0) {
                    Ok(d) => Ok(InterfaceStatisticsOption::IsbEndTime(d)),
                    Err(err) => Err(err),
                },
            }
        } else if code == 4 {
            match read_u64(e, slice, 0) {
                Some(v) => Ok(InterfaceStatisticsOption::IsbIfRecv(v)),
                None => Err(PcapError::IncompleteBuffer),
            }
        } else if code == 5 {
            match read_u64(e, slice, 0) {
                Some(v) => Ok(InterfaceStatisticsOption::IsbIfDrop(v)),
                None => Err(PcapError::IncompleteBuffer),
            }
        } else if code == 6 {
            match read_u64(e, slice, 0) {
                Some(v) => Ok(InterfaceStatisticsOption::IsbFilterAccept(v)),
                None => Err(PcapError::IncompleteBuffer),
            }
        } else if code == 7 {
            match read_u64(e, slice, 0) {
                Some(v) => Ok(InterfaceStatisticsOption::IsbOsDrop(v)),
                None => Err(PcapError::IncompleteBuffer),
            }
        } else if code == 8 {
            match read_u64(e, slice, 0) {
                Some(v) => Ok(InterfaceStatisticsOption::IsbUsrDeliv(v)),
                None => Err(PcapError::IncompleteBuffer),
            }
        } else {
            match CommonOption::new(e, code, length, slice) {
                Ok(c) => Ok(InterfaceStatisticsOption::Common(c)),
                Err(err) => Err(err),
            }
        }
    }

    fn to_raw(&self, e: Endianness, clocks: &Vec<InterfaceClock>, interface_id: Option<u32>) -> (r:
        Result<(u16, Vec<u8>), PcapError>) {
        match self {
            InterfaceStatisticsOption::IsbStartTime(v) => match interface_id {
                None => Err(PcapError::InvalidField("InterfaceStatisticsOption: IsbStartTime outside an interface")),
                Some(id) => {
                    let mut value: Vec<u8> = Vec::new();
                    match encode_timestamp_to(e, clocks, id, *v, &mut value) {
                        Ok(()) => Ok((2, value)),
                        Err(err) => Err(err),
                    }
                },
            },
            InterfaceStatisticsOption::IsbEndTime(v) => match interface_id {
                None => Err(PcapError::InvalidField("InterfaceStatisticsOption: IsbEndTime outside an interface")),
                Some(id) => {
                    let mut value: Vec<u8> = Vec::new();
                    match encode_timestamp_to(e, clocks, id, *v, &mut value) {
                        Ok(()) => Ok((3, value)),
                        Err(err) => Err(err),
                    }
                },
            },
            InterfaceStatisticsOption::IsbIfRecv(v) => {
                let mut value: Vec<u8> = Vec::new();
                write_u64(e, &mut value, *v);
                Ok((4, value))
            },
            InterfaceStatisticsOption::IsbIfDrop(v) => {
                let mut value: Vec<u8> = Vec::new();
                write_u64(e, &mut value, *v);
                Ok((5, value))
            },
            InterfaceStatisticsOption::IsbFilterAccept(v) => {
                let mut value: Vec<u8> = Vec::new();
                write_u64(e, &mut value, *v);
                Ok((6, value))
            },
            InterfaceStatisticsOption::IsbOsDrop(v) => {
                let mut value: Vec<u8> = Vec::new();
                write_u64(e, &mut value, *v);
                Ok((7, value))
            },
            InterfaceStatisticsOption::IsbUsrDeliv(v) => {
                let mut value: Vec<u8> = Vec::new();
                write_u64(e, &mut value, *v);
                Ok((8, value))
            },
            InterfaceStatisticsOption::Common(v) => Ok(v.to_raw(e)),
        }
    }

    proof fn lemma_parsed_is_stable(
        e: Endianness,
        other: Endianness,
        clocks: Seq<InterfaceClock>,
        interface_id: Option<u32>,
        code: u16,
        value: Seq<u8>,
    ) {
        broadcast use group_codec;

        let opt = Self::value_of(e, clocks, interface_id, code, value.len() as u16, value).unwrap();
        let (c, v) = Self::raw_of(opt, other, clocks, interface_id).unwrap();
        if code == 2 {
            let id = interface_id.unwrap();
            let ticks = ticks_at(e, value, 0);
            lemma_ticks_read_back(other, ticks, clocks[id as int]);
            assert(v == ticks_bytes(other, ticks));
        } else if code == 3 {
            let id = interface_id.unwrap();
            let ticks = ticks_at(e, value, 0);
            lemma_ticks_read_back(other, ticks, clocks[id as int]);
            assert(v == ticks_bytes(other, ticks));
        } else if code == 4 {
            assert(v.len() == 8);
        } else if code == 5 {
            assert(v.len() == 8);
        } else if code == 6 {
            assert(v.len() == 8);
        } else if code == 7 {
            assert(v.len() == 8);
        } else if code == 8 {
            assert(v.len() == 8);
        } else {
            lemma_common_is_stable(e, other, code, value);
        }
    }
}

/// Where the fields of the body of interface statistics stand.
pub proof fn lemma_interface_statistics_fields(e: Endianness, id: u32, ticks: u64, options: Seq<u8>)
    ensures
        ({
            let bytes = bytes_u32(e, id) + ticks_bytes(e, ticks) + options;
            &&& bytes.len() == 12 + options.len()
            &&& u32_at(e, bytes, 0) == id
            &&& ticks_at(e, bytes, 4) == ticks
            &&& bytes.subrange(12, bytes.len() as int) == options
        }),
{
    broadcast use group_codec;

    let fixed = bytes_u32(e, id) + ticks_bytes(e, ticks);
    let bytes = fixed + options;
    assert(fixed.len() == 12);
    assert(ticks_at(e, ticks_bytes(e, ticks), 0) == ticks);
    assert(ticks_at(e, fixed, 4) == ticks);
    assert(bytes.subrange(12, bytes.len() as int) =~= options);
}

/// A block that was parsed from a body that ends on a 32-bit boundary, in
/// whatever byte order, can be written in every byte order; what is written
/// ends on a 32-bit boundary and is parsed as the same block again.
pub proof fn lemma_interface_statistics_round_trip(
    e: Endianness,
    other: Endianness,
    clocks: Seq<InterfaceClock>,
    s: Seq<u8>,
)
    requires
        ticking(clocks),
        s.len() % 4 == 0,
        InterfaceStatisticsBlock::body_of(e, clocks, s) is Ok,
    ensures
        ({
            let block = InterfaceStatisticsBlock::body_of(e, clocks, s).unwrap().0;
            match InterfaceStatisticsBlock::body_bytes(block, other, clocks) {
                Err(_) => false,
                Ok(bytes) => bytes.len() % 4 == 0 && InterfaceStatisticsBlock::body_of(other, clocks, bytes) is Ok
                    && InterfaceStatisticsBlock::body_of(other, clocks, bytes).unwrap().0 == block,
            }
        }),
{
    let block = InterfaceStatisticsBlock::body_of(e, clocks, s).unwrap().0;
    let id = block.interface_id;
    let ticks = ticks_at(e, s, 4);
    lemma_ticks_read_back(other, ticks, clocks[id as int]);
    lemma_parsed_opts_are_stable::<InterfaceStatisticsOption>(
        e,
        other,
        clocks,
        Some(id),
        s.subrange(12, s.len() as int),
    );
    lemma_opts_round_trip::<InterfaceStatisticsOption>(block.options, other, clocks, Some(id));
    let options = opts_bytes::<InterfaceStatisticsOption>(block.options, other, clocks, Some(id)).unwrap();
    lemma_interface_statistics_fields(other, id, ticks, options);
}

} // verus!
