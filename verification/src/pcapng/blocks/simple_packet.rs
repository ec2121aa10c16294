//! Simple Packet Block (SPB).

use vstd::prelude::*;
use vstd::slice::{slice_subrange, slice_to_vec};

use crate::codec::{
    bytes_u32, group_codec, pad_len, padding, read_u32, u32_at, write_bytes, write_u32,
    write_zeros, zeros,
};
use crate::common::Endianness;
use crate::errors::{parsed, ErrorKind, PcapError};
use crate::pcapng::blocks::block_common::{Block, BlockView, PcapNgBlock};
use crate::pcapng::blocks::opt_common::Duplicate;
use crate::pcapng::state::{ticking, InterfaceClock, PcapNgState};

verus! {

/// The Simple Packet Block (SPB) is a lightweight container for storing the packets coming from the network.
/// Its presence is optional.
#[derive(Debug, PartialEq, Eq)]
pub struct SimplePacketBlock {
    /// Actual length of the packet when it was transmitted on the network.
    pub original_len: u32,
    /// The data coming from the network, including link-layer headers.
    pub data: Vec<u8>,
}

/// What a `SimplePacketBlock` holds.
pub struct SimplePacketBlockView {
    /// Actual length of the packet when it was transmitted on the network.
    pub original_len: u32,
    /// The data coming from the network, including link-layer headers.
    pub data: Seq<u8>,
}

impl View for SimplePacketBlock {
    type V = SimplePacketBlockView;

    open spec fn view(&self) -> SimplePacketBlockView {
        SimplePacketBlockView { original_len: self.original_len, data: self.data@ }
    }
}

impl Duplicate for SimplePacketBlock {
    fn duplicate(&self) -> (r: SimplePacketBlock) {
        SimplePacketBlock { original_len: self.original_len, data: self.data.clone() }
    }
}

impl Clone for SimplePacketBlock {
    fn clone(&self) -> (r: SimplePacketBlock)
        ensures
            r@ == self@,
    {
        self.duplicate()
    }
}

impl PcapNgBlock for SimplePacketBlock {
    /// The original length, then the data: all that is left of the body,
    /// its padding too.
    open spec fn body_of(e: Endianness, clocks: Seq<InterfaceClock>, s: Seq<u8>) -> Result<
        (SimplePacketBlockView, int),
        ErrorKind,
    > {
        if s.len() < 4 {
            Err(ErrorKind::InvalidField)
        } else {
            Ok(
                (
                    SimplePacketBlockView {
                        original_len: u32_at(e, s, 0),
                        data: s.subrange(4, s.len() as int),
                    },
                    s.len() as int,
                ),
            )
        }
    }

    open spec fn body_bytes(block: SimplePacketBlockView, e: Endianness, clocks: Seq<InterfaceClock>) -> Result<
        Seq<u8>,
        ErrorKind,
    > {
        Ok(bytes_u32(e, block.original_len) + block.data + zeros(pad_len(block.data.len() as int)))
    }

    open spec fn block_of(block: SimplePacketBlockView) -> BlockView {
        BlockView::SimplePacket(block)
    }

    fn from_slice<'a>(e: Endianness, state: &PcapNgState, slice: &'a [u8]) -> (r: Result<
        (&'a [u8], SimplePacketBlock),
        PcapError,
    >) {
        if slice.len() < 4 {
            return Err(PcapError::InvalidField("SimplePacketBlock: block length < 4"));
        }
        let original_len = read_u32(e, slice, 0).unwrap();
        let data = slice_to_vec(slice_subrange(slice, 4, slice.len()));
        Ok((slice_subrange(slice, slice.len(), slice.len()), SimplePacketBlock { original_len, data }))
    }

    fn write_to(&self, e: Endianness, state: &PcapNgState, writer: &mut Vec<u8>) -> (r: Result<
        usize,
        PcapError,
    >) {
        match self.to_body(e, state.clocks()) {
            Ok(body) => {
                write_bytes(writer, body.as_slice());
                Ok(body.len())
            },
            Err(err) => Err(err),
        }
    }

    fn into_block(self) -> (r: Block) {
        Block::SimplePacket(self)
    }
}

impl SimplePacketBlock {
    /// The body of the block on the wire.
    pub fn to_body(&self, e: Endianness, clocks: &Vec<InterfaceClock>) -> (r: Result<Vec<u8>, PcapError>)
        ensures
            match (r, Self::body_bytes(self@, e, clocks@)) {
                (Ok(out), Ok(bytes)) => out@ == bytes,
                (Err(err), Err(k)) => err@ == k,
                _ => false,
            },
    {
        let mut out: Vec<u8> = Vec::new();
        write_u32(e, &mut out, self.original_len);
        write_bytes(&mut out, self.data.as_slice());
        write_zeros(&mut out, padding(self.data.len()));
        Ok(out)
    }
}

/// A block that was parsed from a body that ends on a 32-bit boundary, in
/// whatever byte order, can be written in every byte order; what is written
/// ends on a 32-bit boundary and is parsed as the same block again.
pub proof fn lemma_simple_packet_round_trip(
    e: Endianness,
    other: Endianness,
    clocks: Seq<InterfaceClock>,
    s: Seq<u8>,
)
    requires
        ticking(clocks),
        s.len() % 4 == 0,
        SimplePacketBlock::body_of(e, clocks, s) is Ok,
    ensures
        ({
            let block = SimplePacketBlock::body_of(e, clocks, s).unwrap().0;
            match SimplePacketBlock::body_bytes(block, other, clocks) {
                Err(_) => false,
                Ok(bytes) => bytes.len() % 4 == 0 && SimplePacketBlock::body_of(other, clocks, bytes) is Ok
                    && SimplePacketBlock::body_of(other, clocks, bytes).unwrap().0 == block,
            }
        }),
{
    broadcast use group_codec;

    let block = SimplePacketBlock::body_of(e, clocks, s).unwrap().0;
    let bytes = SimplePacketBlock::body_bytes(block, other, clocks).unwrap();
    assert(zeros(0) =~= Seq::<u8>::empty());
    assert(bytes =~= bytes_u32(other, block.original_len) + block.data);
    assert(bytes.subrange(4, bytes.len() as int) =~= block.data);
}

} // verus!
