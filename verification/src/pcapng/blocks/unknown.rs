//! Unknown Block.

use vstd::prelude::*;
use vstd::slice::slice_to_vec;

use crate::codec::write_bytes;
use crate::common::Endianness;
use crate::errors::{ErrorKind, PcapError};
use crate::pcapng::blocks::block_common::{Block, BlockView, PcapNgBlock};
use crate::pcapng::blocks::opt_common::Duplicate;
use crate::pcapng::state::{InterfaceClock, PcapNgState};

verus! {

/// A block of a type that this library does not know: its type, its length
/// and its body are kept as they stand.
#[derive(Debug, PartialEq, Eq)]
pub struct UnknownBlock {
    /// Block type
    pub type_: u32,
    /// Block length, as the block declared it
    pub length: u32,
    /// Block body
    pub value: Vec<u8>,
}

/// What an `UnknownBlock` holds.
pub struct UnknownBlockView {
    /// Block type
    pub type_: u32,
    /// Block length, as the block declared it
    pub length: u32,
    /// Block body
    pub value: Seq<u8>,
}

impl View for UnknownBlock {
    type V = UnknownBlockView;

    open spec fn view(&self) -> UnknownBlockView {
        UnknownBlockView { type_: self.type_, length: self.length, value: self.value@ }
    }
}

impl Duplicate for UnknownBlock {
    fn duplicate(&self) -> (r: UnknownBlock) {
        UnknownBlock { type_: self.type_, length: self.length, value: self.value.clone() }
    }
}

impl Clone for UnknownBlock {
    fn clone(&self) -> (r: UnknownBlock)
        ensures
            r@ == self@,
    {
        self.duplicate()
    }
}

impl UnknownBlock {
    /// Creates a new [`UnknownBlock`]
    pub fn new(type_: u32, length: u32, value: &[u8]) -> (r: UnknownBlock)
        ensures
            r@ == (UnknownBlockView { type_, length, value: value@ }),
    {
        UnknownBlock { type_, length, value: slice_to_vec(value) }
    }

    /// The body of the block on the wire.
    pub fn to_body(&self, e: Endianness, clocks: &Vec<InterfaceClock>) -> (r: Result<Vec<u8>, PcapError>)
        ensures
            match (r, Self::body_bytes(self@, e, clocks@)) {
                (Ok(out), Ok(bytes)) => out@ == bytes,
                (Err(err), Err(k)) => err@ == k,
                _ => false,
            },
    {
        Ok(self.value.clone())
    }
}

impl PcapNgBlock for UnknownBlock {
    /// A body alone does not tell the type of its block: no body is an
    /// unknown block.
    open spec fn body_of(e: Endianness, clocks: Seq<InterfaceClock>, s: Seq<u8>) -> Result<
        (UnknownBlockView, int),
        ErrorKind,
    > {
        Err(ErrorKind::InvalidField)
    }

    open spec fn body_bytes(block: UnknownBlockView, e: Endianness, clocks: Seq<InterfaceClock>) -> Result<
        Seq<u8>,
        ErrorKind,
    > {
        Ok(block.value)
    }

    open spec fn block_of(block: UnknownBlockView) -> BlockView {
        BlockView::Unknown(block)
    }

    fn from_slice<'a>(e: Endianness, state: &PcapNgState, slice: &'a [u8]) -> (r: Result<
        (&'a [u8], UnknownBlock),
        PcapError,
    >) {
        Err(PcapError::InvalidField("UnknownBlock: a body does not tell its type"))
    }

    fn write_to(&self, e: Endianness, state: &PcapNgState, writer: &mut Vec<u8>) -> (r: Result<
        usize,
        PcapError,
    >) {
        match self.to_body(e, state.clocks()) {
            Ok(body) => {
                write_bytes(writer, body.as_slice());
                Ok(body.len())
            },
            Err(err) => Err(err),
        }
    }

    fn into_block(self) -> (r: Block) {
        Block::Unknown(self)
    }
}

} // verus!
