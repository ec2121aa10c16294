//! Systemd Journal Export Block.

use vstd::prelude::*;
use vstd::slice::{slice_subrange, slice_to_vec};

use crate::codec::{pad_len, padding, write_bytes, write_zeros, zeros};
use crate::common::Endianness;
use crate::errors::{parsed, ErrorKind, PcapError};
use crate::pcapng::blocks::block_common::{Block, BlockView, PcapNgBlock};
use crate::pcapng::blocks::opt_common::Duplicate;
use crate::pcapng::state::{ticking, InterfaceClock, PcapNgState};

verus! {

/// The systemd Journal Export Block is a lightweight containter for systemd Journal Export Format entry data.
#[derive(Debug, PartialEq, Eq)]
pub struct SystemdJournalExportBlock {
    /// A journal entry as described in the Journal Export Format documentation.
    pub journal_entry: Vec<u8>,
}

/// What a `SystemdJournalExportBlock` holds.
pub struct SystemdJournalExportBlockView {
    /// A journal entry as described in the Journal Export Format documentation.
    pub journal_entry: Seq<u8>,
}

impl View for SystemdJournalExportBlock {
    type V = SystemdJournalExportBlockView;

    open spec fn view(&self) -> SystemdJournalExportBlockView {
        SystemdJournalExportBlockView { journal_entry: self.journal_entry@ }
    }
}

impl Duplicate for SystemdJournalExportBlock {
    fn duplicate(&self) -> (r: SystemdJournalExportBlock) {
        SystemdJournalExportBlock { journal_entry: self.journal_entry.clone() }
    }
}

impl Clone for SystemdJournalExportBlock {
    fn clone(&self) -> (r: SystemdJournalExportBlock)
        ensures
            r@ == self@,
    {
        self.duplicate()
    }
}

impl PcapNgBlock for SystemdJournalExportBlock {
    /// The journal entry is the whole body, its padding too.
    open spec fn body_of(e: Endianness, clocks: Seq<InterfaceClock>, s: Seq<u8>) -> Result<
        (SystemdJournalExportBlockView, int),
        ErrorKind,
    > {
        Ok((SystemdJournalExportBlockView { journal_entry: s }, s.len() as int))
    }

    open spec fn body_bytes(
        block: SystemdJournalExportBlockView,
        e: Endianness,
        clocks: Seq<InterfaceClock>,
    ) -> Result<Seq<u8>, ErrorKind> {
        Ok(block.journal_entry + zeros(pad_len(block.journal_entry.len() as int)))
    }

    open spec fn block_of(block: SystemdJournalExportBlockView) -> BlockView {
        BlockView::SystemdJournalExport(block)
    }

    fn from_slice<'a>(e: Endianness, state: &PcapNgState, slice: &'a [u8]) -> (r: Result<
        (&'a [u8], SystemdJournalExportBlock),
        PcapError,
    >) {
        let journal_entry = slice_to_vec(slice);
        Ok(
            (
                slice_subrange(slice, slice.len(), slice.len()),
                SystemdJournalExportBlock { journal_entry },
            ),
        )
    }

    fn write_to(&self, e: Endianness, state: &PcapNgState, writer: &mut Vec<u8>) -> (r: Result<
        usize,
        PcapError,
    >) {
        match self.to_body(e, state.clocks()) {
            Ok(body) => {
                write_bytes(writer, body.as_slice());
                Ok(body.len())
            },
            Err(err) => Err(err),
        }
    }

    fn into_block(self) -> (r: Block) {
        Block::SystemdJournalExport(self)
    }
}

impl SystemdJournalExportBlock {
    /// The body of the block on the wire.
    pub fn to_body(&self, e: Endianness, clocks: &Vec<InterfaceClock>) -> (r: Result<Vec<u8>, PcapError>)
        ensures
            match (r, Self::body_bytes(self@, e, clocks@)) {
                (Ok(out), Ok(bytes)) => out@ == bytes,
                (Err(err), Err(k)) => err@ == k,
                _ => false,
            },
    {
        let mut out: Vec<u8> = Vec::new();
        write_bytes(&mut out, self.journal_entry.as_slice());
        write_zeros(&mut out, padding(self.journal_entry.len()));
        Ok(out)
    }
}

/// A block that was parsed from a body that ends on a 32-bit boundary, in
/// whatever byte order, can be written in every byte order; what is written
/// ends on a 32-bit boundary and is parsed as the same block again.
pub proof fn lemma_journal_round_trip(
    e: Endianness,
    other: Endianness,
    clocks: Seq<InterfaceClock>,
    s: Seq<u8>,
)
    requires
        ticking(clocks),
        s.len() % 4 == 0,
        SystemdJournalExportBlock::body_of(e, clocks, s) is Ok,
    ensures
        ({
            let block = SystemdJournalExportBlock::body_of(e, clocks, s).unwrap().0;
            match SystemdJournalExportBlock::body_bytes(block, other, clocks) {
                Err(_) => false,
                Ok(bytes) => bytes.len() % 4 == 0 && SystemdJournalExportBlock::body_of(other, clocks, bytes) is Ok
                    && SystemdJournalExportBlock::body_of(other, clocks, bytes).unwrap().0 == block,
            }
        }),
{
    let block = SystemdJournalExportBlock::body_of(e, clocks, s).unwrap().0;
    let bytes = SystemdJournalExportBlock::body_bytes(block, other, clocks).unwrap();
    assert(zeros(0) =~= Seq::<u8>::empty());
    assert(bytes =~= s);
}

} // verus!
