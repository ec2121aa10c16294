//! The pull parser of the Pcap format: the caller holds the bytes.

use vstd::prelude::*;

use crate::pcap::errors::{agrees_view, PcapError};
use crate::pcap::header::{header_of, PcapHeader};
use crate::pcap::packet::{packet_of, raw_packet_of, Packet, RawPcapPacket};

verus! {

/// Parses a Pcap from a slice of bytes.
///
/// The parser is made from the file header and then reads one record at a
/// time from the slice it is handed, which the caller moves forward. It holds
/// nothing but the header, and `IncompleteBuffer` tells the caller to come
/// back with more bytes.
#[derive(Debug)]
pub struct PcapParser {
    header: PcapHeader,
}

impl View for PcapParser {
    type V = PcapHeader;

    closed spec fn view(&self) -> PcapHeader {
        self.header
    }
}

impl PcapParser {
    /// Creates a new `PcapParser` from the file header at the start of
    /// `slice`. Returns the parser and the remainder.
    pub fn new(slice: &[u8]) -> (r: Result<(&[u8], PcapParser), PcapError>)
        ensures
            agrees_view(r, slice@, header_of(slice@)),
    {
        match PcapHeader::from_slice(slice) {
            Ok((rest, header)) => Ok((rest, PcapParser { header })),
            Err(e) => Err(e),
        }
    }

    /// Returns the next packet and the remainder.
    pub fn next_packet<'a>(&self, slice: &'a [u8]) -> (r: Result<(&'a [u8], Packet), PcapError>)
        ensures
            agrees_view(
                r,
                slice@,
                packet_of(self@.endianness, self@, slice@, self@.ts_resolution),
            ),
    {
        Packet::from_slice(self.header.endianness, &self.header, slice, self.header.ts_resolution)
    }

    /// Returns the next record, unchecked, and the remainder.
    pub fn next_raw_packet<'a>(&self, slice: &'a [u8]) -> (r: Result<
        (&'a [u8], RawPcapPacket),
        PcapError,
    >)
        ensures
            agrees_view(r, slice@, raw_packet_of(self@.endianness, slice@)),
    {
        RawPcapPacket::from_slice(self.header.endianness, slice)
    }

    /// Returns the file header.
    pub fn header(&self) -> (r: PcapHeader)
        ensures
            r == self@,
    {
        self.header
    }
}

} // verus!
