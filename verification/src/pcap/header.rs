//! The file header of a Pcap file.

use vstd::prelude::*;
use vstd::slice::slice_subrange;

use crate::codec::{
    bytes_i32, bytes_u16, bytes_u32, group_codec, i32_at, read_i32, read_u16, read_u32, u16_at,
    u32_at, write_i32, write_u16, write_u32,
};
use crate::common::{
    datalink_code, datalink_of, lemma_datalink_code_of, lemma_datalink_of_code, DataLink,
    Endianness, TsResolution,
};
use crate::pcap::errors::{agrees, PcapError, PcapValidationError};
use crate::pcap::packet::{lemma_stream_write_back, packets_bytes, packets_of};

verus! {

/// Length of the file header on the wire.
pub const PCAP_HEADER_LEN: usize = 24;

/// Pcap file header.
#[derive(Copy, Clone, Debug, PartialEq, Eq, Structural)]
pub struct PcapHeader {
    /// Major version number
    pub version_major: u16,
    /// Minor version number
    pub version_minor: u16,
    /// GMT to local timezone correction, should always be 0
    pub ts_correction: i32,
    /// Timestamp accuracy, should always be 0
    pub ts_accuracy: u32,
    /// Max length of captured packet, typically 65535
    pub snaplen: u32,
    /// DataLink type (first layer in the packet)
    pub datalink: DataLink,
    /// Timestamp resolution of the pcap (microsecond or nanosecond)
    pub ts_resolution: TsResolution,
    /// Endianness of the pcap (excluding the packet data)
    pub endianness: Endianness,
}

/// The magic number that announces the resolution `res`, as the file's own
/// byte order reads it.
pub open spec fn magic_of(res: TsResolution) -> u32 {
    match res {
        TsResolution::MicroSecond => 0xA1B2C3D4,
        TsResolution::NanoSecond => 0xA1B23C4D,
    }
}

/// The fields behind the magic number, read in byte order `e`.
pub open spec fn header_fields(s: Seq<u8>, res: TsResolution, e: Endianness) -> PcapHeader {
    PcapHeader {
        version_major: u16_at(e, s, 4),
        version_minor: u16_at(e, s, 6),
        ts_correction: i32_at(e, s, 8),
        ts_accuracy: u32_at(e, s, 12),
        snaplen: u32_at(e, s, 16),
        datalink: datalink_of(u32_at(e, s, 20)),
        ts_resolution: res,
        endianness: e,
    }
}

/// The file header that the bytes `s` start with, and its length; or the
/// reason why they start with none.
pub open spec fn header_of(s: Seq<u8>) -> Result<(PcapHeader, int), PcapError> {
    if s.len() < 24 {
        Err(PcapError::IncompleteBuffer(24, s.len() as usize))
    } else {
        let magic = u32_at(Endianness::Big, s, 0);
        if magic == 0xA1B2C3D4 {
            Ok((header_fields(s, TsResolution::MicroSecond, Endianness::Big), 24))
        } else if magic == 0xA1B23C4D {
            Ok((header_fields(s, TsResolution::NanoSecond, Endianness::Big), 24))
        } else if magic == 0xD4C3B2A1 {
            Ok((header_fields(s, TsResolution::MicroSecond, Endianness::Little), 24))
        } else if magic == 0x4D3CB2A1 {
            Ok((header_fields(s, TsResolution::NanoSecond, Endianness::Little), 24))
        } else {
            Err(PcapError::InvalidField(PcapValidationError::InvalidMagicNumber(magic)))
        }
    }
}

/// The 24 bytes of the file header `h`.
pub open spec fn header_bytes(h: PcapHeader) -> Seq<u8> {
    let e = h.endianness;
    bytes_u32(e, magic_of(h.ts_resolution)) + bytes_u16(e, h.version_major) + bytes_u16(
        e,
        h.version_minor,
    ) + bytes_i32(e, h.ts_correction) + bytes_u32(e, h.ts_accuracy) + bytes_u32(e, h.snaplen)
        + bytes_u32(e, datalink_code(h.datalink))
}

impl PcapHeader {
    /// Parses the file header at the start of `slice`.
    ///
    /// Returns the header with the bytes that follow it. Fails with
    /// `IncompleteBuffer` on fewer than 24 bytes, and with
    /// `InvalidMagicNumber` where the first four bytes are none of the four
    /// magic numbers.
    pub fn from_slice(slice: &[u8]) -> (r: Result<(&[u8], PcapHeader), PcapError>)
        ensures
            agrees(r, slice@, header_of(slice@)),
    {
        if slice.len() < 24 {
            return Err(PcapError::IncompleteBuffer(24, slice.len()));
        }
        let magic = read_u32(Endianness::Big, slice, 0).unwrap();
        let (ts_resolution, endianness) = if magic == 0xA1B2C3D4 {
            (TsResolution::MicroSecond, Endianness::Big)
        } else if magic == 0xA1B23C4D {
            (TsResolution::NanoSecond, Endianness::Big)
        } else if magic == 0xD4C3B2A1 {
            (TsResolution::MicroSecond, Endianness::Little)
        } else if magic == 0x4D3CB2A1 {
            (TsResolution::NanoSecond, Endianness::Little)
        } else {
            return Err(PcapError::InvalidField(PcapValidationError::InvalidMagicNumber(magic)));
        };
        let header = PcapHeader {
            version_major: read_u16(endianness, slice, 4).unwrap(),
            version_minor: read_u16(endianness, slice, 6).unwrap(),
            ts_correction: read_i32(endianness, slice, 8).unwrap(),
            ts_accuracy: read_u32(endianness, slice, 12).unwrap(),
            snaplen: read_u32(endianness, slice, 16).unwrap(),
            datalink: DataLink::from_code(read_u32(endianness, slice, 20).unwrap()),
            ts_resolution,
            endianness,
        };
        Ok((slice_subrange(slice, 24, slice.len()), header))
    }

    /// Creates a new `PcapHeader` for the link type `datalink`: version 2.4,
    /// no correction, snapshot length 65535, microseconds, big endian.
    pub fn with_datalink(datalink: DataLink) -> (r: PcapHeader)
        ensures
            r == (PcapHeader {
                version_major: 2,
                version_minor: 4,
                ts_correction: 0,
                ts_accuracy: 0,
                snaplen: 65535,
                datalink,
                ts_resolution: TsResolution::MicroSecond,
                endianness: Endianness::Big,
            }),
    {
        PcapHeader {
            version_major: 2,
            version_minor: 4,
            ts_correction: 0,
            ts_accuracy: 0,
            snaplen: 65535,
            datalink,
            ts_resolution: TsResolution::MicroSecond,
            endianness: Endianness::Big,
        }
    }

    /// Convert a `PcapHeader` to a `Vec<u8>`: its 24 bytes.
    pub fn to_array(&self) -> (r: Vec<u8>)
        ensures
            r@ == header_bytes(*self),
    {
        let mut out: Vec<u8> = Vec::new();
        self.write_to(&mut out);
        out
    }

    /// Return the endianness of the global header
    pub fn endianness(&self) -> (r: Endianness)
        ensures
            r == self.endianness,
    {
        self.endianness
    }

    /// Return the timestamp resolution of the global header
    pub fn ts_resolution(&self) -> (r: TsResolution)
        ensures
            r == self.ts_resolution,
    {
        self.ts_resolution
    }

    /// Appends the 24 bytes of the header to `writer`, in the header's own
    /// byte order, and returns their number.
    pub fn write_to(&self, writer: &mut Vec<u8>) -> (r: usize)
        ensures
            final(writer)@ == old(writer)@ + header_bytes(*self),
            r == 24,
            header_bytes(*self).len() == 24,
    {
        broadcast use group_codec;

        let e = self.endianness;
        let magic: u32 = match self.ts_resolution {
            TsResolution::MicroSecond => 0xA1B2C3D4,
            TsResolution::NanoSecond => 0xA1B23C4D,
        };
        write_u32(e, writer, magic);
        write_u16(e, writer, self.version_major);
        write_u16(e, writer, self.version_minor);
        write_i32(e, writer, self.ts_correction);
        write_u32(e, writer, self.ts_accuracy);
        write_u32(e, writer, self.snaplen);
        write_u32(e, writer, self.datalink.code());
        assert(writer@ =~= old(writer)@ + header_bytes(*self));
        24
    }
}

impl Default for PcapHeader {
    /// Version 2.4, no correction, snapshot length 65535, Ethernet,
    /// microseconds, big endian.
    fn default() -> (r: PcapHeader)
        ensures
            r == (PcapHeader {
                version_major: 2,
                version_minor: 4,
                ts_correction: 0,
                ts_accuracy: 0,
                snaplen: 65535,
                datalink: DataLink::ETHERNET,
                ts_resolution: TsResolution::MicroSecond,
                endianness: Endianness::Big,
            }),
    {
        PcapHeader {
            version_major: 2,
            version_minor: 4,
            ts_correction: 0,
            ts_accuracy: 0,
            snaplen: 65535,
            datalink: DataLink::ETHERNET,
            ts_resolution: TsResolution::MicroSecond,
            endianness: Endianness::Big,
        }
    }
}

/// The two byte orders of the two magic numbers, byte by byte.
proof fn lemma_magic_numbers(e: Endianness, res: TsResolution)
    ensures
        u32_at(Endianness::Big, bytes_u32(e, magic_of(res)), 0) == match (e, res) {
            (Endianness::Big, TsResolution::MicroSecond) => 0xA1B2C3D4u32,
            (Endianness::Big, TsResolution::NanoSecond) => 0xA1B23C4Du32,
            (Endianness::Little, TsResolution::MicroSecond) => 0xD4C3B2A1u32,
            (Endianness::Little, TsResolution::NanoSecond) => 0x4D3CB2A1u32,
        },
{
    reveal(u32_at);
    reveal(bytes_u32);
}

/// A header that was parsed is written back as the bytes it came from.
pub proof fn lemma_header_write_back(s: Seq<u8>)
    requires
        header_of(s) is Ok,
    ensures
        header_bytes(header_of(s).unwrap().0) == s.subrange(0, 24),
{
    broadcast use group_codec;

    let h = header_of(s).unwrap().0;
    let e = h.endianness;
    lemma_datalink_code_of(u32_at(e, s, 20));
    assert(bytes_u32(e, magic_of(h.ts_resolution)) == s.subrange(0, 4)) by {
        lemma_magic_numbers(e, h.ts_resolution);
        let m = bytes_u32(e, magic_of(h.ts_resolution));
        assert(u32_at(Endianness::Big, m, 0) == u32_at(Endianness::Big, s, 0));
        assert(bytes_u32(Endianness::Big, u32_at(Endianness::Big, m, 0)) == m.subrange(0, 4));
        assert(m.subrange(0, 4) =~= m);
    }
    assert(header_bytes(h) =~= s.subrange(0, 4) + s.subrange(4, 6) + s.subrange(6, 8)
        + s.subrange(8, 12) + s.subrange(12, 16) + s.subrange(16, 20) + s.subrange(20, 24));
    assert(header_bytes(h) =~= s.subrange(0, 24));
}

/// A header that was written is parsed back as itself, unless its link type
/// is an `Unknown` that holds a catalogued code.
pub proof fn lemma_header_read_back(h: PcapHeader, rest: Seq<u8>)
    requires
        h.datalink matches DataLink::Unknown(n) ==> datalink_of(n) == h.datalink,
    ensures
        header_of(header_bytes(h) + rest) == Ok::<(PcapHeader, int), PcapError>((h, 24int)),
{
    broadcast use group_codec;

    let e = h.endianness;
    let s = header_bytes(h) + rest;
    lemma_magic_numbers(e, h.ts_resolution);
    lemma_datalink_of_code(h.datalink);
    assert(header_bytes(h).len() == 24);
    assert(header_fields(s, h.ts_resolution, e) == h);
}

/// A file that was parsed, its header and its records to the last byte, is
/// written back byte for byte.
pub proof fn lemma_file_write_back(s: Seq<u8>)
    requires
        header_of(s) is Ok,
        packets_of(header_of(s).unwrap().0, s.subrange(24, s.len() as int)) is Some,
    ensures
        ({
            let h = header_of(s).unwrap().0;
            header_bytes(h) + packets_bytes(h, packets_of(h, s.subrange(24, s.len() as int)).unwrap())
                == s
        }),
{
    let h = header_of(s).unwrap().0;
    lemma_header_write_back(s);
    lemma_stream_write_back(h, s.subrange(24, s.len() as int));
    assert(s.subrange(0, 24) + s.subrange(24, s.len() as int) =~= s);
}

} // verus!
