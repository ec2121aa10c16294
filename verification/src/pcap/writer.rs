//! The writer of the Pcap format.

use byteorder::{ByteOrder, NativeEndian};
use vstd::prelude::*;

use crate::common::{Endianness, TsResolution};
use crate::pcap::errors::{PcapError, PcapValidationError};
use crate::pcap::header::{header_bytes, PcapHeader};
use crate::codec::{group_codec, u32_at};
use crate::pcap::packet::{
    length_field, nanos_to_frac, packet_bytes, packet_header_bytes, packet_of,
    raw_packet_bytes, Packet, PacketHeader, PacketView, RawPcapPacket,
};

verus! {

/// `byteorder::NativeEndian::read_u16` on the bytes `42 00`: the value tells
/// the byte order of the machine, of which nothing is known here.
#[verifier::external_body]
fn native_probe() -> (r: u16) {
    NativeEndian::read_u16(&[0x42, 0x00])
}

/// The byte order of the machine, as far as two bytes can tell it: big
/// endian where they read as `0x4200`, little endian else.
pub fn native_endianness() -> (r: Endianness) {
    probe_endianness(native_probe())
}

/// The byte order under which the bytes `42 00` read as `probe`.
pub fn probe_endianness(probe: u16) -> (r: Endianness)
    ensures
        r == if probe == 0x4200 {
            Endianness::Big
        } else {
            Endianness::Little
        },
{
    if probe == 0x4200 {
        Endianness::Big
    } else {
        Endianness::Little
    }
}

/// What a `PcapWriter` stands for.
pub struct PcapWriterView {
    /// Byte order of the file.
    pub endianness: Endianness,
    /// Snapshot length of the file.
    pub snaplen: u32,
    /// Unit of the sub-second part of the timestamps.
    pub ts_resolution: TsResolution,
    /// Every byte written so far.
    pub written: Seq<u8>,
}

/// Writes a Pcap to a sink of bytes.
///
/// The file header goes out when the writer is made, the records one by one
/// after it, in the byte order and the resolution of the header.
#[derive(Debug)]
pub struct PcapWriter {
    endianness: Endianness,
    snaplen: u32,
    ts_resolution: TsResolution,
    writer: Vec<u8>,
}

impl View for PcapWriter {
    type V = PcapWriterView;

    closed spec fn view(&self) -> PcapWriterView {
        PcapWriterView {
            endianness: self.endianness,
            snaplen: self.snaplen,
            ts_resolution: self.ts_resolution,
            written: self.writer@,
        }
    }
}

/// The first rule that the packet `p` breaks in a file of snapshot length
/// `snaplen`, if it breaks one: the data fits a 32-bit length, the included
/// length is the length of the data, the sub-second part is below one
/// second, the packet is no longer than the snapshot length, and no longer
/// than it was on the wire.
pub open spec fn packet_fault(p: PacketView, snaplen: u32) -> Option<PcapValidationError> {
    if p.data.len() > u32::MAX {
        Some(PcapValidationError::DataTooBig(p.data.len() as usize))
    } else if p.header.incl_len != p.data.len() {
        Some(PcapValidationError::IncludedLenMismatch(p.header.incl_len, p.data.len() as usize))
    } else if p.header.ts_nsec >= 1_000_000_000 {
        Some(PcapValidationError::TsFracNanoTooBig(p.header.ts_nsec))
    } else if p.header.incl_len > snaplen {
        Some(PcapValidationError::PacketLenTooBig(p.header.incl_len, snaplen))
    } else if p.header.orig_len < p.header.incl_len {
        Some(PcapValidationError::OriginLenTooSmall(p.header.orig_len, p.header.incl_len))
    } else {
        None
    }
}

impl PcapWriter {
    /// Creates a new `PcapWriter` on `writer`, in the byte order of the
    /// machine, and writes the default file header in that order.
    pub fn new(writer: Vec<u8>) -> (r: PcapWriter)
        ensures
            r@.snaplen == 65535,
            r@.ts_resolution == TsResolution::MicroSecond,
            r@.written == writer@ + header_bytes(
                PcapHeader {
                    version_major: 2,
                    version_minor: 4,
                    ts_correction: 0,
                    ts_accuracy: 0,
                    snaplen: 65535,
                    datalink: crate::common::DataLink::ETHERNET,
                    ts_resolution: TsResolution::MicroSecond,
                    endianness: r@.endianness,
                },
            ),
    {
        let mut header = PcapHeader::default();
        header.endianness = native_endianness();
        PcapWriter::with_header(writer, header)
    }

    /// Creates a new `PcapWriter` on `writer` in the byte order `endianness`,
    /// and writes the default file header in that order.
    pub fn with_endianness(endianness: Endianness, writer: Vec<u8>) -> (r: PcapWriter)
        ensures
            r@ == (PcapWriterView {
                endianness,
                snaplen: 65535,
                ts_resolution: TsResolution::MicroSecond,
                written: writer@ + header_bytes(
                    PcapHeader {
                        version_major: 2,
                        version_minor: 4,
                        ts_correction: 0,
                        ts_accuracy: 0,
                        snaplen: 65535,
                        datalink: crate::common::DataLink::ETHERNET,
                        ts_resolution: TsResolution::MicroSecond,
                        endianness,
                    },
                ),
            }),
    {
        let mut header = PcapHeader::default();
        header.endianness = endianness;
        PcapWriter::with_header(writer, header)
    }

    /// Creates a new `PcapWriter` on `writer` and writes `header`, which
    /// fixes the byte order, the snapshot length and the resolution of the
    /// file.
    pub fn with_header(writer: Vec<u8>, header: PcapHeader) -> (r: PcapWriter)
        ensures
            r@ == (PcapWriterView {
                endianness: header.endianness,
                snaplen: header.snaplen,
                ts_resolution: header.ts_resolution,
                written: writer@ + header_bytes(header),
            }),
    {
        let mut writer = writer;
        header.write_to(&mut writer);
        PcapWriter {
            endianness: header.endianness,
            snaplen: header.snaplen,
            ts_resolution: header.ts_resolution,
            writer,
        }
    }

    /// Consumes the `PcapWriter`, returning the bytes written.
    pub fn into_writer(self) -> (r: Vec<u8>)
        ensures
            r@ == self@.written,
    {
        self.writer
    }

    /// The bytes written so far.
    pub fn get_ref(&self) -> (r: &Vec<u8>)
        ensures
            r@ == self@.written,
    {
        &self.writer
    }

    /// Hands out the bytes written so far and starts anew with none: for an
    /// owner that passes them on as they come.
    pub fn take_written(&mut self) -> (r: Vec<u8>)
        ensures
            r@ == old(self)@.written,
            final(self)@ == (PcapWriterView { written: Seq::empty(), ..old(self)@ }),
    {
        let mut out: Vec<u8> = Vec::new();
        std::mem::swap(&mut out, &mut self.writer);
        out
    }

    /// Writes a `Packet` after checking it; a packet that breaks a rule is
    /// refused and nothing is written.
    pub fn write_packet(&mut self, packet: &Packet) -> (r: Result<(), PcapError>)
        ensures
            match r {
                Ok(()) => packet_fault(packet@, old(self)@.snaplen) is None && final(self)@ == (
                PcapWriterView {
                    written: old(self)@.written + packet_bytes(
                        old(self)@.endianness,
                        packet@,
                        old(self)@.ts_resolution,
                    ),
                    ..old(self)@
                }),
                Err(e) => packet_fault(packet@, old(self)@.snaplen) == Some(e.arrow_InvalidField_0())
                    && e is InvalidField && final(self)@ == old(self)@,
            },
    {
        let len = packet.data.len();
        if len > u32::MAX as usize {
            return Err(PcapError::InvalidField(PcapValidationError::DataTooBig(len)));
        }
        let header = packet.header;
        if header.incl_len as usize != len {
            return Err(
                PcapError::InvalidField(
                    PcapValidationError::IncludedLenMismatch(header.incl_len, len),
                ),
            );
        }
        if header.ts_nsec >= 1_000_000_000 {
            return Err(
                PcapError::InvalidField(PcapValidationError::TsFracNanoTooBig(header.ts_nsec)),
            );
        }
        if header.incl_len > self.snaplen {
            return Err(
                PcapError::InvalidField(
                    PcapValidationError::PacketLenTooBig(header.incl_len, self.snaplen),
                ),
            );
        }
        if header.orig_len < header.incl_len {
            return Err(
                PcapError::InvalidField(
                    PcapValidationError::OriginLenTooSmall(header.orig_len, header.incl_len),
                ),
            );
        }
        packet.write_to(self.endianness, &mut self.writer, self.ts_resolution);
        Ok(())
    }

    /// Writes some raw data, converting it to the pcap file format: a packet
    /// of the time `ts_sec` and `ts_nsec` whose data is `data`, all of it.
    pub fn write(&mut self, ts_sec: u32, ts_nsec: u32, data: &[u8]) -> (r: Result<(), PcapError>)
        ensures
            ({
                let packet = PacketView {
                    header: PacketHeader {
                        ts_sec,
                        ts_nsec,
                        incl_len: length_field(data@.len()),
                        orig_len: length_field(data@.len()),
                    },
                    data: data@,
                };
                match r {
                    Ok(()) => packet_fault(packet, old(self)@.snaplen) is None && final(self)@ == (
                    PcapWriterView {
                        written: old(self)@.written + packet_bytes(
                            old(self)@.endianness,
                            packet,
                            old(self)@.ts_resolution,
                        ),
                        ..old(self)@
                    }),
                    Err(e) => packet_fault(packet, old(self)@.snaplen) == Some(
                        e.arrow_InvalidField_0(),
                    ) && e is InvalidField && final(self)@ == old(self)@,
                }
            }),
    {
        let mut packet = Packet::new(ts_sec, ts_nsec, data, 0);
        packet.header.orig_len = packet.header.incl_len;
        self.write_packet(&packet)
    }

    /// Writes a `RawPcapPacket` as it is: nothing in it is checked.
    pub fn write_raw_packet(&mut self, packet: &RawPcapPacket)
        ensures
            final(self)@ == (PcapWriterView {
                written: old(self)@.written + raw_packet_bytes(old(self)@.endianness, packet@),
                ..old(self)@
            }),
    {
        packet.write_to(self.endianness, &mut self.writer);
    }

    /// Byte order of the file.
    pub fn endianness(&self) -> (r: Endianness)
        ensures
            r == self@.endianness,
    {
        self.endianness
    }

    /// Snapshot length of the file.
    pub fn snaplen(&self) -> (r: u32)
        ensures
            r == self@.snaplen,
    {
        self.snaplen
    }

    /// Unit of the sub-second part of the timestamps.
    pub fn ts_resolution(&self) -> (r: TsResolution)
        ensures
            r == self@.ts_resolution,
    {
        self.ts_resolution
    }
}

/// The writer takes every packet that the parser gives: a packet that was
/// parsed from a file with the snapshot length `snaplen` breaks no rule of
/// the writer of such a file.
pub proof fn lemma_parsed_packet_is_valid(
    e: Endianness,
    pcap_header: PcapHeader,
    s: Seq<u8>,
    res: TsResolution,
)
    requires
        packet_of(e, pcap_header, s, res) is Ok,
    ensures
        packet_fault(packet_of(e, pcap_header, s, res).unwrap().0, pcap_header.snaplen) is None,
{
}

/// A valid packet that was written is parsed back as itself, with its
/// sub-second part cut down to the resolution of the file.
pub proof fn lemma_written_packet_is_read_back(
    e: Endianness,
    pcap_header: PcapHeader,
    p: PacketView,
    res: TsResolution,
    tail: Seq<u8>,
)
    requires
        packet_fault(p, pcap_header.snaplen) is None,
    ensures
        packet_of(e, pcap_header, packet_bytes(e, p, res) + tail, res) == Ok::<
            (PacketView, int),
            PcapError,
        >(
            (
                PacketView {
                    header: PacketHeader {
                        ts_nsec: match res {
                            TsResolution::MicroSecond => (p.header.ts_nsec / 1000 * 1000) as u32,
                            TsResolution::NanoSecond => p.header.ts_nsec,
                        },
                        ..p.header
                    },
                    data: p.data,
                },
                16 + p.data.len() as int,
            ),
        ),
{
    broadcast use group_codec;

    let head = packet_header_bytes(e, p.header, res);
    let s = packet_bytes(e, p, res) + tail;
    assert(head.len() == 16);
    assert(s =~= head + (p.data + tail));
    assert(u32_at(e, head, 0) == p.header.ts_sec);
    assert(u32_at(e, head, 4) == nanos_to_frac(p.header.ts_nsec, res));
    assert(u32_at(e, head, 8) == p.header.incl_len);
    assert(u32_at(e, head, 12) == p.header.orig_len);
    assert(s.subrange(16, 16 + p.header.incl_len) =~= p.data);
}

} // verus!
