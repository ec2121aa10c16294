//! The packet records of a Pcap file.

use vstd::prelude::*;
use vstd::slice::{slice_subrange, slice_to_vec};

use crate::codec::{bytes_u32, group_codec, read_u32, u32_at, write_bytes, write_u32};
use crate::common::{Duration, Endianness, TsResolution};
use crate::pcap::errors::{agrees, agrees_view, PcapError, PcapValidationError};
use crate::pcap::header::PcapHeader;

verus! {

/// Length of a record's header on the wire.
pub const PACKET_HEADER_LEN: usize = 16;

/// Header of a packet record, with the sub-second part in nanoseconds.
#[derive(Copy, Clone, Default, Debug, PartialEq, Eq, Structural)]
pub struct PacketHeader {
    /// Timestamp in seconds
    pub ts_sec: u32,
    /// Nanosecond part of the timestamp
    pub ts_nsec: u32,
    /// Number of octets of the packet saved in file
    pub incl_len: u32,
    /// Original length of the packet on the wire
    pub orig_len: u32,
}

/// The sub-second part `ts_frac` of a record, in nanoseconds; or the reason
/// why it is no part of a second.
pub open spec fn frac_to_nanos(ts_frac: u32, res: TsResolution) -> Result<u32, PcapError> {
    match res {
        TsResolution::MicroSecond => if ts_frac >= 1_000_000 {
            Err(PcapError::InvalidField(PcapValidationError::TsFracMicroTooBig(ts_frac)))
        } else {
            Ok((ts_frac * 1000) as u32)
        },
        TsResolution::NanoSecond => if ts_frac >= 1_000_000_000 {
            Err(PcapError::InvalidField(PcapValidationError::TsFracNanoTooBig(ts_frac)))
        } else {
            Ok(ts_frac)
        },
    }
}

/// The sub-second field that holds `ts_nsec` nanoseconds in a file of
/// resolution `res`.
pub open spec fn nanos_to_frac(ts_nsec: u32, res: TsResolution) -> u32 {
    match res {
        TsResolution::MicroSecond => ts_nsec / 1000,
        TsResolution::NanoSecond => ts_nsec,
    }
}

/// The record header that `s` starts with, in a file with the header
/// `pcap_header`, read in byte order `e` and at resolution `res`; or the first
/// rule that it breaks: enough bytes, a sub-second part below one second,
/// no more bytes included than the snapshot length, no more than the packet
/// had.
pub open spec fn packet_header_of(
    e: Endianness,
    pcap_header: PcapHeader,
    s: Seq<u8>,
    res: TsResolution,
) -> Result<(PacketHeader, int), PcapError> {
    if s.len() < 16 {
        Err(PcapError::IncompleteBuffer(16, s.len() as usize))
    } else {
        let ts_sec = u32_at(e, s, 0);
        let incl_len = u32_at(e, s, 8);
        let orig_len = u32_at(e, s, 12);
        match frac_to_nanos(u32_at(e, s, 4), res) {
            Err(err) => Err(err),
            Ok(ts_nsec) => if incl_len > pcap_header.snaplen {
                Err(
                    PcapError::InvalidField(
                        PcapValidationError::IncludedLenTooBig(incl_len, pcap_header.snaplen),
                    ),
                )
            } else if orig_len < incl_len {
                Err(
                    PcapError::InvalidField(
                        PcapValidationError::OriginLenTooSmall(orig_len, incl_len),
                    ),
                )
            } else {
                Ok((PacketHeader { ts_sec, ts_nsec, incl_len, orig_len }, 16))
            },
        }
    }
}

/// The 16 bytes of the record header `h` in byte order `e` and at resolution
/// `res`.
pub open spec fn packet_header_bytes(e: Endianness, h: PacketHeader, res: TsResolution) -> Seq<
    u8,
> {
    bytes_u32(e, h.ts_sec) + bytes_u32(e, nanos_to_frac(h.ts_nsec, res)) + bytes_u32(
        e,
        h.incl_len,
    ) + bytes_u32(e, h.orig_len)
}

impl PacketHeader {
    /// Create a new `PacketHeader` with the given parameters.
    pub fn new(ts_sec: u32, ts_nsec: u32, incl_len: u32, orig_len: u32) -> (r: PacketHeader)
        ensures
            r == (PacketHeader { ts_sec, ts_nsec, incl_len, orig_len }),
    {
        PacketHeader { ts_sec, ts_nsec, incl_len, orig_len }
    }

    /// Parses the record header at the start of `slice` and checks it against
    /// the file header.
    pub fn from_slice<'a>(
        endianness: Endianness,
        pcap_header: &PcapHeader,
        slice: &'a [u8],
        ts_resolution: TsResolution,
    ) -> (r: Result<(&'a [u8], PacketHeader), PcapError>)
        ensures
            agrees(r, slice@, packet_header_of(endianness, *pcap_header, slice@, ts_resolution)),
    {
        if slice.len() < 16 {
            return Err(PcapError::IncompleteBuffer(16, slice.len()));
        }
        let ts_sec = read_u32(endianness, slice, 0).unwrap();
        let ts_frac = read_u32(endianness, slice, 4).unwrap();
        let ts_nsec = match ts_resolution {
            TsResolution::MicroSecond => {
                if ts_frac >= 1_000_000 {
                    return Err(
                        PcapError::InvalidField(PcapValidationError::TsFracMicroTooBig(ts_frac)),
                    );
                }
                ts_frac * 1000
            },
            TsResolution::NanoSecond => {
                if ts_frac >= 1_000_000_000 {
                    return Err(
                        PcapError::InvalidField(PcapValidationError::TsFracNanoTooBig(ts_frac)),
                    );
                }
                ts_frac
            },
        };
        let incl_len = read_u32(endianness, slice, 8).unwrap();
        let orig_len = read_u32(endianness, slice, 12).unwrap();
        if incl_len > pcap_header.snaplen {
            return Err(
                PcapError::InvalidField(
                    PcapValidationError::IncludedLenTooBig(incl_len, pcap_header.snaplen),
                ),
            );
        }
        if orig_len < incl_len {
            return Err(
                PcapError::InvalidField(PcapValidationError::OriginLenTooSmall(orig_len, incl_len)),
            );
        }
        Ok((slice_subrange(slice, 16, slice.len()), PacketHeader { ts_sec, ts_nsec, incl_len, orig_len }))
    }

    /// Appends the 16 bytes of the header to `writer` and returns their
    /// number.
    pub fn write_to(&self, endianness: Endianness, writer: &mut Vec<u8>, ts_resolution: TsResolution) -> (r: usize)
        ensures
            final(writer)@ == old(writer)@ + packet_header_bytes(endianness, *self, ts_resolution),
            packet_header_bytes(endianness, *self, ts_resolution).len() == 16,
            r == 16,
    {
        broadcast use group_codec;

        let ts_frac = match ts_resolution {
            TsResolution::MicroSecond => self.ts_nsec / 1000,
            TsResolution::NanoSecond => self.ts_nsec,
        };
        write_u32(endianness, writer, self.ts_sec);
        write_u32(endianness, writer, ts_frac);
        write_u32(endianness, writer, self.incl_len);
        write_u32(endianness, writer, self.orig_len);
        assert(writer@ =~= old(writer)@ + packet_header_bytes(endianness, *self, ts_resolution));
        16
    }

    /// Convert the `PacketHeader` to a `Vec<u8>`: its 16 bytes.
    pub fn to_array(&self, endianness: Endianness, ts_resolution: TsResolution) -> (r: Vec<u8>)
        ensures
            r@ == packet_header_bytes(endianness, *self, ts_resolution),
    {
        let mut out: Vec<u8> = Vec::new();
        self.write_to(endianness, &mut out, ts_resolution);
        out
    }

    /// Get the timestamp of the packet as a Duration
    pub fn timestamp(&self) -> (r: Duration)
        ensures
            r.nanos == self.ts_sec * 1_000_000_000 + self.ts_nsec,
    {
        Duration::new(self.ts_sec as u64, self.ts_nsec)
    }
}

/// Packet with its header and data.
#[derive(Debug, PartialEq, Eq)]
pub struct Packet {
    /// Header of the packet
    pub header: PacketHeader,
    /// Payload of the packet
    pub data: Vec<u8>,
}

/// What a `Packet` holds.
pub struct PacketView {
    /// Header of the packet
    pub header: PacketHeader,
    /// Payload of the packet
    pub data: Seq<u8>,
}

impl View for Packet {
    type V = PacketView;

    open spec fn view(&self) -> PacketView {
        PacketView { header: self.header, data: self.data@ }
    }
}

impl Clone for Packet {
    fn clone(&self) -> (r: Packet)
        ensures
            r@ == self@,
    {
        Packet { header: self.header, data: self.data.clone() }
    }
}

/// The packet record that `s` starts with and its length, or the reason why
/// it starts with none: an invalid header, or fewer bytes behind it than it
/// says were included.
pub open spec fn packet_of(e: Endianness, pcap_header: PcapHeader, s: Seq<u8>, res: TsResolution) -> Result<
    (PacketView, int),
    PcapError,
> {
    match packet_header_of(e, pcap_header, s, res) {
        Err(err) => Err(err),
        Ok((header, _)) => if s.len() - 16 < header.incl_len {
            Err(PcapError::IncompleteBuffer(header.incl_len as usize, (s.len() - 16) as usize))
        } else {
            Ok(
                (
                    PacketView { header, data: s.subrange(16, 16 + header.incl_len) },
                    16 + header.incl_len,
                ),
            )
        },
    }
}

/// The bytes of the packet record `p`.
pub open spec fn packet_bytes(e: Endianness, p: PacketView, res: TsResolution) -> Seq<u8> {
    packet_header_bytes(e, p.header, res) + p.data
}

/// The length field that tells a length of `len` bytes: `len`, or the most
/// that 32 bits tell where `len` is beyond them.
pub open spec fn length_field(len: nat) -> u32 {
    if len > u32::MAX {
        u32::MAX
    } else {
        len as u32
    }
}

/// The length field that tells the length of `data`.
fn included_len(data: &[u8]) -> (r: u32)
    ensures
        r == length_field(data@.len()),
{
    if data.len() > u32::MAX as usize {
        u32::MAX
    } else {
        data.len() as u32
    }
}

impl Packet {
    /// Create a new `Packet` with a copy of `data`; the included length is
    /// the length of `data`, or the most that 32 bits tell where it is
    /// longer.
    pub fn new(ts_sec: u32, ts_nsec: u32, data: &[u8], orig_len: u32) -> (r: Packet)
        ensures
            r@ == (PacketView {
                header: PacketHeader { ts_sec, ts_nsec, incl_len: length_field(data@.len()), orig_len },
                data: data@,
            }),
    {
        let header = PacketHeader { ts_sec, ts_nsec, incl_len: included_len(data), orig_len };
        Packet { header, data: slice_to_vec(data) }
    }

    /// Create a new `Packet` of the time `timestamp` that takes `data` over.
    /// All the data is included. `TimestampTooBig` where the time has more
    /// seconds than 32 bits hold, `DataTooBig` where the data is longer than
    /// 32 bits tell.
    pub fn with_timestamp(timestamp: Duration, data: Vec<u8>, orig_len: u32) -> (r: Result<
        Packet,
        PcapError,
    >)
        ensures
            match r {
                Ok(packet) => timestamp.nanos / 1_000_000_000 <= u32::MAX && data@.len() <= u32::MAX
                    && packet@ == (PacketView {
                    header: PacketHeader {
                        ts_sec: (timestamp.nanos / 1_000_000_000) as u32,
                        ts_nsec: (timestamp.nanos % 1_000_000_000) as u32,
                        incl_len: data@.len() as u32,
                        orig_len,
                    },
                    data: data@,
                }),
                Err(err) => if timestamp.nanos / 1_000_000_000 > u32::MAX {
                    err == PcapError::InvalidField(PcapValidationError::TimestampTooBig(timestamp))
                } else {
                    data@.len() > u32::MAX && err == PcapError::InvalidField(
                        PcapValidationError::DataTooBig(data@.len() as usize),
                    )
                },
            },
    {
        let secs = timestamp.as_secs();
        if secs > u32::MAX as u128 {
            return Err(PcapError::InvalidField(PcapValidationError::TimestampTooBig(timestamp)));
        }
        if data.len() > u32::MAX as usize {
            return Err(PcapError::InvalidField(PcapValidationError::DataTooBig(data.len())));
        }
        let header = PacketHeader {
            ts_sec: secs as u32,
            ts_nsec: timestamp.subsec_nanos(),
            incl_len: data.len() as u32,
            orig_len,
        };
        Ok(Packet { header, data })
    }

    /// Create a new `Packet` that takes `data` over; the included length is
    /// the length of `data`, or the most that 32 bits tell where it is
    /// longer.
    pub fn new_owned(ts_sec: u32, ts_nsec: u32, data: Vec<u8>, orig_len: u32) -> (r: Packet)
        ensures
            r@ == (PacketView {
                header: PacketHeader { ts_sec, ts_nsec, incl_len: length_field(data@.len()), orig_len },
                data: data@,
            }),
    {
        let header = PacketHeader { ts_sec, ts_nsec, incl_len: included_len(data.as_slice()), orig_len };
        Packet { header, data }
    }

    /// Parses the packet record at the start of `slice`.
    ///
    /// Returns the packet with the bytes that follow the record.
    pub fn from_slice<'a>(
        endianness: Endianness,
        pcap_header: &PcapHeader,
        slice: &'a [u8],
        ts_resolution: TsResolution,
    ) -> (r: Result<(&'a [u8], Packet), PcapError>)
        ensures
            agrees_view(r, slice@, packet_of(endianness, *pcap_header, slice@, ts_resolution)),
    {
        let (rest, header) = match PacketHeader::from_slice(endianness, pcap_header, slice, ts_resolution) {
            Ok(v) => v,
            Err(e) => { return Err(e); },
        };
        let len = header.incl_len as usize;
        if rest.len() < len {
            return Err(PcapError::IncompleteBuffer(len, rest.len()));
        }
        let packet = Packet { header, data: slice_to_vec(slice_subrange(rest, 0, len)) };
        let rest = slice_subrange(rest, len, rest.len());
        proof {
            assert(packet.data@ =~= slice@.subrange(16, 16 + header.incl_len));
            assert(rest@ =~= slice@.subrange(16 + header.incl_len, slice@.len() as int));
        }
        Ok((rest, packet))
    }

    /// Appends the record to `writer`: the header as it is, then the data.
    pub fn write_to(&self, endianness: Endianness, writer: &mut Vec<u8>, ts_resolution: TsResolution)
        ensures
            final(writer)@ == old(writer)@ + packet_bytes(endianness, self@, ts_resolution),
    {
        self.header.write_to(endianness, writer, ts_resolution);
        write_bytes(writer, self.data.as_slice());
        assert(writer@ =~= old(writer)@ + packet_bytes(endianness, self@, ts_resolution));
    }

    /// Convert a `Packet` into one that owns its data: itself.
    pub fn into_owned(self) -> (r: Packet)
        ensures
            r@ == self@,
    {
        self
    }

    /// Convert a `Packet` to one that owns its data: a copy.
    pub fn to_owned(&self) -> (r: Packet)
        ensures
            r@ == self@,
    {
        self.clone()
    }
}

/// A packet record as it stands in the file: nothing in it is checked, and
/// the sub-second part is in the unit of the file.
#[derive(Debug, PartialEq, Eq)]
pub struct RawPcapPacket {
    /// Timestamp in seconds
    pub ts_sec: u32,
    /// Sub-second part of the timestamp, in the unit of the file
    pub ts_frac: u32,
    /// Number of octets of the packet saved in file
    pub incl_len: u32,
    /// Original length of the packet on the wire
    pub orig_len: u32,
    /// Payload of the packet
    pub data: Vec<u8>,
}

/// What a `RawPcapPacket` holds.
pub struct RawPcapPacketView {
    /// Timestamp in seconds
    pub ts_sec: u32,
    /// Sub-second part of the timestamp, in the unit of the file
    pub ts_frac: u32,
    /// Number of octets of the packet saved in file
    pub incl_len: u32,
    /// Original length of the packet on the wire
    pub orig_len: u32,
    /// Payload of the packet
    pub data: Seq<u8>,
}

impl View for RawPcapPacket {
    type V = RawPcapPacketView;

    open spec fn view(&self) -> RawPcapPacketView {
        RawPcapPacketView {
            ts_sec: self.ts_sec,
            ts_frac: self.ts_frac,
            incl_len: self.incl_len,
            orig_len: self.orig_len,
            data: self.data@,
        }
    }
}

impl Clone for RawPcapPacket {
    fn clone(&self) -> (r: RawPcapPacket)
        ensures
            r@ == self@,
    {
        RawPcapPacket {
            ts_sec: self.ts_sec,
            ts_frac: self.ts_frac,
            incl_len: self.incl_len,
            orig_len: self.orig_len,
            data: self.data.clone(),
        }
    }
}

/// The unchecked record that `s` starts with and its length, or
/// `IncompleteBuffer` where `s` does not hold a whole record.
pub open spec fn raw_packet_of(e: Endianness, s: Seq<u8>) -> Result<(RawPcapPacketView, int), PcapError> {
    if s.len() < 16 {
        Err(PcapError::IncompleteBuffer(16, s.len() as usize))
    } else {
        let incl_len = u32_at(e, s, 8);
        if s.len() - 16 < incl_len {
            Err(PcapError::IncompleteBuffer(incl_len as usize, (s.len() - 16) as usize))
        } else {
            Ok(
                (
                    RawPcapPacketView {
                        ts_sec: u32_at(e, s, 0),
                        ts_frac: u32_at(e, s, 4),
                        incl_len,
                        orig_len: u32_at(e, s, 12),
                        data: s.subrange(16, 16 + incl_len),
                    },
                    16 + incl_len,
                ),
            )
        }
    }
}

/// The bytes of the unchecked record `p`.
pub open spec fn raw_packet_bytes(e: Endianness, p: RawPcapPacketView) -> Seq<u8> {
    bytes_u32(e, p.ts_sec) + bytes_u32(e, p.ts_frac) + bytes_u32(e, p.incl_len) + bytes_u32(
        e,
        p.orig_len,
    ) + p.data
}

impl RawPcapPacket {
    /// Parses the record at the start of `slice` without checking its
    /// fields.
    pub fn from_slice<'a>(endianness: Endianness, slice: &'a [u8]) -> (r: Result<
        (&'a [u8], RawPcapPacket),
        PcapError,
    >)
        ensures
            agrees_view(r, slice@, raw_packet_of(endianness, slice@)),
    {
        if slice.len() < 16 {
            return Err(PcapError::IncompleteBuffer(16, slice.len()));
        }
        let ts_sec = read_u32(endianness, slice, 0).unwrap();
        let ts_frac = read_u32(endianness, slice, 4).unwrap();
        let incl_len = read_u32(endianness, slice, 8).unwrap();
        let orig_len = read_u32(endianness, slice, 12).unwrap();
        let len = incl_len as usize;
        if slice.len() - 16 < len {
            return Err(PcapError::IncompleteBuffer(len, slice.len() - 16));
        }
        let data = slice_to_vec(slice_subrange(slice, 16, 16 + len));
        let packet = RawPcapPacket { ts_sec, ts_frac, incl_len, orig_len, data };
        Ok((slice_subrange(slice, 16 + len, slice.len()), packet))
    }

    /// Appends the record to `writer` as it is.
    pub fn write_to(&self, endianness: Endianness, writer: &mut Vec<u8>)
        ensures
            final(writer)@ == old(writer)@ + raw_packet_bytes(endianness, self@),
    {
        write_u32(endianness, writer, self.ts_sec);
        write_u32(endianness, writer, self.ts_frac);
        write_u32(endianness, writer, self.incl_len);
        write_u32(endianness, writer, self.orig_len);
        write_bytes(writer, self.data.as_slice());
        assert(writer@ =~= old(writer)@ + raw_packet_bytes(endianness, self@));
    }
}

/// A packet that was parsed is written back as the bytes it came from.
pub proof fn lemma_packet_write_back(e: Endianness, pcap_header: PcapHeader, s: Seq<u8>, res: TsResolution)
    requires
        packet_of(e, pcap_header, s, res) is Ok,
    ensures
        ({
            let (p, n) = packet_of(e, pcap_header, s, res).unwrap();
            packet_bytes(e, p, res) == s.subrange(0, n)
        }),
{
    broadcast use group_codec;

    let (p, n) = packet_of(e, pcap_header, s, res).unwrap();
    assert(nanos_to_frac(p.header.ts_nsec, res) == u32_at(e, s, 4));
    assert(packet_bytes(e, p, res) =~= s.subrange(0, n));
}

/// An unchecked record that was parsed is written back as the bytes it came
/// from.
pub proof fn lemma_raw_packet_write_back(e: Endianness, s: Seq<u8>)
    requires
        raw_packet_of(e, s) is Ok,
    ensures
        ({
            let (p, n) = raw_packet_of(e, s).unwrap();
            raw_packet_bytes(e, p) == s.subrange(0, n)
        }),
{
    broadcast use group_codec;

    let (p, n) = raw_packet_of(e, s).unwrap();
    assert(raw_packet_bytes(e, p) =~= s.subrange(0, n));
}

/// More bytes behind a record change nothing: what the bytes `s` start with,
/// be it a packet or an invalid one, the bytes `s` with `more` behind them
/// start with. Only a record that is incomplete may become something else.
pub proof fn lemma_packet_prefix(
    e: Endianness,
    pcap_header: PcapHeader,
    s: Seq<u8>,
    res: TsResolution,
    more: Seq<u8>,
)
    requires
        !(packet_of(e, pcap_header, s, res) matches Err(PcapError::IncompleteBuffer(_, _))),
    ensures
        packet_of(e, pcap_header, s + more, res) == packet_of(e, pcap_header, s, res),
{
    broadcast use group_codec;

    let t = s + more;
    assert(s.len() >= 16);
    assert(u32_at(e, t, 0) == u32_at(e, s, 0));
    assert(u32_at(e, t, 4) == u32_at(e, s, 4));
    assert(u32_at(e, t, 8) == u32_at(e, s, 8));
    assert(u32_at(e, t, 12) == u32_at(e, s, 12));
    if packet_of(e, pcap_header, s, res) is Ok {
        let incl = u32_at(e, s, 8);
        assert(t.subrange(16, 16 + incl) =~= s.subrange(16, 16 + incl));
    }
}

/// As `lemma_packet_prefix`, for a record that is not checked.
pub proof fn lemma_raw_packet_prefix(e: Endianness, s: Seq<u8>, more: Seq<u8>)
    requires
        raw_packet_of(e, s) is Ok,
    ensures
        raw_packet_of(e, s + more) == raw_packet_of(e, s),
{
    broadcast use group_codec;

    let t = s + more;
    let incl = u32_at(e, s, 8);
    assert(u32_at(e, t, 0) == u32_at(e, s, 0));
    assert(u32_at(e, t, 4) == u32_at(e, s, 4));
    assert(u32_at(e, t, 8) == u32_at(e, s, 8));
    assert(u32_at(e, t, 12) == u32_at(e, s, 12));
    assert(t.subrange(16, 16 + incl) =~= s.subrange(16, 16 + incl));
}

/// The packets of a stream of records: those of the bytes `s`, where `s` is
/// whole valid records from its first byte to its last, in a file with the
/// header `h`.
pub open spec fn packets_of(h: PcapHeader, s: Seq<u8>) -> Option<Seq<PacketView>>
    decreases s.len(),
{
    if s.len() == 0 {
        Some(Seq::empty())
    } else {
        match packet_of(h.endianness, h, s, h.ts_resolution) {
            Err(_) => None,
            Ok((p, n)) => if 0 < n <= s.len() {
                match packets_of(h, s.subrange(n, s.len() as int)) {
                    None => None,
                    Some(rest) => Some(seq![p] + rest),
                }
            } else {
                None
            },
        }
    }
}

/// The bytes of the packets `packets` one after the other, in a file with
/// the header `h`.
pub open spec fn packets_bytes(h: PcapHeader, packets: Seq<PacketView>) -> Seq<u8>
    decreases packets.len(),
{
    if packets.len() == 0 {
        Seq::empty()
    } else {
        packet_bytes(h.endianness, packets[0], h.ts_resolution) + packets_bytes(
            h,
            packets.drop_first(),
        )
    }
}

/// A stream of records that was parsed is written back byte for byte.
pub proof fn lemma_stream_write_back(h: PcapHeader, s: Seq<u8>)
    requires
        packets_of(h, s) is Some,
    ensures
        packets_bytes(h, packets_of(h, s).unwrap()) == s,
    decreases s.len(),
{
    if s.len() > 0 {
        let (p, n) = packet_of(h.endianness, h, s, h.ts_resolution).unwrap();
        let tail = s.subrange(n, s.len() as int);
        let rest = packets_of(h, tail).unwrap();
        let packets = packets_of(h, s).unwrap();
        lemma_packet_write_back(h.endianness, h, s, h.ts_resolution);
        lemma_stream_write_back(h, tail);
        assert(packets == seq![p] + rest);
        assert(packets.drop_first() =~= rest);
        assert(s.subrange(0, n) + tail =~= s);
    } else {
        assert(s =~= Seq::<u8>::empty());
    }
}

} // verus!
