//! Errors of the Pcap parser, reader and writer.

use vstd::prelude::*;

use crate::common::Duration;

verus! {

/// What can go wrong while parsing, reading or writing a Pcap file.
#[derive(Copy, Clone, Debug, PartialEq, Eq, Structural)]
pub enum PcapError {
    /// The buffer ends before the data does: the number of bytes that were
    /// needed, then the number that were there.
    IncompleteBuffer(usize, usize),
    /// The source ended in the middle of a header or of a record.
    UnexpectedEof,
    /// A field does not hold what the format asks for.
    InvalidField(PcapValidationError),
}

/// The ways in which a field of a Pcap file can be invalid.
#[derive(Copy, Clone, Debug, PartialEq, Eq, Structural)]
pub enum PcapValidationError {
    /// The magic number of the file header is none of the four known ones.
    InvalidMagicNumber(u32),
    /// The sub-second part is not below one second, counted in microseconds.
    TsFracMicroTooBig(u32),
    /// The sub-second part is not below one second, counted in nanoseconds.
    TsFracNanoTooBig(u32),
    /// The timestamp has more seconds than a 32-bit field holds.
    TimestampTooBig(Duration),
    /// More bytes were captured than the file's snapshot length allows: the
    /// included length, then the snapshot length.
    IncludedLenTooBig(u32, u32),
    /// The packet was shorter on the wire than what was captured of it: the
    /// original length, then the included length.
    OriginLenTooSmall(u32, u32),
    /// The data is longer than a 32-bit length field can tell.
    DataTooBig(usize),
    /// The packet is longer than the file's snapshot length: the packet's
    /// length, then the snapshot length.
    PacketLenTooBig(u32, u32),
    /// The included length differs from the number of data bytes: the
    /// included length, then the number of bytes.
    IncludedLenMismatch(u32, usize),
}

impl crate::read_buffer::BufferError for PcapError {
    open spec fn incomplete_spec(&self) -> bool {
        self is IncompleteBuffer
    }

    open spec fn ended_spec(&self) -> bool {
        self is UnexpectedEof
    }

    fn is_incomplete(&self) -> (r: bool) {
        match self {
            PcapError::IncompleteBuffer(_, _) => true,
            _ => false,
        }
    }

    fn unexpected_eof() -> (r: PcapError) {
        PcapError::UnexpectedEof
    }
}

impl From<PcapValidationError> for PcapError {
    fn from(err: PcapValidationError) -> (r: PcapError) {
        PcapError::InvalidField(err)
    }
}

impl vstd::std_specs::convert::FromSpecImpl<PcapValidationError> for PcapError {
    open spec fn obeys_from_spec() -> bool {
        true
    }

    open spec fn from_spec(err: PcapValidationError) -> PcapError {
        PcapError::InvalidField(err)
    }
}

/// Whether the outcome `r` of a parser on `input` is the outcome `expected`:
/// the same error, or the same value with the rest of the input behind the
/// bytes that the value took.
pub open spec fn agrees<T>(
    r: Result<(&[u8], T), PcapError>,
    input: Seq<u8>,
    expected: Result<(T, int), PcapError>,
) -> bool {
    match (r, expected) {
        (Ok((rest, v)), Ok((w, n))) => v == w && 0 <= n <= input.len() && rest@ == input.subrange(
            n,
            input.len() as int,
        ),
        (Err(e), Err(f)) => e == f,
        _ => false,
    }
}

/// As `agrees`, for a value that is compared by its view.
pub open spec fn agrees_view<T: View>(
    r: Result<(&[u8], T), PcapError>,
    input: Seq<u8>,
    expected: Result<(T::V, int), PcapError>,
) -> bool {
    match (r, expected) {
        (Ok((rest, v)), Ok((w, n))) => v@ == w && 0 <= n <= input.len() && rest@
            == input.subrange(n, input.len() as int),
        (Err(e), Err(f)) => e == f,
        _ => false,
    }
}

} // verus!
