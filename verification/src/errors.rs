//! Errors of the PcapNg parser, reader and writer.

use core::str::Utf8Error;
use vstd::prelude::*;

verus! {

/// Why a sequence of bytes is no UTF-8, as `core::str::from_utf8` tells it.
/// Nothing is known of what it holds.
#[verifier::external_type_specification]
#[verifier::external_body]
pub struct ExUtf8Error(Utf8Error);

/// Result type for the pcapng parsing
pub type PcapResult<T> = Result<T, PcapError>;

/// Error type for the pcapng parsing
#[derive(Debug)]
pub enum PcapError {
    /// Buffer too small
    IncompleteBuffer,
    /// The source ended in the middle of a block
    UnexpectedEof,
    /// Invalid field, with a word on which one
    InvalidField(&'static str),
    /// UTF8 conversion error
    Utf8Error(Utf8Error),
    /// Invalid interface ID
    InvalidInterfaceId(u32),
    /// Invalid timestamp resolution
    InvalidTsResolution(u8),
    /// The packet's timestamp is too big for the resolution of its interface
    TimestampTooBig,
    /// Error in custom conversion, with the Private Enterprise Number
    CustomConversionError(u32, String),
}

/// The kind of a `PcapError`: the error without what only a reader of
/// messages needs.
#[derive(Copy, Clone, Debug, PartialEq, Eq, Structural)]
pub enum ErrorKind {
    /// Buffer too small
    IncompleteBuffer,
    /// The source ended in the middle of a block
    UnexpectedEof,
    /// Invalid field
    InvalidField,
    /// UTF8 conversion error
    Utf8Error,
    /// Invalid interface ID
    InvalidInterfaceId(u32),
    /// Invalid timestamp resolution
    InvalidTsResolution(u8),
    /// The packet's timestamp is too big for the resolution of its interface
    TimestampTooBig,
    /// Error in custom conversion, with the Private Enterprise Number
    CustomConversionError(u32),
}

impl View for PcapError {
    type V = ErrorKind;

    open spec fn view(&self) -> ErrorKind {
        match self {
            PcapError::IncompleteBuffer => ErrorKind::IncompleteBuffer,
            PcapError::UnexpectedEof => ErrorKind::UnexpectedEof,
            PcapError::InvalidField(_) => ErrorKind::InvalidField,
            PcapError::Utf8Error(_) => ErrorKind::Utf8Error,
            PcapError::InvalidInterfaceId(id) => ErrorKind::InvalidInterfaceId(*id),
            PcapError::InvalidTsResolution(raw) => ErrorKind::InvalidTsResolution(*raw),
            PcapError::TimestampTooBig => ErrorKind::TimestampTooBig,
            PcapError::CustomConversionError(pen, _) => ErrorKind::CustomConversionError(*pen),
        }
    }
}

impl PcapError {
    /// The kind of the error.
    pub fn kind(&self) -> (r: ErrorKind)
        ensures
            r == self@,
    {
        match self {
            PcapError::IncompleteBuffer => ErrorKind::IncompleteBuffer,
            PcapError::UnexpectedEof => ErrorKind::UnexpectedEof,
            PcapError::InvalidField(_) => ErrorKind::InvalidField,
            PcapError::Utf8Error(_) => ErrorKind::Utf8Error,
            PcapError::InvalidInterfaceId(id) => ErrorKind::InvalidInterfaceId(*id),
            PcapError::InvalidTsResolution(raw) => ErrorKind::InvalidTsResolution(*raw),
            PcapError::TimestampTooBig => ErrorKind::TimestampTooBig,
            PcapError::CustomConversionError(pen, _) => ErrorKind::CustomConversionError(*pen),
        }
    }
}

impl crate::read_buffer::BufferError for PcapError {
    open spec fn incomplete_spec(&self) -> bool {
        self@ == ErrorKind::IncompleteBuffer
    }

    open spec fn ended_spec(&self) -> bool {
        self@ == ErrorKind::UnexpectedEof
    }

    fn is_incomplete(&self) -> (r: bool) {
        match self {
            PcapError::IncompleteBuffer => true,
            _ => false,
        }
    }

    fn unexpected_eof() -> (r: PcapError) {
        PcapError::UnexpectedEof
    }
}

impl From<Utf8Error> for PcapError {
    fn from(err: Utf8Error) -> (r: PcapError) {
        PcapError::Utf8Error(err)
    }
}

impl vstd::std_specs::convert::FromSpecImpl<Utf8Error> for PcapError {
    open spec fn obeys_from_spec() -> bool {
        true
    }

    open spec fn from_spec(err: Utf8Error) -> PcapError {
        PcapError::Utf8Error(err)
    }
}

/// Whether the outcome `r` of a parser on `input` is the outcome `expected`:
/// an error of the same kind, or the same value with the rest of the input
/// behind the bytes that the value took.
pub open spec fn parsed<T: View>(
    r: Result<(&[u8], T), PcapError>,
    input: Seq<u8>,
    expected: Result<(T::V, int), ErrorKind>,
) -> bool {
    match (r, expected) {
        (Ok((rest, v)), Ok((w, n))) => v@ == w && 0 <= n <= input.len() && rest@
            == input.subrange(n, input.len() as int),
        (Err(e), Err(k)) => e@ == k,
        _ => false,
    }
}

/// Whether the outcome `r` of a conversion is the outcome `expected`: an
/// error of the same kind, or the same value.
pub open spec fn converted<T: View>(r: Result<T, PcapError>, expected: Result<T::V, ErrorKind>) -> bool {
    match (r, expected) {
        (Ok(v), Ok(w)) => v@ == w,
        (Err(e), Err(k)) => e@ == k,
        _ => false,
    }
}

/// Whether an emitter that returned `r` did to its sink what `expected`
/// says: appended exactly the bytes and returned their number, or failed
/// with an error of the kind and left the sink as it was.
pub open spec fn emitted(
    r: Result<usize, PcapError>,
    before: Seq<u8>,
    after: Seq<u8>,
    expected: Result<Seq<u8>, ErrorKind>,
) -> bool {
    match (r, expected) {
        (Ok(n), Ok(bytes)) => after == before + bytes && n == bytes.len(),
        (Err(e), Err(k)) => e@ == k && after == before,
        _ => false,
    }
}

} // verus!
