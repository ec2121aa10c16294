//! Parsers, readers and writers for the classic Pcap and the PcapNg capture
//! file formats, with machine-checked contracts.
//!
//! Every parser is specified by a function from bytes to a value and every
//! emitter by a function from a value to bytes; the executable code is proved
//! to compute exactly those functions.

pub mod codec;
pub mod common;
pub mod errors;
pub mod pcap;
pub mod pcapng;
pub mod peek_reader;
pub mod read_buffer;

pub use common::{DataLink, Duration, Endianness, TsResolution};
pub use errors::{ErrorKind, PcapError, PcapResult};
