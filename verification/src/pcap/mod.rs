//! The classic Pcap format: a 24-byte file header, then packet records of a
//! 16-byte header and the captured bytes, back to back.

pub mod errors;
pub mod header;
pub mod packet;
pub mod parser;
pub mod reader;
pub mod writer;

pub use errors::{PcapError, PcapValidationError};
pub use header::PcapHeader;
pub use packet::{Packet, PacketHeader, PacketView, RawPcapPacket, RawPcapPacketView};
pub use parser::PcapParser;
pub use reader::{PcapReader, PcapReaderView};
pub use writer::{PcapWriter, PcapWriterView};
