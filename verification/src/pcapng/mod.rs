//! The PcapNg format: a stream of typed, length-framed blocks, in sections
//! that each fix a byte order and a table of interfaces.

pub mod blocks;
pub mod parser;
pub mod reader;
pub mod state;
pub mod writer;

pub use blocks::{Block, BlockType, BlockView, PcapNgBlock, RawBlock, RawBlockView};
pub use parser::PcapNgParser;
pub use reader::{PcapNgReader, PcapNgReaderView};
pub use state::{InterfaceClock, PcapNgState, PcapNgStateView};
pub use writer::{PcapNgWriter, PcapNgWriterView};
