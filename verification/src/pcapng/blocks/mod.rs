//! The blocks of the PcapNg format and their options.

pub mod block_common;
pub mod custom;
pub mod enhanced_packet;
pub mod interface_description;
pub mod interface_statistics;
pub mod name_resolution;
pub mod opt_common;
pub mod packet;
pub mod section_header;
pub mod simple_packet;
pub mod systemd_journal_export;
pub mod unknown;

pub use block_common::{
    Block, BlockType, BlockView, ParsedBlock, PcapNgBlock, RawBlock, RawBlockView,
    CUSTOM_BLOCK_COPIABLE, CUSTOM_BLOCK_NON_COPIABLE, ENHANCED_PACKET_BLOCK,
    INTERFACE_DESCRIPTION_BLOCK, INTERFACE_STATISTIC_BLOCK, NAME_RESOLUTION_BLOCK, PACKET_BLOCK,
    SECTION_HEADER_BLOCK, SIMPLE_PACKET_BLOCK, SYSTEMD_JOURNAL_EXPORT_BLOCK,
};
