use pcap_file::pcapng::blocks::custom::{
    custom_block_from, into_custom_block, into_custom_block_with, CustomBlock, CustomCopiable,
    CustomNonCopiable,
};
use pcap_file::pcapng::blocks::enhanced_packet::{EnhancedPacketBlock, EnhancedPacketOption};
use pcap_file::pcapng::blocks::interface_description::{
    InterfaceDescriptionBlock, InterfaceDescriptionOption, TsResolution,
};
use pcap_file::pcapng::blocks::interface_statistics::{
    InterfaceStatisticsBlock, InterfaceStatisticsOption,
};
use pcap_file::pcapng::blocks::name_resolution::{
    Ipv4Record, Ipv6Record, NameResolutionBlock, NameResolutionOption, Record, UnknownRecord,
};
use pcap_file::pcapng::blocks::opt_common::{
    opts_from_slice, write_opts_to, CommonOption, CustomBinaryOption, CustomUtf8Option,
    PcapNgOption, UnknownOption,
};
use pcap_file::pcapng::blocks::packet::{PacketBlock, PacketOption};
use pcap_file::pcapng::blocks::section_header::{SectionHeaderBlock, SectionHeaderOption};
use pcap_file::pcapng::blocks::simple_packet::SimplePacketBlock;
use pcap_file::pcapng::blocks::systemd_journal_export::SystemdJournalExportBlock;
use pcap_file::pcapng::blocks::unknown::UnknownBlock;
use pcap_file::pcapng::{
    Block, BlockType, InterfaceClock, PcapNgBlock, PcapNgParser, PcapNgReader, PcapNgState,
    PcapNgWriter, RawBlock,
};
use pcap_file::read_buffer::Poll;
use pcap_file::{DataLink, Duration, Endianness, ErrorKind, PcapError};

/// A section header of the given byte order without options, as bytes.
fn section_bytes(e: Endianness) -> Vec<u8> {
    PcapNgWriter::with_endianness(Vec::new(), e).unwrap().into_inner()
}

/// The bytes of a block of the given type in the given byte order.
fn raw(e: Endianness, type_: u32, body: &[u8]) -> Vec<u8> {
    assert_eq!(body.len() % 4, 0);
    let len = (body.len() + 12) as u32;
    let word = |v: u32| match e {
        Endianness::Big => v.to_be_bytes(),
        Endianness::Little => v.to_le_bytes(),
    };
    let mut out = Vec::new();
    out.extend_from_slice(&word(type_));
    out.extend_from_slice(&word(len));
    out.extend_from_slice(body);
    out.extend_from_slice(&word(len));
    out
}

/// An interface with the given `if_tsresol`.
fn interface(resol: u8) -> Block {
    Block::InterfaceDescription(InterfaceDescriptionBlock {
        linktype: DataLink::ETHERNET,
        snaplen: 0xFFFF,
        options: vec![InterfaceDescriptionOption::IfTsResol(resol)],
    })
}

/// Reads every block of `data`, handed over in pieces of `chunk` bytes.
fn read_blocks(data: &[u8], chunk: usize) -> Vec<Result<Block, ErrorKind>> {
    let mut reader = PcapNgReader::new();
    let mut fed = 0;
    let mut out = Vec::new();
    loop {
        match reader.next_block() {
            Poll::Ready(b) => out.push(Ok(b)),
            Poll::Failed(e) => {
                out.push(Err(e.kind()));
                break;
            },
            Poll::Finished => break,
            Poll::Refill => {
                let end = (fed + chunk).min(data.len());
                reader.fill_buf(&data[fed..end]);
                fed = end;
            },
        }
    }
    out
}

/// Parses every block of `data` with the pull parser.
fn parse_blocks(data: &[u8]) -> Vec<Result<Block, ErrorKind>> {
    let mut out = Vec::new();
    let (mut src, mut parser) = match PcapNgParser::new(data) {
        Ok(v) => v,
        Err(e) => return vec![Err(e.kind())],
    };
    while !src.is_empty() {
        match parser.next_block(src) {
            Ok((rem, block)) => {
                out.push(Ok(block));
                src = rem;
            },
            Err(e) => {
                out.push(Err(match e.kind() {
                    ErrorKind::IncompleteBuffer => ErrorKind::UnexpectedEof,
                    k => k,
                }));
                break;
            },
        }
    }
    out
}

/// A stream with a block of every type, written by the writer.
fn sample_stream(e: Endianness) -> (Vec<u8>, Vec<Block>) {
    let section = SectionHeaderBlock {
        endianness: e,
        major_version: 1,
        minor_version: 0,
        section_length: -1,
        options: vec![
            SectionHeaderOption::Comment("a capture".to_string()),
            SectionHeaderOption::Hardware("x86".to_string()),
            SectionHeaderOption::OS("linux".to_string()),
            SectionHeaderOption::UserApplication("tests".to_string()),
            SectionHeaderOption::Common(CommonOption::Unknown(UnknownOption {
                code: 77,
                length: 3,
                value: vec![1, 2, 3],
            })),
        ],
    };
    let blocks = vec![
        Block::InterfaceDescription(InterfaceDescriptionBlock {
            linktype: DataLink::ETHERNET,
            snaplen: 1500,
            options: vec![
                InterfaceDescriptionOption::Comment("first".to_string()),
                InterfaceDescriptionOption::IfName("en0".to_string()),
                InterfaceDescriptionOption::IfDescription("wired".to_string()),
                InterfaceDescriptionOption::IfIpv4Addr(vec![10, 0, 0, 1, 255, 0, 0, 0]),
                InterfaceDescriptionOption::IfIpv6Addr(vec![7; 17]),
                InterfaceDescriptionOption::IfMacAddr(vec![1, 2, 3, 4, 5, 6]),
                InterfaceDescriptionOption::IfEuIAddr(0x0102030405060708),
                InterfaceDescriptionOption::IfSpeed(1_000_000_000),
                InterfaceDescriptionOption::IfTsResol(9),
                InterfaceDescriptionOption::IfTzone(3600),
                InterfaceDescriptionOption::IfFilter(vec![0, b't', b'c', b'p']),
                InterfaceDescriptionOption::IfOs("linux".to_string()),
                InterfaceDescriptionOption::IfFcsLen(4),
                InterfaceDescriptionOption::IfTsOffset(5),
                InterfaceDescriptionOption::IfHardware("nic".to_string()),
                InterfaceDescriptionOption::CustomBinary(CustomBinaryOption {
                    code: 2989,
                    pen: 70000,
                    value: vec![9, 9],
                }),
                InterfaceDescriptionOption::CustomUtf8(CustomUtf8Option {
                    code: 19372,
                    pen: 70001,
                    value: "héllo".to_string(),
                }),
                InterfaceDescriptionOption::Unknown(UnknownOption {
                    code: 4242,
                    length: 0,
                    value: vec![],
                }),
            ],
        }),
        Block::EnhancedPacket(EnhancedPacketBlock {
            interface_id: 0,
            timestamp: Duration::new(1_704_187_433, 103_553_000),
            original_len: 60,
            data: vec![0xAB; 5],
            options: vec![
                EnhancedPacketOption::Comment("pkt".to_string()),
                EnhancedPacketOption::Flags(3),
                EnhancedPacketOption::Hash(vec![2, 0xDE, 0xAD]),
                EnhancedPacketOption::DropCount(12),
            ],
        }),
        Block::Packet(PacketBlock {
            interface_id: 0,
            drop_count: 7,
            timestamp: Duration::new(6, 1),
            captured_len: 3,
            original_len: 9,
            data: vec![1, 2, 3],
            options: vec![
                PacketOption::Flags(1),
                PacketOption::Hash(vec![1, 2]),
                PacketOption::Common(CommonOption::Comment("old".to_string())),
            ],
        }),
        Block::SimplePacket(SimplePacketBlock { original_len: 8, data: vec![1, 2, 3, 4, 5, 6, 7, 8] }),
        Block::NameResolution(NameResolutionBlock {
            records: vec![
                Record::Ipv4(Ipv4Record {
                    ip_addr: vec![127, 0, 0, 1],
                    names: vec!["localhost".to_string(), "me".to_string()],
                }),
                Record::Ipv6(Ipv6Record { ip_addr: vec![0; 16], names: vec!["six".to_string()] }),
                Record::Unknown(UnknownRecord { type_: 99, value: vec![5, 4, 3] }),
            ],
            options: vec![
                NameResolutionOption::NsDnsName("dns".to_string()),
                NameResolutionOption::NsDnsIpv4Addr(vec![8, 8, 8, 8]),
                NameResolutionOption::NsDnsIpv6Addr(vec![1; 16]),
            ],
        }),
        Block::InterfaceStatistics(InterfaceStatisticsBlock {
            interface_id: 0,
            timestamp: Duration::new(7, 0),
            options: vec![
                InterfaceStatisticsOption::IsbStartTime(Duration::new(5, 0)),
                InterfaceStatisticsOption::IsbEndTime(Duration::new(8, 999)),
                InterfaceStatisticsOption::IsbIfRecv(100),
                InterfaceStatisticsOption::IsbIfDrop(1),
                InterfaceStatisticsOption::IsbFilterAccept(99),
                InterfaceStatisticsOption::IsbOsDrop(2),
                InterfaceStatisticsOption::IsbUsrDeliv(97),
            ],
        }),
        Block::SystemdJournalExport(SystemdJournalExportBlock {
            journal_entry: b"MESSAGE=x\n\n\n".to_vec(),
        }),
        Block::CustomCopiable(CustomBlock { pen: 70000, payload: vec![1, 2, 3, 4] }),
        Block::CustomNonCopiable(CustomBlock { pen: 70000, payload: vec![] }),
        Block::Unknown(UnknownBlock { type_: 0x1234, length: 20, value: vec![1, 2, 3, 4, 5, 6, 7, 8] }),
    ];
    let mut writer = PcapNgWriter::with_section_header(Vec::new(), section).unwrap();
    for block in &blocks {
        writer.write_block(block).unwrap();
    }
    (writer.into_inner(), blocks)
}

#[test]
fn opt_without_endofopt() {
    let data = [0, 1, 0, 4, 0, 0, 0, 0];
    let clocks: Vec<InterfaceClock> = Vec::new();

    let (rem, opts) = opts_from_slice::<EnhancedPacketOption>(Endianness::Big, &clocks, None, &data)
        .expect("Failed to read the options");

    assert_eq!(&opts, &[EnhancedPacketOption::Comment("\0\0\0\0".to_string())]);
    assert_eq!(rem, &[] as &[u8]);
}

#[derive(Clone, Debug, PartialEq, Eq)]
struct MyCustomPayload {
    magic_number: u64,
}

impl CustomCopiable for MyCustomPayload {
    const PEN: u32 = 70000;

    fn write_to(&self, writer: &mut Vec<u8>) -> Result<(), PcapError> {
        writer.extend_from_slice(&self.magic_number.to_be_bytes());
        Ok(())
    }

    fn from_slice(slice: &[u8]) -> Result<Option<MyCustomPayload>, PcapError> {
        if slice.len() < 8 {
            return Err(PcapError::CustomConversionError(70000, "payload too short".to_string()));
        }
        let mut bytes = [0u8; 8];
        bytes.copy_from_slice(&slice[..8]);
        Ok(Some(MyCustomPayload { magic_number: u64::from_be_bytes(bytes) }))
    }
}

#[test]
fn test_custom_block() {
    let original_payload = MyCustomPayload { magic_number: 0xDEADBEEFCAFED00D };
    let mut encoded = Vec::new();
    original_payload.write_to(&mut encoded).unwrap();

    let section = SectionHeaderBlock {
        options: vec![SectionHeaderOption::Common(CommonOption::CustomBinary(CustomBinaryOption {
            code: 2989,
            pen: MyCustomPayload::PEN,
            value: encoded.clone(),
        }))],
        ..Default::default()
    };

    let mut pcapng_writer =
        PcapNgWriter::with_section_header(Vec::new(), section).expect("Failed to create writer");

    let block_to_write = into_custom_block(original_payload.clone())
        .expect("Failed to encode custom block")
        .into_block();

    pcapng_writer.write_block(&block_to_write).expect("Failed to write custom block");
    let buffer = pcapng_writer.into_inner();

    // --- READING ---
    let (rem, mut pcapng_parser) = PcapNgParser::new(&buffer).expect("Failed to create parser");

    // Read the next block, which should be our custom block
    let (remaining_data, read_block_enum) =
        pcapng_parser.next_block(rem).expect("Failed to read next block");

    // --- VERIFICATION ---
    let read_block = match read_block_enum {
        Block::CustomCopiable(block) => block,
        _ => panic!("Expected a CustomCopiable block, but got something else."),
    };

    // Assert that the PEN is correct
    assert_eq!(read_block.pen, MyCustomPayload::PEN, "PEN did not match");
    assert_eq!(read_block.pen, 70000);

    // Parse the payload back to our concrete type
    let read_payload = read_block
        .interpret::<MyCustomPayload>()
        .expect("Failed to parse payload")
        .expect("Payload not recognized");

    // Assert that the inner data is correct
    assert_eq!(read_payload, original_payload, "Payload data did not match");

    // Verify that our custom option in the header was also read correctly.
    match pcapng_parser.section().options.first().expect("No options on section header") {
        SectionHeaderOption::Common(CommonOption::CustomBinary(custom)) => {
            assert_eq!(custom.pen, 70000);
            assert_eq!(custom.value, vec![0xDE, 0xAD, 0xBE, 0xEF, 0xCA, 0xFE, 0xD0, 0x0D]);
            let opt_payload = MyCustomPayload::from_slice(&custom.value)
                .expect("Failed to parse payload")
                .expect("Payload not recognized");
            assert_eq!(opt_payload, original_payload, "Option payload data did not match");
        },
        _ => panic!("Expected a custom option"),
    };

    // Verify there is no more data left to parse
    assert!(remaining_data.is_empty(), "Expected all data to be consumed");
}

#[derive(Clone, Debug, PartialEq, Eq)]
struct MyStatefulPayload {
    magic_number: u64,
    interface_id: u32,
    timestamp: Duration,
}

impl CustomNonCopiable for MyStatefulPayload {
    type State = PcapNgState;

    const PEN: u32 = 70000;

    fn write_to(&self, state: &PcapNgState, writer: &mut Vec<u8>) -> Result<(), PcapError> {
        let e = state.section().endianness;
        match e {
            Endianness::Big => {
                writer.extend_from_slice(&self.magic_number.to_be_bytes());
                writer.extend_from_slice(&self.interface_id.to_be_bytes());
            },
            Endianness::Little => {
                writer.extend_from_slice(&self.magic_number.to_le_bytes());
                writer.extend_from_slice(&self.interface_id.to_le_bytes());
            },
        }
        state.encode_timestamp(e, self.interface_id, self.timestamp, writer)
    }

    fn from_slice(state: &PcapNgState, slice: &[u8]) -> Result<Option<MyStatefulPayload>, PcapError> {
        if slice.len() < 20 {
            return Err(PcapError::CustomConversionError(70000, "payload too short".to_string()));
        }
        let e = state.section().endianness;
        let mut magic = [0u8; 8];
        magic.copy_from_slice(&slice[..8]);
        let mut id = [0u8; 4];
        id.copy_from_slice(&slice[8..12]);
        let (magic_number, interface_id) = match e {
            Endianness::Big => (u64::from_be_bytes(magic), u32::from_be_bytes(id)),
            Endianness::Little => (u64::from_le_bytes(magic), u32::from_le_bytes(id)),
        };
        let timestamp = state.decode_timestamp(e, interface_id, &slice[12..])?;
        Ok(Some(MyStatefulPayload { magic_number, interface_id, timestamp }))
    }
}

#[test]
fn test_stateful_custom_block() {
    let original_payload = MyStatefulPayload {
        magic_number: 0xDEADBEEFCAFED00D,
        interface_id: 0,
        timestamp: Duration::from_nanos(123456789),
    };

    let mut pcapng_writer = PcapNgWriter::new(Vec::new()).expect("Failed to create writer");

    // Write an interface description block that sets the timestamp format.
    let interface_description = InterfaceDescriptionBlock {
        linktype: DataLink::ETHERNET,
        snaplen: 1500,
        options: vec![InterfaceDescriptionOption::IfTsResol(9)],
    };

    pcapng_writer
        .write_block(&interface_description.into_block())
        .expect("Failed to write interface description block");

    let block_to_write = into_custom_block_with(original_payload.clone(), pcapng_writer.state())
        .expect("Failed to encode custom block")
        .into_block();

    pcapng_writer.write_block(&block_to_write).expect("Failed to write custom block");

    let mut option_value = Vec::new();
    original_payload.write_to(pcapng_writer.state(), &mut option_value).unwrap();
    let packet_block = EnhancedPacketBlock {
        interface_id: 0,
        timestamp: Duration::zero(),
        original_len: 0,
        data: vec![],
        options: vec![EnhancedPacketOption::CustomBinary(CustomBinaryOption {
            code: 19373,
            pen: 70000,
            value: option_value,
        })],
    };

    pcapng_writer.write_block(&packet_block.into_block()).expect("Failed to write packet block");
    let buffer = pcapng_writer.into_inner();

    // --- READING ---
    let mut pcapng_reader = PcapNgReader::new();
    pcapng_reader.fill_buf(&buffer);
    pcapng_reader.fill_buf(&[]);

    // Read the first block, which should be the interface description
    let first_block = match pcapng_reader.next_block() {
        Poll::Ready(b) => b,
        other => panic!("No first block from reader: {:?}", other),
    };

    assert!(matches!(first_block, Block::InterfaceDescription(_)));

    // Read the next block, which should be our custom block
    let read_block_enum = match pcapng_reader.next_block() {
        Poll::Ready(b) => b,
        other => panic!("No second block from reader: {:?}", other),
    };

    // --- VERIFICATION ---
    let read_block = match read_block_enum {
        Block::CustomNonCopiable(block) => block,
        _ => panic!("Expected a CustomNonCopiable block, but got something else."),
    };

    // Assert that the PEN is correct
    assert_eq!(read_block.pen, MyStatefulPayload::PEN, "PEN did not match");

    // Parse the payload back to our concrete type
    let read_payload = read_block
        .interpret::<MyStatefulPayload>(pcapng_reader.state().unwrap())
        .expect("Failed to parse payload")
        .expect("Payload not recognized");

    // Assert that the inner data is correct
    assert_eq!(read_payload, original_payload, "Payload data did not match");

    // Read the last block, which should be our packet block
    let last_block = match pcapng_reader.next_block() {
        Poll::Ready(b) => b,
        other => panic!("No third block from reader: {:?}", other),
    };

    match last_block {
        Block::EnhancedPacket(packet) => {
            let option = packet.options.first().expect("No options on packet");
            match option {
                EnhancedPacketOption::CustomBinary(custom) => {
                    assert_eq!(custom.code, 19373);
                    let opt_payload =
                        MyStatefulPayload::from_slice(pcapng_reader.state().unwrap(), &custom.value)
                            .expect("Failed to parse payload")
                            .expect("Payload not recognized");
                    assert_eq!(opt_payload, original_payload, "Option payload data did not match");
                },
                _ => panic!("Expected a custom option"),
            }
        },
        _ => panic!("Expected an enhanced packet block"),
    };

    // Verify there is no more data left to parse
    assert!(matches!(pcapng_reader.next_block(), Poll::Finished));
    let remaining_data = pcapng_reader.into_inner();
    assert!(remaining_data.is_empty(), "Expected all data to be consumed");
}

#[test]
fn timestamp_resolution() {
    let e = Endianness::Little;
    let mut data = section_bytes(e);
    let mut state_writer = PcapNgWriter::with_endianness(Vec::new(), e).unwrap();
    state_writer.take_written();
    state_writer.write_block(&interface(9)).unwrap();
    state_writer.write_block(&interface(6)).unwrap();
    data.extend_from_slice(&state_writer.take_written());

    let epb = |id: u32, ticks: u64| {
        let mut body = Vec::new();
        body.extend_from_slice(&id.to_le_bytes());
        body.extend_from_slice(&((ticks >> 32) as u32).to_le_bytes());
        body.extend_from_slice(&(ticks as u32).to_le_bytes());
        body.extend_from_slice(&0u32.to_le_bytes());
        body.extend_from_slice(&0u32.to_le_bytes());
        raw(e, 6, &body)
    };
    data.extend_from_slice(&epb(0, 1_704_187_433_103_553_000));
    data.extend_from_slice(&epb(1, 1_704_187_433_132_051));
    data.extend_from_slice(&epb(0, 0x1876_C55A_FA21_AD98));

    let blocks = read_blocks(&data, 1_000_000);
    assert_eq!(blocks.len(), 5);
    let if_0 = blocks[0].as_ref().unwrap().as_interface_description().expect("Block 0 should be an InterfaceDescriptionBlock");
    assert!(matches!(if_0.options[0], InterfaceDescriptionOption::IfTsResol(9)), "Invalid TsResolution for block 0");
    let if_1 = blocks[1].as_ref().unwrap().as_interface_description().expect("Block 1 should be an InterfaceDescriptionBlock");
    assert_eq!(if_1.options[0], InterfaceDescriptionOption::IfTsResol(6), "Invalid TsResolution for block 1");
    let pkt_0 = blocks[2].as_ref().unwrap().as_enhanced_packet().expect("Block 2 should be an EnhancedPacketBlock");
    assert_eq!(pkt_0.timestamp, Duration::new(1704187433, 103553000), "Invalid timestamp for pkt0");
    let pkt_1 = blocks[3].as_ref().unwrap().as_enhanced_packet().expect("Block 3 should be an EnhancedPacketBlock");
    assert_eq!(pkt_1.timestamp, Duration::new(1704187433, 132051000), "Invalid timestamp for pkt1");
    let pkt_2 = blocks[4].as_ref().unwrap().as_enhanced_packet().expect("Block 4 should be an EnhancedPacketBlock");
    assert_eq!(pkt_2.timestamp, Duration::new(1762813298, 696367512), "Invalid timestamp for pkt2");
}

#[test]
fn reader() {
    for e in [Endianness::Big, Endianness::Little] {
        let (data, blocks) = sample_stream(e);
        for chunk in [1usize, 3, 16, 64, 1_000_000] {
            let read = read_blocks(&data, chunk);
            assert_eq!(read.len(), blocks.len());
            for (i, block) in read.into_iter().enumerate() {
                block.unwrap_or_else(|_| panic!("Error on block {i}"));
            }
        }
    }
}

#[test]
fn parser() {
    for e in [Endianness::Big, Endianness::Little] {
        let (data, blocks) = sample_stream(e);
        let parsed = parse_blocks(&data);
        assert_eq!(parsed.len(), blocks.len());
        for (i, block) in parsed.into_iter().enumerate() {
            block.unwrap_or_else(|_| panic!("Error on block {i}"));
        }
    }
}

#[test]
fn writer() {
    for e in [Endianness::Big, Endianness::Little] {
        let (pcapng_in, _) = sample_stream(e);
        let (rem, mut parser) = PcapNgParser::new(&pcapng_in).unwrap();
        let mut pcapng_writer =
            PcapNgWriter::with_section_header(Vec::new(), parser.section().clone()).unwrap();

        let mut src = rem;
        let mut idx = 0;
        while !src.is_empty() {
            let (rem, block) = parser.next_block(src).unwrap();
            src = rem;
            pcapng_writer
                .write_block(&block)
                .unwrap_or_else(|_| panic!("Error writing block n°{idx}, block: {block:?}"));
            idx += 1;
        }

        let expected = &pcapng_in;
        let actual = pcapng_writer.get_ref();
        assert_eq!(parse_blocks(expected), parse_blocks(actual));
        assert_eq!(expected, actual);
    }
}

#[test]
fn blocks_survive_writing_and_reading_in_both_byte_orders() {
    for e in [Endianness::Big, Endianness::Little] {
        let (data, blocks) = sample_stream(e);
        let read = read_blocks(&data, 7);
        assert_eq!(read.len(), blocks.len());
        for (got, want) in read.iter().zip(blocks.iter()) {
            let got = got.as_ref().unwrap();
            match (got, want) {
                // The journal entry and the payloads come back with their padding.
                (Block::SystemdJournalExport(g), Block::SystemdJournalExport(w)) => {
                    assert_eq!(&g.journal_entry[..w.journal_entry.len()], &w.journal_entry[..]);
                },
                (Block::Unknown(g), Block::Unknown(w)) => {
                    assert_eq!((g.type_, &g.value), (w.type_, &w.value));
                },
                _ => assert_eq!(got, want),
            }
        }
    }
}

#[test]
fn reader_and_parser_agree_on_every_split() {
    let (data, _) = sample_stream(Endianness::Little);
    let whole = parse_blocks(&data);
    for chunk in 1..40 {
        assert_eq!(read_blocks(&data, chunk), whole);
    }
    // The same holds of a stream that turns invalid and of one that ends early.
    let mut broken = data.clone();
    let at = u32::from_le_bytes([data[4], data[5], data[6], data[7]]) as usize + 4;
    broken[at] = broken[at].wrapping_add(1);
    assert_eq!(read_blocks(&broken, 5), parse_blocks(&broken));
    assert_eq!(parse_blocks(&broken), vec![Err(ErrorKind::InvalidField)]);
    let cut = &data[..data.len() - 3];
    assert_eq!(read_blocks(cut, 9), parse_blocks(cut));
    assert_eq!(read_blocks(cut, 9).last().unwrap(), &Err(ErrorKind::UnexpectedEof));
}

#[test]
fn block_length_must_be_a_multiple_of_four() {
    let e = Endianness::Big;
    let block = raw(e, 0x99, &[0u8; 4]);
    assert!(RawBlock::from_slice(e, &block).is_ok());
    // A block of 18 bytes: a body of 6 bytes between the two lengths.
    let block = [0, 0, 0, 0x99, 0, 0, 0, 18, 1, 2, 3, 4, 5, 6, 0, 0, 0, 18];
    assert_eq!(RawBlock::from_slice(e, &block).unwrap_err().kind(), ErrorKind::InvalidField);
    let state = PcapNgState::default();
    assert_eq!(Block::from_slice(e, &state, &block).unwrap_err().kind(), ErrorKind::InvalidField);
    let mut short = raw(e, 0x99, &[]);
    short[7] = 8;
    assert_eq!(RawBlock::from_slice(e, &short).unwrap_err().kind(), ErrorKind::InvalidField);
}

#[test]
fn block_lengths_must_match() {
    for e in [Endianness::Big, Endianness::Little] {
        let mut block = raw(e, 0x99, &[1, 2, 3, 4]);
        let (rest, parsed) = RawBlock::from_slice(e, &block).unwrap();
        assert!(rest.is_empty());
        assert_eq!((parsed.type_, parsed.initial_len, parsed.trailer_len), (0x99, 16, 16));
        assert_eq!(parsed.body, vec![1, 2, 3, 4]);
        let mut out = Vec::new();
        assert_eq!(parsed.write_to(e, &mut out), 16);
        assert_eq!(out, block);
        let last = block.len() - 1;
        block[last] ^= 0x40;
        assert_eq!(RawBlock::from_slice(e, &block).unwrap_err().kind(), ErrorKind::InvalidField);
    }
}

#[test]
fn section_header_magic_must_be_known() {
    let good = section_bytes(Endianness::Little);
    assert_eq!(&good[8..12], &[0x4D, 0x3C, 0x2B, 0x1A]);
    assert_eq!(&section_bytes(Endianness::Big)[8..12], &[0x1A, 0x2B, 0x3C, 0x4D]);
    let mut bad = good.clone();
    bad[8] = 0x4E;
    assert_eq!(PcapNgParser::new(&bad).unwrap_err().kind(), ErrorKind::InvalidField);
    assert_eq!(RawBlock::from_slice(Endianness::Big, &bad).unwrap_err().kind(), ErrorKind::InvalidField);
    assert_eq!(RawBlock::from_slice(Endianness::Little, &bad).unwrap_err().kind(), ErrorKind::InvalidField);
    // Either byte order reads a section header by its own magic number.
    let (_, a) = RawBlock::from_slice(Endianness::Big, &good).unwrap();
    let (_, b) = RawBlock::from_slice(Endianness::Little, &good).unwrap();
    assert_eq!(a, b);
    assert_eq!(a.initial_len, 28);
    // A stream must start with a section header.
    let other = raw(Endianness::Big, 3, &[0, 0, 0, 0]);
    assert_eq!(PcapNgParser::new(&other).unwrap_err().kind(), ErrorKind::InvalidField);
    assert_eq!(PcapNgParser::new(&good[..11]).unwrap_err().kind(), ErrorKind::IncompleteBuffer);
    assert_eq!(PcapNgParser::new(&good[..20]).unwrap_err().kind(), ErrorKind::IncompleteBuffer);
}

#[test]
fn captured_length_must_fit_the_body() {
    let e = Endianness::Big;
    let mut writer = PcapNgWriter::with_endianness(Vec::new(), e).unwrap();
    writer.write_block(&interface(6)).unwrap();
    let body = |captured: u32, data: &[u8]| {
        let mut body = vec![0, 0, 0, 0, 0, 0, 0, 0, 0, 0, 0, 1];
        body.extend_from_slice(&captured.to_be_bytes());
        body.extend_from_slice(&9u32.to_be_bytes());
        body.extend_from_slice(data);
        body
    };
    let parse = |body: &[u8]| EnhancedPacketBlock::from_slice(e, writer.state(), body).map(|r| r.1);
    let ok = parse(&body(5, &[1, 2, 3, 4, 5, 0, 0, 0])).unwrap();
    assert_eq!(ok.data, vec![1, 2, 3, 4, 5]);
    assert_eq!(ok.timestamp, Duration::new(0, 1000));
    assert_eq!(ok.original_len, 9);
    assert!(ok.options.is_empty());
    assert_eq!(parse(&body(5, &[1, 2, 3, 4, 5, 0, 0])).unwrap_err().kind(), ErrorKind::InvalidField);
    assert_eq!(parse(&body(9, &[1, 2, 3, 4, 5, 0, 0, 0])).unwrap_err().kind(), ErrorKind::InvalidField);
    assert_eq!(parse(&body(0, &[])[..19]).unwrap_err().kind(), ErrorKind::InvalidField);
    assert!(parse(&body(u32::MAX, &[1, 2, 3, 4])).is_err());
}

#[test]
fn options_may_end_with_the_body() {
    let clocks: Vec<InterfaceClock> = Vec::new();
    for e in [Endianness::Big, Endianness::Little] {
        let opts = vec![
            EnhancedPacketOption::Flags(0x01020304),
            EnhancedPacketOption::Hash(vec![1, 2, 3, 4, 5]),
        ];
        let mut with_end = Vec::new();
        let n = write_opts_to(&opts, e, &clocks, None, &mut with_end).unwrap();
        assert_eq!(n, with_end.len());
        assert_eq!(n, 8 + 12 + 4);
        assert_eq!(&with_end[n - 4..], &[0, 0, 0, 0]);
        match e {
            Endianness::Big => assert_eq!(&with_end[..12], &[0, 2, 0, 4, 1, 2, 3, 4, 0, 3, 0, 5]),
            Endianness::Little => assert_eq!(&with_end[..12], &[2, 0, 4, 0, 4, 3, 2, 1, 3, 0, 5, 0]),
        }
        assert_eq!(&with_end[12..20], &[1, 2, 3, 4, 5, 0, 0, 0]);
        let (rest, parsed) = opts_from_slice::<EnhancedPacketOption>(e, &clocks, None, &with_end).unwrap();
        assert!(rest.is_empty());
        assert_eq!(parsed, opts);
        let (rest, parsed) =
            opts_from_slice::<EnhancedPacketOption>(e, &clocks, None, &with_end[..n - 4]).unwrap();
        assert!(rest.is_empty());
        assert_eq!(parsed, opts);
        // What follows the end of the options is left alone.
        with_end.extend_from_slice(&[9, 9, 9, 9]);
        let (rest, parsed) = opts_from_slice::<EnhancedPacketOption>(e, &clocks, None, &with_end).unwrap();
        assert_eq!(rest, &[9, 9, 9, 9]);
        assert_eq!(parsed, opts);
        // An option that overruns the bytes and a head that is cut are invalid.
        assert_eq!(
            opts_from_slice::<EnhancedPacketOption>(e, &clocks, None, &with_end[..n - 6]).unwrap_err().kind(),
            ErrorKind::InvalidField
        );
        assert_eq!(
            opts_from_slice::<EnhancedPacketOption>(e, &clocks, None, &with_end[..6]).unwrap_err().kind(),
            ErrorKind::InvalidField
        );
    }
    let none: Vec<EnhancedPacketOption> = Vec::new();
    let mut out = Vec::new();
    assert_eq!(write_opts_to(&none, Endianness::Big, &clocks, None, &mut out).unwrap(), 0);
    assert!(out.is_empty());
    // The code 0 ends the list whatever length comes with it.
    let (rest, parsed) =
        opts_from_slice::<EnhancedPacketOption>(Endianness::Big, &clocks, None, &[0, 0, 0, 9, 1, 1]).unwrap();
    assert!(parsed.is_empty());
    assert_eq!(rest, &[1, 1]);
}

#[test]
fn a_new_section_forgets_the_interfaces() {
    let e = Endianness::Little;
    let mut with_interface = PcapNgWriter::with_endianness(Vec::new(), e).unwrap();
    with_interface.write_block(&interface(6)).unwrap();
    let packet = Block::EnhancedPacket(EnhancedPacketBlock {
        interface_id: 0,
        timestamp: Duration::new(1, 0),
        original_len: 2,
        data: vec![1, 2],
        options: vec![],
    });
    let start = with_interface.get_ref().len();
    with_interface.write_block(&packet).unwrap();
    let packet_bytes = with_interface.get_ref()[start..].to_vec();

    let mut data = with_interface.into_inner();
    data.extend_from_slice(&section_bytes(e));
    data.extend_from_slice(&packet_bytes);

    let expect = |blocks: Vec<Result<Block, ErrorKind>>| {
        assert_eq!(blocks.len(), 4);
        assert!(matches!(blocks[0], Ok(Block::InterfaceDescription(_))));
        assert_eq!(blocks[1].as_ref().unwrap(), &packet);
        assert!(matches!(blocks[2], Ok(Block::SectionHeader(_))));
        assert_eq!(blocks[3], Err(ErrorKind::InvalidInterfaceId(0)));
    };
    expect(read_blocks(&data, 11));
    expect(parse_blocks(&data));

    // The writer refuses the packet as the reader does.
    let mut writer = PcapNgWriter::with_endianness(Vec::new(), e).unwrap();
    assert!(matches!(writer.write_block(&packet), Err(PcapError::InvalidInterfaceId(0))));
    writer.write_block(&interface(6)).unwrap();
    writer.write_block(&packet).unwrap();
    assert_eq!(writer.interfaces().len(), 1);
    writer.write_block(&Block::SectionHeader(SectionHeaderBlock::with_endianness(Endianness::Big))).unwrap();
    assert_eq!(writer.interfaces().len(), 0);
    assert_eq!(writer.section().endianness, Endianness::Big);
    let before = writer.get_ref().len();
    assert!(matches!(writer.write_block(&packet), Err(PcapError::InvalidInterfaceId(0))));
    assert_eq!(writer.get_ref().len(), before);
    let stats = Block::InterfaceStatistics(InterfaceStatisticsBlock {
        interface_id: 3,
        timestamp: Duration::zero(),
        options: vec![],
    });
    assert!(matches!(writer.write_block(&stats), Err(PcapError::InvalidInterfaceId(3))));
}

#[test]
fn obsolete_packet_block_is_tolerated() {
    let e = Endianness::Big;
    let mut data = section_bytes(e);
    let mut w = PcapNgWriter::with_endianness(Vec::new(), e).unwrap();
    w.take_written();
    w.write_block(&interface(6)).unwrap();
    data.extend_from_slice(&w.take_written());
    let body = [
        0, 0, 0, 5, // interface 0, drop count 5
        0, 0, 0, 1, 0, 0, 0, 2, // 2^32 + 2 ticks
        0, 0, 0, 3, 0, 0, 0, 4, // 3 bytes captured of 4
        7, 8, 9, 0, // data and padding
        0, 2, 0, 4, 0, 0, 0, 1, // flags
        0, 0, 0, 0,
    ];
    let block_bytes = raw(e, 2, &body);
    data.extend_from_slice(&block_bytes);
    let blocks = read_blocks(&data, 13);
    let packet = blocks[1].as_ref().unwrap().as_packet().expect("a packet block");
    assert_eq!(
        packet,
        &PacketBlock {
            interface_id: 0,
            drop_count: 5,
            timestamp: Duration::from_nanos(((1u128 << 32) + 2) * 1000),
            captured_len: 3,
            original_len: 4,
            data: vec![7, 8, 9],
            options: vec![PacketOption::Flags(1)],
        }
    );
    w.write_block(blocks[1].as_ref().unwrap()).unwrap();
    assert_eq!(w.take_written(), block_bytes);
    let mut wrong = packet.clone();
    wrong.captured_len = 2;
    assert!(matches!(w.write_block(&Block::Packet(wrong)), Err(PcapError::InvalidField(_))));
}

#[test]
fn timestamps_are_cut_to_whole_ticks() {
    let mut state = PcapNgState::default();
    state.update_for_block(&interface(3)).unwrap();
    state.update_for_block(&Block::InterfaceDescription(InterfaceDescriptionBlock {
        linktype: DataLink::RAW,
        snaplen: 0,
        options: vec![
            InterfaceDescriptionOption::IfTsOffset(10),
            InterfaceDescriptionOption::IfTsResol(0x80 | 10),
        ],
    })).unwrap();
    assert_eq!(
        state.clocks(),
        &vec![
            InterfaceClock { tick_nanos: 1_000_000, offset_secs: 0 },
            InterfaceClock { tick_nanos: 1 << 20, offset_secs: 10 },
        ]
    );
    for e in [Endianness::Big, Endianness::Little] {
        let d = Duration::new(12, 345_678_901);
        let mut out = Vec::new();
        state.encode_timestamp(e, 0, d, &mut out).unwrap();
        assert_eq!(out.len(), 8);
        assert_eq!(state.decode_timestamp(e, 0, &out).unwrap(), Duration::new(12, 345_000_000));
        let mut out = Vec::new();
        state.encode_timestamp(e, 1, d, &mut out).unwrap();
        let ticks = (2_345_678_901u128 / (1 << 20)) as u128;
        assert_eq!(
            state.decode_timestamp(e, 1, &out).unwrap(),
            Duration::from_nanos(10_000_000_000 + ticks * (1 << 20))
        );
        // A time before tick zero and an interface that is not there.
        assert!(matches!(
            state.encode_timestamp(e, 1, Duration::new(9, 0), &mut out),
            Err(PcapError::TimestampTooBig)
        ));
        assert!(matches!(
            state.encode_timestamp(e, 2, d, &mut out),
            Err(PcapError::InvalidInterfaceId(2))
        ));
        assert!(matches!(state.decode_timestamp(e, 2, &out), Err(PcapError::InvalidInterfaceId(2))));
        assert!(matches!(state.decode_timestamp(e, 0, &out[..7]), Err(PcapError::IncompleteBuffer)));
    }
    // More ticks than 64 bits hold.
    let mut out = Vec::new();
    let huge = Duration::from_nanos((u64::MAX as u128 + 1) * 1_000_000);
    assert!(matches!(
        state.encode_timestamp(Endianness::Big, 0, huge, &mut out),
        Err(PcapError::TimestampTooBig)
    ));
    let most = Duration::from_nanos(u64::MAX as u128 * 1_000_000);
    state.encode_timestamp(Endianness::Big, 0, most, &mut out).unwrap();
    assert_eq!(out, vec![0xFF; 8]);
    assert_eq!(state.decode_timestamp(Endianness::Big, 0, &out).unwrap(), most);
}

#[test]
fn timestamp_resolutions() {
    assert_eq!(TsResolution::new(6).unwrap().to_nano_secs(), 1_000);
    assert_eq!(TsResolution::new(0).unwrap().to_nano_secs(), 1_000_000_000);
    assert_eq!(TsResolution::new(9).unwrap().to_nano_secs(), 1);
    assert_eq!(TsResolution::new(0x80).unwrap().to_nano_secs(), 1 << 30);
    assert_eq!(TsResolution::new(0x80 | 30).unwrap().to_nano_secs(), 1);
    assert_eq!(TsResolution::new(0x80 | 7).unwrap().to_raw(), 0x87);
    assert_eq!(TsResolution::default(), TsResolution::micro());
    assert_eq!(
        (TsResolution::milli().to_raw(), TsResolution::nano().to_raw(), TsResolution::sec().to_raw()),
        (3, 9, 0)
    );
    assert!(matches!(TsResolution::new(10), Err(PcapError::InvalidTsResolution(10))));
    assert!(matches!(TsResolution::new(0x80 | 31), Err(PcapError::InvalidTsResolution(0x9F))));
    // An interface with an invalid resolution is refused when it is read and when it is written.
    let mut writer = PcapNgWriter::with_endianness(Vec::new(), Endianness::Big).unwrap();
    assert!(matches!(writer.write_block(&interface(77)), Err(PcapError::InvalidTsResolution(77))));
    assert!(writer.interfaces().is_empty());
    let body = [0, 1, 0, 0, 0, 0, 0, 0, 0, 9, 0, 1, 77, 0, 0, 0, 0, 0, 0, 0];
    let state = PcapNgState::default();
    assert!(matches!(
        InterfaceDescriptionBlock::from_slice(Endianness::Big, &state, &body),
        Err(PcapError::InvalidTsResolution(77))
    ));
    let idb = InterfaceDescriptionBlock::new(DataLink::IEEE802_11, 96);
    assert_eq!(idb.ts_resolution().unwrap(), TsResolution::micro());
    assert_eq!(idb.ts_offset(), 0);
    assert_eq!(idb.clock().unwrap(), InterfaceClock { tick_nanos: 1000, offset_secs: 0 });
}

#[test]
fn invalid_fields_are_told() {
    let e = Endianness::Big;
    let state = PcapNgState::default();
    // Text that is no UTF-8.
    let body = [0x1A, 0x2B, 0x3C, 0x4D, 0, 1, 0, 0, 0xFF, 0xFF, 0xFF, 0xFF, 0xFF, 0xFF, 0xFF, 0xFF, 0, 1, 0, 2, 0xC3, 0x28, 0, 0];
    assert!(matches!(SectionHeaderBlock::from_slice(e, &state, &body), Err(PcapError::Utf8Error(_))));
    let (_, shb) = SectionHeaderBlock::from_slice(e, &state, &body[..16]).unwrap();
    assert_eq!(shb, SectionHeaderBlock::default());
    assert_eq!(shb.section_length, -1);
    assert!(matches!(SectionHeaderBlock::from_slice(e, &state, &body[..15]), Err(PcapError::InvalidField(_))));
    // An interface description with reserved bits.
    assert!(matches!(
        InterfaceDescriptionBlock::from_slice(e, &state, &[0, 1, 0, 1, 0, 0, 0, 0]),
        Err(PcapError::InvalidField(_))
    ));
    assert!(matches!(
        InterfaceDescriptionBlock::from_slice(e, &state, &[0, 1, 0, 0, 0, 0, 0]),
        Err(PcapError::InvalidField(_))
    ));
    // A link type beyond 16 bits cannot be written.
    let idb = InterfaceDescriptionBlock::new(DataLink::Unknown(70000), 1);
    let mut out = Vec::new();
    assert!(matches!(idb.write_to(e, &state, &mut out), Err(PcapError::InvalidField(_))));
    assert!(out.is_empty());
    // An option that is too long for its length field.
    let epb_state = {
        let mut s = PcapNgState::default();
        s.update_for_block(&interface(6)).unwrap();
        s
    };
    let long = EnhancedPacketBlock {
        options: vec![EnhancedPacketOption::Hash(vec![0; 65536])],
        ..Default::default()
    };
    assert!(matches!(long.write_to(e, &epb_state, &mut out), Err(PcapError::InvalidField(_))));
    assert!(out.is_empty());
    let fits = EnhancedPacketBlock {
        options: vec![EnhancedPacketOption::Hash(vec![0; 65535])],
        ..Default::default()
    };
    assert_eq!(fits.write_to(e, &epb_state, &mut out).unwrap(), 20 + 4 + 65536 + 4);
    // Option values of the wrong length.
    let clocks = epb_state.clocks();
    let opt = |code: u16, value: &[u8]| EnhancedPacketOption::from_slice(e, clocks, Some(0), code, value.len() as u16, value);
    assert!(matches!(opt(2, &[1, 2, 3]), Err(PcapError::InvalidField(_))));
    assert!(matches!(opt(4, &[1, 2, 3, 4]), Err(PcapError::InvalidField(_))));
    assert!(matches!(opt(2989, &[1, 2, 3]), Err(PcapError::IncompleteBuffer)));
    assert!(matches!(opt(2988, &[0, 0, 0, 1, 0xFF]), Err(PcapError::Utf8Error(_))));
    assert_eq!(opt(4, &[0, 0, 0, 0, 0, 0, 1, 0]).unwrap(), EnhancedPacketOption::DropCount(256));
    assert_eq!(
        opt(500, &[1]).unwrap(),
        EnhancedPacketOption::Unknown(UnknownOption::new(500, 1, &[1]))
    );
    let isb = |code: u16, value: &[u8], id: Option<u32>| {
        InterfaceStatisticsOption::from_slice(e, clocks, id, code, value.len() as u16, value)
    };
    assert_eq!(isb(4, &[0, 0, 0, 0, 0, 0, 0, 9], None).unwrap(), InterfaceStatisticsOption::IsbIfRecv(9));
    assert!(matches!(isb(4, &[0, 0, 0], None), Err(PcapError::IncompleteBuffer)));
    assert!(matches!(isb(2, &[0; 8], None), Err(PcapError::InvalidField(_))));
    assert!(matches!(isb(2, &[0; 8], Some(4)), Err(PcapError::InvalidInterfaceId(4))));
    assert_eq!(
        isb(3, &[0, 0, 0, 0, 0, 0, 0, 2], Some(0)).unwrap(),
        InterfaceStatisticsOption::IsbEndTime(Duration::from_nanos(2000))
    );
    assert_eq!(
        isb(1, b"hi", Some(0)).unwrap(),
        InterfaceStatisticsOption::Common(CommonOption::Comment("hi".to_string()))
    );
    assert_eq!(CommonOption::new(e, 1, 2, b"hi").unwrap().code(), 1);
    // A body that ends too early inside a block is an invalid block, not a short buffer.
    let nrb = raw(e, 4, &[]);
    assert_eq!(Block::from_slice(e, &state, &nrb).unwrap_err().kind(), ErrorKind::InvalidField);
}

#[test]
fn name_resolution_records() {
    let e = Endianness::Little;
    let v4 = Ipv4Record::from_slice(&[1, 2, 3, 4, b'a', 0, b'b', b'c', 0]).unwrap();
    assert_eq!(v4, Ipv4Record { ip_addr: vec![1, 2, 3, 4], names: vec!["a".to_string(), "bc".to_string()] });
    let mut out = vec![0xEE];
    assert_eq!(v4.write_to(&mut out), 9);
    assert_eq!(out, vec![0xEE, 1, 2, 3, 4, b'a', 0, b'b', b'c', 0]);
    // A name may end with the record, and an empty name ends the names.
    assert_eq!(Ipv4Record::from_slice(&[1, 2, 3, 4, b'a', b'b']).unwrap().names, vec!["ab".to_string()]);
    assert_eq!(
        Ipv4Record::from_slice(&[1, 2, 3, 4, b'a', 0, 0, b'z', 0]).unwrap().names,
        vec!["a".to_string()]
    );
    assert!(matches!(Ipv4Record::from_slice(&[1, 2, 3, 4, b'a']), Err(PcapError::InvalidField(_))));
    assert!(matches!(Ipv4Record::from_slice(&[1, 2, 3, 4, 0, b'a']), Err(PcapError::InvalidField(_))));
    assert!(matches!(Ipv4Record::from_slice(&[1, 2, 3, 4, 0xFF, 0]), Err(PcapError::Utf8Error(_))));
    let mut six = vec![6u8; 16];
    six.extend_from_slice(b"v6\0");
    assert_eq!(
        Ipv6Record::from_slice(&six).unwrap(),
        Ipv6Record { ip_addr: vec![6; 16], names: vec!["v6".to_string()] }
    );
    assert!(matches!(Ipv6Record::from_slice(&six[..17]), Err(PcapError::InvalidField(_))));

    let record = Record::Ipv4(v4);
    let mut bytes = Vec::new();
    assert_eq!(record.write_to(e, &mut bytes).unwrap(), 16);
    assert_eq!(bytes, vec![1, 0, 9, 0, 1, 2, 3, 4, b'a', 0, b'b', b'c', 0, 0, 0, 0]);
    let (rest, parsed) = Record::from_slice(e, &bytes).unwrap();
    assert!(rest.is_empty());
    assert_eq!(parsed, record);
    let mut end = Vec::new();
    assert_eq!(Record::End.write_to(e, &mut end).unwrap(), 4);
    assert_eq!(Record::from_slice(e, &end).unwrap().1, Record::End);
    assert!(matches!(Record::from_slice(e, &[0, 0, 4, 0, 1, 2, 3, 4]), Err(PcapError::InvalidField(_))));
    assert!(matches!(Record::from_slice(e, &[1, 0, 9, 0, 1, 2]), Err(PcapError::InvalidField(_))));
    assert!(matches!(Record::from_slice(e, &[1, 0, 9]), Err(PcapError::IncompleteBuffer)));
    assert_eq!(
        Record::from_slice(e, &[9, 0, 1, 0, 7, 0, 0, 0]).unwrap().1,
        Record::Unknown(UnknownRecord::new(9, &[7]))
    );
}

#[test]
fn raw_blocks_pass_through() {
    for e in [Endianness::Big, Endianness::Little] {
        let (data, blocks) = sample_stream(e);
        let mut reader = PcapNgReader::new();
        reader.fill_buf(&data);
        reader.fill_buf(&[]);
        assert!(matches!(reader.read_section(), Poll::Ready(())));
        let mut writer = PcapNgWriter::with_section_header(Vec::new(), reader.section().unwrap().clone()).unwrap();
        let mut count = 0;
        loop {
            match reader.next_raw_block() {
                Poll::Ready(block) => {
                    writer.write_raw_block(&block).unwrap();
                    count += 1;
                },
                Poll::Finished => break,
                other => panic!("{:?}", other),
            }
        }
        assert_eq!(count, blocks.len());
        assert_eq!(writer.interfaces().len(), 1);
        assert_eq!(reader.state().unwrap().interfaces().len(), 1);
        assert_eq!(writer.into_inner(), data);
    }
}

#[test]
fn block_types_and_downcasts() {
    for code in [0x0A0D0D0Au32, 1, 2, 3, 4, 5, 6, 9, 0xBAD, 0x40000BAD, 7, 0xFFFF_FFFF] {
        assert_eq!(u32::from(BlockType::from(code)), code);
    }
    assert_eq!(BlockType::from(6), BlockType::EnhancedPacket);
    assert_eq!(BlockType::from(0x0A0D0D0A), BlockType::SectionHeader);
    assert_eq!(BlockType::from(10), BlockType::Unknown(10));
    let (_, blocks) = sample_stream(Endianness::Big);
    assert!(blocks[0].as_interface_description().is_some());
    assert!(blocks[0].as_enhanced_packet().is_none());
    assert!(blocks[1].as_enhanced_packet().is_some());
    assert!(blocks[2].as_packet().is_some());
    assert!(blocks[3].as_simple_packet().is_some());
    assert!(blocks[4].as_name_resolution().is_some());
    assert!(blocks[5].as_interface_statistics().is_some());
    assert!(blocks[6].as_systemd_journal_export().is_some());
    assert!(blocks[7].as_custom_copiable().is_some());
    assert!(blocks[8].as_custom_non_copiable().is_some());
    assert!(blocks[8].as_custom_copiable().is_none());
    assert!(blocks[0].as_section_header().is_none());
    let copied = blocks[7].clone().into_custom_copiable().unwrap().into_owned();
    assert_eq!(copied.payload, vec![1, 2, 3, 4]);
    assert_eq!(copied.interpret::<MyCustomPayload>().unwrap_err().kind(), ErrorKind::CustomConversionError(70000));
    let other = CustomBlock::<true> { pen: 1, payload: vec![0; 8] };
    assert_eq!(other.interpret::<MyCustomPayload>().unwrap(), None);
    assert!(blocks[1].clone().into_enhanced_packet().is_some());
    assert!(blocks[1].clone().into_interface_description().is_none());
    assert!(Block::SectionHeader(SectionHeaderBlock::default()).into_section_header().is_some());
    let unknown = UnknownBlock::new(0x77, 16, &[1, 2, 3, 4]);
    assert_eq!(unknown.clone().into_block(), Block::Unknown(unknown));
}

#[test]
fn the_length_of_a_block_is_told_by_its_first_bytes() {
    for e in [Endianness::Big, Endianness::Little] {
        let (data, _) = sample_stream(e);
        let mut at = 0;
        let mut count = 0;
        while at < data.len() {
            let len = RawBlock::total_len(e, &data[at..at + 12]).unwrap();
            let (rest, _) = RawBlock::from_slice(e, &data[at..at + len]).unwrap();
            assert!(rest.is_empty());
            assert_eq!(
                RawBlock::from_slice(e, &data[at..at + len - 1]).unwrap_err().kind(),
                ErrorKind::IncompleteBuffer
            );
            at += len;
            count += 1;
        }
        assert_eq!(count, 11);
    }
    assert_eq!(RawBlock::total_len(Endianness::Big, &[0; 11]).unwrap_err().kind(), ErrorKind::IncompleteBuffer);
    assert_eq!(RawBlock::total_len(Endianness::Big, &[0; 12]).unwrap_err().kind(), ErrorKind::InvalidField);
    let other = section_bytes(Endianness::Little);
    assert_eq!(RawBlock::total_len(Endianness::Big, &other).unwrap(), 28);
}

#[test]
fn raw_blocks_tell_the_state() {
    let e = Endianness::Big;
    let mut state = PcapNgState::default();
    assert_eq!(state.section(), &SectionHeaderBlock::default());
    let idb = raw(e, 1, &[0, 1, 0, 0, 0, 0, 0, 9, 0, 9, 0, 1, 3, 0, 0, 0, 0, 14, 0, 8, 0, 0, 0, 0, 0, 0, 0, 2]);
    let (_, block) = RawBlock::from_slice(e, &idb).unwrap();
    state.update_for_raw_block(e, &block).unwrap();
    assert_eq!(state.interfaces().len(), 1);
    assert_eq!(state.clocks(), &vec![InterfaceClock { tick_nanos: 1_000_000, offset_secs: 2 }]);
    assert_eq!(
        state.decode_timestamp(e, 0, &[0, 0, 0, 0, 0, 0, 0, 5]).unwrap(),
        Duration::new(2, 5_000_000)
    );
    // A packet tells the state nothing, whatever it holds.
    let (_, packet) = RawBlock::from_slice(e, &raw(e, 6, &[0xFF; 4])).unwrap();
    state.update_for_raw_block(e, &packet).unwrap();
    assert_eq!(state.interfaces().len(), 1);
    assert!(packet.clone().try_into_block(e, &state).is_err());
    assert_eq!(block.parsed(e, &state).unwrap(), block.clone().try_into_block(e, &state).unwrap());
    // An interface that is invalid is refused and leaves the state alone.
    let (_, bad) = RawBlock::from_slice(e, &raw(e, 1, &[0, 1, 0, 1, 0, 0, 0, 9])).unwrap();
    assert!(state.update_for_raw_block(e, &bad).is_err());
    assert_eq!(state.interfaces().len(), 1);
    let (_, shb) = RawBlock::from_slice(e, &section_bytes(Endianness::Little)).unwrap();
    state.update_for_raw_block(e, &shb).unwrap();
    assert_eq!(state.section().endianness, Endianness::Little);
    assert!(state.interfaces().is_empty());
    assert!(state.clocks().is_empty());
}

#[derive(Clone, Debug, PartialEq, Eq)]
struct Unwritable;

impl CustomCopiable for Unwritable {
    const PEN: u32 = 4242;

    fn write_to(&self, writer: &mut Vec<u8>) -> Result<(), PcapError> {
        writer.push(1);
        Err(PcapError::CustomConversionError(4242, "cannot be written".to_string()))
    }

    fn from_slice(_slice: &[u8]) -> Result<Option<Unwritable>, PcapError> {
        Ok(None)
    }
}

#[test]
fn custom_blocks_hold_what_their_payload_wrote() {
    let block = into_custom_block(MyCustomPayload { magic_number: 0x0102030405060708 }).unwrap();
    assert_eq!(block, CustomBlock::<true> { pen: 70000, payload: vec![1, 2, 3, 4, 5, 6, 7, 8] });
    assert_eq!(
        into_custom_block(Unwritable).unwrap_err().kind(),
        ErrorKind::CustomConversionError(4242)
    );
    let mut state = PcapNgState::default();
    state.update_for_block(&interface(9)).unwrap();
    let stateful = MyStatefulPayload { magic_number: 1, interface_id: 0, timestamp: Duration::from_nanos(5) };
    let block = into_custom_block_with(stateful.clone(), &state).unwrap();
    assert_eq!(block.pen, 70000);
    assert_eq!(block.payload, vec![0, 0, 0, 0, 0, 0, 0, 1, 0, 0, 0, 0, 0, 0, 0, 0, 0, 0, 0, 5]);
    let unknown = MyStatefulPayload { interface_id: 3, ..stateful };
    assert_eq!(
        into_custom_block_with(unknown, &state).unwrap_err().kind(),
        ErrorKind::InvalidInterfaceId(3)
    );

    let made = custom_block_from::<false>(9, Ok(()), vec![4, 5]).unwrap();
    assert_eq!(made, CustomBlock::<false> { pen: 9, payload: vec![4, 5] });
    assert_eq!(
        custom_block_from::<true>(9, Err(PcapError::TimestampTooBig), vec![4, 5]).unwrap_err().kind(),
        ErrorKind::TimestampTooBig
    );
}
