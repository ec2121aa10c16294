use pcap_file::pcap::{
    Packet, PacketHeader, PcapError, PcapHeader, PcapParser, PcapReader, PcapValidationError,
    PcapWriter, RawPcapPacket,
};
use pcap_file::read_buffer::Poll;
use pcap_file::{DataLink, Duration, Endianness, TsResolution};

const LE_PACKET: &str = "000c29414be70016479df2c2810000780800450000638d2c0000fe06fdc8c0a8e5fec0a8ca4f01bbb4258\
0e634d3fa9b15fc8018800019da00000101080a130d62b200000000140301000101160301002495776bd4f33faea1aacaf1fbe6026c262fcc2f8cd0f828216dc4aba5bcc1a8e03b496e82";

const BE_PACKET: &str = "00005e0001b10021280529ba08004500005430a70000ff010348c0a8b1a00a400b3108000afb43a800004\
fa11b290002538d08090a0b0c0d0e0f101112131415161718191a1b1c1d1e1f202122232425262728292a2b2c2d2e2f3031323334353637";

/// A little-endian capture: the file header, the first packet of the sample
/// and a second, short packet.
fn little_endian_file() -> Vec<u8> {
    let mut data = vec![
        0xD4, 0xC3, 0xB2, 0xA1, 0x02, 0x00, 0x04, 0x00, 0x00, 0x00, 0x00, 0x00, 0x00, 0x00, 0x00,
        0x00, 0x00, 0x10, 0x00, 0x00, 0x01, 0x00, 0x00, 0x00,
    ];
    data.extend_from_slice(&[0x48, 0x32, 0x63, 0x4F, 0, 0, 0, 0, 0x75, 0, 0, 0, 0x75, 0, 0, 0]);
    data.extend_from_slice(&hex::decode(LE_PACKET).unwrap());
    data.extend_from_slice(&[0x49, 0x32, 0x63, 0x4F, 0x3F, 0x42, 0x0F, 0, 3, 0, 0, 0, 9, 0, 0, 0]);
    data.extend_from_slice(&[0xAA, 0xBB, 0xCC]);
    data
}

/// A big-endian capture: the file header and the first packet of the sample.
fn big_endian_file() -> Vec<u8> {
    let mut data = vec![
        0xA1, 0xB2, 0xC3, 0xD4, 0x00, 0x02, 0x00, 0x04, 0x00, 0x00, 0x00, 0x00, 0x00, 0x00, 0x00,
        0x00, 0x00, 0x00, 0xFF, 0xFF, 0x00, 0x00, 0x00, 0x01,
    ];
    data.extend_from_slice(&[0x4F, 0xA1, 0x1B, 0x29, 0x00, 0x02, 0x54, 0x36, 0, 0, 0, 0x62, 0, 0, 0, 0x62]);
    data.extend_from_slice(&hex::decode(BE_PACKET).unwrap());
    data
}

/// Feeds `data` to a reader in pieces of `chunk` bytes and collects what it
/// yields.
fn read_all(data: &[u8], chunk: usize) -> (PcapReader, Vec<Packet>) {
    let mut reader = PcapReader::new();
    let mut fed = 0;
    let mut packets = Vec::new();
    loop {
        match reader.next_packet() {
            Poll::Ready(p) => packets.push(p),
            Poll::Failed(e) => panic!("{:?}", e),
            Poll::Finished => break,
            Poll::Refill => {
                let end = (fed + chunk).min(data.len());
                reader.fill_buf(&data[fed..end]);
                fed = end;
            },
        }
    }
    (reader, packets)
}

#[test]
fn mod_read() {
    let data = little_endian_file();
    let (_, packets) = read_all(&data, 1_000_000);

    //Global header len
    let mut data_len = 24;
    for pkt in &packets {
        //Packet header len
        data_len += 16;
        data_len += pkt.data.len();
    }

    assert_eq!(data_len, data.len());
}

#[test]
fn mod_read_write() {
    let data = little_endian_file();
    let (reader, packets) = read_all(&data, 1_000_000);
    let header = reader.header().unwrap();

    let out = Vec::new();
    let mut pcap_writer = PcapWriter::with_header(out, header);

    for pkt in &packets {
        pcap_writer.write_packet(pkt).unwrap();
    }

    let out = pcap_writer.into_writer();

    assert_eq!(&data[..], &out[..]);
}

#[test]
fn read_write_raw() {
    let data = little_endian_file();
    let mut reader = PcapReader::new();
    reader.fill_buf(&data);
    reader.fill_buf(&[]);
    let header = match reader.read_header() {
        Poll::Ready(h) => h,
        other => panic!("{:?}", other),
    };

    let mut pcap_writer = PcapWriter::with_header(Vec::new(), header);
    loop {
        match reader.next_raw_packet() {
            Poll::Ready(pkt) => pcap_writer.write_raw_packet(&pkt),
            Poll::Finished => break,
            other => panic!("{:?}", other),
        }
    }

    let out = pcap_writer.into_writer();

    assert_eq!(&data[..], &out[..]);
}

#[test]
fn mod_big_endian() {
    let data = big_endian_file();

    ////// Global header test //////
    let pcap_header_truth = PcapHeader {
        version_major: 2,
        version_minor: 4,
        ts_correction: 0,
        ts_accuracy: 0,
        snaplen: 0xFFFF,
        datalink: DataLink::ETHERNET,
        ts_resolution: TsResolution::MicroSecond,
        endianness: Endianness::Big,
    };

    let (reader, packets) = read_all(&data, 1_000_000);
    let pcap_header = reader.header().unwrap();

    assert_eq!(pcap_header, pcap_header_truth);

    //// Packet header test ////
    let data_truth = hex::decode(BE_PACKET).unwrap();

    let pkt = &packets[0];

    assert_eq!(pkt.header.timestamp(), Duration::new(1335958313, 152630000));
    assert_eq!(pkt.header.orig_len, 98);
    assert_eq!(pkt.data, data_truth);
}

#[test]
fn mod_little_endian() {
    let data = little_endian_file();

    ////// Global header test //////
    let pcap_header_truth = PcapHeader {
        version_major: 2,
        version_minor: 4,
        ts_correction: 0,
        ts_accuracy: 0,
        snaplen: 4096,
        datalink: DataLink::ETHERNET,
        ts_resolution: TsResolution::MicroSecond,
        endianness: Endianness::Little,
    };

    let (reader, packets) = read_all(&data, 1_000_000);
    let pcap_header = reader.header().unwrap();

    assert_eq!(pcap_header, pcap_header_truth);

    //// Packet header test ////
    let data_truth = hex::decode(LE_PACKET).unwrap();

    let pkt = &packets[0];

    assert_eq!(pkt.header.timestamp(), Duration::new(1331901000, 0));
    assert_eq!(pkt.header.orig_len, 117);
    assert_eq!(pkt.data, data_truth);
}

#[test]
fn read_write_read() {
    let data = little_endian_file();
    let (rem, parser) = PcapParser::new(&data).unwrap();
    let mut src = rem;

    //Global header len
    let mut data_len = 24;
    while !src.is_empty() {
        let (rem, pkt) = parser.next_packet(src).unwrap();
        src = rem;
        //Packet header len
        data_len += 16;
        data_len += pkt.data.len();
    }

    assert_eq!(data_len, data.len());
}

#[test]
fn read_write_read_write() {
    let data = little_endian_file();
    let (rem, parser) = PcapParser::new(&data).unwrap();
    let header = parser.header();
    let mut src = rem;

    let mut pcap_writer = PcapWriter::with_header(Vec::new(), header);
    while !src.is_empty() {
        let (rem, pkt) = parser.next_packet(src).unwrap();
        src = rem;
        pcap_writer.write_packet(&pkt).unwrap();
    }

    let out = pcap_writer.into_writer();

    assert_eq!(&data[..], &out[..]);
}

#[test]
fn read_write_big_endian() {
    let data = big_endian_file();

    //Global header test
    let (rem, parser) = PcapParser::new(&data).unwrap();
    let header = parser.header();

    assert_eq!(header.version_major, 2);
    assert_eq!(header.version_minor, 4);
    assert_eq!(header.ts_correction, 0);
    assert_eq!(header.ts_accuracy, 0);
    assert_eq!(header.snaplen, 0xffff);
    assert_eq!(header.datalink, DataLink::ETHERNET);
    assert_eq!(header.endianness, Endianness::Big);

    //Packet header test
    let (_, packet) = parser.next_packet(rem).unwrap();
    let pkt_hdr = PacketHeader { ts_sec: 0x4fa11b29, ts_nsec: 0x00025436 * 1000, incl_len: 0x62, orig_len: 0x62 };

    assert_eq!(packet.header, pkt_hdr);
}

#[test]
fn read_write_little_endian() {
    let data = little_endian_file();

    //Global header test
    let (rem, parser) = PcapParser::new(&data).unwrap();
    let header = parser.header();

    assert_eq!(header.version_major, 2);
    assert_eq!(header.version_minor, 4);
    assert_eq!(header.ts_correction, 0);
    assert_eq!(header.ts_accuracy, 0);
    assert_eq!(header.snaplen, 0x1000);
    assert_eq!(header.datalink, DataLink::ETHERNET);
    assert_eq!(header.endianness, Endianness::Little);

    //Packet header test
    let (_, packet) = parser.next_packet(rem).unwrap();
    let pkt_hdr = PacketHeader { ts_sec: 0x4f633248, ts_nsec: 0x0, incl_len: 0x75, orig_len: 0x75 };

    assert_eq!(packet.header, pkt_hdr);
}

#[test]
fn classic_samples_report_their_first_record() {
    let data = little_endian_file();
    let (rem, parser) = PcapParser::new(&data).unwrap();
    assert_eq!(parser.header().ts_resolution, TsResolution::MicroSecond);
    let (_, raw) = parser.next_raw_packet(rem).unwrap();
    assert_eq!((raw.ts_sec, raw.ts_frac, raw.incl_len, raw.orig_len), (0x4F633248, 0, 0x75, 0x75));

    let data = big_endian_file();
    let (rem, parser) = PcapParser::new(&data).unwrap();
    let (_, pkt) = parser.next_packet(rem).unwrap();
    assert_eq!(pkt.header.ts_sec, 0x4FA11B29);
    assert_eq!(pkt.header.ts_nsec, 152_630_000);
    assert_eq!(pkt.header.incl_len, 98);
    assert_eq!(pkt.header.orig_len, 98);
}

#[test]
fn reader_yields_the_same_packets_for_every_chunk_size() {
    let data = little_endian_file();
    let (_, whole) = read_all(&data, data.len());
    for chunk in [1usize, 2, 3, 7, 16, 24, 100] {
        let (_, packets) = read_all(&data, chunk);
        assert_eq!(packets.len(), whole.len());
        for (a, b) in packets.iter().zip(whole.iter()) {
            assert_eq!(a.header, b.header);
            assert_eq!(a.data, b.data);
        }
    }
}

#[test]
fn header_errors() {
    assert_eq!(PcapHeader::from_slice(&[0u8; 23]).unwrap_err(), PcapError::IncompleteBuffer(24, 23));
    let mut bad = little_endian_file();
    bad[0] = 0;
    assert_eq!(
        PcapHeader::from_slice(&bad).unwrap_err(),
        PcapError::InvalidField(PcapValidationError::InvalidMagicNumber(0x00C3B2A1))
    );
}

#[test]
fn nanosecond_magic_numbers() {
    let mut data = big_endian_file();
    data[2] = 0x3C;
    data[3] = 0x4D;
    let (_, h) = PcapHeader::from_slice(&data).unwrap();
    assert_eq!((h.endianness, h.ts_resolution), (Endianness::Big, TsResolution::NanoSecond));
    let mut out = Vec::new();
    assert_eq!(h.write_to(&mut out), 24);
    assert_eq!(&out[..], &data[..24]);

    let mut data = little_endian_file();
    data[0] = 0x4D;
    data[1] = 0x3C;
    let (_, h) = PcapHeader::from_slice(&data).unwrap();
    assert_eq!((h.endianness, h.ts_resolution), (Endianness::Little, TsResolution::NanoSecond));
    let mut out = Vec::new();
    h.write_to(&mut out);
    assert_eq!(&out[..], &data[..24]);
}

#[test]
fn packet_header_errors() {
    let header = PcapHeader { snaplen: 100, ..PcapHeader::default() };
    let e = Endianness::Big;
    let rec = |frac: u32, incl: u32, orig: u32| {
        let mut v = vec![0, 0, 0, 1];
        v.extend_from_slice(&frac.to_be_bytes());
        v.extend_from_slice(&incl.to_be_bytes());
        v.extend_from_slice(&orig.to_be_bytes());
        v
    };
    let parse = |bytes: &[u8], res| PacketHeader::from_slice(e, &header, bytes, res).map(|r| r.1);
    assert_eq!(parse(&[0u8; 15], TsResolution::MicroSecond), Err(PcapError::IncompleteBuffer(16, 15)));
    assert_eq!(
        parse(&rec(1_000_000, 1, 1), TsResolution::MicroSecond),
        Err(PcapError::InvalidField(PcapValidationError::TsFracMicroTooBig(1_000_000)))
    );
    assert_eq!(
        parse(&rec(1_000_000_000, 1, 1), TsResolution::NanoSecond),
        Err(PcapError::InvalidField(PcapValidationError::TsFracNanoTooBig(1_000_000_000)))
    );
    assert_eq!(
        parse(&rec(0, 101, 101), TsResolution::NanoSecond),
        Err(PcapError::InvalidField(PcapValidationError::IncludedLenTooBig(101, 100)))
    );
    assert_eq!(
        parse(&rec(0, 10, 9), TsResolution::NanoSecond),
        Err(PcapError::InvalidField(PcapValidationError::OriginLenTooSmall(9, 10)))
    );
    assert_eq!(
        parse(&rec(999_999, 10, 200), TsResolution::MicroSecond),
        Ok(PacketHeader { ts_sec: 1, ts_nsec: 999_999_000, incl_len: 10, orig_len: 200 })
    );
    let mut short = rec(0, 10, 10);
    short.extend_from_slice(&[0u8; 9]);
    assert_eq!(
        Packet::from_slice(e, &header, &short, TsResolution::NanoSecond).unwrap_err(),
        PcapError::IncompleteBuffer(10, 9)
    );
    assert_eq!(RawPcapPacket::from_slice(e, &short).unwrap_err(), PcapError::IncompleteBuffer(10, 9));
}

#[test]
fn writer_refuses_invalid_packets() {
    let header = PcapHeader { snaplen: 4, ..PcapHeader::default() };
    let mut w = PcapWriter::with_header(Vec::new(), header);
    assert_eq!((w.endianness(), w.snaplen(), w.ts_resolution()), (Endianness::Big, 4, TsResolution::MicroSecond));
    let fault = |w: &mut PcapWriter, p: &Packet| match w.write_packet(p) {
        Err(PcapError::InvalidField(f)) => f,
        other => panic!("{:?}", other),
    };
    let mut p = Packet::new(1, 2000, &[1, 2, 3, 4, 5], 5);
    assert_eq!(fault(&mut w, &p), PcapValidationError::PacketLenTooBig(5, 4));
    p = Packet::new(1, 1_000_000_000, &[1], 1);
    assert_eq!(fault(&mut w, &p), PcapValidationError::TsFracNanoTooBig(1_000_000_000));
    p = Packet::new(1, 0, &[1, 2], 1);
    assert_eq!(fault(&mut w, &p), PcapValidationError::OriginLenTooSmall(1, 2));
    p = Packet::new(1, 0, &[1, 2], 2);
    p.header.incl_len = 3;
    assert_eq!(fault(&mut w, &p), PcapValidationError::IncludedLenMismatch(3, 2));
    assert_eq!(w.get_ref().len(), 24);
    p = Packet::new_owned(7, 2_999, vec![9, 8], 2);
    w.write_packet(&p).unwrap();
    let out = w.into_writer();
    assert_eq!(&out[24..], &[0, 0, 0, 7, 0, 0, 0, 2, 0, 0, 0, 2, 0, 0, 0, 2, 9, 8]);
}

#[test]
fn reader_reports_a_source_that_ends_early() {
    let data = little_endian_file();
    let mut reader = PcapReader::new();
    reader.fill_buf(&data[..10]);
    assert!(matches!(reader.read_header(), Poll::Refill));
    reader.fill_buf(&[]);
    assert!(matches!(reader.read_header(), Poll::Failed(PcapError::UnexpectedEof)));

    let mut reader = PcapReader::new();
    reader.fill_buf(&data[..30]);
    assert!(matches!(reader.next_packet(), Poll::Refill));
    reader.fill_buf(&[]);
    assert!(matches!(reader.next_packet(), Poll::Failed(PcapError::UnexpectedEof)));
    assert_eq!(reader.into_reader(), data[24..30].to_vec());
}

#[test]
fn default_writer_uses_the_byte_order_of_the_machine() {
    let w = PcapWriter::new(Vec::new());
    let out = w.into_writer();
    let (_, h) = PcapHeader::from_slice(&out).unwrap();
    let native = if u16::from_ne_bytes([0x42, 0x00]) == 0x4200 { Endianness::Big } else { Endianness::Little };
    assert_eq!(h, PcapHeader { endianness: native, ..PcapHeader::default() });
}

#[test]
fn datalink_codes() {
    for n in 0u32..300 {
        assert_eq!(u32::from(DataLink::from(n)), n);
    }
    assert_eq!(DataLink::from(1), DataLink::ETHERNET);
    assert_eq!(DataLink::from(105), DataLink::IEEE802_11);
    assert_eq!(DataLink::from(2), DataLink::Unknown(2));
    assert_eq!(u32::from(DataLink::Unknown(70000)), 70000);
}

#[test]
fn headers_and_packets_as_arrays() {
    let header = PcapHeader::with_datalink(DataLink::RAW);
    assert_eq!(header, PcapHeader { datalink: DataLink::RAW, ..PcapHeader::default() });
    assert_eq!((header.endianness(), header.ts_resolution()), (Endianness::Big, TsResolution::MicroSecond));
    assert_eq!(
        header.to_array(),
        vec![0xA1, 0xB2, 0xC3, 0xD4, 0, 2, 0, 4, 0, 0, 0, 0, 0, 0, 0, 0, 0, 0, 0xFF, 0xFF, 0, 0, 0, 101]
    );
    let little = PcapHeader { endianness: Endianness::Little, ts_correction: -2, ..header };
    assert_eq!(
        little.to_array(),
        vec![0xD4, 0xC3, 0xB2, 0xA1, 2, 0, 4, 0, 0xFE, 0xFF, 0xFF, 0xFF, 0, 0, 0, 0, 0xFF, 0xFF, 0, 0, 101, 0, 0, 0]
    );
    assert_eq!(PcapHeader::from_slice(&little.to_array()).unwrap().1, little);
    let packet = PacketHeader::new(1, 2_500, 3, 4);
    assert_eq!(
        packet.to_array(Endianness::Big, TsResolution::MicroSecond),
        vec![0, 0, 0, 1, 0, 0, 0, 2, 0, 0, 0, 3, 0, 0, 0, 4]
    );
    assert_eq!(
        packet.to_array(Endianness::Little, TsResolution::NanoSecond),
        vec![1, 0, 0, 0, 0xC4, 9, 0, 0, 3, 0, 0, 0, 4, 0, 0, 0]
    );
    assert_eq!(packet.timestamp(), Duration::new(1, 2_500));
}

#[test]
fn writer_takes_raw_data() {
    let mut w = PcapWriter::with_endianness(Endianness::Little, Vec::new());
    assert_eq!(w.endianness(), Endianness::Little);
    w.write(5, 6_000, &[1, 2, 3]).unwrap();
    let written = w.take_written();
    assert_eq!(written.len(), 24 + 16 + 3);
    assert_eq!(&written[24..], &[5, 0, 0, 0, 6, 0, 0, 0, 3, 0, 0, 0, 3, 0, 0, 0, 1, 2, 3]);
    assert!(w.get_ref().is_empty());
    let packet = Packet::new(5, 6_000, &[1, 2, 3], 3);
    assert_eq!(packet.to_owned(), packet);
    assert_eq!(packet.clone().into_owned(), packet);
    let mut out = Vec::new();
    packet.write_to(Endianness::Little, &mut out, TsResolution::MicroSecond);
    assert_eq!(&out[..], &written[24..]);
    let (_, raw) = RawPcapPacket::from_slice(Endianness::Little, &out).unwrap();
    assert_eq!((raw.ts_sec, raw.ts_frac, raw.incl_len, raw.orig_len), (5, 6, 3, 3));
    let mut again = Vec::new();
    raw.write_to(Endianness::Little, &mut again);
    assert_eq!(again, out);
}

#[test]
fn written_packets_are_cut_to_the_resolution_of_the_file() {
    let header = PcapHeader::default();
    let packet = Packet::new(9, 123_456_789, &[7; 4], 10);
    for (res, nanos) in [(TsResolution::MicroSecond, 123_456_000), (TsResolution::NanoSecond, 123_456_789)] {
        for e in [Endianness::Big, Endianness::Little] {
            let mut out = Vec::new();
            packet.write_to(e, &mut out, res);
            out.extend_from_slice(&[0xFF; 3]);
            let (rest, back) = Packet::from_slice(e, &header, &out, res).unwrap();
            assert_eq!(rest, &[0xFF; 3]);
            assert_eq!(back.header, PacketHeader { ts_sec: 9, ts_nsec: nanos, incl_len: 4, orig_len: 10 });
            assert_eq!(back.data, vec![7; 4]);
        }
    }
}

#[test]
fn packets_from_timestamps() {
    let packet = Packet::with_timestamp(Duration::new(1335958313, 152630000), vec![1, 2, 3], 98).unwrap();
    assert_eq!(packet.header, PacketHeader { ts_sec: 0x4FA11B29, ts_nsec: 152_630_000, incl_len: 3, orig_len: 98 });
    assert_eq!(packet.data, vec![1, 2, 3]);
    let late = Duration::new(u32::MAX as u64 + 1, 0);
    assert_eq!(
        Packet::with_timestamp(late, vec![], 0).unwrap_err(),
        PcapError::InvalidField(PcapValidationError::TimestampTooBig(late))
    );
    let last = Duration::new(u32::MAX as u64, 999_999_999);
    assert_eq!(
        Packet::with_timestamp(last, vec![], 0).unwrap().header,
        PacketHeader { ts_sec: u32::MAX, ts_nsec: 999_999_999, incl_len: 0, orig_len: 0 }
    );
}
