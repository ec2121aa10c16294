use pcap_file::codec::{
    padding, read_i32, read_i64, read_u16, read_u32, read_u64, read_u8, string_from_utf8,
    write_bytes, write_i32, write_i64, write_u16, write_u32, write_u64, write_u8, write_zeros,
};
use pcap_file::peek_reader::PeekReader;
use pcap_file::pcap::RawPcapPacket;
use pcap_file::read_buffer::{Poll, ReadBuffer};
use pcap_file::{Duration, Endianness, PcapError};

const BYTES: [u8; 10] = [0x01, 0x02, 0x03, 0x04, 0x05, 0x06, 0x07, 0x08, 0x09, 0x0A];

#[test]
fn fields_are_read_in_both_byte_orders() {
    let big = Endianness::Big;
    let little = Endianness::Little;
    assert_eq!(read_u8(&BYTES, 9), Some(0x0A));
    assert_eq!(read_u8(&BYTES, 10), None);
    assert_eq!(read_u16(big, &BYTES, 0), Some(0x0102));
    assert_eq!(read_u16(little, &BYTES, 0), Some(0x0201));
    assert_eq!(read_u16(big, &BYTES, 8), Some(0x090A));
    assert_eq!(read_u16(big, &BYTES, 9), None);
    assert_eq!(read_u32(big, &BYTES, 1), Some(0x02030405));
    assert_eq!(read_u32(little, &BYTES, 1), Some(0x05040302));
    assert_eq!(read_u32(little, &BYTES, 7), None);
    assert_eq!(read_u64(big, &BYTES, 2), Some(0x030405060708090A));
    assert_eq!(read_u64(little, &BYTES, 2), Some(0x0A09080706050403));
    assert_eq!(read_u64(big, &BYTES, 3), None);
    assert_eq!(read_u64(big, &BYTES, usize::MAX), None);
    assert_eq!(read_i32(big, &[0xFF, 0xFF, 0xFF, 0xFE], 0), Some(-2));
    assert_eq!(read_i32(little, &[0xFE, 0xFF, 0xFF, 0xFF], 0), Some(-2));
    assert_eq!(read_i32(big, &[0x80, 0, 0, 0], 0), Some(i32::MIN));
    assert_eq!(read_i32(big, &[0x7F, 0xFF, 0xFF, 0xFF], 0), Some(i32::MAX));
    assert_eq!(read_i32(big, &[0, 0, 0], 0), None);
    assert_eq!(read_i64(big, &[0xFF; 8], 0), Some(-1));
    assert_eq!(read_i64(little, &[0, 0, 0, 0, 0, 0, 0, 0x80], 0), Some(i64::MIN));
    assert_eq!(read_i64(little, &[1, 0, 0, 0, 0, 0, 0, 0], 0), Some(1));
}

#[test]
fn fields_are_written_in_both_byte_orders() {
    let mut out = vec![0xEE];
    write_u8(&mut out, 7);
    write_u16(Endianness::Big, &mut out, 0x0102);
    write_u16(Endianness::Little, &mut out, 0x0102);
    write_u32(Endianness::Big, &mut out, 0x03040506);
    write_u32(Endianness::Little, &mut out, 0x03040506);
    assert_eq!(out, vec![0xEE, 7, 1, 2, 2, 1, 3, 4, 5, 6, 6, 5, 4, 3]);
    let mut out = Vec::new();
    write_u64(Endianness::Big, &mut out, 0x0102030405060708);
    write_u64(Endianness::Little, &mut out, 0x0102030405060708);
    assert_eq!(out, vec![1, 2, 3, 4, 5, 6, 7, 8, 8, 7, 6, 5, 4, 3, 2, 1]);
    let mut out = Vec::new();
    write_i32(Endianness::Big, &mut out, -2);
    write_i32(Endianness::Little, &mut out, i32::MIN);
    write_i64(Endianness::Big, &mut out, -1);
    write_i64(Endianness::Little, &mut out, i64::MIN + 1);
    assert_eq!(
        out,
        vec![
            0xFF, 0xFF, 0xFF, 0xFE, 0, 0, 0, 0x80, 0xFF, 0xFF, 0xFF, 0xFF, 0xFF, 0xFF, 0xFF, 0xFF, 1, 0,
            0, 0, 0, 0, 0, 0x80
        ]
    );
    let mut out = vec![1];
    write_zeros(&mut out, 3);
    write_bytes(&mut out, &[9, 8]);
    write_zeros(&mut out, 0);
    assert_eq!(out, vec![1, 0, 0, 0, 9, 8]);
}

#[test]
fn what_is_written_is_read_back() {
    for e in [Endianness::Big, Endianness::Little] {
        for v in [0u64, 1, 0xFF, 0x1234, 0xFFFF, 0x89ABCDEF, u32::MAX as u64, 0x0123456789ABCDEF, u64::MAX] {
            let mut out = Vec::new();
            write_u16(e, &mut out, v as u16);
            write_u32(e, &mut out, v as u32);
            write_u64(e, &mut out, v);
            write_i32(e, &mut out, v as i32);
            write_i64(e, &mut out, v as i64);
            assert_eq!(read_u16(e, &out, 0), Some(v as u16));
            assert_eq!(read_u32(e, &out, 2), Some(v as u32));
            assert_eq!(read_u64(e, &out, 6), Some(v));
            assert_eq!(read_i32(e, &out, 14), Some(v as i32));
            assert_eq!(read_i64(e, &out, 18), Some(v as i64));
        }
    }
}

#[test]
fn padding_reaches_the_next_boundary() {
    assert_eq!((padding(0), padding(1), padding(2), padding(3), padding(4), padding(5)), (0, 3, 2, 1, 0, 3));
    assert_eq!(padding(65535), 1);
}

#[test]
fn text_is_utf8() {
    assert_eq!(string_from_utf8("héllo ✓".as_bytes()).unwrap(), "héllo ✓");
    assert_eq!(string_from_utf8(&[]).unwrap(), "");
    assert!(string_from_utf8(&[0x68, 0xC3]).is_err());
    assert!(string_from_utf8(&[0xED, 0xA0, 0x80]).is_err());
    assert!(string_from_utf8(&[0xFF]).is_err());
}

#[test]
fn durations_count_nanoseconds() {
    let d = Duration::new(3, 1_500_000_000);
    assert_eq!(d.as_nanos(), 4_500_000_000);
    assert_eq!((d.as_secs(), d.subsec_nanos()), (4, 500_000_000));
    assert_eq!(Duration::from_secs(2), Duration::new(2, 0));
    assert_eq!(Duration::from_nanos(7).as_nanos(), 7);
    assert_eq!(Duration::zero(), Duration::new(0, 0));
    assert_eq!(Duration::new(u64::MAX, u32::MAX).as_secs(), u64::MAX as u128 + 4);
}

#[test]
fn read_buffer_keeps_what_was_not_parsed() {
    let mut buffer = ReadBuffer::new();
    assert!(buffer.is_empty());
    assert!(!buffer.is_ended());
    assert_eq!(buffer.has_data_left(), None);
    assert_eq!(buffer.fill_buf(&[1, 2, 3, 4, 5]), 5);
    assert_eq!(buffer.buffer(), &[1, 2, 3, 4, 5]);
    assert_eq!(buffer.has_data_left(), Some(true));
    buffer.consume(2);
    assert_eq!(buffer.buffer(), &[3, 4, 5]);
    buffer.advance(&[4, 5]);
    assert_eq!(buffer.buffer(), &[4, 5]);
    // What is left is the remainder itself, wherever in the unread bytes it lay.
    let mut middle = ReadBuffer::new();
    middle.fill_buf(&[1, 2, 3]);
    middle.advance(&[1]);
    assert_eq!(middle.buffer(), &[1]);
    middle.fill_buf(&[7, 8, 9]);
    middle.advance(&[7, 8]);
    assert_eq!(middle.buffer(), &[7, 8]);
    middle.advance(&[]);
    assert!(middle.is_empty());
    assert!(!middle.is_ended());
    assert_eq!(buffer.fill_buf(&[6]), 1);
    assert_eq!(buffer.buffer(), &[4, 5, 6]);

    // A parser that takes two bytes where it finds them.
    let sum = |s: &[u8]| -> Result<(usize, u8), PcapError> {
        if s.len() < 2 {
            Err(PcapError::IncompleteBuffer)
        } else if s[0] == 0 {
            Err(PcapError::InvalidField("zero"))
        } else {
            Ok((2, s[0] + s[1]))
        }
    };
    assert!(matches!(buffer.parse_with(sum), Poll::Ready((2, 9))));
    assert_eq!(buffer.buffer(), &[6]);
    assert!(matches!(buffer.parse_with(sum), Poll::Refill));
    assert_eq!(buffer.buffer(), &[6]);
    buffer.fill_buf(&[0]);
    buffer.consume(1);
    buffer.fill_buf(&[3]);
    assert!(matches!(buffer.parse_with(sum), Poll::Failed(PcapError::InvalidField("zero"))));
    assert_eq!(buffer.buffer(), &[0, 3]);
    buffer.consume(1);
    let classic = |s: &[u8]| RawPcapPacket::from_slice(Endianness::Big, s).map(|(rest, p)| (s.len() - rest.len(), p));
    assert!(matches!(buffer.parse_with(classic), Poll::Refill));
    buffer.fill_buf(&[4, 5]);
    buffer.consume(2);
    assert_eq!(buffer.buffer(), &[5]);
    let mut at_end = ReadBuffer::new();
    at_end.fill_buf(&[9]);
    at_end.fill_buf(&[]);
    assert!(matches!(at_end.parse_with(sum), Poll::Failed(PcapError::UnexpectedEof)));
    assert!(matches!(at_end.parse_with(classic), Poll::Failed(pcap_file::pcap::PcapError::UnexpectedEof)));
    buffer.consume(1);
    buffer.fill_buf(&[6]);

    buffer.consume(1);
    assert_eq!(buffer.has_data_left(), None);
    assert_eq!(buffer.fill_buf(&[]), 0);
    assert!(buffer.is_ended());
    assert_eq!(buffer.has_data_left(), Some(false));
    buffer.fill_buf(&[7, 8]);
    assert_eq!(buffer.has_data_left(), Some(true));
    assert!(buffer.is_ended());
    assert_eq!(buffer.into_inner(), vec![7, 8]);
}

#[test]
fn peek_reader_reads_one_byte_ahead() {
    let mut peek = PeekReader::new();
    assert!(peek.needs_read());
    assert!(!peek.is_empty(Some(5)));
    assert!(!peek.needs_read());
    // What is read now is not looked at: a byte is at hand.
    assert!(!peek.is_empty(None));
    assert_eq!(peek.take(), Some(5));
    assert_eq!(peek.take(), None);
    assert!(peek.is_empty(None));
    assert_eq!(peek.peeked, None);
}
