use bytes::BytesMut;
use crc_any::CRCu16;
use inverter_protocol::codec::{frame_request, Codec};
use inverter_protocol::commands::qid::{QIDResponse, QID};
use inverter_protocol::commands::qpi::{QPIResponse, QPI};
use inverter_protocol::crc::crc_matches;
use inverter_protocol::error::Error;
use inverter_protocol::inverter::Inverter;
use inverter_protocol::text::{
    parse_decimal, parse_i32, parse_numeral, parse_u64, parse_usize, split_fields, Decimal,
};

fn crc16(data: &[u8]) -> u16 {
    let mut sum = CRCu16::crc16xmodem();
    sum.digest(data);
    sum.get_crc()
}

fn response_frame(payload: &[u8]) -> Vec<u8> {
    let mut res = vec![b'('];
    res.extend_from_slice(payload);
    let crc = crc16(res.as_slice());
    res.extend_from_slice(crc.to_be_bytes().as_ref());
    res.push(b'\r');
    res
}

#[test]
fn round_trip_serial_number() {
    let frame = response_frame(b"987654321");
    let mut codec = Codec::<QID>::new();
    let mut buf = BytesMut::from(frame.as_slice());
    assert_eq!(codec.decode(&mut buf).unwrap(), Some(QIDResponse { serial_number: 987654321 }));
    assert_eq!(buf.len(), 0);
}

#[test]
fn incremental_delivery_one_byte_at_a_time() {
    let frame = response_frame(b"PI30");
    let mut codec = Codec::<QPI>::new();
    let mut buf = BytesMut::new();
    let mut decoded = Vec::new();
    for (i, b) in frame.iter().enumerate() {
        buf.extend_from_slice(&[*b]);
        let r = codec.decode(&mut buf).unwrap();
        if i + 1 < frame.len() {
            assert!(r.is_none());
            assert_eq!(&buf[..], &frame[..i + 1]);
        } else {
            decoded.push(r);
        }
    }
    assert_eq!(decoded, vec![Some(QPIResponse { protocol_id: 30 })]);
    assert_eq!(buf.len(), 0);
}

#[test]
fn resync_skips_garbage_and_consumes_exactly_the_frame() {
    for n in [1usize, 3, 17] {
        let frame = response_frame(b"4242");
        let mut bytes = vec![0x55u8; n];
        bytes.extend_from_slice(&frame);
        bytes.extend_from_slice(b"(next");
        let mut codec = Codec::<QID>::new();
        let mut buf = BytesMut::from(bytes.as_slice());
        assert_eq!(codec.decode(&mut buf).unwrap(), Some(QIDResponse { serial_number: 4242 }));
        assert_eq!(bytes.len() - buf.len(), n + frame.len());
        assert_eq!(&buf[..], b"(next");
    }
}

#[test]
fn flipped_bit_in_crc_window_is_a_crc_error() {
    let frame = response_frame(b"12345");
    let window_len = frame.len() - 3;
    for pos in 0..window_len {
        for bit in 0..8 {
            let mut bytes = frame.clone();
            bytes[pos] ^= 1 << bit;
            if bytes[pos] == b'\r' || bytes[pos] == b'(' || pos == 0 {
                continue;
            }
            let mut codec = Codec::<QID>::new();
            let mut buf = BytesMut::from(bytes.as_slice());
            let mut r = codec.decode(&mut buf);
            if let Ok(None) = r {
                // A longer reading of the frame could still carry a matching
                // checksum: the verdict waits for the next byte.
                assert_eq!(&buf[..], bytes.as_slice());
                buf.extend_from_slice(b"(");
                r = codec.decode(&mut buf);
            }
            assert!(matches!(r, Err(Error::InvalidResponseCrcSum)), "pos {} bit {}", pos, bit);
            assert_eq!(buf.len(), 0);
        }
    }
}

#[test]
fn frame_request_places_crc_big_endian() {
    assert_eq!(frame_request(b"QPI", 0xBEAC), b"QPI\xbe\xac\r".to_vec());
    assert_eq!(frame_request(b"", 0x0102), vec![1u8, 2, b'\r']);
}

#[test]
fn crc_matches_compares_both_bytes() {
    assert!(crc_matches(0xBEAC, 0xBE, 0xAC));
    assert!(!crc_matches(0xBEAC, 0xAC, 0xBE));
    assert!(!crc_matches(0xBEAC, 0xBE, 0xAD));
}

#[test]
fn engine_request_bytes() {
    let inv = Inverter::from_stream(());
    let out = inv.request::<QPI>(()).unwrap();
    assert_eq!(&out[..], b"QPI\xbe\xac\r");
}

#[test]
fn engine_receives_split_response() {
    let mut inv = Inverter::from_stream(7u8);
    let frame = response_frame(b"PI30");
    let (a, b) = frame.split_at(3);
    assert!(inv.receive::<QPI>(a).unwrap().is_none());
    assert_eq!(inv.receive::<QPI>(b).unwrap(), Some(QPIResponse { protocol_id: 30 }));
    assert_eq!(*inv.stream_mut(), 7u8);
    assert_eq!(inv.into_inner(), 7u8);
}

#[test]
fn engine_reports_end_of_stream() {
    let mut inv = Inverter::from_stream(());
    match inv.receive::<QPI>(&[]) {
        Err(Error::Io(e)) => assert_eq!(e.kind(), std::io::ErrorKind::UnexpectedEof),
        other => panic!("unexpected {:?}", other),
    }
}

#[test]
fn engine_propagates_crc_error() {
    let mut inv = Inverter::from_stream(());
    assert!(matches!(inv.receive::<QPI>(b"(PI30xx\r"), Err(Error::InvalidResponseCrcSum)));
}

#[test]
fn numerals_in_both_bases() {
    assert_eq!(parse_numeral(b"0123", 10), Some(123));
    assert_eq!(parse_numeral(b"fF", 16), Some(255));
    assert_eq!(parse_numeral(b"+1", 10), None);
    assert_eq!(parse_numeral(b"", 10), None);
    assert_eq!(parse_numeral(b"A", 10), None);
    assert_eq!(parse_u64(b"+FFFFFFFFFFFFFFFF", 16), Some(u64::MAX));
    assert_eq!(parse_u64(b"10000000000000000", 16), None);
    assert_eq!(parse_usize(b"0091"), Some(91));
}

#[test]
fn signed_numbers() {
    assert_eq!(parse_i32(b"-2147483648"), Some(i32::MIN));
    assert_eq!(parse_i32(b"2147483647"), Some(i32::MAX));
    assert_eq!(parse_i32(b"2147483648"), None);
    assert_eq!(parse_i32(b"+30"), Some(30));
    assert_eq!(parse_i32(b"-"), None);
    assert_eq!(parse_i32(b"-+3"), None);
}

#[test]
fn fixed_point_numbers() {
    assert_eq!(parse_decimal(b"27.16"), Some(Decimal { mantissa: 2716, scale: 2 }));
    assert_eq!(parse_decimal(b"074.9"), Some(Decimal { mantissa: 749, scale: 1 }));
    assert_eq!(parse_decimal(b"3000"), Some(Decimal { mantissa: 3000, scale: 0 }));
    assert_eq!(parse_decimal(b".5"), None);
    assert_eq!(parse_decimal(b"5."), None);
    assert_eq!(parse_decimal(b"1.2.3"), None);
    assert_eq!(parse_decimal(b"x"), None);
}

#[test]
fn fields_between_spaces() {
    assert_eq!(split_fields(b"a bc  d"), vec![b"a".to_vec(), b"bc".to_vec(), vec![], b"d".to_vec()]);
    assert_eq!(split_fields(b""), vec![Vec::<u8>::new()]);
}
