use bytes::BytesMut;
use crc_any::CRCu16;
use inverter_protocol::codec::{scan_frame, Codec, FrameScan};
use inverter_protocol::command::{Command, Response};
use inverter_protocol::commands::qid::{QIDResponse, QID};
use inverter_protocol::commands::qpi::{QPIResponse, QPI};
use inverter_protocol::error::{Error, Error::InvalidResponseCrcSum};

fn crc16(data: &[u8]) -> u16 {
    let mut sum = CRCu16::crc16xmodem();
    sum.digest(data);
    sum.get_crc()
}

fn response_frame(payload: &[u8]) -> Vec<u8> {
    let mut res = vec![b'('];
    res.extend_from_slice(payload);
    let crc = crc16(res.as_slice());
    res.extend_from_slice(crc.to_be_bytes().as_ref());
    res.push(b'\r');
    res
}

#[test]
fn test_decode_invalid_format() -> Result<(), Error> {
    let mut codec = Codec::<QID>::new();

    let mut res = String::from("123 123").into_bytes();
    let mut crc_sum = CRCu16::crc16xmodem();
    crc_sum.digest(res.as_slice());
    res.extend_from_slice(crc_sum.get_crc().to_be_bytes().as_ref());
    res.push(b'\r');

    let mut buf = BytesMut::from(res.as_slice());
    let item = codec.decode(&mut buf);

    assert!(item.is_err());

    Ok(())
}

#[test]
fn test_recover_invalid_format() -> Result<(), Error> {
    let mut codec = Codec::<QID>::new();
    let mut res = String::from("\x00\x00\x00\x00\x00\x00(12345").into_bytes();
    let mut crc_sum = CRCu16::crc16xmodem();
    crc_sum.digest(res.as_slice());
    res.extend_from_slice(crc_sum.get_crc().to_be_bytes().as_ref());
    res.push(b'\r');

    let mut buf = BytesMut::from(res.as_slice());
    let item = codec.decode(&mut buf)?;

    println!("{:?}", item);
    assert_eq!(
        item.unwrap(),
        QIDResponse {
            serial_number: 12345
        }
    );

    Ok(())
}

#[test]
fn test() {
    let mut codec = Codec::<QPI>::new();

    let mut buf = BytesMut::new();
    codec.encode((), &mut buf).unwrap();

    let mut buf = BytesMut::from(b"(PI1234\xe3\x52\r".as_ref());
    codec.decode(&mut buf).unwrap().unwrap();
}

#[test]
fn encode_protocol_id_query_bytes() {
    let mut codec = Codec::<QPI>::new();
    let mut buf = BytesMut::new();
    codec.encode((), &mut buf).unwrap();
    assert_eq!(&buf[..], b"QPI\xbe\xac\r");
}

#[test]
fn encode_appends_after_existing_bytes() {
    let mut codec = Codec::<QPI>::new();
    let mut buf = BytesMut::from(&b"xy"[..]);
    codec.encode((), &mut buf).unwrap();
    assert_eq!(&buf[..], b"xyQPI\xbe\xac\r");
}

#[test]
fn encoded_crc_matches_independent_crc() {
    let mut codec = Codec::<QPI>::new();
    let mut buf = BytesMut::new();
    codec.encode((), &mut buf).unwrap();
    let n = buf.len();
    assert_eq!(buf[n - 1], b'\r');
    let crc = crc16(&buf[..n - 3]);
    assert_eq!(&buf[n - 3..n - 1], crc.to_be_bytes().as_ref());
}

#[test]
fn decode_without_stop_byte_is_incomplete() {
    let mut codec = Codec::<QID>::new();
    let mut buf = BytesMut::from(&b"(1234"[..]);
    assert!(codec.decode(&mut buf).unwrap().is_none());
    assert_eq!(&buf[..], b"(1234");
}

#[test]
fn decode_empty_buffer_is_incomplete() {
    let mut codec = Codec::<QID>::new();
    let mut buf = BytesMut::new();
    assert!(codec.decode(&mut buf).unwrap().is_none());
    assert_eq!(buf.len(), 0);
}

#[test]
fn decode_without_start_byte_empties_buffer() {
    let mut codec = Codec::<QID>::new();
    let mut buf = BytesMut::from(&b"12345\r(1"[..]);
    let r = codec.decode(&mut buf);
    assert!(matches!(r, Err(Error::InvalidResponseFormat)));
    assert_eq!(buf.len(), 0);
}

#[test]
fn decode_lone_stop_byte_is_a_format_error() {
    let mut codec = Codec::<QID>::new();
    let mut buf = BytesMut::from(&b"\r"[..]);
    assert!(matches!(codec.decode(&mut buf), Err(Error::InvalidResponseFormat)));
    assert_eq!(buf.len(), 0);
}

#[test]
fn decode_short_frame_is_a_crc_error() {
    let mut codec = Codec::<QID>::new();
    let mut buf = BytesMut::from(&b"(1\r"[..]);
    assert!(matches!(codec.decode(&mut buf), Err(InvalidResponseCrcSum)));
    assert_eq!(buf.len(), 0);
}

#[test]
fn decode_leaves_next_frame_in_buffer() {
    let mut codec = Codec::<QID>::new();
    let first = response_frame(b"111");
    let second = response_frame(b"222");
    let mut all = first.clone();
    all.extend_from_slice(&second);
    let mut buf = BytesMut::from(all.as_slice());
    assert_eq!(codec.decode(&mut buf).unwrap(), Some(QIDResponse { serial_number: 111 }));
    assert_eq!(&buf[..], second.as_slice());
    assert_eq!(codec.decode(&mut buf).unwrap(), Some(QIDResponse { serial_number: 222 }));
    assert_eq!(buf.len(), 0);
}

#[test]
fn decode_payload_error_consumes_the_frame() {
    let mut codec = Codec::<QID>::new();
    let mut bytes = response_frame(b"12a45");
    bytes.extend_from_slice(b"(rest");
    let mut buf = BytesMut::from(bytes.as_slice());
    assert!(matches!(codec.decode(&mut buf), Err(Error::ParseInt)));
    assert_eq!(&buf[..], b"(rest");
}

/// Finds a serial-number payload whose response frame has a carriage return
/// as the given checksum byte.
fn payload_with_stop_in_crc(byte: usize) -> Vec<u8> {
    for n in 0u64.. {
        let payload = n.to_string().into_bytes();
        let frame = response_frame(&payload);
        let len = frame.len();
        let crc = &frame[len - 3..len - 1];
        if crc[byte] == b'\r' && crc[1 - byte] != b'\r' {
            return payload;
        }
    }
    unreachable!()
}

#[test]
fn decode_recovers_when_crc_high_byte_is_a_stop_byte() {
    let payload = payload_with_stop_in_crc(0);
    let frame = response_frame(&payload);
    let mut codec = Codec::<QID>::new();
    let mut buf = BytesMut::from(frame.as_slice());
    let expected: u64 = String::from_utf8(payload).unwrap().parse().unwrap();
    assert_eq!(codec.decode(&mut buf).unwrap(), Some(QIDResponse { serial_number: expected }));
    assert_eq!(buf.len(), 0);
}

#[test]
fn decode_recovers_when_crc_low_byte_is_a_stop_byte() {
    let payload = payload_with_stop_in_crc(1);
    let frame = response_frame(&payload);
    let mut codec = Codec::<QID>::new();
    let mut buf = BytesMut::from(frame.as_slice());
    let expected: u64 = String::from_utf8(payload).unwrap().parse().unwrap();
    assert_eq!(codec.decode(&mut buf).unwrap(), Some(QIDResponse { serial_number: expected }));
    assert_eq!(buf.len(), 0);
}

#[test]
fn scan_frame_reports_positions() {
    let frame = response_frame(b"42");
    let mut bytes = b"ab".to_vec();
    bytes.extend_from_slice(&frame);
    assert_eq!(scan_frame(&bytes), FrameScan::Found { start: 2, end: 2 + frame.len() - 1 });
    assert_eq!(scan_frame(b"(42"), FrameScan::Incomplete);
    assert_eq!(scan_frame(b"42\r"), FrameScan::Unframed);
    assert_eq!(scan_frame(b"(42xx\r"), FrameScan::BadCrc);
}

#[test]
fn response_decode_leaves_source_untouched() {
    let mut buf = BytesMut::from(&b"PI30"[..]);
    let item = <QPI as Command>::Response::decode(&mut buf).unwrap();
    assert_eq!(item, QPIResponse { protocol_id: 30 });
    assert_eq!(&buf[..], b"PI30");
}

fn feed_one_byte_at_a_time(frame: &[u8]) -> Vec<Option<QIDResponse>> {
    let mut codec = Codec::<QID>::new();
    let mut buf = BytesMut::new();
    let mut out = Vec::new();
    for (i, b) in frame.iter().enumerate() {
        buf.extend_from_slice(&[*b]);
        let r = codec.decode(&mut buf).unwrap();
        if i + 1 < frame.len() {
            assert!(r.is_none(), "prefix of {} bytes", i + 1);
            assert_eq!(&buf[..], &frame[..i + 1]);
        } else {
            out.push(r);
        }
    }
    assert_eq!(buf.len(), 0);
    out
}

#[test]
fn incremental_delivery_with_stop_byte_as_crc_high_byte() {
    let payload = payload_with_stop_in_crc(0);
    let expected: u64 = String::from_utf8(payload.clone()).unwrap().parse().unwrap();
    let out = feed_one_byte_at_a_time(&response_frame(&payload));
    assert_eq!(out, vec![Some(QIDResponse { serial_number: expected })]);
}

#[test]
fn incremental_delivery_with_stop_byte_as_crc_low_byte() {
    let payload = payload_with_stop_in_crc(1);
    let expected: u64 = String::from_utf8(payload.clone()).unwrap().parse().unwrap();
    let out = feed_one_byte_at_a_time(&response_frame(&payload));
    assert_eq!(out, vec![Some(QIDResponse { serial_number: expected })]);
}

#[test]
fn corrupted_frame_is_rejected_at_once() {
    let mut bytes = response_frame(b"777");
    bytes[2] = b'8';
    let mut codec = Codec::<QID>::new();
    let mut buf = BytesMut::from(bytes.as_slice());
    assert!(matches!(codec.decode(&mut buf), Err(InvalidResponseCrcSum)));
    assert_eq!(buf.len(), 0);
}
