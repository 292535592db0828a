//! Serial number inquiry.
use vstd::prelude::*;
use bytes::BytesMut;
use crate::buffer::{buffer_bytes, buffer_contents};
use crate::command::{Command, Response, ResponseWire};
use crate::error::Error;
use crate::text::{
    check_text, lemma_numeral_text_reads_back, numeral_text, parse_u64, text_ok, u64_of,
};

verus! {

pub struct QID;

impl Command for QID {
    type Request = ();
    type Response = QIDResponse;

    /// `QID`
    open spec fn spec_protocol_id() -> Seq<u8> {
        seq![0x51u8, 0x49, 0x44]
    }

    fn protocol_id() -> (r: Vec<u8>) {
        vec![0x51u8, 0x49, 0x44]
    }

    fn command_name() -> &'static str {
        "QuerySerialNumber"
    }
}

#[derive(Debug, PartialEq, Eq, Structural)]
pub struct QIDResponse {
    pub serial_number: u64,
}

impl Response for QIDResponse {
    /// The payload is the serial number in decimal.
    open spec fn parse(payload: Seq<u8>) -> Result<Self, Error> {
        if !text_ok(payload) {
            Err(Error::Utf8)
        } else {
            match u64_of(payload, 10) {
                Some(n) => Ok(QIDResponse { serial_number: n }),
                None => Err(Error::ParseInt),
            }
        }
    }

    fn decode(src: &mut BytesMut) -> (r: Result<Self, Error>) {
        let s = buffer_bytes(src);
        if !check_text(s) {
            return Err(Error::Utf8);
        }
        match parse_u64(s, 10) {
            Some(n) => Ok(QIDResponse { serial_number: n }),
            None => Err(Error::ParseInt),
        }
    }
}

impl ResponseWire for QIDResponse {
    open spec fn legal(&self) -> bool {
        true
    }

    /// The serial number in decimal.
    open spec fn wire(&self) -> Seq<u8> {
        numeral_text(self.serial_number as nat, 10)
    }

    proof fn lemma_wire_round_trip(v: Self) {
        lemma_numeral_text_reads_back(v.serial_number as nat, 10);
    }
}

} // verus!
