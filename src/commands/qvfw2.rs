//! Secondary firmware version inquiry.
use vstd::prelude::*;
use bytes::BytesMut;
use crate::buffer::{buffer_bytes, buffer_contents};
use crate::command::{Command, Response, ResponseWire};
use crate::commands::qvfw::{
    lemma_tagged_version_round_trip, parse_tagged_version, tagged_version_of, tagged_version_text,
};
use crate::error::Error;

verus! {

pub struct QVFW2;

impl Command for QVFW2 {
    type Request = ();
    type Response = QVFW2Response;

    /// `QVFW2`
    open spec fn spec_protocol_id() -> Seq<u8> {
        seq![0x51u8, 0x56, 0x46, 0x57, 0x32]
    }

    fn protocol_id() -> (r: Vec<u8>) {
        vec![0x51u8, 0x56, 0x46, 0x57, 0x32]
    }

    fn command_name() -> &'static str {
        "QueryFirmwareVersion2"
    }
}

#[derive(Debug, PartialEq, Eq, Structural)]
pub struct QVFW2Response {
    pub major: u64,
    pub minor: u64,
}

/// `VERFW2:`, which opens the payload.
pub open spec fn firmware2_tag() -> Seq<u8> {
    seq![0x56u8, 0x45, 0x52, 0x46, 0x57, 0x32, 0x3A]
}

impl Response for QVFW2Response {
    open spec fn parse(payload: Seq<u8>) -> Result<Self, Error> {
        match tagged_version_of(payload, firmware2_tag()) {
            Ok((major, minor)) => Ok(QVFW2Response { major, minor }),
            Err(e) => Err(e),
        }
    }

    fn decode(src: &mut BytesMut) -> (r: Result<Self, Error>) {
        let tag: Vec<u8> = vec![0x56u8, 0x45, 0x52, 0x46, 0x57, 0x32, 0x3A];
        assert(tag@ =~= firmware2_tag());
        match parse_tagged_version(buffer_bytes(src), tag.as_slice()) {
            Ok((major, minor)) => Ok(QVFW2Response { major, minor }),
            Err(e) => Err(e),
        }
    }
}

impl ResponseWire for QVFW2Response {
    open spec fn legal(&self) -> bool {
        true
    }

    /// `VERFW2:` and the version in hexadecimal.
    open spec fn wire(&self) -> Seq<u8> {
        tagged_version_text(firmware2_tag(), self.major, self.minor)
    }

    proof fn lemma_wire_round_trip(v: Self) {
        let tag = firmware2_tag();
        assert forall|i: int| 0 <= i < tag.len() implies tag[i] != 0x0Du8 by {}
        lemma_tagged_version_round_trip(tag, v.major, v.minor);
    }
}

} // verus!
