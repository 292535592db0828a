//! Protocol id inquiry.
use vstd::prelude::*;
use bytes::BytesMut;
use vstd::slice::slice_subrange;
use crate::buffer::{buffer_bytes, buffer_contents};
use crate::command::{Command, Response, ResponseWire};
use crate::error::Error;
use crate::text::{
    check_text, has_prefix, lemma_numeral_text_reads_back, numeral_text, parse_u64, starts_with,
    text_ok, u64_of,
};

verus! {

pub struct QPI;

impl Command for QPI {
    type Request = ();
    type Response = QPIResponse;

    /// `QPI`
    open spec fn spec_protocol_id() -> Seq<u8> {
        seq![0x51u8, 0x50, 0x49]
    }

    fn protocol_id() -> (r: Vec<u8>) {
        vec![0x51u8, 0x50, 0x49]
    }

    fn command_name() -> &'static str {
        "QueryProtocolId"
    }
}

/// `PI`, which opens the payload.
pub open spec fn protocol_id_tag() -> Seq<u8> {
    seq![0x50u8, 0x49]
}

#[derive(Debug, PartialEq, Eq, Structural)]
pub struct QPIResponse {
    pub protocol_id: u64,
}

impl Response for QPIResponse {
    /// The payload is `PI` followed by the protocol id in decimal.
    open spec fn parse(payload: Seq<u8>) -> Result<Self, Error> {
        if !has_prefix(payload, protocol_id_tag()) {
            Err(Error::InvalidPayload)
        } else if !text_ok(payload.subrange(2, payload.len() as int)) {
            Err(Error::Utf8)
        } else {
            match u64_of(payload.subrange(2, payload.len() as int), 10) {
                Some(n) => Ok(QPIResponse { protocol_id: n }),
                None => Err(Error::ParseInt),
            }
        }
    }

    fn decode(src: &mut BytesMut) -> (r: Result<Self, Error>) {
        let s = buffer_bytes(src);
        let tag: Vec<u8> = vec![0x50u8, 0x49];
        assert(tag@ =~= protocol_id_tag());
        if !starts_with(s, tag.as_slice()) {
            return Err(Error::InvalidPayload);
        }
        let rest = slice_subrange(s, 2, s.len());
        if !check_text(rest) {
            return Err(Error::Utf8);
        }
        match parse_u64(rest, 10) {
            Some(n) => Ok(QPIResponse { protocol_id: n }),
            None => Err(Error::ParseInt),
        }
    }
}

impl ResponseWire for QPIResponse {
    open spec fn legal(&self) -> bool {
        true
    }

    /// `PI` and the protocol id in decimal.
    open spec fn wire(&self) -> Seq<u8> {
        protocol_id_tag() + numeral_text(self.protocol_id as nat, 10)
    }

    proof fn lemma_wire_round_trip(v: Self) {
        let t = numeral_text(v.protocol_id as nat, 10);
        let w = v.wire();
        lemma_numeral_text_reads_back(v.protocol_id as nat, 10);
        assert(w.subrange(0, 2) =~= protocol_id_tag());
        assert(w.subrange(2, w.len() as int) =~= t);
        assert forall|i: int| 0 <= i < w.len() implies w[i] != 0x0Du8 by {
            if i >= 2 {
                assert(w[i] == t[i - 2]);
            }
        }
    }
}

} // verus!
