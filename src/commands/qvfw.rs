//! Main firmware version inquiry.
use vstd::prelude::*;
use bytes::BytesMut;
use vstd::slice::slice_subrange;
use crate::buffer::{buffer_bytes, buffer_contents};
use crate::command::{Command, Response, ResponseWire};
use crate::error::Error;
use crate::text::{
    check_text, find_byte, has_prefix, lemma_numeral_text_reads_back, numeral_text, parse_u64,
    starts_with, text_ok, u64_of, DOT,
};

verus! {

pub struct QVFW;

impl Command for QVFW {
    type Request = ();
    type Response = QVFWResponse;

    /// `QVFW`
    open spec fn spec_protocol_id() -> Seq<u8> {
        seq![0x51u8, 0x56, 0x46, 0x57]
    }

    fn protocol_id() -> (r: Vec<u8>) {
        vec![0x51u8, 0x56, 0x46, 0x57]
    }

    fn command_name() -> &'static str {
        "QueryFirmwareVersion"
    }
}

#[derive(Debug, PartialEq, Eq, Structural)]
pub struct QVFWResponse {
    pub major: u64,
    pub minor: u64,
}

/// `VERFW:`, which opens the payload.
pub open spec fn firmware_tag() -> Seq<u8> {
    seq![0x56u8, 0x45, 0x52, 0x46, 0x57, 0x3A]
}

/// A hexadecimal number: well-encoded text first, then digits.
pub open spec fn hex_of(s: Seq<u8>) -> Result<u64, Error> {
    if !text_ok(s) {
        Err(Error::Utf8)
    } else {
        match u64_of(s, 16) {
            Some(n) => Ok(n),
            None => Err(Error::ParseInt),
        }
    }
}

/// Reads a hexadecimal number.
pub fn parse_hex(s: &[u8]) -> (r: Result<u64, Error>)
    ensures
        r == hex_of(s@),
{
    if !check_text(s) {
        return Err(Error::Utf8);
    }
    match parse_u64(s, 16) {
        Some(n) => Ok(n),
        None => Err(Error::ParseInt),
    }
}

/// A version `MAJOR.MINOR`, both hexadecimal: the first `.` divides them;
/// the major part is read first.
pub open spec fn version_of(s: Seq<u8>) -> Result<(u64, u64), Error> {
    match s.index_of_first(DOT) {
        None => Err(Error::InvalidPayload),
        Some(p) => match hex_of(s.subrange(0, p)) {
            Err(e) => Err(e),
            Ok(major) => match hex_of(s.subrange(p + 1, s.len() as int)) {
                Err(e) => Err(e),
                Ok(minor) => Ok((major, minor)),
            },
        },
    }
}

/// The payload `tag` followed by a version.
pub open spec fn tagged_version_of(payload: Seq<u8>, tag: Seq<u8>) -> Result<(u64, u64), Error> {
    if !has_prefix(payload, tag) {
        Err(Error::InvalidPayload)
    } else {
        version_of(payload.subrange(tag.len() as int, payload.len() as int))
    }
}

/// Reads `tag` followed by a version `MAJOR.MINOR` in hexadecimal.
pub fn parse_tagged_version(s: &[u8], tag: &[u8]) -> (r: Result<(u64, u64), Error>)
    ensures
        r == tagged_version_of(s@, tag@),
{
    if !starts_with(s, tag) {
        return Err(Error::InvalidPayload);
    }
    let rest = slice_subrange(s, tag.len(), s.len());
    let p = find_byte(rest, DOT);
    if p == rest.len() {
        return Err(Error::InvalidPayload);
    }
    let major = match parse_hex(slice_subrange(rest, 0, p)) {
        Ok(n) => n,
        Err(e) => {
            return Err(e);
        },
    };
    match parse_hex(slice_subrange(rest, p + 1, rest.len())) {
        Ok(minor) => Ok((major, minor)),
        Err(e) => Err(e),
    }
}

/// `tag`, then `major.minor` in upper-case hexadecimal.
pub open spec fn tagged_version_text(tag: Seq<u8>, major: u64, minor: u64) -> Seq<u8> {
    tag + numeral_text(major as nat, 16) + seq![DOT] + numeral_text(minor as nat, 16)
}

/// A written version reads back, after any tag free of carriage returns.
pub proof fn lemma_tagged_version_round_trip(tag: Seq<u8>, major: u64, minor: u64)
    requires
        !tag.contains(0x0Du8),
    ensures
        tagged_version_of(tagged_version_text(tag, major, minor), tag) == Ok::<(u64, u64), Error>(
            (major, minor),
        ),
        !tagged_version_text(tag, major, minor).contains(0x0Du8),
{
    let a = numeral_text(major as nat, 16);
    let b = numeral_text(minor as nat, 16);
    let w = tagged_version_text(tag, major, minor);
    lemma_numeral_text_reads_back(major as nat, 16);
    lemma_numeral_text_reads_back(minor as nat, 16);
    assert(w.subrange(0, tag.len() as int) =~= tag);
    let rest = w.subrange(tag.len() as int, w.len() as int);
    assert(rest =~= a + seq![DOT] + b);
    assert forall|i: int| 0 <= i < a.len() implies rest[i] != DOT by {
        assert(rest[i] == a[i]);
    }
    assert(rest[a.len() as int] == DOT);
    rest.index_of_first_ensures(DOT);
    assert(rest.contains(DOT));
    assert(rest.subrange(0, a.len() as int) =~= a);
    assert(rest.subrange(a.len() + 1 as int, rest.len() as int) =~= b);
    assert forall|i: int| 0 <= i < w.len() implies w[i] != 0x0Du8 by {
        if i < tag.len() {
            assert(w[i] == tag[i]);
        } else if i < tag.len() + a.len() {
            assert(w[i] == a[i - tag.len()]);
        } else if i > tag.len() + a.len() {
            assert(w[i] == b[i - tag.len() - a.len() - 1]);
        }
    }
}

impl Response for QVFWResponse {
    open spec fn parse(payload: Seq<u8>) -> Result<Self, Error> {
        match tagged_version_of(payload, firmware_tag()) {
            Ok((major, minor)) => Ok(QVFWResponse { major, minor }),
            Err(e) => Err(e),
        }
    }

    fn decode(src: &mut BytesMut) -> (r: Result<Self, Error>) {
        let tag: Vec<u8> = vec![0x56u8, 0x45, 0x52, 0x46, 0x57, 0x3A];
        assert(tag@ =~= firmware_tag());
        match parse_tagged_version(buffer_bytes(src), tag.as_slice()) {
            Ok((major, minor)) => Ok(QVFWResponse { major, minor }),
            Err(e) => Err(e),
        }
    }
}

impl ResponseWire for QVFWResponse {
    open spec fn legal(&self) -> bool {
        true
    }

    /// `VERFW:` and the version in hexadecimal.
    open spec fn wire(&self) -> Seq<u8> {
        tagged_version_text(firmware_tag(), self.major, self.minor)
    }

    proof fn lemma_wire_round_trip(v: Self) {
        let tag = firmware_tag();
        assert forall|i: int| 0 <= i < tag.len() implies tag[i] != 0x0Du8 by {}
        lemma_tagged_version_round_trip(tag, v.major, v.minor);
    }
}

} // verus!
