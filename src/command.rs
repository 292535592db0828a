//! What a device command supplies to the codec: its wire identifier, how its
//! request serialises, and how its response parses.
use vstd::prelude::*;
use bytes::BytesMut;
use crate::buffer::buffer_contents;
use crate::error::Error;

verus! {

/// A device command: a wire identifier with a request and a response type.
pub trait Command {
    type Request: Request;
    type Response: Response;

    /// The identifier that starts every request frame of this command.
    spec fn spec_protocol_id() -> Seq<u8>;

    fn protocol_id() -> (r: Vec<u8>)
        ensures
            r@ == Self::spec_protocol_id();

    /// A human-readable name of the command.
    fn command_name() -> &'static str;
}

/// The payload a request carries, when it carries one.
pub open spec fn payload_or_empty(p: Option<Seq<u8>>) -> Seq<u8> {
    match p {
        Some(s) => s,
        None => Seq::empty(),
    }
}

/// A request that may carry a payload after the command identifier.
pub trait Request {
    /// The payload bytes of this request (`None`: the request carries none).
    spec fn spec_payload(&self) -> Result<Option<Seq<u8>>, Error>;

    fn encode(&self) -> (r: Result<Option<BytesMut>, Error>)
        ensures
            match r {
                Ok(Some(b)) => self.spec_payload() == Ok::<Option<Seq<u8>>, Error>(
                    Some(buffer_contents(b)),
                ),
                Ok(None) => self.spec_payload() == Ok::<Option<Seq<u8>>, Error>(None),
                Err(e) => self.spec_payload() == Err::<Option<Seq<u8>>, Error>(e),
            };
}

/// A pure inquiry carries no payload.
impl Request for () {
    open spec fn spec_payload(&self) -> Result<Option<Seq<u8>>, Error> {
        Ok(None)
    }

    fn encode(&self) -> (r: Result<Option<BytesMut>, Error>) {
        Ok(None)
    }
}

/// A response, rebuilt in full from the payload of one validated frame.
pub trait Response: Sized {
    /// What a payload decodes to.
    spec fn parse(payload: Seq<u8>) -> Result<Self, Error>;

    fn decode(src: &mut BytesMut) -> (r: Result<Self, Error>)
        ensures
            r == Self::parse(buffer_contents(*old(src))),
            buffer_contents(*final(src)) == buffer_contents(*old(src));
}

/// A response whose values can be written back as the payload a device sends.
pub trait ResponseWire: Response {
    /// The values a device can report.
    spec fn legal(&self) -> bool;

    /// The payload that a device sends for this value.
    spec fn wire(&self) -> Seq<u8>;

    /// Decoding the payload written for a legal value gives the value back,
    /// and that payload holds no stop byte.
    proof fn lemma_wire_round_trip(v: Self)
        requires
            v.legal(),
        ensures
            Self::parse(v.wire()) == Ok::<Self, Error>(v),
            !v.wire().contains(crate::codec::STOP_BYTE);
}

} // verus!
