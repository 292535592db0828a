//! The execution engine: one request/response exchange at a time over an
//! owned duplex stream.
//!
//! The engine owns the stream and the accumulation buffer. Reading and writing
//! is left to the caller, which awaits the transport: it writes the bytes of
//! [`Inverter::request`], then hands each read to [`Inverter::receive`] until
//! that yields a response or an error.
use vstd::prelude::*;
use bytes::BytesMut;
use crate::buffer::{buffer_contents, buffer_extend, buffer_from_slice};
use crate::codec::{decode_result, request_frame, Codec};
use crate::command::{payload_or_empty, Command, Request};
use crate::error::{io_error_kind, Error};

verus! {

/// Relies on `std::io::Error::from(std::io::ErrorKind::UnexpectedEof)`: the
/// error that reports a stream that ended in the middle of an exchange; std
/// documents that an error made from a kind reports that kind.
#[verifier::external_body]
fn unexpected_eof() -> (r: std::io::Error)
    ensures
        io_error_kind(r) == std::io::ErrorKind::UnexpectedEof,
{
    std::io::Error::from(std::io::ErrorKind::UnexpectedEof)
}

pub struct Inverter<S> {
    stream: S,
    buffer_in: BytesMut,
}

impl<S> Inverter<S> {
    /// The bytes received and not yet consumed by a decoded frame.
    pub closed spec fn buffered(&self) -> Seq<u8> {
        buffer_contents(self.buffer_in)
    }

    /// The transport.
    pub closed spec fn transport(&self) -> S {
        self.stream
    }

    pub fn from_stream(stream: S) -> (r: Self)
        ensures
            r.transport() == stream,
            r.buffered() == Seq::<u8>::empty(),
    {
        let empty: Vec<u8> = Vec::new();
        Inverter { stream, buffer_in: buffer_from_slice(empty.as_slice()) }
    }

    /// Gives the transport back; any bytes still buffered are lost.
    pub fn into_inner(self) -> (r: S)
        ensures
            r == self.transport(),
    {
        self.stream
    }

    /// The transport, to write a request to and to read from.
    pub fn stream_mut(&mut self) -> (r: &mut S)
        ensures
            *r == old(self).transport(),
            final(self).transport() == *final(r),
            final(self).buffered() == old(self).buffered(),
    {
        &mut self.stream
    }

    /// The bytes to write for request `req` of command `C`.
    pub fn request<C: Command>(&self, req: C::Request) -> (r: Result<BytesMut, Error>)
        ensures
            match req.spec_payload() {
                Ok(p) => r matches Ok(b) && buffer_contents(b) == request_frame(
                    C::spec_protocol_id() + payload_or_empty(p),
                ),
                Err(e) => r == Err::<BytesMut, Error>(e),
            },
    {
        let empty: Vec<u8> = Vec::new();
        let mut out = buffer_from_slice(empty.as_slice());
        let mut codec = Codec::<C>::new();
        match codec.encode(req, &mut out) {
            Ok(()) => Ok(out),
            Err(e) => Err(e),
        }
    }

    /// Takes the bytes of one read from the transport. An empty read means
    /// that the stream ended: the exchange fails. Otherwise the bytes join the
    /// buffer and a response is decoded from it: `Ok(None)` asks for another
    /// read.
    pub fn receive<C: Command>(&mut self, chunk: &[u8]) -> (r: Result<Option<C::Response>, Error>)
        ensures
            final(self).transport() == old(self).transport(),
            chunk@.len() == 0 ==> (r matches Err(Error::Io(e)) && io_error_kind(e)
                == std::io::ErrorKind::UnexpectedEof),
            chunk@.len() == 0 ==> final(self).buffered() == old(self).buffered(),
            chunk@.len() > 0 ==> (r, final(self).buffered()) == decode_result::<C::Response>(
                old(self).buffered() + chunk@,
            ),
    {
        if chunk.len() == 0 {
            return Err(Error::Io(unexpected_eof()));
        }
        buffer_extend(&mut self.buffer_in, chunk);
        let mut codec = Codec::<C>::new();
        codec.decode(&mut self.buffer_in)
    }
}

} // verus!
