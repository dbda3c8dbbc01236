//! The protocol engine of one connection: a `quiche::Connection` and the
//! calls the dispatcher makes on it. Nothing is known here of what the
//! engine holds; each call states what its result can be relied on for,
//! whatever state the engine is in.

use vstd::prelude::*;

verus! {

/// A `quiche::Connection`, opaque to the verifier.
#[verifier::external_body]
pub struct Engine {
    inner: quiche::Connection,
}

/// What an engine answers when asked for its next outgoing packet.
#[derive(Debug, PartialEq, Eq)]
pub enum Produced {
    /// A packet of `len` bytes was written at the start of the buffer.
    Packet { len: usize, info: quiche::SendInfo },
    /// The engine has nothing more to send for now.
    Idle,
    /// The engine failed to build a packet.
    Fault(quiche::Error),
}

impl Engine {
    /// Calls `quiche::accept` for a server-side connection whose own
    /// identifier is `id`, on the path the first datagram travelled: its
    /// destination is the local address, its source the peer. No retry is in
    /// use, so no earlier destination identifier is passed along. Nothing is
    /// claimed of the outcome.
    #[verifier::external_body]
    pub(crate) fn accept(id: &[u8], path: &quiche::RecvInfo, config: &mut quiche::Config) -> (r: Result<
        Engine,
        quiche::Error,
    >) {
        let scid = quiche::ConnectionId::from_ref(id);
        match quiche::accept(&scid, None, path.to, path.from, config) {
            Ok(inner) => Ok(Engine { inner }),
            Err(cause) => Err(cause),
        }
    }

    /// Calls `quiche::Connection::recv`. The buffer keeps its length (the
    /// engine may decrypt in place), and the count of bytes processed is at
    /// most that length.
    #[verifier::external_body]
    pub(crate) fn ingest(&mut self, datagram: &mut Vec<u8>, path: quiche::RecvInfo) -> (r: Result<
        usize,
        quiche::Error,
    >)
        ensures
            final(datagram)@.len() == old(datagram)@.len(),
            r matches Ok(n) ==> n <= old(datagram)@.len(),
    {
        self.inner.recv(datagram, path)
    }

    /// Calls `quiche::Connection::send` and tells its three outcomes apart:
    /// a packet, the `Done` signal, any other error. The buffer keeps its
    /// length and a packet lies within it.
    #[verifier::external_body]
    pub(crate) fn produce(&mut self, out: &mut Vec<u8>) -> (r: Produced)
        ensures
            final(out)@.len() == old(out)@.len(),
            r matches Produced::Packet { len, .. } ==> len <= old(out)@.len(),
    {
        match self.inner.send(out) {
            Ok((len, info)) => Produced::Packet { len, info },
            Err(quiche::Error::Done) => Produced::Idle,
            Err(cause) => Produced::Fault(cause),
        }
    }

    /// Calls `quiche::Connection::is_established`. Nothing is claimed of the
    /// answer.
    #[verifier::external_body]
    pub(crate) fn is_established(&self) -> (r: bool) {
        self.inner.is_established()
    }

    /// Calls `quiche::Connection::stream_finished`. Nothing is claimed of the
    /// answer.
    #[verifier::external_body]
    pub(crate) fn stream_finished(&self, stream_id: u64) -> (r: bool) {
        self.inner.stream_finished(stream_id)
    }

    /// Calls `quiche::Connection::stream_send`. The count of bytes taken is
    /// at most the length of `data`.
    #[verifier::external_body]
    pub(crate) fn stream_send(&mut self, stream_id: u64, data: &[u8], fin: bool) -> (r: Result<
        usize,
        quiche::Error,
    >)
        ensures
            r matches Ok(n) ==> n <= data@.len(),
    {
        self.inner.stream_send(stream_id, data, fin)
    }

    /// Calls `quiche::Connection::on_timeout`. Nothing is claimed of what it
    /// leaves of the engine.
    #[verifier::external_body]
    pub(crate) fn on_timeout(&mut self) {
        self.inner.on_timeout()
    }

    /// Calls `quiche::Connection::is_closed`. Nothing is claimed of the
    /// answer.
    #[verifier::external_body]
    pub(crate) fn is_closed(&self) -> (r: bool) {
        self.inner.is_closed()
    }
}

} // verus!
