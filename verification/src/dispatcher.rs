//! The dispatcher: what the server does with one datagram, and the sweep
//! that lets timed-out connections go. The caller owns the socket; it hands
//! each datagram in and sends what comes back.

use crate::engine::{Engine, Produced};
use crate::responder::{Greeting, Responder};
use crate::table::{looked_up, ConnectionTable, CreateError};
use crate::wire::{is_negotiation_reply, screen, sniffed, PacketHeader, Screening, MAX_DATAGRAM_SIZE, QUIC_V1};
use vstd::prelude::*;

verus! {

/// The state of one connection: its engine and what the responder remembers.
pub struct Client {
    engine: Engine,
    responder: Responder,
}

impl Client {
    /// Whether the greeting has gone out on this connection.
    pub closed spec fn greeted(&self) -> bool {
        self.responder.greeted()
    }

    fn new(engine: Engine) -> (client: Self)
        ensures
            !client.greeted(),
    {
        Client { engine, responder: Responder::new() }
    }
}

/// A datagram for the caller to put on the wire.
#[derive(Debug, PartialEq, Eq)]
pub enum Outgoing {
    /// A version-negotiation reply to the datagram that arrived on `path`.
    /// It goes back to the source of that path.
    Negotiation { payload: Vec<u8>, path: quiche::RecvInfo },
    /// A packet of a connection's engine. It goes where `info` says.
    Transport { payload: Vec<u8>, info: quiche::SendInfo },
}

/// How the draining of an engine ended.
#[derive(Debug, PartialEq, Eq)]
pub enum FlushEnd {
    /// The engine had nothing more to send: the ordinary end.
    Idle,
    /// The engine failed to build a packet.
    Fault(quiche::Error),
    /// The list of outgoing datagrams cannot grow any further.
    Full,
}

/// What a cycle did for the connection a datagram was routed to.
#[derive(Debug, PartialEq, Eq)]
pub struct Progress {
    /// The connection was created for this datagram.
    pub accepted: bool,
    /// The number of bytes the engine processed.
    pub ingested: usize,
    pub greeting: Greeting,
    pub flush: FlushEnd,
    /// The engine reported the connection closed and its entry was removed.
    pub retired: bool,
}

/// How a datagram was disposed of.
#[derive(Debug, PartialEq, Eq)]
pub enum Disposition {
    /// No header could be read; the datagram was dropped.
    Malformed(quiche::Error),
    /// The packet asked for the unsupported `version`; it was answered with
    /// a version-negotiation reply.
    Negotiated { version: u32 },
    /// No connection could be accepted for the datagram; it was dropped.
    AcceptFailed(quiche::Error),
    /// The engine of the connection rejected the datagram; it was dropped.
    /// `accepted` says whether the connection was created for it.
    IngestFailed { accepted: bool, cause: quiche::Error },
    /// The engine of the connection processed the datagram.
    Processed(Progress),
}

/// The outcome of one cycle: how the datagram was disposed of, and what to
/// send in response, in order.
#[derive(Debug, PartialEq, Eq)]
pub struct Cycle {
    pub disposition: Disposition,
    pub outgoing: Vec<Outgoing>,
}

/// What a sweep did: the identifiers of the connections it visited, those
/// of the connections it removed, and what to send for the connections it
/// visited, in order.
#[derive(Debug, PartialEq, Eq)]
pub struct Sweep {
    pub visited: Vec<Vec<u8>>,
    pub retired: Vec<Vec<u8>>,
    pub outgoing: Vec<Outgoing>,
}

/// All of `outgoing` from index `from` on are packets of an engine, none
/// larger than [`MAX_DATAGRAM_SIZE`].
pub open spec fn transport_only(outgoing: Seq<Outgoing>, from: int) -> bool {
    forall|i: int|
        from <= i < outgoing.len() ==> (#[trigger] outgoing[i] matches Outgoing::Transport { payload, .. }
            && payload@.len() <= MAX_DATAGRAM_SIZE)
}

/// What holds of a cycle whose datagram, of `size` bytes, is of the
/// supported version and is addressed to `id`, whatever the engine did: no
/// version negotiation goes out; no connection but the one under `id` is
/// touched; a connection is created exactly where none was live under `id`,
/// and a failed accept leaves no entry; a datagram the engine rejects is
/// answered with nothing; a connection that was greeted before is not greeted
/// again (the cycle says `AlreadySent`, and says so of no other connection),
/// and one that is greeted now counts as greeted from here on.
pub open spec fn routed_fits(
    before: Map<Seq<u8>, Client>,
    id: Seq<u8>,
    size: nat,
    after: Map<Seq<u8>, Client>,
    cycle: Cycle,
) -> bool {
    &&& transport_only(cycle.outgoing@, 0)
    &&& forall|other: Seq<u8>| other != id ==> #[trigger] looked_up(after, other) == looked_up(before, other)
    &&& match cycle.disposition {
        Disposition::Malformed(_) => false,
        Disposition::Negotiated { .. } => false,
        Disposition::AcceptFailed(_) => {
            &&& !before.contains_key(id)
            &&& after == before
            &&& cycle.outgoing@.len() == 0
        },
        Disposition::IngestFailed { accepted, .. } => {
            &&& accepted == !before.contains_key(id)
            &&& after.contains_key(id)
            &&& after[id].greeted() == (!accepted && before[id].greeted())
            &&& cycle.outgoing@.len() == 0
        },
        Disposition::Processed(progress) => {
            let was_greeted = !progress.accepted && before[id].greeted();
            &&& progress.accepted == !before.contains_key(id)
            &&& progress.ingested <= size
            &&& after.contains_key(id) == !progress.retired
            &&& was_greeted <==> progress.greeting is AlreadySent
            &&& !progress.retired ==> after[id].greeted() == (was_greeted || progress.greeting is Sent)
            &&& progress.flush is Full ==> cycle.outgoing@.len() == usize::MAX
        },
    }
}

/// What holds of a cycle on `datagram`, which arrived on `path`. A datagram
/// without a readable header is dropped and changes nothing. One of another
/// version than [`QUIC_V1`] changes nothing either and is answered with
/// exactly one datagram: the negotiation reply to its two identifiers,
/// addressed to the sender. Any other is routed by its destination
/// identifier, as [`routed_fits`] says.
pub open spec fn cycle_fits(
    before: Map<Seq<u8>, Client>,
    datagram: Seq<u8>,
    path: quiche::RecvInfo,
    after: Map<Seq<u8>, Client>,
    cycle: Cycle,
) -> bool {
    match sniffed(datagram) {
        None => {
            &&& cycle.disposition is Malformed
            &&& cycle.outgoing@.len() == 0
            &&& after == before
        },
        Some(header) => if header.version == QUIC_V1 {
            routed_fits(before, header.dcid, datagram.len(), after, cycle)
        } else {
            &&& cycle.disposition == (Disposition::Negotiated { version: header.version })
            &&& after == before
            &&& cycle.outgoing@.len() == 1
            &&& cycle.outgoing@[0] matches Outgoing::Negotiation { payload, path: answered }
                && answered == path && is_negotiation_reply(payload@, header.scid, header.dcid)
        },
    }
}

/// What holds of a cycle that carries out `screening` for a datagram of
/// `size` bytes that arrived on `path`: a malformed datagram is dropped and
/// changes nothing; a negotiation reply is handed on as the one datagram to
/// send, addressed to the sender, and nothing changes; a routable packet is
/// routed as [`routed_fits`] says.
pub open spec fn dispatch_fits(
    before: Map<Seq<u8>, Client>,
    screening: Screening,
    size: nat,
    path: quiche::RecvInfo,
    after: Map<Seq<u8>, Client>,
    cycle: Cycle,
) -> bool {
    match screening {
        Screening::Malformed(cause) => {
            &&& cycle.disposition == Disposition::Malformed(cause)
            &&& cycle.outgoing@.len() == 0
            &&& after == before
        },
        Screening::Unsupported { version, reply } => {
            &&& cycle.disposition == (Disposition::Negotiated { version })
            &&& cycle.outgoing@ == seq![(Outgoing::Negotiation { payload: reply, path })]
            &&& after == before
        },
        Screening::Routable(header) => routed_fits(before, header.dcid@, size, after, cycle),
    }
}

/// Whether carrying out `screening` has to accept a connection: the packet
/// is routable and no connection is live under its destination identifier.
/// Only then is the configuration handed to the engine.
pub open spec fn must_accept(before: Map<Seq<u8>, Client>, screening: Screening) -> bool {
    screening matches Screening::Routable(header) && !before.contains_key(header.dcid@)
}

/// Whether the cycle on `datagram` has to accept a connection: the datagram
/// is of the supported version and no connection is live under its
/// destination identifier.
pub open spec fn opens_connection(before: Map<Seq<u8>, Client>, datagram: Seq<u8>) -> bool {
    sniffed(datagram) matches Some(header) && header.version == QUIC_V1 && !before.contains_key(header.dcid)
}

/// What holds of a sweep: it visits every live connection, each once; it
/// creates no connection, removes exactly the connections it lists as
/// retired, keeps what the responder remembers of the others, and sends no
/// version negotiation.
pub open spec fn sweep_fits(before: Map<Seq<u8>, Client>, after: Map<Seq<u8>, Client>, sweep: Sweep) -> bool {
    &&& transport_only(sweep.outgoing@, 0)
    &&& forall|id: Seq<u8>| #[trigger] before.contains_key(id) <==> names(sweep.visited@, id)
    &&& forall|i: int, j: int| 0 <= i < j < sweep.visited@.len() ==> sweep.visited@[i]@ != sweep.visited@[j]@
    &&& forall|id: Seq<u8>| #[trigger]
        after.contains_key(id) <==> before.contains_key(id) && !names(sweep.retired@, id)
    &&& forall|id: Seq<u8>| #[trigger] after.contains_key(id) ==> after[id].greeted() == before[id].greeted()
    &&& forall|i: int| 0 <= i < sweep.retired@.len() ==> before.contains_key(#[trigger] sweep.retired@[i]@)
}

/// Whether `id` is among `ids`.
pub open spec fn names(ids: Seq<Vec<u8>>, id: Seq<u8>) -> bool {
    exists|i: int| 0 <= i < ids.len() && #[trigger] ids[i]@ == id
}

/// What [`conclude_unrouted`] answers: the cycle of a datagram that no
/// connection is to see, or the header by which the datagram is routed.
pub open spec fn unrouted_fits(
    screening: Screening,
    path: quiche::RecvInfo,
    concluded: Result<Cycle, PacketHeader>,
) -> bool {
    match screening {
        Screening::Malformed(cause) => {
            &&& concluded matches Ok(cycle)
            &&& cycle.disposition == Disposition::Malformed(cause)
            &&& cycle.outgoing@.len() == 0
        },
        Screening::Unsupported { version, reply } => {
            &&& concluded matches Ok(cycle)
            &&& cycle.disposition == (Disposition::Negotiated { version })
            &&& cycle.outgoing@ == seq![(Outgoing::Negotiation { payload: reply, path })]
        },
        Screening::Routable(header) => concluded == Err::<Cycle, PacketHeader>(header),
    }
}

/// Concludes, without any connection state, the cycle of a datagram that
/// came in on `path` and is not to be routed: a malformed datagram is
/// dropped, and a negotiation reply becomes the one datagram to send, back
/// along `path`. A routable packet is handed back by its header.
pub fn conclude_unrouted(screening: Screening, path: quiche::RecvInfo) -> (concluded: Result<Cycle, PacketHeader>)
    ensures
        unrouted_fits(screening, path, concluded),
{
    match screening {
        Screening::Malformed(cause) => Ok(Cycle { disposition: Disposition::Malformed(cause), outgoing: Vec::new() }),
        Screening::Unsupported { version, reply } => {
            let mut outgoing: Vec<Outgoing> = Vec::new();
            outgoing.push(Outgoing::Negotiation { payload: reply, path });
            assert(outgoing@ =~= seq![Outgoing::Negotiation { payload: reply, path }]);
            Ok(Cycle { disposition: Disposition::Negotiated { version }, outgoing })
        },
        Screening::Routable(header) => Err(header),
    }
}

/// A list of engine packets stays one when an engine packet is appended.
proof fn lemma_transport_appended(held: Seq<Outgoing>, grown: Seq<Outgoing>, from: int)
    requires
        0 <= from,
        transport_only(held, from),
        grown.len() == held.len() + 1,
        grown.drop_last() == held,
        grown.last() matches Outgoing::Transport { payload, .. } && payload@.len() <= MAX_DATAGRAM_SIZE,
    ensures
        transport_only(grown, from),
{
    assert forall|i: int| from <= i < grown.len() implies (#[trigger] grown[i] matches Outgoing::Transport {
        payload,
        ..
    } && payload@.len() <= MAX_DATAGRAM_SIZE) by {
        if i < held.len() {
            assert(grown.drop_last()[i] == grown[i]);
        }
    }
}

/// A list of engine packets that is continued with engine packets is one.
proof fn lemma_transport_joined(held: Seq<Outgoing>, grown: Seq<Outgoing>)
    requires
        transport_only(held, 0),
        grown.len() >= held.len(),
        grown.take(held.len() as int) == held,
        transport_only(grown, held.len() as int),
    ensures
        transport_only(grown, 0),
{
    assert forall|i: int| 0 <= i < grown.len() implies (#[trigger] grown[i] matches Outgoing::Transport {
        payload,
        ..
    } && payload@.len() <= MAX_DATAGRAM_SIZE) by {
        if i < held.len() {
            assert(grown.take(held.len() as int)[i] == held[i]);
        }
    }
}

/// What the draining of an engine does with one answer of the engine. A
/// packet is appended to `outgoing`, as the first `len` bytes of `buffer`,
/// and the draining goes on. That the engine has nothing more to send ends
/// the draining as it should end, and a failure of the engine ends it too;
/// neither takes anything away from what was collected.
pub fn absorb(produced: Produced, buffer: &Vec<u8>, outgoing: &mut Vec<Outgoing>) -> (end: Option<FlushEnd>)
    requires
        old(outgoing)@.len() < usize::MAX,
    ensures
        match produced {
            Produced::Packet { len, info } => {
                let taken = if len <= buffer@.len() {
                    len as int
                } else {
                    buffer@.len() as int
                };
                &&& end.is_none()
                &&& final(outgoing)@.len() == old(outgoing)@.len() + 1
                &&& final(outgoing)@.drop_last() == old(outgoing)@
                &&& final(outgoing)@.last() matches Outgoing::Transport { payload, info: route }
                    && payload@ == buffer@.take(taken) && route == info
            },
            Produced::Idle => end == Some(FlushEnd::Idle) && final(outgoing)@ == old(outgoing)@,
            Produced::Fault(cause) => end == Some(FlushEnd::Fault(cause)) && final(outgoing)@ == old(outgoing)@,
        },
{
    match produced {
        Produced::Packet { len, info } => {
            let taken = if len <= buffer.len() {
                len
            } else {
                buffer.len()
            };
            let payload = vstd::slice::slice_to_vec(vstd::slice::slice_subrange(buffer.as_slice(), 0, taken));
            outgoing.push(Outgoing::Transport { payload, info });
            assert(outgoing@.drop_last() =~= old(outgoing)@);
            None
        },
        Produced::Idle => Some(FlushEnd::Idle),
        Produced::Fault(cause) => Some(FlushEnd::Fault(cause)),
    }
}

/// Drains an engine: asks it for packets until it has nothing more to send,
/// and appends each to `outgoing`. The draining ends as `Full` exactly when
/// the list has no room left; a list that is full to begin with is answered
/// so at once.
fn flush(engine: &mut Engine, outgoing: &mut Vec<Outgoing>) -> (end: FlushEnd)
    ensures
        final(outgoing)@.len() >= old(outgoing)@.len(),
        final(outgoing)@.take(old(outgoing)@.len() as int) == old(outgoing)@,
        transport_only(final(outgoing)@, old(outgoing)@.len() as int),
        end is Full <==> final(outgoing)@.len() == usize::MAX,
{
    let ghost start = outgoing@;
    let mut buffer: Vec<u8> = vec![0u8; MAX_DATAGRAM_SIZE];
    assert(outgoing@.take(start.len() as int) =~= start);
    while outgoing.len() < usize::MAX
        invariant
            start == old(outgoing)@,
            buffer@.len() == MAX_DATAGRAM_SIZE,
            outgoing@.len() >= start.len(),
            outgoing@.take(start.len() as int) == start,
            transport_only(outgoing@, start.len() as int),
        decreases usize::MAX - outgoing@.len(),
    {
        let ghost held = outgoing@;
        let produced = engine.produce(&mut buffer);
        match absorb(produced, &buffer, outgoing) {
            Some(end) => {
                return end;
            },
            None => {
                proof {
                    assert(outgoing@.take(start.len() as int) =~= held.take(start.len() as int));
                    lemma_transport_appended(held, outgoing@, start.len() as int);
                }
            },
        }
    }
    FlushEnd::Full
}

/// What serving one datagram on a connection came to.
struct Served {
    ingested: usize,
    greeting: Greeting,
    flush: FlushEnd,
    closed: bool,
}

/// Serves one datagram on its connection: the engine ingests it, the
/// responder greets where that is due, and the engine is drained. Where the
/// engine rejects the datagram nothing else is done.
fn serve(client: &mut Client, datagram: &mut Vec<u8>, path: quiche::RecvInfo, outgoing: &mut Vec<Outgoing>) -> (served:
    Result<Served, quiche::Error>)
    requires
        old(outgoing)@.len() == 0,
    ensures
        transport_only(final(outgoing)@, 0),
        match served {
            Ok(served) => {
                &&& served.ingested <= old(datagram)@.len()
                &&& old(client).greeted() <==> served.greeting is AlreadySent
                &&& final(client).greeted() == (old(client).greeted() || served.greeting is Sent)
                &&& served.flush is Full ==> final(outgoing)@.len() == usize::MAX
            },
            Err(_) => final(client).greeted() == old(client).greeted() && final(outgoing)@.len() == 0,
        },
{
    let ingested = match client.engine.ingest(datagram, path) {
        Ok(n) => n,
        Err(cause) => {
            return Err(cause);
        },
    };
    let greeting = client.responder.respond(&mut client.engine);
    let flush = flush(&mut client.engine, outgoing);
    let closed = client.engine.is_closed();
    Ok(Served { ingested, greeting, flush, closed })
}

/// Lets a connection act on its timers and drains it. Answers whether the
/// engine reports the connection closed.
fn expire(client: &mut Client, outgoing: &mut Vec<Outgoing>) -> (closed: bool)
    requires
        transport_only(old(outgoing)@, 0),
    ensures
        transport_only(final(outgoing)@, 0),
        final(client).greeted() == old(client).greeted(),
{
    client.engine.on_timeout();
    let ghost held = outgoing@;
    let _ = flush(&mut client.engine, outgoing);
    proof {
        lemma_transport_joined(held, outgoing@);
    }
    client.engine.is_closed()
}

/// The server's state between datagrams: the connection table and the
/// transport configuration every new connection is accepted with.
pub struct Dispatcher {
    table: ConnectionTable<Client>,
    config: quiche::Config,
}

impl Dispatcher {
    /// The live connections, by identifier.
    pub closed spec fn view(&self) -> Map<Seq<u8>, Client> {
        self.table@
    }

    /// The table holds no identifier twice.
    pub closed spec fn wf(&self) -> bool {
        self.table.wf()
    }

    /// The transport configuration that new connections are accepted with.
    pub closed spec fn config(&self) -> quiche::Config {
        self.config
    }

    /// A dispatcher without connections that accepts with `config`.
    pub fn new(config: quiche::Config) -> (dispatcher: Self)
        ensures
            dispatcher.wf(),
            dispatcher@ == Map::<Seq<u8>, Client>::empty(),
            dispatcher.config() == config,
    {
        Dispatcher { table: ConnectionTable::new(), config }
    }

    /// The number of live connections.
    pub fn connections(&self) -> (n: usize)
        requires
            self.wf(),
        ensures
            self@.dom().finite(),
            n == self@.len(),
    {
        self.table.len()
    }

    /// Whether a connection is live under `id`.
    pub fn has_connection(&self, id: &[u8]) -> (known: bool)
        requires
            self.wf(),
        ensures
            known == self@.contains_key(id@),
    {
        self.table.contains(id)
    }

    /// Runs one cycle on a datagram that arrived on `path`. The dispatcher
    /// is ready for the next datagram whatever this one held and whatever
    /// the engine made of it. The configuration stays as it is unless a
    /// connection has to be accepted.
    pub fn handle_datagram(&mut self, datagram: Vec<u8>, path: quiche::RecvInfo) -> (cycle: Cycle)
        requires
            old(self).wf(),
        ensures
            final(self).wf(),
            cycle_fits(old(self)@, datagram@, path, final(self)@, cycle),
            !opens_connection(old(self)@, datagram@) ==> final(self).config() == old(self).config(),
    {
        let mut datagram = datagram;
        let screening = screen(&mut datagram);
        self.dispatch(screening, datagram, path)
    }

    /// Carries out what the screening of a datagram decided: drops the
    /// datagram, hands on the negotiation reply, or routes the datagram to
    /// the connection that its destination identifier names, which is
    /// created if it is not live yet. A connection that its engine reports
    /// closed at the end of the cycle is let go. The configuration stays as
    /// it is unless a connection has to be accepted.
    pub fn dispatch(&mut self, screening: Screening, datagram: Vec<u8>, path: quiche::RecvInfo) -> (cycle: Cycle)
        requires
            old(self).wf(),
        ensures
            final(self).wf(),
            dispatch_fits(old(self)@, screening, datagram@.len(), path, final(self)@, cycle),
            !must_accept(old(self)@, screening) ==> final(self).config() == old(self).config(),
    {
        let mut datagram = datagram;
        let header = match conclude_unrouted(screening, path) {
            Ok(cycle) => {
                return cycle;
            },
            Err(header) => header,
        };
        let accepted = !self.table.contains(header.dcid.as_slice());
        if accepted {
            let key = header.dcid.clone();
            assert(key@ =~= header.dcid@);
            let made = match Engine::accept(header.dcid.as_slice(), &path, &mut self.config) {
                Ok(engine) => Ok(Client::new(engine)),
                Err(cause) => Err(cause),
            };
            match self.table.create(key, made) {
                Ok(()) => {},
                Err(CreateError::Rejected(cause)) => {
                    return Cycle { disposition: Disposition::AcceptFailed(cause), outgoing: Vec::new() };
                },
                Err(CreateError::Occupied) => {
                    return unreached();
                },
            }
        }
        let mut outgoing: Vec<Outgoing> = Vec::new();
        let served = match self.table.lookup_mut(header.dcid.as_slice()) {
            Some(client) => serve(client, &mut datagram, path, &mut outgoing),
            None => {
                return unreached();
            },
        };
        match served {
            Err(cause) => Cycle { disposition: Disposition::IngestFailed { accepted, cause }, outgoing },
            Ok(served) => {
                let retired = self.table.retire(header.dcid.as_slice(), served.closed);
                let progress = Progress {
                    accepted,
                    ingested: served.ingested,
                    greeting: served.greeting,
                    flush: served.flush,
                    retired,
                };
                Cycle { disposition: Disposition::Processed(progress), outgoing }
            },
        }
    }

    /// Visits every live connection: lets it act on its timers, drains it,
    /// and removes it if its engine reports it closed, so that idle
    /// connections do not stay in the table for good. The configuration is
    /// left alone.
    pub fn sweep(&mut self) -> (sweep: Sweep)
        requires
            old(self).wf(),
        ensures
            final(self).wf(),
            final(self).config() == old(self).config(),
            sweep_fits(old(self)@, final(self)@, sweep),
    {
        let ghost before = self.table@;
        let ids = self.table.ids();
        let mut retired: Vec<Vec<u8>> = Vec::new();
        let mut outgoing: Vec<Outgoing> = Vec::new();
        let mut i: usize = 0;
        while i < ids.len()
            invariant
                self.table.wf(),
                self.config == old(self).config,
                i <= ids@.len(),
                transport_only(outgoing@, 0),
                forall|k: int| 0 <= k < ids@.len() ==> before.contains_key(#[trigger] ids@[k]@),
                forall|id: Seq<u8>| #[trigger]
                    self.table@.contains_key(id) <==> before.contains_key(id) && !names(retired@, id),
                forall|id: Seq<u8>| #[trigger]
                    self.table@.contains_key(id) ==> self.table@[id].greeted() == before[id].greeted(),
                forall|k: int|
                    0 <= k < retired@.len() ==> exists|j: int| 0 <= j < i && ids@[j]@ == #[trigger] retired@[k]@,
            decreases ids@.len() - i,
        {
            let id = &ids[i];
            let ghost held = self.table@;
            let closed = match self.table.lookup_mut(id.as_slice()) {
                Some(client) => expire(client, &mut outgoing),
                None => false,
            };
            assert(self.table@.dom() =~= held.dom());
            if self.table.retire(id.as_slice(), closed) {
                let gone = id.clone();
                assert(gone@ =~= id@);
                let ghost listed = retired@;
                retired.push(gone);
                proof {
                    assert forall|x: Seq<u8>| names(retired@, x) == (names(listed, x) || x == id@) by {
                        if names(listed, x) {
                            let k = choose|k: int| 0 <= k < listed.len() && #[trigger] listed[k]@ == x;
                            assert(retired@[k]@ == x);
                        }
                        if x == id@ {
                            assert(retired@[listed.len() as int]@ == x);
                        }
                        if names(retired@, x) {
                            let k = choose|k: int| 0 <= k < retired@.len() && #[trigger] retired@[k]@ == x;
                            if k < listed.len() {
                                assert(listed[k]@ == x);
                            }
                        }
                    }
                    assert forall|k: int| 0 <= k < retired@.len() implies exists|j: int|
                        0 <= j < i + 1 && ids@[j]@ == #[trigger] retired@[k]@ by {
                        if k < listed.len() {
                            assert(listed[k]@ == retired@[k]@);
                            let j = choose|j: int| 0 <= j < i && ids@[j]@ == listed[k]@;
                            assert(ids@[j]@ == retired@[k]@);
                        } else {
                            assert(ids@[i as int]@ == retired@[k]@);
                        }
                    }
                }
            }
            i = i + 1;
        }
        proof {
            assert forall|k: int| 0 <= k < retired@.len() implies before.contains_key(#[trigger] retired@[k]@) by {
                let j = choose|j: int| 0 <= j < i && ids@[j]@ == retired@[k]@;
                assert(before.contains_key(ids@[j]@));
            }
        }
        Sweep { visited: ids, retired, outgoing }
    }
}

/// A datagram of the supported version is never answered with a version
/// negotiation: whatever goes out in its cycle comes from an engine.
pub proof fn supported_version_is_not_negotiated(
    before: Map<Seq<u8>, Client>,
    datagram: Seq<u8>,
    path: quiche::RecvInfo,
    after: Map<Seq<u8>, Client>,
    cycle: Cycle,
)
    requires
        cycle_fits(before, datagram, path, after, cycle),
        sniffed(datagram) matches Some(header) && header.version == QUIC_V1,
    ensures
        !(cycle.disposition is Negotiated),
        forall|i: int| 0 <= i < cycle.outgoing@.len() ==> !(#[trigger] cycle.outgoing@[i] is Negotiation),
{
}

/// A datagram of any other version is answered with exactly one datagram:
/// a version-negotiation reply to its two identifiers, addressed to where
/// it came from. No connection is created or touched for it.
pub proof fn unsupported_version_is_negotiated_once(
    before: Map<Seq<u8>, Client>,
    datagram: Seq<u8>,
    path: quiche::RecvInfo,
    after: Map<Seq<u8>, Client>,
    cycle: Cycle,
)
    requires
        cycle_fits(before, datagram, path, after, cycle),
        sniffed(datagram) matches Some(header) && header.version != QUIC_V1,
    ensures
        after == before,
        cycle.outgoing@.len() == 1,
        cycle.outgoing@[0] matches Outgoing::Negotiation { payload, path: answered } && answered == path
            && is_negotiation_reply(payload@, sniffed(datagram).unwrap().scid, sniffed(datagram).unwrap().dcid),
{
}

} // verus!
