//! The unencrypted face of a datagram: header sniffing and the stateless
//! version-negotiation reply.

use vstd::prelude::*;

verus! {

/// The one protocol version this server speaks.
pub const QUIC_V1: u32 = 0x0000_0001;

/// The longest connection identifier of a version 1 packet, and the length
/// assumed for the destination identifier of a short header.
pub const MAX_CONN_ID_LEN: usize = 20;

/// The largest UDP payload the server advertises and sends.
pub const MAX_DATAGRAM_SIZE: usize = 1350;

/// The longest identifier a version-negotiation packet can carry: its length
/// is written in one byte.
pub const MAX_WIRE_ID_LEN: usize = 255;

/// The type of a packet, as far as its unprotected header shows it.
#[derive(Clone, Copy, Debug, PartialEq, Eq)]
pub enum PacketKind {
    Initial,
    Retry,
    Handshake,
    ZeroRtt,
    VersionNegotiation,
    Short,
}

/// What sniffing recovers from a datagram without touching protected payload.
#[derive(Debug, PartialEq, Eq)]
pub struct PacketHeader {
    pub kind: PacketKind,
    /// The version field; 0 for a short header, which carries none.
    pub version: u32,
    /// The destination-chosen identifier: the routing key.
    pub dcid: Vec<u8>,
    /// The source-chosen identifier; empty for a short header.
    pub scid: Vec<u8>,
}

/// The mathematical content of a [`PacketHeader`].
pub struct HeaderView {
    pub kind: PacketKind,
    pub version: u32,
    pub dcid: Seq<u8>,
    pub scid: Seq<u8>,
}

impl View for PacketHeader {
    type V = HeaderView;

    open spec fn view(&self) -> HeaderView {
        HeaderView { kind: self.kind, version: self.version, dcid: self.dcid@, scid: self.scid@ }
    }
}

impl HeaderView {
    /// Both identifiers fit the one-byte length field of a negotiation reply.
    pub open spec fn fits_reply(self) -> bool {
        self.dcid.len() <= MAX_WIRE_ID_LEN && self.scid.len() <= MAX_WIRE_ID_LEN
    }
}

/// What `quiche::Header::from_slice` makes of `datagram` when short headers
/// are taken to carry a destination identifier of `dcid_len` bytes: the
/// header, or `None` where it reports an error.
pub uninterp spec fn parsed_header(datagram: Seq<u8>, dcid_len: usize) -> Option<HeaderView>;

/// The header of `datagram` as this server reads it.
pub open spec fn sniffed(datagram: Seq<u8>) -> Option<HeaderView> {
    parsed_header(datagram, MAX_CONN_ID_LEN)
}

/// Calls `quiche::Header::from_slice` and keeps the four fields of the header
/// that this library reads. The contract claims that the call only reads the
/// buffer, that its outcome depends on nothing but the bytes and `dcid_len`,
/// and that a long header's identifiers are at most 255 bytes each (their
/// lengths are read from one byte), while a short header's destination
/// identifier has `dcid_len` bytes and its source identifier none.
#[verifier::external_body]
fn parse_header(datagram: &mut Vec<u8>, dcid_len: usize) -> (r: Result<PacketHeader, quiche::Error>)
    ensures
        final(datagram)@ == old(datagram)@,
        match r {
            Ok(h) => {
                &&& parsed_header(old(datagram)@, dcid_len) == Some(h@)
                &&& h.scid@.len() <= MAX_WIRE_ID_LEN
                &&& (h.dcid@.len() <= MAX_WIRE_ID_LEN || h.dcid@.len() == dcid_len)
            },
            Err(_) => parsed_header(old(datagram)@, dcid_len).is_none(),
        },
{
    let header = quiche::Header::from_slice(datagram, dcid_len)?;
    let kind = match header.ty {
        quiche::Type::Initial => PacketKind::Initial,
        quiche::Type::Retry => PacketKind::Retry,
        quiche::Type::Handshake => PacketKind::Handshake,
        quiche::Type::ZeroRTT => PacketKind::ZeroRtt,
        quiche::Type::VersionNegotiation => PacketKind::VersionNegotiation,
        quiche::Type::Short => PacketKind::Short,
    };
    Ok(PacketHeader { kind, version: header.version, dcid: header.dcid.to_vec(), scid: header.scid.to_vec() })
}

/// Reads the header of a datagram. The datagram is left as it was.
pub fn sniff(datagram: &mut Vec<u8>) -> (r: Result<PacketHeader, quiche::Error>)
    ensures
        final(datagram)@ == old(datagram)@,
        match r {
            Ok(h) => sniffed(old(datagram)@) == Some(h@) && h@.fits_reply(),
            Err(_) => sniffed(old(datagram)@).is_none(),
        },
{
    parse_header(datagram, MAX_CONN_ID_LEN)
}

/// The four bytes of a version field, most significant first.
pub open spec fn version_bytes(version: u32) -> Seq<u8> {
    seq![(version >> 24) as u8, (version >> 16) as u8, (version >> 8) as u8, version as u8]
}

/// The version-negotiation packet that answers a packet whose source
/// identifier was `scid` and whose destination identifier was `dcid`: the
/// zero version, the two identifiers in each other's place (the client's own
/// identifier comes first, as the destination of the reply), and the one
/// version on offer. `first` is the leading byte.
pub open spec fn negotiation_packet(first: u8, scid: Seq<u8>, dcid: Seq<u8>) -> Seq<u8> {
    seq![first] + version_bytes(0) + seq![scid.len() as u8] + scid + seq![dcid.len() as u8] + dcid
        + version_bytes(QUIC_V1)
}

/// `packet` is a version-negotiation reply to (`scid`, `dcid`): a long header
/// (top bit of the leading byte set, the other seven free) followed by exactly
/// the fields of [`negotiation_packet`].
pub open spec fn is_negotiation_reply(packet: Seq<u8>, scid: Seq<u8>, dcid: Seq<u8>) -> bool {
    &&& packet.len() == negotiation_len(scid.len(), dcid.len())
    &&& packet[0] >= 0x80
    &&& packet == negotiation_packet(packet[0], scid, dcid)
}

/// The length of a negotiation reply that carries identifiers of these lengths.
pub open spec fn negotiation_len(scid_len: nat, dcid_len: nat) -> nat {
    11 + scid_len + dcid_len
}

/// Calls `quiche::negotiate_version`. The contract claims what its source
/// shows: it writes the packet of [`negotiation_packet`] at the start of
/// `out`, with a random leading byte whose top bit is set, and returns its
/// length; it fails exactly when `out` is too short for that packet. The
/// identifiers must fit their one-byte length fields.
#[verifier::external_body]
fn write_negotiation(scid: &[u8], dcid: &[u8], out: &mut Vec<u8>) -> (r: Result<usize, quiche::Error>)
    requires
        scid@.len() <= MAX_WIRE_ID_LEN,
        dcid@.len() <= MAX_WIRE_ID_LEN,
    ensures
        final(out)@.len() == old(out)@.len(),
        r.is_ok() <==> old(out)@.len() >= negotiation_len(scid@.len(), dcid@.len()),
        r matches Ok(n) ==> {
            &&& n == negotiation_len(scid@.len(), dcid@.len())
            &&& is_negotiation_reply(final(out)@.take(n as int), scid@, dcid@)
        },
{
    let source = quiche::ConnectionId::from_ref(scid);
    let destination = quiche::ConnectionId::from_ref(dcid);
    quiche::negotiate_version(&source, &destination, out)
}

/// Builds the version-negotiation reply to a packet with these identifiers.
/// There is none where an identifier is too long to be written.
pub fn negotiate(scid: &[u8], dcid: &[u8]) -> (r: Option<Vec<u8>>)
    ensures
        r.is_some() <==> scid@.len() <= MAX_WIRE_ID_LEN && dcid@.len() <= MAX_WIRE_ID_LEN,
        r matches Some(packet) ==> is_negotiation_reply(packet@, scid@, dcid@),
{
    if scid.len() > MAX_WIRE_ID_LEN || dcid.len() > MAX_WIRE_ID_LEN {
        return None;
    }
    let needed: usize = 11 + scid.len() + dcid.len();
    let mut out: Vec<u8> = vec![0u8; needed];
    match write_negotiation(scid, dcid, &mut out) {
        Ok(n) => {
            assert(out@.take(n as int) =~= out@.subrange(0, n as int));
            out.truncate(n);
            Some(out)
        },
        Err(_) => None,
    }
}

/// What the stateless screening of a datagram decides.
#[derive(Debug, PartialEq, Eq)]
pub enum Screening {
    /// No header could be read: the datagram is to be dropped.
    Malformed(quiche::Error),
    /// The packet asks for a version other than [`QUIC_V1`]: `reply` is the
    /// version-negotiation packet to send back to where the datagram came
    /// from, and no connection is to be touched.
    Unsupported { version: u32, reply: Vec<u8> },
    /// The packet is of the supported version and goes to the connection
    /// that its destination identifier names.
    Routable(PacketHeader),
}

/// What is decided for a packet with the header `header`: it is routed
/// where its version is [`QUIC_V1`], and answered with the negotiation reply
/// to its two identifiers where it is any other.
pub open spec fn header_screening(header: HeaderView, screening: Screening) -> bool {
    if header.version == QUIC_V1 {
        screening matches Screening::Routable(found) && found@ == header
    } else {
        screening matches Screening::Unsupported { version, reply } && version == header.version
            && is_negotiation_reply(reply@, header.scid, header.dcid)
    }
}

/// What is decided for a datagram: it is dropped where no header can be
/// read, and treated by its header otherwise.
pub open spec fn screening_fits(datagram: Seq<u8>, screening: Screening) -> bool {
    match sniffed(datagram) {
        None => screening is Malformed,
        Some(header) => header_screening(header, screening),
    }
}

/// Decides on a packet by its header. A version-negotiation reply is built
/// if and only if the header names another version than [`QUIC_V1`]. The
/// identifiers must fit the length fields of such a reply, as those of a
/// sniffed header do.
pub fn classify(header: PacketHeader) -> (screening: Screening)
    requires
        header@.fits_reply(),
    ensures
        header_screening(header@, screening),
{
    if header.version == QUIC_V1 {
        Screening::Routable(header)
    } else {
        match negotiate(header.scid.as_slice(), header.dcid.as_slice()) {
            Some(reply) => Screening::Unsupported { version: header.version, reply },
            None => unreached(),
        }
    }
}

/// Screens a datagram before any connection is involved: sniffs its header
/// and decides by it.
pub fn screen(datagram: &mut Vec<u8>) -> (screening: Screening)
    ensures
        final(datagram)@ == old(datagram)@,
        screening_fits(old(datagram)@, screening),
{
    match sniff(datagram) {
        Err(cause) => Screening::Malformed(cause),
        Ok(header) => classify(header),
    }
}

/// What a negotiation reply holds, field by field: after the leading byte
/// the zero version; then, each behind its length, the identifier the client
/// chose for itself and the one it addressed, which thus change places; and
/// last, as the only version on offer, [`QUIC_V1`].
pub proof fn negotiation_reply_layout(packet: Seq<u8>, scid: Seq<u8>, dcid: Seq<u8>)
    requires
        is_negotiation_reply(packet, scid, dcid),
        scid.len() <= MAX_WIRE_ID_LEN,
        dcid.len() <= MAX_WIRE_ID_LEN,
    ensures
        packet.len() == 11 + scid.len() + dcid.len(),
        packet[0] >= 0x80,
        packet.subrange(1, 5) == seq![0u8, 0u8, 0u8, 0u8],
        packet[5] == scid.len(),
        packet.subrange(6, 6 + scid.len() as int) == scid,
        packet[6 + scid.len() as int] == dcid.len(),
        packet.subrange(7 + scid.len() as int, 7 + scid.len() as int + dcid.len() as int) == dcid,
        packet.subrange(packet.len() - 4, packet.len() as int) == seq![0u8, 0u8, 0u8, 1u8],
{
    assert(version_bytes(0) =~= seq![0u8, 0u8, 0u8, 0u8]) by {
        assert((0u32 >> 24) as u8 == 0u8 && (0u32 >> 16) as u8 == 0u8 && (0u32 >> 8) as u8 == 0u8) by (bit_vector);
    }
    assert(version_bytes(QUIC_V1) =~= seq![0u8, 0u8, 0u8, 1u8]) by {
        assert((1u32 >> 24) as u8 == 0u8 && (1u32 >> 16) as u8 == 0u8 && (1u32 >> 8) as u8 == 0u8) by (bit_vector);
    }
    let s = scid.len() as int;
    let d = dcid.len() as int;
    assert(packet.subrange(1, 5) =~= seq![0u8, 0u8, 0u8, 0u8]);
    assert(packet.subrange(6, 6 + s) =~= scid);
    assert(packet.subrange(7 + s, 7 + s + d) =~= dcid);
    assert(packet.subrange(packet.len() - 4, packet.len() as int) =~= seq![0u8, 0u8, 0u8, 1u8]);
}

} // verus!
