use quic_dispatch::wire::{
    negotiate, screen, sniff, PacketKind, Screening, MAX_CONN_ID_LEN, MAX_DATAGRAM_SIZE, QUIC_V1,
};

/// A long header with the given first byte, version and identifiers, followed by `rest`.
fn long_header(first: u8, version: u32, dcid: &[u8], scid: &[u8], rest: &[u8]) -> Vec<u8> {
    let mut packet: Vec<u8> = vec![first];
    packet.extend_from_slice(&version.to_be_bytes());
    packet.push(dcid.len() as u8);
    packet.extend_from_slice(dcid);
    packet.push(scid.len() as u8);
    packet.extend_from_slice(scid);
    packet.extend_from_slice(rest);
    packet
}

#[test]
fn constants_are_those_of_the_protocol() {
    assert_eq!(QUIC_V1, 1);
    assert_eq!(MAX_CONN_ID_LEN, 20);
    assert_eq!(MAX_DATAGRAM_SIZE, 1350);
}

#[test]
fn sniff_reads_an_initial_packet() {
    let dcid: [u8; 8] = [1, 2, 3, 4, 5, 6, 7, 8];
    let scid: [u8; 4] = [9, 10, 11, 12];
    let mut datagram = long_header(0xc0, 1, &dcid, &scid, &[0x00, 0xaa, 0xbb]);
    let header = sniff(&mut datagram).unwrap();
    assert_eq!(header.kind, PacketKind::Initial);
    assert_eq!(header.version, 1);
    assert_eq!(header.dcid, dcid.to_vec());
    assert_eq!(header.scid, scid.to_vec());
}

#[test]
fn sniff_leaves_the_datagram_as_it_was() {
    let mut datagram = long_header(0xc0, 1, &[7; 8], &[8; 8], &[0x00, 1, 2, 3]);
    let before = datagram.clone();
    sniff(&mut datagram).unwrap();
    assert_eq!(datagram, before);
}

#[test]
fn sniff_tells_the_long_header_types_apart() {
    let mut zero_rtt = long_header(0xd0, 1, &[1; 8], &[2; 8], &[]);
    assert_eq!(sniff(&mut zero_rtt).unwrap().kind, PacketKind::ZeroRtt);
    let mut handshake = long_header(0xe0, 1, &[1; 8], &[2; 8], &[]);
    assert_eq!(sniff(&mut handshake).unwrap().kind, PacketKind::Handshake);
    let mut retry = long_header(0xf0, 1, &[1; 8], &[2; 8], &[0; 16]);
    assert_eq!(sniff(&mut retry).unwrap().kind, PacketKind::Retry);
    let mut negotiation = long_header(0x80, 0, &[1; 8], &[2; 8], &[0, 0, 0, 1]);
    let header = sniff(&mut negotiation).unwrap();
    assert_eq!(header.kind, PacketKind::VersionNegotiation);
    assert_eq!(header.version, 0);
}

#[test]
fn sniff_reads_a_short_header() {
    let mut datagram: Vec<u8> = vec![0x40];
    let dcid: Vec<u8> = (1..=20).collect();
    datagram.extend_from_slice(&dcid);
    datagram.extend_from_slice(&[0xde, 0xad]);
    let header = sniff(&mut datagram).unwrap();
    assert_eq!(header.kind, PacketKind::Short);
    assert_eq!(header.version, 0);
    assert_eq!(header.dcid, dcid);
    assert!(header.scid.is_empty());
}

#[test]
fn sniff_rejects_a_short_header_without_a_whole_identifier() {
    let mut datagram: Vec<u8> = vec![0x40];
    datagram.extend_from_slice(&[9; 19]);
    assert_eq!(sniff(&mut datagram), Err(quiche::Error::BufferTooShort));
}

#[test]
fn sniff_reads_the_same_bytes_the_same_way() {
    let datagram = long_header(0xc0, 1, &[4; 12], &[5; 3], &[0x02, 0xaa, 0xbb, 0xcc]);
    let mut first = datagram.clone();
    let mut second = datagram.clone();
    assert_eq!(sniff(&mut first), sniff(&mut second));
}

#[test]
fn sniff_rejects_an_initial_packet_without_its_token() {
    let mut datagram = long_header(0xc0, 1, &[4; 8], &[5; 8], &[]);
    assert_eq!(sniff(&mut datagram), Err(quiche::Error::BufferTooShort));
}

#[test]
fn sniff_rejects_an_empty_datagram() {
    let mut datagram: Vec<u8> = Vec::new();
    assert_eq!(sniff(&mut datagram), Err(quiche::Error::BufferTooShort));
}

#[test]
fn sniff_rejects_a_truncated_header() {
    let mut datagram: Vec<u8> = vec![0xc0, 0, 0, 0, 1, 8, 1, 2, 3];
    assert_eq!(sniff(&mut datagram), Err(quiche::Error::BufferTooShort));
}

#[test]
fn sniff_rejects_an_overlong_identifier() {
    let mut datagram = long_header(0xc0, 1, &[5; 21], &[6; 4], &[0x00]);
    assert_eq!(sniff(&mut datagram), Err(quiche::Error::InvalidPacket));
}

#[test]
fn sniff_takes_long_identifiers_of_other_versions() {
    let mut datagram = long_header(0xc0, 0x0a0a_0a0a, &[5; 200], &[6; 255], &[0x00]);
    let header = sniff(&mut datagram).unwrap();
    assert_eq!(header.version, 0x0a0a_0a0a);
    assert_eq!(header.dcid.len(), 200);
    assert_eq!(header.scid.len(), 255);
}

#[test]
fn negotiate_writes_the_reply_field_by_field() {
    let scid: Vec<u8> = vec![0xa1, 0xa2, 0xa3];
    let dcid: Vec<u8> = vec![0xb1, 0xb2];
    let reply = negotiate(&scid, &dcid).unwrap();
    assert_eq!(reply.len(), 16);
    assert!(reply[0] >= 0x80);
    assert_eq!(&reply[1..5], &[0, 0, 0, 0]);
    assert_eq!(reply[5], 3);
    assert_eq!(&reply[6..9], &[0xa1, 0xa2, 0xa3]);
    assert_eq!(reply[9], 2);
    assert_eq!(&reply[10..12], &[0xb1, 0xb2]);
    assert_eq!(&reply[12..16], &[0, 0, 0, 1]);
}

#[test]
fn negotiate_takes_empty_identifiers() {
    let reply = negotiate(&[], &[]).unwrap();
    assert_eq!(reply.len(), 11);
    assert_eq!(&reply[1..], &[0, 0, 0, 0, 0, 0, 0, 0, 0, 1]);
}

#[test]
fn negotiate_takes_the_longest_identifiers() {
    let scid: Vec<u8> = vec![1; 255];
    let dcid: Vec<u8> = vec![2; 255];
    let reply = negotiate(&scid, &dcid).unwrap();
    assert_eq!(reply.len(), 11 + 255 + 255);
    assert_eq!(reply[5], 255);
    assert_eq!(reply[6 + 255], 255);
}

#[test]
fn negotiate_refuses_an_identifier_that_cannot_be_written() {
    let long: Vec<u8> = vec![1; 256];
    let short: Vec<u8> = vec![2; 8];
    assert_eq!(negotiate(&long, &short), None);
    assert_eq!(negotiate(&short, &long), None);
}

#[test]
fn a_negotiation_reply_swaps_the_identifiers() {
    let scid: Vec<u8> = vec![1, 2, 3, 4, 5];
    let dcid: Vec<u8> = vec![6, 7, 8, 9, 10, 11, 12, 13];
    let mut reply = negotiate(&scid, &dcid).unwrap();
    let header = sniff(&mut reply).unwrap();
    assert_eq!(header.kind, PacketKind::VersionNegotiation);
    assert_eq!(header.version, 0);
    assert_eq!(header.dcid, scid);
    assert_eq!(header.scid, dcid);
}

#[test]
fn screen_routes_the_supported_version() {
    let dcid: [u8; 8] = [0xd1; 8];
    let mut datagram = long_header(0xc0, 1, &dcid, &[0x51; 8], &[0x00]);
    match screen(&mut datagram) {
        Screening::Routable(header) => {
            assert_eq!(header.version, QUIC_V1);
            assert_eq!(header.dcid, dcid.to_vec());
        }
        other => panic!("no negotiation is due for version 1: {:?}", other),
    }
}

#[test]
fn screen_answers_an_unsupported_version() {
    let dcid: [u8; 8] = [0xd2; 8];
    let scid: [u8; 6] = [0x52; 6];
    let mut datagram = long_header(0xc0, 2, &dcid, &scid, &[0x00]);
    match screen(&mut datagram) {
        Screening::Unsupported { version, reply } => {
            assert_eq!(version, 2);
            assert_eq!(reply.len(), 11 + 6 + 8);
            assert_eq!(&reply[1..5], &[0, 0, 0, 0]);
            assert_eq!(reply[5], 6);
            assert_eq!(&reply[6..12], &scid);
            assert_eq!(reply[12], 8);
            assert_eq!(&reply[13..21], &dcid);
            assert_eq!(&reply[21..], &[0, 0, 0, 1]);
        }
        other => panic!("version 2 is not served: {:?}", other),
    }
}

#[test]
fn screen_answers_the_same_datagram_the_same_way() {
    let datagram = long_header(0xe0, 0xff00_001d, &[3; 8], &[4; 8], &[]);
    let mut first = datagram.clone();
    let mut second = datagram.clone();
    match (screen(&mut first), screen(&mut second)) {
        (
            Screening::Unsupported { version: v1, reply: r1 },
            Screening::Unsupported { version: v2, reply: r2 },
        ) => {
            assert_eq!(v1, v2);
            assert_eq!(r1[1..], r2[1..]);
        }
        other => panic!("both must be negotiated: {:?}", other),
    }
}

#[test]
fn screen_negotiates_for_a_short_header() {
    let mut datagram: Vec<u8> = vec![0x40];
    datagram.extend_from_slice(&[9; 20]);
    match screen(&mut datagram) {
        Screening::Unsupported { version, reply } => {
            assert_eq!(version, 0);
            assert_eq!(reply.len(), 11 + 20);
        }
        other => panic!("a short header carries no version: {:?}", other),
    }
}

#[test]
fn screen_drops_what_has_no_header() {
    let mut datagram: Vec<u8> = vec![0xc0, 0, 0];
    assert_eq!(screen(&mut datagram), Screening::Malformed(quiche::Error::BufferTooShort));
}
