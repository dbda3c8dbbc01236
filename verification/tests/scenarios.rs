use quic_dispatch::responder::{greeting, Responder};
use quic_dispatch::table::{ConnectionTable, CreateError};
use quic_dispatch::wire::{screen, Screening};

/// A version `version` Initial packet with an empty token.
fn initial(version: u32, dcid: &[u8], scid: &[u8]) -> Vec<u8> {
    let mut packet: Vec<u8> = vec![0xc0];
    packet.extend_from_slice(&version.to_be_bytes());
    packet.push(dcid.len() as u8);
    packet.extend_from_slice(dcid);
    packet.push(scid.len() as u8);
    packet.extend_from_slice(scid);
    packet.push(0x00);
    packet
}

/// The routing key of a datagram, where it has one.
fn routing_key(datagram: &[u8]) -> Option<Vec<u8>> {
    let mut datagram = datagram.to_vec();
    match screen(&mut datagram) {
        Screening::Routable(header) => Some(header.dcid),
        _ => None,
    }
}

#[test]
fn a_first_packet_makes_one_entry_and_is_greeted_once_established() {
    let d1: [u8; 8] = [0xd1, 1, 1, 1, 1, 1, 1, 1];
    let mut table: ConnectionTable<Responder> = ConnectionTable::new();
    let key = routing_key(&initial(1, &d1, &[0xc1; 8])).unwrap();
    assert_eq!(key, d1.to_vec());
    assert!(!table.contains(&key));
    let accepted: Result<Responder, &str> = Ok(Responder::new());
    assert_eq!(table.create(key.clone(), accepted), Ok(()));
    assert_eq!(table.len(), 1);
    assert!(table.contains(&d1));

    // the handshake is still under way: nothing is due
    let state = table.lookup_mut(&d1).unwrap();
    assert!(!state.is_due(false, false));

    // established: stream 0 carries the message, with fin
    let state = table.lookup_mut(&d1).unwrap();
    assert!(state.is_due(true, false));
    let write = greeting();
    assert_eq!((write.stream_id, write.data.as_slice(), write.fin), (0, &b"Hello, World!"[..], true));
    state.record(true);

    // later datagrams of the same connection find it greeted
    for _ in 0..3 {
        let key = routing_key(&initial(1, &d1, &[0xc1; 8])).unwrap();
        let state = table.lookup_mut(&key).unwrap();
        assert!(!state.is_due(true, false));
    }
    assert_eq!(table.len(), 1);
}

#[test]
fn an_unsupported_version_is_negotiated_without_an_entry() {
    let d: [u8; 8] = [0xd7; 8];
    let s: [u8; 8] = [0xc7; 8];
    let table: ConnectionTable<Responder> = ConnectionTable::new();
    let mut datagram = initial(0x0000_0002, &d, &s);
    match screen(&mut datagram) {
        Screening::Unsupported { version, reply } => {
            assert_eq!(version, 2);
            assert_eq!(&reply[reply.len() - 4..], &[0x00, 0x00, 0x00, 0x01]);
            assert_eq!(&reply[6..14], &s);
            assert_eq!(&reply[15..23], &d);
        }
        other => panic!("version 2 must be negotiated: {:?}", other),
    }
    assert!(!table.contains(&d));
    assert_eq!(table.len(), 0);
}

#[test]
fn a_failed_accept_does_not_stand_in_the_way_of_the_next_connection() {
    let d2: [u8; 8] = [0xd2; 8];
    let d3: [u8; 8] = [0xd3; 8];
    let mut table: ConnectionTable<Responder> = ConnectionTable::new();

    let key = routing_key(&initial(1, &d2, &[1; 8])).unwrap();
    let refused: Result<Responder, &str> = Err("malformed initial");
    assert_eq!(table.create(key, refused), Err(CreateError::Rejected("malformed initial")));
    assert!(!table.contains(&d2));

    let key = routing_key(&initial(1, &d3, &[1; 8])).unwrap();
    let accepted: Result<Responder, &str> = Ok(Responder::new());
    assert_eq!(table.create(key, accepted), Ok(()));
    assert!(table.contains(&d3));
    assert!(!table.contains(&d2));
    assert_eq!(table.len(), 1);
}
