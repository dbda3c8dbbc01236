use quic_dispatch::dispatcher::{absorb, conclude_unrouted, Cycle, Disposition, FlushEnd, Outgoing};
use quic_dispatch::engine::Produced;
use quic_dispatch::wire::{screen, PacketHeader, PacketKind, Screening};

/// The path of a datagram that came in.
fn path() -> quiche::RecvInfo {
    quiche::RecvInfo { from: "198.51.100.7:50000".parse().unwrap(), to: "192.0.2.1:443".parse().unwrap() }
}

/// Where an engine might want a packet sent.
fn route() -> quiche::SendInfo {
    quiche::SendInfo {
        from: "192.0.2.1:443".parse().unwrap(),
        to: "198.51.100.7:50000".parse().unwrap(),
        at: std::time::Instant::now(),
    }
}

#[test]
fn a_packet_is_collected_and_the_draining_goes_on() {
    let buffer: Vec<u8> = vec![10, 20, 30, 40, 50];
    let mut outgoing: Vec<Outgoing> = Vec::new();
    let info = route();
    assert_eq!(absorb(Produced::Packet { len: 3, info }, &buffer, &mut outgoing), None);
    assert_eq!(outgoing, vec![Outgoing::Transport { payload: vec![10, 20, 30], info }]);
    assert_eq!(absorb(Produced::Packet { len: 5, info }, &buffer, &mut outgoing), None);
    assert_eq!(outgoing.len(), 2);
    assert_eq!(outgoing[1], Outgoing::Transport { payload: vec![10, 20, 30, 40, 50], info });
}

#[test]
fn a_packet_never_reaches_beyond_the_buffer() {
    let buffer: Vec<u8> = vec![1, 2];
    let mut outgoing: Vec<Outgoing> = Vec::new();
    let info = route();
    assert_eq!(absorb(Produced::Packet { len: 9, info }, &buffer, &mut outgoing), None);
    assert_eq!(outgoing, vec![Outgoing::Transport { payload: vec![1, 2], info }]);
}

#[test]
fn nothing_more_to_send_ends_the_draining_in_good_order() {
    let buffer: Vec<u8> = vec![0; 8];
    let mut outgoing: Vec<Outgoing> = vec![Outgoing::Negotiation { payload: vec![0x80], path: path() }];
    assert_eq!(absorb(Produced::Idle, &buffer, &mut outgoing), Some(FlushEnd::Idle));
    assert_eq!(outgoing, vec![Outgoing::Negotiation { payload: vec![0x80], path: path() }]);
}

#[test]
fn the_next_cycle_collects_again_after_an_idle_engine() {
    let buffer: Vec<u8> = vec![7; 4];
    let mut outgoing: Vec<Outgoing> = Vec::new();
    let info = route();
    assert_eq!(absorb(Produced::Idle, &buffer, &mut outgoing), Some(FlushEnd::Idle));
    assert_eq!(absorb(Produced::Packet { len: 4, info }, &buffer, &mut outgoing), None);
    assert_eq!(absorb(Produced::Idle, &buffer, &mut outgoing), Some(FlushEnd::Idle));
    assert_eq!(outgoing, vec![Outgoing::Transport { payload: vec![7; 4], info }]);
}

#[test]
fn a_failing_engine_ends_the_draining_with_its_cause() {
    let buffer: Vec<u8> = vec![0; 8];
    let mut outgoing: Vec<Outgoing> = Vec::new();
    assert_eq!(
        absorb(Produced::Fault(quiche::Error::InvalidState), &buffer, &mut outgoing),
        Some(FlushEnd::Fault(quiche::Error::InvalidState))
    );
    assert!(outgoing.is_empty());
}

#[test]
fn a_malformed_datagram_is_dropped_without_an_answer() {
    let concluded = conclude_unrouted(Screening::Malformed(quiche::Error::BufferTooShort), path());
    assert_eq!(
        concluded,
        Ok(Cycle { disposition: Disposition::Malformed(quiche::Error::BufferTooShort), outgoing: Vec::new() })
    );
}

#[test]
fn a_negotiation_reply_is_the_one_datagram_sent_back_to_the_sender() {
    let screening = Screening::Unsupported { version: 2, reply: vec![0x80, 0, 0, 0, 0] };
    let concluded = conclude_unrouted(screening, path());
    assert_eq!(
        concluded,
        Ok(Cycle {
            disposition: Disposition::Negotiated { version: 2 },
            outgoing: vec![Outgoing::Negotiation { payload: vec![0x80, 0, 0, 0, 0], path: path() }],
        })
    );
}

#[test]
fn a_routable_packet_is_handed_on_by_its_header() {
    let header = PacketHeader { kind: PacketKind::Initial, version: 1, dcid: vec![1, 2], scid: vec![3] };
    let again = PacketHeader { kind: PacketKind::Initial, version: 1, dcid: vec![1, 2], scid: vec![3] };
    assert_eq!(conclude_unrouted(Screening::Routable(header), path()), Err(again));
}

#[test]
fn an_unsupported_version_is_answered_to_its_sender_with_version_one() {
    let mut datagram: Vec<u8> = vec![0xc0, 0, 0, 0, 2, 2, 0xd1, 0xd2, 1, 0x51, 0x00];
    let concluded = conclude_unrouted(screen(&mut datagram), path());
    match concluded {
        Ok(Cycle { disposition, outgoing }) => {
            assert_eq!(disposition, Disposition::Negotiated { version: 2 });
            assert_eq!(outgoing.len(), 1);
            match &outgoing[0] {
                Outgoing::Negotiation { payload, path: answered } => {
                    assert_eq!(*answered, path());
                    assert_eq!(&payload[1..], &[0, 0, 0, 0, 1, 0x51, 2, 0xd1, 0xd2, 0, 0, 0, 1]);
                }
                other => panic!("a negotiation reply is due: {:?}", other),
            }
        }
        other => panic!("version 2 is not routed: {:?}", other),
    }
}

#[test]
fn an_unreadable_datagram_is_dropped_and_nothing_is_sent() {
    let mut datagram: Vec<u8> = vec![0xc0, 0, 0];
    let concluded = conclude_unrouted(screen(&mut datagram), path());
    assert_eq!(
        concluded,
        Ok(Cycle { disposition: Disposition::Malformed(quiche::Error::BufferTooShort), outgoing: Vec::new() })
    );
    let mut empty: Vec<u8> = Vec::new();
    match conclude_unrouted(screen(&mut empty), path()) {
        Ok(Cycle { disposition: Disposition::Malformed(_), outgoing }) => assert!(outgoing.is_empty()),
        other => panic!("an empty datagram has no header: {:?}", other),
    }
}

#[test]
fn a_version_one_packet_is_left_for_its_connection() {
    let mut datagram: Vec<u8> = vec![0xc0, 0, 0, 0, 1, 2, 0xd1, 0xd2, 1, 0x51, 0x00];
    match conclude_unrouted(screen(&mut datagram), path()) {
        Err(header) => {
            assert_eq!(header.version, 1);
            assert_eq!(header.dcid, vec![0xd1, 0xd2]);
            assert_eq!(header.scid, vec![0x51]);
        }
        other => panic!("version 1 is routed: {:?}", other),
    }
}
