use udp_balancer::server::election::{ElectionMsg, ElectionMsgMode};
use udp_balancer::server::receiver::{
    classify, election_message, election_reply, load_to_bytes, request_port, ElectionStep,
    ListenAction, PacketKind, RequestReceiver,
};
use udp_balancer::server::ring::{
    election_addr, election_addrs, election_port, ring_index, ring_servers, AddressedReceiver,
};

fn datagram(first: u8, text: &str) -> [u8; 100] {
    let mut b = [0u8; 100];
    b[0] = first;
    b[1..1 + text.len()].copy_from_slice(text.as_bytes());
    b
}

#[test]
fn new_receiver_has_no_load() {
    let r = RequestReceiver::new(String::from("127.0.0.1:5656"), 1);
    assert_eq!(r.load, 0);
    assert_eq!(r.index, 1);
    assert_eq!(r.addr, "127.0.0.1:5656");
    assert_eq!(r.election_ports, vec!["127.0.0.1:9000", "127.0.0.1:9001", "127.0.0.1:9002"]);
}

#[test]
fn classify_by_first_byte() {
    assert_eq!(classify(2), PacketKind::LoadQuery);
    assert_eq!(classify(1), PacketKind::Ack);
    assert_eq!(classify(0), PacketKind::Request);
    assert_eq!(classify(b'H'), PacketKind::Request);
}

#[test]
fn load_query_gets_big_endian_load() {
    let mut r = RequestReceiver::new(String::from("a"), 0);
    r.load = 258;
    let a = r.on_datagram(&datagram(2, ""));
    assert_eq!(a, ListenAction::ReplyLoad([1, 2]));
    assert_eq!(r.load, 258);
}

#[test]
fn ack_is_ignored() {
    let mut r = RequestReceiver::new(String::from("a"), 0);
    r.load = 3;
    assert_eq!(r.on_datagram(&datagram(1, "x")), ListenAction::Ignore);
    assert_eq!(r.load, 3);
}

#[test]
fn request_is_queued_and_counted() {
    let mut r = RequestReceiver::new(String::from("a"), 0);
    assert_eq!(r.on_datagram(&datagram(b'H', "ello")), ListenAction::Enqueue);
    assert_eq!(r.load, 1);
    assert_eq!(r.on_datagram(&datagram(0, "x")), ListenAction::Enqueue);
    assert_eq!(r.load, 2);
}

#[test]
fn handled_request_lowers_load_and_gives_text() {
    let mut r = RequestReceiver::new(String::from("a"), 0);
    let req = datagram(b'H', "i!");
    r.on_datagram(&req);
    let text = r.handle_request(&req);
    assert_eq!(r.load, 0);
    let mut expected = String::from("Hi!");
    expected.push_str(&"\0".repeat(97));
    assert_eq!(text, expected);
}

#[test]
fn load_bytes_are_big_endian() {
    assert_eq!(load_to_bytes(0), [0, 0]);
    assert_eq!(load_to_bytes(0x1234), [0x12, 0x34]);
    assert_eq!(load_to_bytes(u16::MAX), [0xff, 0xff]);
}

#[test]
fn request_port_is_offset() {
    assert_eq!(request_port(5656), 5756);
    assert_eq!(request_port(u16::MAX - 100), u16::MAX);
}

#[test]
fn stats_file_name_replaces_colons() {
    let r = RequestReceiver::new(String::from("127.0.0.1:5656"), 0);
    assert_eq!(r.stats_file_name(), "127.0.0.1-5656.txt");
}

#[test]
fn load_log_line_is_decimal() {
    let mut r = RequestReceiver::new(String::from("a"), 0);
    r.load = 42;
    assert_eq!(r.load_log_line(), "42");
}

#[test]
fn election_peers_follow_ring() {
    assert_eq!(RequestReceiver::new(String::from("a"), 0).election_peers(), [1, 2]);
    assert_eq!(RequestReceiver::new(String::from("a"), 1).election_peers(), [2, 0]);
    assert_eq!(RequestReceiver::new(String::from("a"), 2).election_peers(), [0, 1]);
}

#[test]
fn election_round_draws_small_ballot() {
    let r = RequestReceiver::new(String::from("a"), 2);
    for _ in 0..50 {
        let round = r.election();
        assert!(round.ballot == "0" || round.ballot == "1" || round.ballot == "2");
        assert_eq!(round.peers, [0, 1]);
    }
}

#[test]
fn election_round_with_given_ballot() {
    let round = RequestReceiver::new(String::from("a"), 1).election_round(2);
    assert_eq!(round.ballot, "2");
    assert_eq!(round.peers, [2, 0]);
}

#[test]
fn first_election_peer_is_next_index() {
    assert_eq!(RequestReceiver::new(String::from("a"), 0).first_election_peer(), Some(1));
    assert_eq!(RequestReceiver::new(String::from("a"), 1).first_election_peer(), Some(2));
    assert_eq!(RequestReceiver::new(String::from("a"), 2).first_election_peer(), None);
}

#[test]
fn election_message_is_ack_with_decimal() {
    let b = election_message(4021);
    assert_eq!(&b[0..7], b"ACK4021");
    assert!(b[7..].iter().all(|x| *x == 0));
}

#[test]
fn election_reply_steps() {
    assert_eq!(election_reply(0, None), ElectionStep::NextPeer(1));
    assert_eq!(election_reply(1, None), ElectionStep::NextPeer(2));
    assert_eq!(election_reply(2, None), ElectionStep::EndOfRing);
    let msg = ElectionMsg { mode: ElectionMsgMode::Msg, data: String::from("x") }.toBytes();
    assert_eq!(election_reply(1, Some(&msg)), ElectionStep::Retry(1));
    let ack = ElectionMsg { mode: ElectionMsgMode::Ack, data: String::from("x") }.toBytes();
    assert_eq!(election_reply(1, Some(&ack)), ElectionStep::Done);
}

#[test]
fn ring_positions() {
    assert_eq!(ring_index("127.0.0.1:5656"), 0);
    assert_eq!(ring_index("127.0.0.1:5657"), 1);
    assert_eq!(ring_index("127.0.0.1:5658"), 2);
    assert_eq!(ring_index("127.0.0.1:9999"), 0);
}

#[test]
fn ring_election_ports() {
    assert_eq!(election_port("127.0.0.1:5656"), "9000");
    assert_eq!(election_port("127.0.0.1:5657"), "9001");
    assert_eq!(election_port("127.0.0.1:5658"), "9002");
    assert_eq!(election_port("localhost"), "8080");
}

#[test]
fn ring_election_addresses() {
    assert_eq!(election_addr(0), "127.0.0.1:9000");
    assert_eq!(election_addr(1), "127.0.0.1:9001");
    assert_eq!(election_addr(2), "127.0.0.1:9002");
    assert_eq!(election_addrs(), vec!["127.0.0.1:9000", "127.0.0.1:9001", "127.0.0.1:9002"]);
}

#[test]
fn from_address_takes_ring_position() {
    let r = RequestReceiver::from_address(String::from("127.0.0.1:5658"));
    assert_eq!((r.index, r.load), (2, 0));
    assert_eq!(r.addr, "127.0.0.1:5658");
    let u = RequestReceiver::from_address(String::from("10.0.0.1:1"));
    assert_eq!(u.index, 0);
}

#[test]
fn addressed_receiver_setup() {
    let r = AddressedReceiver::new(String::from("127.0.0.1:5657"));
    assert_eq!(r.receiver.index, 1);
    assert_eq!(r.receiver.load, 0);
    assert_eq!(r.election_port, "9001");
    assert_eq!(r.servers, vec!["127.0.0.1:8080", "127.0.0.1:8081", "127.0.0.1:8082"]);
    let u = AddressedReceiver::new(String::from("localhost:1"));
    assert_eq!((u.receiver.index, u.election_port.as_str()), (0, "8080"));
    assert_eq!(ring_servers().len(), 3);
}
