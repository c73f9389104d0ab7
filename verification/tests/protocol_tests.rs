use udp_balancer::chat::{acknowledgement, RequestSender as ConsoleSender};
use udp_balancer::client::receiver::RequestReceiver as ClientReceiver;
use udp_balancer::client::sender::{load_from_bytes, load_probe, LeastLoaded, RequestSender};
use udp_balancer::server::receiver::{ListenAction, RequestReceiver as ServerReceiver};

#[test]
fn console_frame_trims_line() {
    let s = ConsoleSender::new(String::from("a"), String::from("b"));
    assert_eq!(s.frame_line("  hi there \n"), vec![0, b'h', b'i', b' ', b't', b'h', b'e', b'r', b'e']);
    assert_eq!(s.frame_line("\n"), vec![0]);
}

#[test]
fn console_acknowledgement_text() {
    assert_eq!(acknowledgement("127.0.0.1:7878"), "Acknowledged from Server 127.0.0.1:7878!");
}

#[test]
fn console_line_acknowledged_scenario() {
    let s = ConsoleSender::new(String::from("a"), String::from("b"));
    let frame = s.frame_line(" hello\n");
    let mut buf = [0u8; 1000];
    buf[..frame.len()].copy_from_slice(&frame);
    let r = ClientReceiver::new(String::from("r"));
    let got = r.on_datagram(&buf);
    assert!(got.text.starts_with("hello\0"));
    let ack = got.reply.unwrap();
    assert_eq!(ack[0], 1);
    let mut ack_buf = [0u8; 1000];
    ack_buf[..ack.len()].copy_from_slice(&ack);
    assert_eq!(r.on_datagram(&ack_buf).reply, None);
}

#[test]
fn load_probe_scenario() {
    let mut server = ServerReceiver::new(String::from("s"), 0);
    let mut buf = [0u8; 100];
    buf[0] = b'H';
    for _ in 0..300 {
        server.on_datagram(&buf);
    }
    let mut probe = [0u8; 100];
    probe[..2].copy_from_slice(&load_probe());
    match server.on_datagram(&probe) {
        ListenAction::ReplyLoad(b) => assert_eq!(load_from_bytes(b), 300),
        other => panic!("unexpected {:?}", other),
    }
    assert_eq!(server.load, 300);
}

#[test]
fn echo_scenario() {
    let message = hello();
    let mut client = RequestSender::new(String::from("c"), r#"["s0"]"#).unwrap();
    let mut tracker = LeastLoaded::new();
    let mut server = ServerReceiver::new(String::from("s0"), 0);
    tracker.observe(0, Some([0, 0]));
    let target = client.record_send(tracker.min_server);
    assert_eq!(target, "s0");
    let mut buf = [0u8; 100];
    buf[..message.len()].copy_from_slice(message.as_bytes());
    assert_eq!(server.on_datagram(&buf), ListenAction::Enqueue);
    let printed = server.handle_request(&buf);
    assert!(printed.starts_with(&message));
    assert_eq!(server.load, 0);
    assert!(client.on_reply(&buf, &message, 42));
    assert_eq!(client.avg_request_time, (1, 42));
}

fn hello() -> String {
    String::from("Hello from 127.0.0.1:5000 [0]")
}

#[test]
fn load_accounting_scenario() {
    let mut server = ServerReceiver::new(String::from("s"), 1);
    let kinds = [b'a', 2, 1, b'b', 0, 2, 1];
    for k in kinds {
        let mut buf = [0u8; 100];
        buf[0] = k;
        buf[1] = b'x';
        server.on_datagram(&buf);
    }
    assert_eq!(server.load, 3);
    let mut buf = [0u8; 100];
    buf[0] = b'a';
    server.handle_request(&buf);
    server.handle_request(&buf);
    assert_eq!(server.load, 1);
}

#[test]
fn average_stays_between_scenario() {
    let mut client = RequestSender::new(String::from("c"), r#"["s0"]"#).unwrap();
    let mut buf = [0u8; 100];
    buf[..2].copy_from_slice(b"hi");
    let samples = [500u128, 100, 900, 300, 300];
    let mut lo = u128::MAX;
    let mut hi = 0;
    for e in samples {
        client.record_send(0);
        let before = client.avg_request_time.1;
        assert!(client.on_reply(&buf, "hi", e));
        let after = client.avg_request_time.1;
        if client.avg_request_time.0 > 1 {
            assert!(after >= before.min(e) && after <= before.max(e));
        }
        lo = lo.min(e);
        hi = hi.max(e);
        assert!(after >= lo && after <= hi);
    }
}
