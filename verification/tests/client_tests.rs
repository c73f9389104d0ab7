use udp_balancer::client::receiver::RequestReceiver;
use udp_balancer::client::sender::{
    client_name, client_ports, hello_message, load_from_bytes, load_probe, reply_matches,
    ConfigError, LeastLoaded, RequestSender,
};

fn reply(text: &str) -> [u8; 100] {
    let mut b = [0u8; 100];
    b[..text.len()].copy_from_slice(text.as_bytes());
    b
}

fn sender() -> RequestSender {
    RequestSender::new(String::from("Client 0"), r#"["127.0.0.1:6000", "127.0.0.1:6001", "127.0.0.1:6002"]"#)
        .unwrap()
}

#[test]
fn load_probe_bytes() {
    assert_eq!(load_probe(), [2, 2]);
}

#[test]
fn load_from_bytes_is_big_endian() {
    assert_eq!(load_from_bytes([1, 2]), 258);
    assert_eq!(load_from_bytes([0xff, 0xff]), u16::MAX);
}

#[test]
fn least_loaded_round() {
    let mut t = LeastLoaded::new();
    assert_eq!((t.min_server, t.min_load), (0, u16::MAX));
    t.observe(0, Some([0, 5]));
    t.observe(1, Some([0, 3]));
    t.observe(2, Some([0, 3]));
    assert_eq!((t.min_server, t.min_load), (1, 3));
    t.end_round();
    assert_eq!((t.min_server, t.min_load), (1, u16::MAX));
    t.observe(0, None);
    t.observe(1, Some([0xff, 0xff]));
    t.observe(2, Some([0, 9]));
    assert_eq!((t.min_server, t.min_load), (2, 9));
}

#[test]
fn least_loaded_keeps_server_without_replies() {
    let mut t = LeastLoaded { min_server: 2, min_load: u16::MAX };
    t.observe(0, None);
    t.observe(1, Some([0xff, 0xff]));
    assert_eq!((t.min_server, t.min_load), (2, u16::MAX));
}

#[test]
fn new_reads_server_list() {
    let s = sender();
    assert_eq!(s.name, "Client 0");
    assert_eq!(s.servers, vec!["127.0.0.1:6000", "127.0.0.1:6001", "127.0.0.1:6002"]);
    assert_eq!(s.messages_per_server, [(0, 0); 3]);
    assert_eq!(s.avg_request_time, (0, 0));
    assert_eq!(s.total_sent, 0);
    assert_eq!(s.pending, None);
}

#[test]
fn new_rejects_bad_server_list() {
    assert!(matches!(
        RequestSender::new(String::from("c"), "{\"a\": 1}"),
        Err(ConfigError::InvalidServerList)
    ));
    assert!(matches!(RequestSender::new(String::from("c"), "[1, 2]"), Err(ConfigError::InvalidServerList)));
    assert!(matches!(RequestSender::new(String::from("c"), "not json"), Err(ConfigError::InvalidServerList)));
}

#[test]
fn record_send_counts_and_targets() {
    let mut s = sender();
    assert_eq!(s.record_send(1), "127.0.0.1:6001");
    assert_eq!(s.record_send(1), "127.0.0.1:6001");
    assert_eq!(s.record_send(0), "127.0.0.1:6000");
    assert_eq!(s.messages_per_server, [(1, 0), (2, 0), (0, 0)]);
    assert_eq!(s.total_sent, 3);
}

#[test]
fn reply_matching_trims_padding_and_whitespace() {
    assert!(reply_matches(&reply("hello"), "hello"));
    assert!(reply_matches(&reply("  hello \n"), "hello"));
    assert!(reply_matches(&reply("hello"), "\thello  "));
    assert!(!reply_matches(&reply("hello"), "hallo"));
    assert!(!reply_matches(&reply("Message Recieved By x"), "hello"));
}

#[test]
fn on_reply_updates_average() {
    let mut s = sender();
    s.record_send(2);
    assert!(s.on_reply(&reply("ping"), "ping", 100));
    assert_eq!(s.avg_request_time, (1, 100));
    s.record_send(2);
    assert!(s.on_reply(&reply("ping"), "ping", 201));
    // (201 + 1 * 100) / 2
    assert_eq!(s.avg_request_time, (2, 150));
    s.record_send(2);
    assert!(s.on_reply(&reply("ping"), "ping", 0));
    // (0 + 2 * 150) / 3
    assert_eq!(s.avg_request_time, (3, 100));
    assert_eq!(s.messages_per_server[2], (3, 3));
}

#[test]
fn on_reply_counts_at_most_one_answer_per_send() {
    let mut s = sender();
    assert!(!s.on_reply(&reply("ping"), "ping", 5));
    assert_eq!(s.avg_request_time, (0, 0));
    s.record_send(1);
    assert_eq!(s.pending, Some(1));
    assert!(s.on_reply(&reply("ping"), "ping", 5));
    assert_eq!(s.pending, None);
    assert!(!s.on_reply(&reply("ping"), "ping", 5));
    assert_eq!(s.messages_per_server, [(0, 0), (1, 1), (0, 0)]);
    assert_eq!(s.avg_request_time, (1, 5));
}

#[test]
fn counters_stay_consistent_scenario() {
    let mut s = sender();
    let plan = [(0u16, true), (1, false), (1, true), (2, true), (0, false), (0, true)];
    for (server, answered) in plan {
        s.record_send(server);
        let text = if answered { "m" } else { "other" };
        s.on_reply(&reply(text), "m", 7);
        let st = s.get_stats();
        let sent: u128 = st.server_stats.iter().map(|x| x.num_sent as u128).sum();
        let ackd: u128 = st.server_stats.iter().map(|x| x.num_ackd as u128).sum();
        assert_eq!(st.total_sent, sent);
        assert_eq!(st.total_successful, ackd);
        assert!(st.server_stats.iter().all(|x| x.num_ackd <= x.num_sent));
    }
}

#[test]
fn on_reply_ignores_other_replies() {
    let mut s = sender();
    s.record_send(0);
    assert!(!s.on_reply(&reply("other"), "ping", 50));
    assert_eq!(s.avg_request_time, (0, 0));
    assert_eq!(s.messages_per_server[0], (1, 0));
}

#[test]
fn get_stats_reports_counts() {
    let mut s = sender();
    s.record_send(0);
    s.on_reply(&reply("a"), "a", 10);
    s.record_send(1);
    let st = s.get_stats();
    assert_eq!(st.name, "Client 0");
    assert_eq!(st.total_sent, 2);
    assert_eq!(st.total_successful, 1);
    assert_eq!(st.avg_response_time, 10);
    assert_eq!(st.server_stats.len(), 3);
    assert_eq!(st.server_stats[0].name, "0");
    assert_eq!((st.server_stats[0].num_sent, st.server_stats[0].num_ackd), (1, 1));
    assert_eq!(st.server_stats[1].name, "1");
    assert_eq!((st.server_stats[1].num_sent, st.server_stats[1].num_ackd), (1, 0));
    assert_eq!(st.server_stats[2].name, "2");
    assert_eq!((st.server_stats[2].num_sent, st.server_stats[2].num_ackd), (0, 0));
}

#[test]
fn stats_report_text() {
    let mut s = sender();
    s.record_send(1);
    s.on_reply(&reply("a"), "a", 10);
    s.record_send(1);
    assert_eq!(
        s.stats_report(),
        "\nClient 0 :\nServer\tSent\tAcknowledged\n0\t0\t0\n1\t2\t1\n2\t0\t0"
    );
}

#[test]
fn ports_names_and_messages() {
    assert_eq!(client_ports(5000, 7), (5007, 6007));
    assert_eq!(client_name(12), "Client 12");
    assert_eq!(hello_message("127.0.0.1:5000", 3), "Hello from 127.0.0.1:5000 [3]");
}

#[test]
fn client_receiver_acknowledges_requests() {
    let r = RequestReceiver::new(String::from("127.0.0.1:7000"));
    let mut b = [0u8; 1000];
    b[1..4].copy_from_slice(b"abc");
    let got = r.on_datagram(&b);
    assert!(got.text.starts_with("abc"));
    assert_eq!(got.text.len(), 999);
    let mut expected = vec![1u8];
    expected.extend_from_slice(b"Message Recieved By 127.0.0.1:7000");
    assert_eq!(got.reply, Some(expected));
}

#[test]
fn client_receiver_does_not_acknowledge_acks() {
    let r = RequestReceiver::new(String::from("x"));
    let mut b = [0u8; 1000];
    b[0] = 1;
    b[1..3].copy_from_slice(b"ok");
    let got = r.on_datagram(&b);
    assert_eq!(got.reply, None);
}
