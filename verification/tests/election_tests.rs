use udp_balancer::server::election::{ElectionMsg, ElectionMsgMode};

#[test]
fn ack_frame_layout() {
    let m = ElectionMsg { mode: ElectionMsgMode::Ack, data: String::from("12") };
    let b = m.toBytes();
    assert_eq!(&b[0..3], b"ACK");
    assert_eq!(&b[3..5], b"12");
    assert!(b[5..].iter().all(|x| *x == 0));
}

#[test]
fn msg_frame_layout() {
    let m = ElectionMsg { mode: ElectionMsgMode::Msg, data: String::from("é") };
    let b = m.toBytes();
    assert_eq!(&b[0..3], b"MSG");
    assert_eq!(&b[3..5], "é".as_bytes());
    assert!(b[5..].iter().all(|x| *x == 0));
}

#[test]
fn frame_with_full_payload() {
    let data = "x".repeat(1021);
    let m = ElectionMsg { mode: ElectionMsgMode::Ack, data: data.clone() };
    let b = m.toBytes();
    assert_eq!(&b[3..], data.as_bytes());
}

#[test]
fn election_frame_round_trip() {
    let m = ElectionMsg { mode: ElectionMsgMode::Msg, data: String::from("ballot 7") };
    let back = ElectionMsg::from_bytes(&m.toBytes());
    assert_eq!(back.mode, ElectionMsgMode::Msg);
    let mut expected = String::from("ballot 7");
    expected.push_str(&"\0".repeat(1021 - 8));
    assert_eq!(back.data, expected);
}

#[test]
fn from_bytes_reads_ack() {
    let mut b = [0u8; 1024];
    b[0..3].copy_from_slice(b"ACK");
    b[3] = b'5';
    let m = ElectionMsg::from_bytes(&b);
    assert_eq!(m.mode, ElectionMsgMode::Ack);
    assert!(m.data.starts_with('5'));
    assert_eq!(m.data.len(), 1021);
}
