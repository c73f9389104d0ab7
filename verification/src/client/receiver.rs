//! The acknowledging receiver of a client: it shows every datagram and
//! acknowledges the requests among them.
use crate::text::{lemma_encode_concat, utf8_string};
use vstd::prelude::*;
use vstd::utf8::*;

verus! {

/// Size of the receive buffer.
pub const RECEIVE_LEN: usize = 1000;

/// The text an acknowledgement starts with, before the receiver's address.
pub open spec fn ack_prefix() -> Seq<char> {
    "Message Recieved By "@
}

/// The acknowledgement a receiver at `addr` sends: byte 1, then the text.
pub open spec fn ack_frame(addr: Seq<char>) -> Seq<u8> {
    seq![1u8] + encode_utf8(ack_prefix() + addr)
}

/// The text of a received datagram: every byte after the first.
pub open spec fn datagram_text(buf: Seq<u8>) -> Seq<u8> {
    buf.subrange(1, buf.len() as int)
}

/// What the receiver makes of one datagram.
pub struct Received {
    /// The text to show.
    pub text: String,
    /// The acknowledgement to send back, for a request.
    pub reply: Option<Vec<u8>>,
}

/// The state of a client's receiver.
pub struct RequestReceiver {
    /// The address it listens on.
    pub addr: String,
}

impl RequestReceiver {
    /// A receiver listening on `addr`.
    pub fn new(addr: String) -> (r: RequestReceiver)
        ensures
            r.addr@ == addr@,
    {
        RequestReceiver { addr }
    }

    /// Reads one datagram: its text, and an acknowledgement when the first
    /// byte marks it as a request (0).
    pub fn on_datagram(&self, buf: &[u8; 1000]) -> (r: Received)
        requires
            valid_utf8(datagram_text(buf@)),
        ensures
            r.text@ == decode_utf8(datagram_text(buf@)),
            r.reply is Some <==> buf@[0] == 0,
            r.reply matches Some(v) ==> v@ == ack_frame(self.addr@),
    {
        let mut rest: Vec<u8> = Vec::new();
        let mut i: usize = 1;
        while i < RECEIVE_LEN
            invariant
                1 <= i <= RECEIVE_LEN,
                buf@.len() == RECEIVE_LEN,
                rest@ == buf@.subrange(1, i as int),
            decreases RECEIVE_LEN - i,
        {
            rest.push(buf[i]);
            i = i + 1;
            assert(rest@ =~= buf@.subrange(1, i as int));
        }
        let text = utf8_string(rest).unwrap();
        let reply = if buf[0] == 0 {
            Some(self.acknowledgement())
        } else {
            None
        };
        Received { text, reply }
    }

    /// The acknowledgement this receiver sends for a request.
    pub fn acknowledgement(&self) -> (v: Vec<u8>)
        ensures
            v@ == ack_frame(self.addr@),
    {
        let mut v: Vec<u8> = Vec::new();
        v.push(1);
        v.extend_from_slice("Message Recieved By ".as_bytes());
        v.extend_from_slice(self.addr.as_str().as_bytes());
        proof {
            lemma_encode_concat(ack_prefix(), self.addr@);
            assert(v@ =~= ack_frame(self.addr@));
        }
        v
    }
}

} // verus!
