//! The line-based sender of the console program, and the acknowledgement its
//! server side sends.
use crate::text::{trim, trimmed};
use vstd::prelude::*;
use vstd::utf8::*;

verus! {

/// The frame of a request line: byte 0, then the trimmed line.
pub open spec fn request_frame(line: Seq<char>) -> Seq<u8> {
    seq![0u8] + encode_utf8(trimmed(line))
}

/// A sender from `addr` to `recepient_addr`, without its socket.
pub struct RequestSender {
    pub addr: String,
    pub recepient_addr: String,
}

impl RequestSender {
    /// A sender between the two addresses.
    pub fn new(addr: String, recepient_addr: String) -> (s: RequestSender)
        ensures
            s.addr@ == addr@,
            s.recepient_addr@ == recepient_addr@,
    {
        RequestSender { addr, recepient_addr }
    }

    /// The datagram for one input line: the line without surrounding
    /// whitespace, behind a 0 byte that marks it as a request.
    pub fn frame_line(&self, line: &str) -> (v: Vec<u8>)
        ensures
            v@ == request_frame(line@),
    {
        let t = trim(line);
        let mut v: Vec<u8> = Vec::new();
        v.push(0);
        v.extend_from_slice(t.as_bytes());
        assert(v@ =~= request_frame(line@));
        v
    }
}

/// The acknowledgement text of the console server at `local`.
pub open spec fn acknowledgement_spec(local: Seq<char>) -> Seq<char> {
    "Acknowledged from Server "@ + local + "!"@
}

/// The acknowledgement the console server sends after each message.
pub fn acknowledgement(local: &str) -> (s: String)
    ensures
        s@ == acknowledgement_spec(local@),
{
    let s = String::from_str("Acknowledged from Server ");
    let s = s.concat(local);
    s.concat("!")
}

} // verus!
