//! Election messages exchanged by the servers of the ring, in their fixed
//! 1024-byte frame: a three-letter tag, the payload, and NUL padding.
use crate::text::{ascii_chars, lemma_ascii_is_utf8, lemma_encode_concat, utf8_string};
use vstd::prelude::*;
use vstd::utf8::*;

verus! {

/// Size of an election frame in bytes.
pub const FRAME_LEN: usize = 1024;

/// Room for the payload after the three-byte tag.
pub const PAYLOAD_ROOM: usize = 1021;

/// The kind of an election message.
#[derive(Clone, Copy, Debug, PartialEq, Eq, Structural)]
pub enum ElectionMsgMode {
    /// An acknowledgement, tagged `ACK`.
    Ack,
    /// A message to be handled, tagged `MSG`.
    Msg,
}

/// An election message: its kind and its text payload.
pub struct ElectionMsg {
    pub mode: ElectionMsgMode,
    pub data: String,
}

/// The three tag bytes of a mode.
pub open spec fn tag_bytes(mode: ElectionMsgMode) -> Seq<u8> {
    match mode {
        ElectionMsgMode::Ack => seq![65u8, 67u8, 75u8],
        ElectionMsgMode::Msg => seq![77u8, 83u8, 71u8],
    }
}

/// `n` zero bytes.
pub open spec fn zero_bytes(n: nat) -> Seq<u8> {
    Seq::new(n, |i: int| 0u8)
}

/// `n` NUL characters.
pub open spec fn nul_chars(n: nat) -> Seq<char> {
    Seq::new(n, |i: int| '\0')
}

/// The frame of a message: tag, UTF-8 payload, zero padding up to 1024 bytes.
pub open spec fn frame_bytes(mode: ElectionMsgMode, data: Seq<char>) -> Seq<u8> {
    tag_bytes(mode) + encode_utf8(data) + zero_bytes((PAYLOAD_ROOM - encode_utf8(data).len()) as nat)
}

/// True when a payload fits in a frame.
pub open spec fn payload_fits(data: Seq<char>) -> bool {
    encode_utf8(data).len() <= PAYLOAD_ROOM
}

/// The mode a frame announces, if its first three bytes are a known tag.
pub open spec fn frame_mode(bytes: Seq<u8>) -> Option<ElectionMsgMode> {
    if bytes.subrange(0, 3) == tag_bytes(ElectionMsgMode::Ack) {
        Some(ElectionMsgMode::Ack)
    } else if bytes.subrange(0, 3) == tag_bytes(ElectionMsgMode::Msg) {
        Some(ElectionMsgMode::Msg)
    } else {
        None
    }
}

/// The bytes of a frame after its tag.
pub open spec fn frame_payload(bytes: Seq<u8>) -> Seq<u8> {
    bytes.subrange(3, bytes.len() as int)
}

/// True when a frame can be read back: a known tag and a UTF-8 remainder.
pub open spec fn frame_readable(bytes: Seq<u8>) -> bool {
    &&& frame_mode(bytes) is Some
    &&& valid_utf8(frame_payload(bytes))
}

impl ElectionMsg {
    /// Writes the message into its 1024-byte frame.
    #[allow(non_snake_case)]
    pub fn toBytes(&self) -> (bytes: [u8; 1024])
        requires
            payload_fits(self.data@),
        ensures
            bytes@ == frame_bytes(self.mode, self.data@),
    {
        let mut bytes = [0u8; 1024];
        match self.mode {
            ElectionMsgMode::Ack => {
                bytes[0] = 65;
                bytes[1] = 67;
                bytes[2] = 75;
            },
            ElectionMsgMode::Msg => {
                bytes[0] = 77;
                bytes[1] = 83;
                bytes[2] = 71;
            },
        }
        let payload = self.data.as_str().as_bytes();
        let n = payload.len();
        let mut i: usize = 0;
        while i < n
            invariant
                n == payload@.len(),
                n <= PAYLOAD_ROOM,
                i <= n,
                bytes@.len() == FRAME_LEN,
                bytes@.subrange(0, 3) == tag_bytes(self.mode),
                forall|j: int| 0 <= j < i ==> bytes@[3 + j] == payload@[j],
                forall|j: int| 3 + i <= j < FRAME_LEN ==> bytes@[j] == 0u8,
            decreases n - i,
        {
            bytes[3 + i] = payload[i];
            i = i + 1;
        }
        assert(bytes@ =~= frame_bytes(self.mode, self.data@));
        bytes
    }

    /// Reads a message back from its frame; the payload keeps the padding.
    pub fn from_bytes(bytes: &[u8; 1024]) -> (msg: ElectionMsg)
        requires
            frame_readable(bytes@),
        ensures
            frame_mode(bytes@) == Some(msg.mode),
            msg.data@ == decode_utf8(frame_payload(bytes@)),
    {
        let mode = if bytes[0] == 65 && bytes[1] == 67 && bytes[2] == 75 {
            ElectionMsgMode::Ack
        } else {
            ElectionMsgMode::Msg
        };
        assert(bytes@.subrange(0, 3) =~= seq![bytes@[0], bytes@[1], bytes@[2]]);
        let mut rest: Vec<u8> = Vec::new();
        let mut i: usize = 3;
        while i < FRAME_LEN
            invariant
                3 <= i <= FRAME_LEN,
                bytes@.len() == FRAME_LEN,
                rest@ == bytes@.subrange(3, i as int),
            decreases FRAME_LEN - i,
        {
            rest.push(bytes[i]);
            i = i + 1;
            assert(rest@ =~= bytes@.subrange(3, i as int));
        }
        let data = utf8_string(rest).unwrap();
        ElectionMsg { mode, data }
    }
}


/// `n` zero bytes are the UTF-8 encoding of `n` NUL characters.
pub proof fn lemma_zero_bytes_encode_nuls(n: nat)
    ensures
        encode_utf8(nul_chars(n)) == zero_bytes(n),
{
    let z = zero_bytes(n);
    lemma_ascii_is_utf8(z);
    assert(ascii_chars(z) =~= nul_chars(n));
    decode_utf8_encode_utf8(z);
}

/// Round trip of the election frame: reading back the frame that `toBytes`
/// writes gives the same mode, and the payload followed by the NUL padding.
pub proof fn law_election_frame_round_trip(mode: ElectionMsgMode, data: Seq<char>)
    requires
        payload_fits(data),
    ensures
        frame_readable(frame_bytes(mode, data)),
        frame_mode(frame_bytes(mode, data)) == Some(mode),
        decode_utf8(frame_payload(frame_bytes(mode, data))) == data + nul_chars(
            (PAYLOAD_ROOM - encode_utf8(data).len()) as nat,
        ),
{
    let pad = (PAYLOAD_ROOM - encode_utf8(data).len()) as nat;
    let frame = frame_bytes(mode, data);
    let full = data + nul_chars(pad);
    assert(frame.subrange(0, 3) =~= tag_bytes(mode));
    assert(tag_bytes(ElectionMsgMode::Ack)[0] != tag_bytes(ElectionMsgMode::Msg)[0]);
    lemma_zero_bytes_encode_nuls(pad);
    lemma_encode_concat(data, nul_chars(pad));
    assert(frame_payload(frame) =~= encode_utf8(data) + zero_bytes(pad));
    assert(frame_payload(frame) == encode_utf8(full));
    encode_utf8_valid_utf8(full);
    encode_utf8_decode_utf8(full);
}

} // verus!
