//! Properties of the exchanges between the parts: what one side sends is
//! read by the other side as intended.
use crate::chat::request_frame;
use crate::client::receiver::{ack_frame, datagram_text};
use crate::client::sender::{load_probe_spec, load_value, reply_matches_spec};
use crate::server::election::{
    frame_bytes, law_election_frame_round_trip, lemma_zero_bytes_encode_nuls, nul_chars,
    payload_fits, zero_bytes, ElectionMsgMode, PAYLOAD_ROOM,
};
use crate::server::receiver::{load_bytes_spec, packet_kind, PacketKind};
use crate::text::{lemma_encode_concat, strip_end_char, strip_start_char, without_nul_ends};
use vstd::prelude::*;
use vstd::utf8::*;

verus! {

/// Size of the buffer a server receives requests into.
pub const REQUEST_LEN: usize = 100;

/// True when no character of `m` is NUL.
pub open spec fn has_no_nul(m: Seq<char>) -> bool {
    forall|i: int| 0 <= i < m.len() ==> #[trigger] m[i] != '\0'
}

/// What a server's 100-byte buffer holds after it receives message `m`, and
/// so what it sends back: the UTF-8 bytes of `m`, then zeros.
pub open spec fn echo_buffer(m: Seq<char>) -> Seq<u8> {
    encode_utf8(m) + zero_bytes((REQUEST_LEN - encode_utf8(m).len()) as nat)
}

proof fn lemma_strip_start_nuls(k: nat)
    ensures
        strip_start_char(nul_chars(k), '\0') == Seq::<char>::empty(),
    decreases k,
{
    if k > 0 {
        assert(nul_chars(k).drop_first() =~= nul_chars((k - 1) as nat));
        lemma_strip_start_nuls((k - 1) as nat);
    } else {
        assert(nul_chars(0) =~= Seq::<char>::empty());
    }
}

proof fn lemma_strip_end_nuls(m: Seq<char>, k: nat)
    requires
        has_no_nul(m),
    ensures
        strip_end_char(m + nul_chars(k), '\0') == m,
    decreases k,
{
    if k > 0 {
        assert((m + nul_chars(k)).drop_last() =~= m + nul_chars((k - 1) as nat));
        lemma_strip_end_nuls(m, (k - 1) as nat);
    } else {
        assert(m + nul_chars(0) =~= m);
        if m.len() > 0 {
            assert(m.last() != '\0');
        }
    }
}

/// Padding a text without NUL characters by NULs, then trimming the NULs off
/// both ends, gives the text back.
pub proof fn lemma_nul_padding_trimmed(m: Seq<char>, k: nat)
    requires
        has_no_nul(m),
    ensures
        without_nul_ends(m + nul_chars(k)) == m,
{
    if m.len() > 0 {
        assert((m + nul_chars(k))[0] == m[0]);
        lemma_strip_end_nuls(m, k);
    } else {
        assert(m + nul_chars(k) =~= nul_chars(k));
        lemma_strip_start_nuls(k);
        lemma_strip_end_nuls(m, 0);
        assert(m + nul_chars(0) =~= m);
    }
}

/// The first byte of the UTF-8 encoding of a character is 1 or 2 only for
/// the characters U+0001 and U+0002.
proof fn lemma_first_byte(c: char)
    ensures
        (encode_scalar(c as u32)[0] == 1u8) <==> (c as u32 == 1),
        (encode_scalar(c as u32)[0] == 2u8) <==> (c as u32 == 2),
{
    let v = c as u32;
    if has_width_1_encoding(v) {
        assert((v & 0x7F) as u8 == v) by (bit_vector)
            requires
                v <= 0x7F,
        ;
    } else if has_width_2_encoding(v) {
        assert(0xC0 | ((v >> 6) & 0x1F) as u8 >= 0xC0) by (bit_vector);
    } else if has_width_3_encoding(v) {
        assert(0xE0 | ((v >> 12) & 0x0F) as u8 >= 0xE0) by (bit_vector);
    } else {
        assert(0xF0 | ((v >> 18) & 0x7) as u8 >= 0xF0) by (bit_vector);
    }
}

/// Echo: a message without NUL characters that fits in the server's buffer
/// comes back as a buffer that the server can print, whose text is the
/// message followed by NULs, and that the client accepts as the answer to the
/// message. The server queues it as a request unless it starts with U+0001
/// or U+0002.
pub proof fn law_echo_is_accepted(m: Seq<char>)
    requires
        has_no_nul(m),
        encode_utf8(m).len() <= REQUEST_LEN,
    ensures
        echo_buffer(m).len() == REQUEST_LEN,
        valid_utf8(echo_buffer(m)),
        decode_utf8(echo_buffer(m)) == m + nul_chars(
            (REQUEST_LEN - encode_utf8(m).len()) as nat,
        ),
        reply_matches_spec(echo_buffer(m), m),
        (m.len() == 0 || (m[0] as u32 != 1 && m[0] as u32 != 2)) ==> packet_kind(
            echo_buffer(m)[0],
        ) == PacketKind::Request,
{
    let k = (REQUEST_LEN - encode_utf8(m).len()) as nat;
    let full = m + nul_chars(k);
    lemma_zero_bytes_encode_nuls(k);
    lemma_encode_concat(m, nul_chars(k));
    assert(echo_buffer(m) == encode_utf8(full));
    encode_utf8_valid_utf8(full);
    encode_utf8_decode_utf8(full);
    lemma_nul_padding_trimmed(m, k);
    if m.len() == 0 {
        assert(encode_utf8(m) =~= Seq::<u8>::empty());
        assert(echo_buffer(m)[0] == 0u8);
    } else {
        lemma_first_byte(m[0]);
        assert(echo_buffer(m)[0] == encode_scalar(m[0] as u32)[0]);
    }
}

/// Load probe: the client's probe is read by a server as a load query, and the
/// client reads the server's two-byte answer back as the load itself.
pub proof fn law_load_probe_answered(load: u16)
    ensures
        packet_kind(load_probe_spec()[0]) == PacketKind::LoadQuery,
        load_value(load_bytes_spec(load)) == load,
{
}

/// Console exchange: a line framed by the console sender and padded into the
/// receiver's 1000-byte buffer is shown as the trimmed line followed by NULs,
/// and is acknowledged; the acknowledgement itself starts with byte 1, so it
/// is never acknowledged in turn.
pub proof fn law_console_line_acknowledged(line: Seq<char>, addr: Seq<char>)
    requires
        request_frame(line).len() <= 1000,
    ensures
        ({
            let buf = request_frame(line) + zero_bytes((1000 - request_frame(line).len()) as nat);
            &&& buf.len() == 1000
            &&& buf[0] == 0u8
            &&& valid_utf8(datagram_text(buf))
            &&& decode_utf8(datagram_text(buf)) == crate::text::trimmed(line) + nul_chars(
                (1000 - request_frame(line).len()) as nat,
            )
        }),
        ack_frame(addr)[0] == 1u8,
{
    let t = crate::text::trimmed(line);
    let k = (1000 - request_frame(line).len()) as nat;
    let buf = request_frame(line) + zero_bytes(k);
    let full = t + nul_chars(k);
    lemma_zero_bytes_encode_nuls(k);
    lemma_encode_concat(t, nul_chars(k));
    assert(datagram_text(buf) =~= encode_utf8(t) + zero_bytes(k));
    encode_utf8_valid_utf8(full);
    encode_utf8_decode_utf8(full);
}

/// Election frames tell messages apart: two messages whose payloads hold no
/// NUL character and fit in a frame have the same frame only when they have
/// the same mode and the same payload.
pub proof fn law_election_frame_injective(
    mode1: ElectionMsgMode,
    data1: Seq<char>,
    mode2: ElectionMsgMode,
    data2: Seq<char>,
)
    requires
        payload_fits(data1),
        payload_fits(data2),
        has_no_nul(data1),
        has_no_nul(data2),
        frame_bytes(mode1, data1) == frame_bytes(mode2, data2),
    ensures
        mode1 == mode2,
        data1 == data2,
{
    law_election_frame_round_trip(mode1, data1);
    law_election_frame_round_trip(mode2, data2);
    let k1 = (PAYLOAD_ROOM - encode_utf8(data1).len()) as nat;
    let k2 = (PAYLOAD_ROOM - encode_utf8(data2).len()) as nat;
    lemma_nul_padding_trimmed(data1, k1);
    lemma_nul_padding_trimmed(data2, k2);
}

} // verus!
