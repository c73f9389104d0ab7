//! The request receiver of a server: how it answers each datagram, how it
//! keeps count of queued requests, and what one round of the election sends.
use crate::server::election::{frame_mode, frame_readable, ElectionMsg, ElectionMsgMode};
use crate::server::ring::{election_addrs, election_addrs_spec, ring_index, ring_index_spec, RING_SIZE};
use crate::text::{
    decimal, decimal_chars, lemma_decimal_encoding, lemma_decimal_len, pow10, replace_all,
    replace_char, utf8_string,
};
use rand::Rng;
use vstd::prelude::*;
use vstd::utf8::*;

verus! {

/// Offset between the port that receives requests and the port that sends
/// the processed requests back.
pub const REQUEST_PORT_OFFSET: u16 = 100;

/// What the first byte of a datagram says it is.
#[derive(Clone, Copy, Debug, PartialEq, Eq, Structural)]
pub enum PacketKind {
    /// A client asks for the current load (first byte 2).
    LoadQuery,
    /// An acknowledgement, which needs no answer (first byte 1).
    Ack,
    /// A request to be queued and processed (any other first byte).
    Request,
}

/// The kind of a datagram, by its first byte.
pub open spec fn packet_kind(first: u8) -> PacketKind {
    if first == 2 {
        PacketKind::LoadQuery
    } else if first == 1 {
        PacketKind::Ack
    } else {
        PacketKind::Request
    }
}

/// Classifies a datagram by its first byte.
pub fn classify(first: u8) -> (k: PacketKind)
    ensures
        k == packet_kind(first),
{
    if first == 2 {
        PacketKind::LoadQuery
    } else if first == 1 {
        PacketKind::Ack
    } else {
        PacketKind::Request
    }
}

/// An event that moves the load of a server.
#[derive(Clone, Copy, Debug, PartialEq, Eq, Structural)]
pub enum ServerEvent {
    /// A datagram arrived; its first byte.
    Datagram(u8),
    /// A queued request was processed.
    Handled,
}

/// The load after one event.
pub open spec fn load_after_event(load: int, e: ServerEvent) -> int {
    match e {
        ServerEvent::Datagram(first) => if packet_kind(first) == PacketKind::Request {
            load + 1
        } else {
            load
        },
        ServerEvent::Handled => load - 1,
    }
}

/// The load after a sequence of events, in order.
pub open spec fn load_after(load: int, events: Seq<ServerEvent>) -> int
    decreases events.len(),
{
    if events.len() == 0 {
        load
    } else {
        load_after_event(load_after(load, events.drop_last()), events.last())
    }
}

/// How many of the events are requests that arrived.
pub open spec fn requests_in(events: Seq<ServerEvent>) -> int
    decreases events.len(),
{
    if events.len() == 0 {
        0
    } else {
        requests_in(events.drop_last()) + match events.last() {
            ServerEvent::Datagram(first) => if packet_kind(first) == PacketKind::Request {
                1int
            } else {
                0int
            },
            ServerEvent::Handled => 0int,
        }
    }
}

/// How many of the events are processed requests.
pub open spec fn handled_in(events: Seq<ServerEvent>) -> int
    decreases events.len(),
{
    if events.len() == 0 {
        0
    } else {
        handled_in(events.drop_last()) + if events.last() == ServerEvent::Handled {
            1int
        } else {
            0int
        }
    }
}

/// The load counts the requests that arrived and are not yet processed: load
/// queries and acknowledgements leave it as it is.
pub proof fn law_load_counts_pending_requests(load: int, events: Seq<ServerEvent>)
    ensures
        load_after(load, events) == load + requests_in(events) - handled_in(events),
    decreases events.len(),
{
    if events.len() > 0 {
        law_load_counts_pending_requests(load, events.drop_last());
    }
}

/// A step of a server's two threads at which its load or its queue changes:
/// the listening thread counts a request (`on_datagram`) and then queues it;
/// the handling thread takes a request off the queue and then uncounts it
/// (`handle_request`).
#[derive(Clone, Copy, Debug, PartialEq, Eq, Structural)]
pub enum ServerStep {
    Counted,
    Enqueued,
    Dequeued,
    Uncounted,
}

/// The load and queue of a server, and whether each thread is between its
/// two steps.
pub struct ServerModel {
    pub load: int,
    pub queue: int,
    pub counting: bool,
    pub handling: bool,
}

/// The model after one step, or `None` when the step cannot happen there: each
/// thread does its two steps in turn, and a request is taken off the queue
/// only when one waits there (the handling thread blocks otherwise).
pub open spec fn model_step(m: ServerModel, step: ServerStep) -> Option<ServerModel> {
    match step {
        ServerStep::Counted => if !m.counting {
            Some(ServerModel { load: m.load + 1, queue: m.queue, counting: true, handling: m.handling })
        } else {
            None
        },
        ServerStep::Enqueued => if m.counting {
            Some(ServerModel { load: m.load, queue: m.queue + 1, counting: false, handling: m.handling })
        } else {
            None
        },
        ServerStep::Dequeued => if !m.handling && m.queue > 0 {
            Some(ServerModel { load: m.load, queue: m.queue - 1, counting: m.counting, handling: true })
        } else {
            None
        },
        ServerStep::Uncounted => if m.handling {
            Some(ServerModel { load: m.load - 1, queue: m.queue, counting: m.counting, handling: false })
        } else {
            None
        },
    }
}

/// The model after a sequence of steps from a fresh server, or `None` when
/// one of them cannot happen.
pub open spec fn model_after(steps: Seq<ServerStep>) -> Option<ServerModel>
    decreases steps.len(),
{
    if steps.len() == 0 {
        Some(ServerModel { load: 0, queue: 0, counting: false, handling: false })
    } else {
        match model_after(steps.drop_last()) {
            Some(m) => model_step(m, steps.last()),
            None => None,
        }
    }
}

/// However the two threads interleave, the load is the number of queued
/// requests plus those between the two steps of a thread; so it is never
/// below the length of the queue, the queue is never negative, and when the
/// handling thread is about to uncount a request the load is at least one, so
/// the decrement never goes below zero.
pub proof fn law_load_bounds_queue(steps: Seq<ServerStep>)
    ensures
        model_after(steps) matches Some(m) ==> {
            &&& m.load == m.queue + (if m.counting {
                1int
            } else {
                0int
            }) + (if m.handling {
                1int
            } else {
                0int
            })
            &&& m.queue >= 0
            &&& m.load >= m.queue
            &&& m.handling ==> m.load >= 1
        },
    decreases steps.len(),
{
    if steps.len() > 0 {
        law_load_bounds_queue(steps.drop_last());
    }
}

/// The big-endian bytes of a load value.
pub open spec fn load_bytes_spec(load: u16) -> Seq<u8> {
    seq![(load / 256) as u8, (load % 256) as u8]
}

/// Writes a load value as two big-endian bytes.
pub fn load_to_bytes(load: u16) -> (b: [u8; 2])
    ensures
        b@ == load_bytes_spec(load),
        b@[0] as nat * 256 + b@[1] as nat == load as nat,
{
    let b = [(load / 256) as u8, (load % 256) as u8];
    assert(b@ =~= load_bytes_spec(load));
    b
}

/// The port that sends processed requests back, for a server listening on `port`.
pub fn request_port(port: u16) -> (p: u16)
    requires
        port <= u16::MAX - REQUEST_PORT_OFFSET,
    ensures
        p == port + REQUEST_PORT_OFFSET,
{
    port + REQUEST_PORT_OFFSET
}

/// What the receiver does with one datagram.
#[derive(Clone, Copy, Debug, PartialEq, Eq)]
pub enum ListenAction {
    /// Send these bytes (the current load) back to the sender.
    ReplyLoad([u8; 2]),
    /// Do nothing.
    Ignore,
    /// Put the datagram on the queue of requests to process.
    Enqueue,
}

/// The next step of delivering an election message, after one attempt.
#[derive(Clone, Copy, Debug, PartialEq, Eq)]
pub enum ElectionStep {
    /// The peer acknowledged: delivery is over.
    Done,
    /// The peer sent a message of its own: try the same peer again.
    Retry(usize),
    /// No answer: try the next peer.
    NextPeer(usize),
    /// No answer, and no peer follows in the ring: delivery has failed.
    EndOfRing,
}

/// What one round of the election sends: the ballot text, to both peers.
pub struct ElectionRound {
    pub ballot: String,
    pub peers: [usize; 2],
}

/// The state of a server's request receiver.
pub struct RequestReceiver {
    /// The address the server listens on.
    pub addr: String,
    /// The position of the server in the ring of three.
    pub index: usize,
    /// Requests received and not yet processed.
    pub load: u16,
    /// The election addresses of the ring, in ring order.
    pub election_ports: Vec<String>,
}

/// The ring position that follows `index` by `step` places, in a ring of three.
pub open spec fn ring_peer(index: usize, step: int) -> usize {
    ((index + step) % 3) as usize
}

/// The two election peers of a server are the two other positions of the ring.
pub proof fn law_election_peers_are_the_others(index: usize)
    requires
        index < 3,
    ensures
        ring_peer(index, 1) < 3,
        ring_peer(index, 2) < 3,
        ring_peer(index, 1) != index,
        ring_peer(index, 2) != index,
        ring_peer(index, 1) != ring_peer(index, 2),
{
}

/// The step that follows one delivery attempt of an election message.
pub open spec fn election_step_spec(peer: usize, reply: Option<Seq<u8>>) -> ElectionStep {
    match reply {
        None => if peer + 1 < RING_SIZE {
            ElectionStep::NextPeer((peer + 1) as usize)
        } else {
            ElectionStep::EndOfRing
        },
        Some(bytes) => if frame_mode(bytes) == Some(ElectionMsgMode::Msg) {
            ElectionStep::Retry(peer)
        } else {
            ElectionStep::Done
        },
    }
}

/// The name of the file a server logs its load to.
pub open spec fn stats_file_name_spec(addr: Seq<char>) -> Seq<char> {
    replace_char(addr, ':', "-"@) + ".txt"@
}

impl RequestReceiver {
    /// A receiver for the server at `addr`, in ring position `index`, with no load.
    pub fn new(addr: String, index: usize) -> (r: RequestReceiver)
        requires
            index < 3,
        ensures
            r.addr@ == addr@,
            r.index == index,
            r.load == 0,
            r.election_ports.deep_view() == election_addrs_spec(),
    {
        RequestReceiver { addr, index, load: 0, election_ports: election_addrs() }
    }

    /// A receiver for the server at `addr`, with no load, in the ring position
    /// that belongs to that address (position 0 for an unknown address).
    pub fn from_address(addr: String) -> (r: RequestReceiver)
        ensures
            r.addr@ == addr@,
            r.index == ring_index_spec(addr@),
            r.load == 0,
            r.election_ports.deep_view() == election_addrs_spec(),
    {
        let index = ring_index(addr.as_str());
        RequestReceiver::new(addr, index)
    }

    /// Answers one datagram: a load query gets the load back, an
    /// acknowledgement is ignored, and a request is queued and counted.
    pub fn on_datagram(&mut self, buf: &[u8; 100]) -> (action: ListenAction)
        requires
            packet_kind(buf@[0]) == PacketKind::Request ==> old(self).load < u16::MAX,
        ensures
            final(self).addr == old(self).addr,
            final(self).index == old(self).index,
            final(self).load == load_after_event(old(self).load as int, ServerEvent::Datagram(buf@[0])),
            match packet_kind(buf@[0]) {
                PacketKind::LoadQuery => {
                    &&& action matches ListenAction::ReplyLoad(b) && b@ == load_bytes_spec(
                        old(self).load,
                    )
                    &&& final(self).load == old(self).load
                },
                PacketKind::Ack => {
                    &&& action == ListenAction::Ignore
                    &&& final(self).load == old(self).load
                },
                PacketKind::Request => {
                    &&& action == ListenAction::Enqueue
                    &&& final(self).load == old(self).load + 1
                },
            },
    {
        match classify(buf[0]) {
            PacketKind::LoadQuery => ListenAction::ReplyLoad(load_to_bytes(self.load)),
            PacketKind::Ack => ListenAction::Ignore,
            PacketKind::Request => {
                self.load = self.load + 1;
                ListenAction::Enqueue
            },
        }
    }

    /// Takes one queued request off the count and gives its text, which the
    /// server prints before it sends the request back unchanged.
    pub fn handle_request(&mut self, request: &[u8; 100]) -> (text: String)
        requires
            old(self).load > 0,
            valid_utf8(request@),
        ensures
            final(self).addr == old(self).addr,
            final(self).index == old(self).index,
            final(self).load == old(self).load - 1,
            final(self).load == load_after_event(old(self).load as int, ServerEvent::Handled),
            text@ == decode_utf8(request@),
    {
        self.load = self.load - 1;
        let mut bytes: Vec<u8> = Vec::new();
        let mut i: usize = 0;
        while i < 100
            invariant
                i <= 100,
                request@.len() == 100,
                bytes@ == request@.subrange(0, i as int),
            decreases 100 - i,
        {
            bytes.push(request[i]);
            i = i + 1;
            assert(bytes@ =~= request@.subrange(0, i as int));
        }
        assert(bytes@ =~= request@);
        utf8_string(bytes).unwrap()
    }

    /// The file the load log goes to: the address with `:` replaced by `-`,
    /// and `.txt` appended.
    pub fn stats_file_name(&self) -> (name: String)
        ensures
            name@ == stats_file_name_spec(self.addr@),
    {
        let base = replace_all(self.addr.as_str(), ':', "-");
        base.concat(".txt")
    }

    /// One line of the load log: the current load in decimal.
    pub fn load_log_line(&self) -> (line: String)
        ensures
            line@ == decimal_chars(self.load as nat),
    {
        decimal(self.load as u64)
    }

    /// The two other servers of the ring, in the order they are sent to.
    pub fn election_peers(&self) -> (peers: [usize; 2])
        requires
            self.index < 3,
        ensures
            peers@ == seq![ring_peer(self.index, 1), ring_peer(self.index, 2)],
    {
        let peers = [(self.index + 1) % 3, (self.index + 2) % 3];
        assert(peers@ =~= seq![ring_peer(self.index, 1), ring_peer(self.index, 2)]);
        peers
    }

    /// One round of the election with the given ballot: the ballot in
    /// decimal, for both other servers of the ring.
    pub fn election_round(&self, ballot: u8) -> (round: ElectionRound)
        requires
            self.index < 3,
        ensures
            round.ballot@ == decimal_chars(ballot as nat),
            round.peers@ == seq![ring_peer(self.index, 1), ring_peer(self.index, 2)],
    {
        ElectionRound { ballot: decimal(ballot as u64), peers: self.election_peers() }
    }

    /// One round of the election: a ballot drawn at random from 0, 1 and 2,
    /// written in decimal, for both other servers of the ring.
    pub fn election(&self) -> (round: ElectionRound)
        requires
            self.index < 3,
        ensures
            exists|b: nat| b < 3 && round.ballot@ == decimal_chars(b),
            round.peers@ == seq![ring_peer(self.index, 1), ring_peer(self.index, 2)],
    {
        let b = draw_in_range(0, 3);
        self.election_round(b as u8)
    }

    /// The first peer an election message goes to: the next position of the
    /// ring, or `None` when this server is the last one.
    pub fn first_election_peer(&self) -> (peer: Option<usize>)
        ensures
            peer == (if self.index + 1 < RING_SIZE {
                Some((self.index + 1) as usize)
            } else {
                None::<usize>
            }),
    {
        if self.index < RING_SIZE - 1 {
            Some(self.index + 1)
        } else {
            None
        }
    }
}

/// The acknowledgement that carries a ballot: mode `ACK`, the number in decimal.
pub fn election_message(ballot: u32) -> (bytes: [u8; 1024])
    ensures
        bytes@ == crate::server::election::frame_bytes(
            ElectionMsgMode::Ack,
            decimal_chars(ballot as nat),
        ),
{
    let msg = ElectionMsg { mode: ElectionMsgMode::Ack, data: decimal(ballot as u64) };
    proof {
        lemma_decimal_fits(ballot);
    }
    msg.toBytes()
}

/// Decides what follows one delivery attempt of an election message to `peer`:
/// no answer moves on to the next peer (or ends at the end of the ring), a
/// `MSG` answer is handled and the same peer is tried again, an `ACK` answer
/// ends the delivery.
pub fn election_reply(peer: usize, reply: Option<&[u8; 1024]>) -> (step: ElectionStep)
    requires
        peer < RING_SIZE,
        reply matches Some(b) ==> frame_readable(b@),
    ensures
        step matches ElectionStep::Retry(p) ==> p < RING_SIZE,
        step matches ElectionStep::NextPeer(p) ==> p < RING_SIZE,
        reply matches Some(b) ==> (frame_mode(b@) == Some(ElectionMsgMode::Msg) ==> step
            == ElectionStep::Retry(peer)),
        reply matches Some(b) ==> (frame_mode(b@) == Some(ElectionMsgMode::Ack) ==> step
            == ElectionStep::Done),
        reply is None ==> (step == if peer + 1 < RING_SIZE {
            ElectionStep::NextPeer((peer + 1) as usize)
        } else {
            ElectionStep::EndOfRing
        }),
        step == election_step_spec(
            peer,
            match reply {
                Some(b) => Some(b@),
                None => None,
            },
        ),
{
    match reply {
        None => if peer < RING_SIZE - 1 {
            ElectionStep::NextPeer(peer + 1)
        } else {
            ElectionStep::EndOfRing
        },
        Some(bytes) => {
            let msg = ElectionMsg::from_bytes(bytes);
            match msg.mode {
                ElectionMsgMode::Msg => ElectionStep::Retry(peer),
                ElectionMsgMode::Ack => ElectionStep::Done,
            }
        },
    }
}

/// A decimal `u32` takes at most ten ASCII bytes, so it fits in a frame.
proof fn lemma_decimal_fits(n: u32)
    ensures
        crate::server::election::payload_fits(decimal_chars(n as nat)),
{
    assert(pow10(10) == 10_000_000_000) by {
        reveal_with_fuel(pow10, 11);
    }
    lemma_decimal_len(n as nat, 10);
    lemma_decimal_encoding(n as nat);
}

/// `rand::thread_rng().gen_range(low..high)`: every outcome lies in
/// `low..high`; the range must not be empty, or `gen_range` panics.
#[verifier::external_body]
fn draw_in_range(low: i8, high: i8) -> (b: i8)
    requires
        low < high,
    ensures
        low <= b < high,
{
    rand::thread_rng().gen_range(low..high)
}

/// The load reply is the big-endian form of the load: the first byte counts
/// units of 256 and the second the rest, so the two bytes together read as the
/// load, and each byte is below 256.
pub proof fn law_load_reply_is_big_endian(load: u16)
    ensures
        load_bytes_spec(load).len() == 2,
        load_bytes_spec(load)[0] as nat * 256 + load_bytes_spec(load)[1] as nat == load as nat,
        load_bytes_spec(load)[0] as nat == load as nat / 256,
        load_bytes_spec(load)[1] as nat == load as nat % 256,
{
}

/// Delivery of an election message, for every peer and reply: a `MSG` answer
/// keeps the delivery on the peer that sent it, an `ACK` answer ends it, and no
/// answer moves on to the following peer, or ends at the end of the ring.
pub proof fn law_election_step(peer: usize, reply: Seq<u8>)
    requires
        peer < RING_SIZE,
    ensures
        frame_mode(reply) == Some(ElectionMsgMode::Msg) ==> election_step_spec(peer, Some(reply))
            == ElectionStep::Retry(peer),
        frame_mode(reply) == Some(ElectionMsgMode::Ack) ==> election_step_spec(peer, Some(reply))
            == ElectionStep::Done,
        peer + 1 < RING_SIZE ==> election_step_spec(peer, None) == ElectionStep::NextPeer(
            (peer + 1) as usize,
        ),
        peer + 1 == RING_SIZE ==> election_step_spec(peer, None) == ElectionStep::EndOfRing,
{
}

} // verus!
