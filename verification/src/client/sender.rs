//! The request sender of a client: the server list it reads, the choice of
//! the least loaded server, the check of replies, and its statistics.
use crate::text::{
    decimal, decimal_chars, decimal_value, is_decimal_digits, law_decimal_reads_back, str_equal,
    trim, trim_char, trimmed, utf8_string, without_nul_ends,
};
use vstd::prelude::*;
use vstd::utf8::*;

verus! {

/// Number of servers whose traffic the statistics keep apart.
pub const TRACKED_SERVERS: usize = 3;

/// What the server list names, as `serde_json::from_str::<Vec<String>>`
/// reads it from the given text (`None` where it reports an error).
pub uninterp spec fn server_list_json(text: Seq<char>) -> Option<Seq<Seq<char>>>;

/// The error type of `serde_json`.
#[verifier::external_type_specification]
#[verifier::external_body]
pub struct ExJsonError(serde_json::Error);

/// `serde_json::from_str::<Vec<String>>`: its result depends on the text
/// alone, and is named `server_list_json`; nothing more is stated of it.
#[verifier::external_body]
fn parse_server_list(text: &str) -> (r: Result<Vec<String>, serde_json::Error>)
    ensures
        r is Ok <==> server_list_json(text@) is Some,
        r matches Ok(v) ==> v.deep_view() == server_list_json(text@)->0,
{
    serde_json::from_str::<Vec<String>>(text)
}

/// Why a sender could not be set up.
#[derive(Clone, Copy, Debug, PartialEq, Eq, Structural)]
pub enum ConfigError {
    /// The server list is not a JSON array of strings.
    InvalidServerList,
}

/// Counts for one server in the statistics.
pub struct ServerStat {
    pub name: String,
    pub num_sent: u32,
    pub num_ackd: u32,
}

/// The statistics of one client.
pub struct ClientStats {
    pub name: String,
    pub total_sent: u128,
    pub total_successful: u128,
    pub avg_response_time: u128,
    pub server_stats: Vec<ServerStat>,
}

/// The server with the least load seen in the current polling round.
#[derive(Clone, Copy, Debug, PartialEq, Eq, Structural)]
pub struct LeastLoaded {
    /// The server that requests go to.
    pub min_server: u16,
    /// The least load seen in the current round (`u16::MAX` when none yet).
    pub min_load: u16,
}

/// The datagram that asks a server for its load.
pub open spec fn load_probe_spec() -> Seq<u8> {
    seq![2u8, 2u8]
}

/// Builds the datagram that asks a server for its load.
pub fn load_probe() -> (b: [u8; 2])
    ensures
        b@ == load_probe_spec(),
{
    let b = [2u8, 2u8];
    assert(b@ =~= load_probe_spec());
    b
}

/// The value of a two-byte big-endian load reply.
pub open spec fn load_value(b: Seq<u8>) -> u16 {
    (b[0] * 256 + b[1]) as u16
}

/// Reads a two-byte big-endian load reply.
pub fn load_from_bytes(b: [u8; 2]) -> (v: u16)
    ensures
        v == load_value(b@),
        v as nat == b@[0] as nat * 256 + b@[1] as nat,
{
    (b[0] as u16) * 256 + (b[1] as u16)
}

/// The tracker after the load reply (if any) of `server` is taken into account.
pub open spec fn observed(t: LeastLoaded, server: u16, load: Option<u16>) -> LeastLoaded {
    match load {
        Some(v) => if v < t.min_load {
            LeastLoaded { min_server: server, min_load: v }
        } else {
            t
        },
        None => t,
    }
}

/// The tracker after the replies of servers `0 .. loads.len()`, in order.
pub open spec fn after_round(t: LeastLoaded, loads: Seq<Option<u16>>) -> LeastLoaded
    decreases loads.len(),
{
    if loads.len() == 0 {
        t
    } else {
        observed(after_round(t, loads.drop_last()), (loads.len() - 1) as u16, loads.last())
    }
}

impl LeastLoaded {
    /// The tracker before any round: server 0, no load seen.
    pub fn new() -> (t: LeastLoaded)
        ensures
            t.min_server == 0,
            t.min_load == u16::MAX,
    {
        LeastLoaded { min_server: 0, min_load: u16::MAX }
    }

    /// Takes the reply of `server` to a load query into account; `None` stands
    /// for a query that got no reply.
    pub fn observe(&mut self, server: u16, reply: Option<[u8; 2]>)
        ensures
            *final(self) == observed(
                *old(self),
                server,
                match reply {
                    Some(b) => Some(load_value(b@)),
                    None => None,
                },
            ),
    {
        match reply {
            Some(b) => {
                let v = load_from_bytes(b);
                if v < self.min_load {
                    self.min_load = v;
                    self.min_server = server;
                }
            },
            None => {},
        }
    }

    /// Starts a new polling round: forgets the least load, keeps the server.
    pub fn end_round(&mut self)
        ensures
            final(self).min_server == old(self).min_server,
            final(self).min_load == u16::MAX,
    {
        self.min_load = u16::MAX;
    }
}

/// The state of a client's request sender, without its sockets.
pub struct RequestSender {
    pub name: String,
    pub servers: Vec<String>,
    /// For each tracked server: requests sent, and requests answered.
    pub messages_per_server: [(u32, u32); 3],
    /// Answered requests, and their average response time in microseconds.
    pub avg_request_time: (u128, u128),
    pub total_sent: u128,
    /// The server of the last request sent, while its answer is awaited.
    pub pending: Option<u16>,
}

/// Requests sent to the tracked servers, in all.
pub open spec fn sent_sum(per_server: Seq<(u32, u32)>) -> int {
    per_server[0].0 + per_server[1].0 + per_server[2].0
}

/// The counters of a sender, as integers: requests sent and answered per
/// tracked server, the totals, and the server whose answer is awaited.
pub struct Counters {
    pub sent: Seq<int>,
    pub answered: Seq<int>,
    pub total_sent: int,
    pub total_answered: int,
    pub pending: Option<int>,
}

/// What happens to the counters: a request sent to a tracked server, or a
/// matching answer arriving.
pub enum CounterEvent {
    Sent(int),
    Answered,
}

/// The counters of a new sender.
pub open spec fn zero_counters() -> Counters {
    Counters {
        sent: seq![0int, 0int, 0int],
        answered: seq![0int, 0int, 0int],
        total_sent: 0,
        total_answered: 0,
        pending: None,
    }
}

/// The counters after one event: a request counts as sent and becomes the one
/// awaited; an answer counts for the awaited request's server, if any.
pub open spec fn counter_step(c: Counters, e: CounterEvent) -> Counters {
    match e {
        CounterEvent::Sent(k) => Counters {
            sent: c.sent.update(k, c.sent[k] + 1),
            answered: c.answered,
            total_sent: c.total_sent + 1,
            total_answered: c.total_answered,
            pending: Some(k),
        },
        CounterEvent::Answered => match c.pending {
            Some(k) => Counters {
                sent: c.sent,
                answered: c.answered.update(k, c.answered[k] + 1),
                total_sent: c.total_sent,
                total_answered: c.total_answered + 1,
                pending: None,
            },
            None => c,
        },
    }
}

/// The counters after a sequence of events, from those of a new sender.
pub open spec fn counters_after(events: Seq<CounterEvent>) -> Counters
    decreases events.len(),
{
    if events.len() == 0 {
        zero_counters()
    } else {
        counter_step(counters_after(events.drop_last()), events.last())
    }
}

/// The counters agree: per tracked server, answers plus the awaited one do not
/// exceed the requests sent, and the totals are the sums.
pub open spec fn counters_ok(c: Counters) -> bool {
    &&& c.sent.len() == TRACKED_SERVERS
    &&& c.answered.len() == TRACKED_SERVERS
    &&& (c.pending matches Some(p) ==> 0 <= p < TRACKED_SERVERS)
    &&& forall|k: int|
        0 <= k < TRACKED_SERVERS ==> 0 <= #[trigger] c.answered[k] && c.answered[k] + (if c.pending
            == Some(k) {
            1int
        } else {
            0int
        }) <= c.sent[k]
    &&& c.total_sent == c.sent[0] + c.sent[1] + c.sent[2]
    &&& c.total_answered == c.answered[0] + c.answered[1] + c.answered[2]
}

/// Over any sequence of sends to tracked servers and answers, starting from a
/// new sender, the counters agree: each server has answered at most the
/// requests sent to it, the total sent is the sum of the requests sent, and
/// the number of answers is the sum of the requests answered.
pub proof fn law_counters_agree_after_sends(events: Seq<CounterEvent>)
    requires
        forall|i: int|
            0 <= i < events.len() ==> (#[trigger] events[i] matches CounterEvent::Sent(k) ==> 0
                <= k < TRACKED_SERVERS),
    ensures
        counters_ok(counters_after(events)),
        forall|k: int|
            0 <= k < TRACKED_SERVERS ==> #[trigger] counters_after(events).answered[k]
                <= counters_after(events).sent[k],
        counters_after(events).total_sent == counters_after(events).sent[0] + counters_after(
            events,
        ).sent[1] + counters_after(events).sent[2],
        counters_after(events).total_answered == counters_after(events).answered[0]
            + counters_after(events).answered[1] + counters_after(events).answered[2],
    decreases events.len(),
{
    if events.len() > 0 {
        let prev = events.drop_last();
        assert forall|i: int| 0 <= i < prev.len() implies (#[trigger] prev[i] matches CounterEvent::Sent(k) ==> 0
            <= k < TRACKED_SERVERS) by {
            assert(prev[i] == events[i]);
        }
        law_counters_agree_after_sends(prev);
        assert(events.last() == events[events.len() - 1]);
        let c = counters_after(prev);
        let d = counters_after(events);
        assert forall|k: int| 0 <= k < TRACKED_SERVERS implies #[trigger] d.answered[k] <= d.sent[k] by {
            assert(0 <= c.answered[k]);
        }
    } else {
        assert forall|k: int| 0 <= k < TRACKED_SERVERS implies #[trigger] zero_counters().answered[k]
            <= zero_counters().sent[k] by {}
    }
}

/// A sender whose counters are those of a sequence of sends to tracked
/// servers and answers has consistent counters; so `get_stats` then reports
/// totals that are the sums of its per-server counts, and no server with more
/// answers than requests.
pub proof fn law_stats_agree_after_sends(s: RequestSender, events: Seq<CounterEvent>)
    requires
        forall|i: int|
            0 <= i < events.len() ==> (#[trigger] events[i] matches CounterEvent::Sent(k) ==> 0
                <= k < TRACKED_SERVERS),
        s.counters() == counters_after(events),
    ensures
        s.counters_consistent(),
{
    law_counters_agree_after_sends(events);
    let c = s.counters();
    assert(c.sent[0] == s.messages_per_server@[0].0);
    assert(c.sent[1] == s.messages_per_server@[1].0);
    assert(c.sent[2] == s.messages_per_server@[2].0);
    assert(c.answered[0] == s.messages_per_server@[0].1);
    assert(c.answered[1] == s.messages_per_server@[1].1);
    assert(c.answered[2] == s.messages_per_server@[2].1);
    assert forall|k: int| 0 <= k < TRACKED_SERVERS implies #[trigger] s.messages_per_server@[k].1 + (
    if s.pending == Some(k as u16) {
        1int
    } else {
        0int
    }) <= s.messages_per_server@[k].0 by {
        assert(c.answered[k] == s.messages_per_server@[k].1);
        assert(c.sent[k] == s.messages_per_server@[k].0);
        assert((s.pending == Some(k as u16)) == (c.pending == Some(k)));
    }
}

/// Requests answered by the tracked servers, in all.
pub open spec fn answered_sum(per_server: Seq<(u32, u32)>) -> int {
    per_server[0].1 + per_server[1].1 + per_server[2].1
}

/// The new average after one more sample, as the sender computes it.
pub open spec fn next_average(count: u128, avg: u128, sample: u128) -> int {
    (sample + count * avg) / (count + 1)
}

/// True when the reply, read as text, matches the message once both are
/// trimmed (NUL padding first, then whitespace).
pub open spec fn reply_matches_spec(reply: Seq<u8>, message: Seq<char>) -> bool {
    trimmed(without_nul_ends(decode_utf8(reply))) == trimmed(message)
}

/// Checks a reply against the message that was sent.
pub fn reply_matches(reply: &[u8; 100], message: &str) -> (r: bool)
    requires
        valid_utf8(reply@),
    ensures
        r == reply_matches_spec(reply@, message@),
{
    let mut bytes: Vec<u8> = Vec::new();
    let mut i: usize = 0;
    while i < 100
        invariant
            i <= 100,
            reply@.len() == 100,
            bytes@ == reply@.subrange(0, i as int),
        decreases 100 - i,
    {
        bytes.push(reply[i]);
        i = i + 1;
        assert(bytes@ =~= reply@.subrange(0, i as int));
    }
    assert(bytes@ =~= reply@);
    let text = utf8_string(bytes).unwrap();
    let got = trim(trim_char(text.as_str(), '\0'));
    let want = trim(message);
    str_equal(got, want)
}

/// The lines the sender prints with its statistics, joined by newlines.
pub open spec fn stats_rows(per_server: Seq<(u32, u32)>, n: nat) -> Seq<char>
    decreases n,
{
    if n == 0 {
        seq![]
    } else {
        let i = (n - 1) as nat;
        stats_rows(per_server, i) + "\n"@ + decimal_chars(i) + "\t"@ + decimal_chars(
            per_server[i as int].0 as nat,
        ) + "\t"@ + decimal_chars(per_server[i as int].1 as nat)
    }
}

/// The statistics text: a title line with the name, a header, one row per server.
pub open spec fn stats_report_spec(name: Seq<char>, per_server: Seq<(u32, u32)>) -> Seq<char> {
    "\n"@ + name + " :\nServer\tSent\tAcknowledged"@ + stats_rows(per_server, 3)
}

impl RequestSender {
    /// The counters of this sender, as integers.
    pub open spec fn counters(&self) -> Counters {
        Counters {
            sent: Seq::new(3, |k: int| self.messages_per_server@[k].0 as int),
            answered: Seq::new(3, |k: int| self.messages_per_server@[k].1 as int),
            total_sent: self.total_sent as int,
            total_answered: self.avg_request_time.0 as int,
            pending: match self.pending {
                Some(p) => Some(p as int),
                None => None,
            },
        }
    }

    /// The counters agree with each other: each server has answered at most
    /// the requests sent to it (one fewer while its answer is awaited), the
    /// total sent is the sum of the requests sent, and the number of answers
    /// behind the average is the sum of the requests answered.
    pub open spec fn counters_consistent(&self) -> bool {
        &&& (self.pending matches Some(p) ==> (p as int) < TRACKED_SERVERS)
        &&& forall|k: int|
            0 <= k < TRACKED_SERVERS ==> #[trigger] self.messages_per_server@[k].1 + (if self.pending
                == Some(k as u16) {
                1int
            } else {
                0int
            }) <= self.messages_per_server@[k].0
        &&& self.total_sent == sent_sum(self.messages_per_server@)
        &&& self.avg_request_time.0 == answered_sum(self.messages_per_server@)
    }

    /// A sender named `name` for the given servers, with all counts at zero.
    pub fn with_servers(name: String, servers: Vec<String>) -> (s: RequestSender)
        ensures
            s.name@ == name@,
            s.servers.deep_view() == servers.deep_view(),
            s.messages_per_server@ == seq![(0u32, 0u32), (0u32, 0u32), (0u32, 0u32)],
            s.avg_request_time == (0u128, 0u128),
            s.total_sent == 0,
            s.pending == None::<u16>,
            s.counters_consistent(),
            s.counters() == zero_counters(),
    {
        let s = RequestSender {
            name,
            servers,
            messages_per_server: [(0, 0); 3],
            avg_request_time: (0, 0),
            total_sent: 0,
            pending: None,
        };
        assert(s.messages_per_server@ =~= seq![(0u32, 0u32), (0u32, 0u32), (0u32, 0u32)]);
        assert(s.counters().sent =~= zero_counters().sent);
        assert(s.counters().answered =~= zero_counters().answered);
        s
    }

    /// A sender named `name` for the servers that the JSON text lists.
    pub fn new(name: String, servers_json: &str) -> (r: Result<RequestSender, ConfigError>)
        ensures
            r is Ok <==> server_list_json(servers_json@) is Some,
            r matches Ok(s) ==> {
                &&& s.name@ == name@
                &&& s.servers.deep_view() == server_list_json(servers_json@)->0
                &&& s.messages_per_server@ == seq![(0u32, 0u32), (0u32, 0u32), (0u32, 0u32)]
                &&& s.avg_request_time == (0u128, 0u128)
                &&& s.total_sent == 0
                &&& s.pending == None::<u16>
                &&& s.counters_consistent()
            },
            r matches Err(e) ==> e == ConfigError::InvalidServerList,
    {
        match parse_server_list(servers_json) {
            Ok(servers) => Ok(RequestSender::with_servers(name, servers)),
            Err(_) => Err(ConfigError::InvalidServerList),
        }
    }

    /// Counts one request sent to `server` and gives the address it goes to.
    pub fn record_send(&mut self, server: u16) -> (target: String)
        requires
            (server as int) < old(self).servers@.len(),
            (server as int) < TRACKED_SERVERS,
            old(self).messages_per_server@[server as int].0 < u32::MAX,
            old(self).total_sent < u128::MAX,
        ensures
            target@ == old(self).servers@[server as int]@,
            final(self).messages_per_server@ == old(self).messages_per_server@.update(
                server as int,
                (
                    (old(self).messages_per_server@[server as int].0 + 1) as u32,
                    old(self).messages_per_server@[server as int].1,
                ),
            ),
            final(self).total_sent == old(self).total_sent + 1,
            final(self).avg_request_time == old(self).avg_request_time,
            final(self).name == old(self).name,
            final(self).servers == old(self).servers,
            final(self).pending == Some(server),
            old(self).counters_consistent() ==> final(self).counters_consistent(),
            final(self).counters() == counter_step(
                old(self).counters(),
                CounterEvent::Sent(server as int),
            ),
    {
        let s = server as usize;
        let target = self.servers[s].clone();
        let (sent, acked) = self.messages_per_server[s];
        self.messages_per_server[s] = (sent + 1, acked);
        self.total_sent = self.total_sent + 1;
        self.pending = Some(server);
        assert(self.counters().sent =~= old(self).counters().sent.update(
            server as int,
            old(self).counters().sent[server as int] + 1,
        ));
        assert(self.counters().answered =~= old(self).counters().answered);
        target
    }

    /// Takes a reply to the request that awaits its answer into account: when
    /// it matches the message, counts it as answered by that request's server,
    /// folds `elapsed` (in microseconds) into the average response time, and
    /// stops awaiting. Returns whether it counted. With no request awaiting an
    /// answer, nothing is counted.
    pub fn on_reply(&mut self, reply: &[u8; 100], message: &str, elapsed: u128) -> (matched: bool)
        requires
            valid_utf8(reply@),
            old(self).pending matches Some(p) ==> (p as int) < TRACKED_SERVERS,
            old(self).pending matches Some(p) ==> (reply_matches_spec(reply@, message@) ==> {
                &&& old(self).messages_per_server@[p as int].1 < u32::MAX
                &&& old(self).avg_request_time.0 < u128::MAX
                &&& elapsed + old(self).avg_request_time.0 * old(self).avg_request_time.1
                    <= u128::MAX
            }),
        ensures
            matched == (old(self).pending is Some && reply_matches_spec(reply@, message@)),
            final(self).name == old(self).name,
            final(self).servers == old(self).servers,
            final(self).total_sent == old(self).total_sent,
            !matched ==> {
                &&& final(self).messages_per_server == old(self).messages_per_server
                &&& final(self).avg_request_time == old(self).avg_request_time
                &&& final(self).pending == old(self).pending
            },
            matched ==> {
                let p = old(self).pending->0 as int;
                &&& final(self).messages_per_server@ == old(self).messages_per_server@.update(
                    p,
                    (
                        old(self).messages_per_server@[p].0,
                        (old(self).messages_per_server@[p].1 + 1) as u32,
                    ),
                )
                &&& final(self).avg_request_time.0 == old(self).avg_request_time.0 + 1
                &&& final(self).avg_request_time.1 == next_average(
                    old(self).avg_request_time.0,
                    old(self).avg_request_time.1,
                    elapsed,
                )
                &&& final(self).pending == None::<u16>
            },
            old(self).counters_consistent() ==> final(self).counters_consistent(),
            final(self).counters() == (if matched {
                counter_step(old(self).counters(), CounterEvent::Answered)
            } else {
                old(self).counters()
            }),
    {
        match self.pending {
            None => false,
            Some(server) => {
                if reply_matches(reply, message) {
                    let s = server as usize;
                    let (sent, acked) = self.messages_per_server[s];
                    self.messages_per_server[s] = (sent, acked + 1);
                    let (count, avg) = self.avg_request_time;
                    let total = elapsed + count * avg;
                    self.avg_request_time = (count + 1, total / (count + 1));
                    self.pending = None;
                    assert(self.counters().answered =~= old(self).counters().answered.update(
                        server as int,
                        old(self).counters().answered[server as int] + 1,
                    ));
                    assert(self.counters().sent =~= old(self).counters().sent);
                    true
                } else {
                    false
                }
            },
        }
    }

    /// The statistics of this sender.
    pub fn get_stats(&self) -> (stats: ClientStats)
        ensures
            stats.name@ == self.name@,
            stats.total_sent == self.total_sent,
            stats.total_successful == self.avg_request_time.0,
            stats.avg_response_time == self.avg_request_time.1,
            stats.server_stats@.len() == TRACKED_SERVERS,
            forall|i: int|
                0 <= i < TRACKED_SERVERS ==> {
                    &&& (#[trigger] stats.server_stats@[i]).name@ == decimal_chars(i as nat)
                    &&& stats.server_stats@[i].num_sent == self.messages_per_server@[i].0
                    &&& stats.server_stats@[i].num_ackd == self.messages_per_server@[i].1
                },
            self.counters_consistent() ==> {
                &&& stats.total_sent == stats.server_stats@[0].num_sent
                    + stats.server_stats@[1].num_sent + stats.server_stats@[2].num_sent
                &&& stats.total_successful == stats.server_stats@[0].num_ackd
                    + stats.server_stats@[1].num_ackd + stats.server_stats@[2].num_ackd
                &&& forall|i: int|
                    0 <= i < TRACKED_SERVERS ==> (#[trigger] stats.server_stats@[i]).num_ackd
                        <= stats.server_stats@[i].num_sent
            },
    {
        let mut server_stats: Vec<ServerStat> = Vec::new();
        let mut i: usize = 0;
        while i < TRACKED_SERVERS
            invariant
                i <= TRACKED_SERVERS,
                server_stats@.len() == i,
                forall|j: int|
                    0 <= j < i ==> {
                        &&& (#[trigger] server_stats@[j]).name@ == decimal_chars(j as nat)
                        &&& server_stats@[j].num_sent == self.messages_per_server@[j].0
                        &&& server_stats@[j].num_ackd == self.messages_per_server@[j].1
                    },
            decreases TRACKED_SERVERS - i,
        {
            let (sent, acked) = self.messages_per_server[i];
            server_stats.push(ServerStat { name: decimal(i as u64), num_sent: sent, num_ackd: acked });
            i = i + 1;
        }
        ClientStats {
            name: self.name.clone(),
            total_sent: self.total_sent,
            total_successful: self.avg_request_time.0,
            avg_response_time: self.avg_request_time.1,
            server_stats,
        }
    }

    /// The statistics text that the sender prints.
    pub fn stats_report(&self) -> (report: String)
        ensures
            report@ == stats_report_spec(self.name@, self.messages_per_server@),
    {
        let mut out = String::from_str("\n");
        out.append(self.name.as_str());
        out.append(" :\nServer\tSent\tAcknowledged");
        let mut i: usize = 0;
        while i < TRACKED_SERVERS
            invariant
                i <= TRACKED_SERVERS,
                out@ == "\n"@ + self.name@ + " :\nServer\tSent\tAcknowledged"@ + stats_rows(
                    self.messages_per_server@,
                    i as nat,
                ),
            decreases TRACKED_SERVERS - i,
        {
            let (sent, acked) = self.messages_per_server[i];
            out.append("\n");
            out.append(decimal(i as u64).as_str());
            out.append("\t");
            out.append(decimal(sent as u64).as_str());
            out.append("\t");
            out.append(decimal(acked as u64).as_str());
            i = i + 1;
            assert(out@ =~= "\n"@ + self.name@ + " :\nServer\tSent\tAcknowledged"@ + stats_rows(
                self.messages_per_server@,
                i as nat,
            ));
        }
        out
    }
}


/// Offset between a client's sending port and its receiving port.
pub const RECEIVE_PORT_OFFSET: u16 = 1000;

/// The sending and receiving ports of client number `i`, whose base port is `base`.
pub fn client_ports(base: u16, i: u16) -> (ports: (u16, u16))
    requires
        base + i + RECEIVE_PORT_OFFSET <= u16::MAX,
    ensures
        ports.0 == base + i,
        ports.1 == base + i + RECEIVE_PORT_OFFSET,
{
    let send = base + i;
    (send, send + RECEIVE_PORT_OFFSET)
}

/// The text of request number `j` of the client at `addr`.
pub open spec fn hello_message_spec(addr: Seq<char>, j: nat) -> Seq<char> {
    "Hello from "@ + addr + " ["@ + decimal_chars(j) + "]"@
}

/// Builds the text of request number `j` of the client at `addr`.
pub fn hello_message(addr: &str, j: u64) -> (m: String)
    ensures
        m@ == hello_message_spec(addr@, j as nat),
{
    let m = String::from_str("Hello from ");
    let m = m.concat(addr);
    let m = m.concat(" [");
    let d = decimal(j);
    let m = m.concat(d.as_str());
    m.concat("]")
}

/// The name of client number `i`.
pub open spec fn client_name_spec(i: nat) -> Seq<char> {
    "Client "@ + decimal_chars(i)
}

/// Builds the name of client number `i`.
pub fn client_name(i: u64) -> (name: String)
    ensures
        name@ == client_name_spec(i as nat),
{
    let d = decimal(i);
    String::from_str("Client ").concat(d.as_str())
}

/// The least load among the replies of a round (`u16::MAX` when none is lower).
pub open spec fn least_load(loads: Seq<Option<u16>>) -> u16
    decreases loads.len(),
{
    if loads.len() == 0 {
        u16::MAX
    } else {
        let rest = least_load(loads.drop_last());
        match loads.last() {
            Some(v) => if v < rest {
                v
            } else {
                rest
            },
            None => rest,
        }
    }
}

/// One polling round, from a fresh start (no load seen), over the replies of
/// servers `0 .. n` in order: the tracker ends with the least load replied
/// (or `u16::MAX`); when that is below `u16::MAX`, it picks the first server
/// that replied it; otherwise it keeps the server it had.
pub proof fn law_round_picks_least_loaded(t: LeastLoaded, loads: Seq<Option<u16>>)
    requires
        t.min_load == u16::MAX,
        loads.len() <= u16::MAX + 1,
    ensures
        after_round(t, loads).min_load == least_load(loads),
        forall|j: int|
            0 <= j < loads.len() && #[trigger] loads[j] is Some ==> after_round(t, loads).min_load
                <= loads[j]->0,
        after_round(t, loads).min_load < u16::MAX ==> {
            &&& after_round(t, loads).min_server < loads.len()
            &&& loads[after_round(t, loads).min_server as int] == Some(
                after_round(t, loads).min_load,
            )
            &&& forall|j: int|
                0 <= j < after_round(t, loads).min_server ==> (#[trigger] loads[j] is None
                    || loads[j]->0 > after_round(t, loads).min_load)
        },
        after_round(t, loads).min_load == u16::MAX ==> after_round(t, loads).min_server
            == t.min_server,
    decreases loads.len(),
{
    if loads.len() > 0 {
        let prev = loads.drop_last();
        law_round_picks_least_loaded(t, prev);
        let r0 = after_round(t, prev);
        let r = after_round(t, loads);
        let n = loads.len() - 1;
        assert forall|j: int| 0 <= j < n implies #[trigger] loads[j] == prev[j] by {}
        assert forall|j: int|
            0 <= j < loads.len() && #[trigger] loads[j] is Some implies r.min_load
                <= loads[j]->0 by {
            if j < n {
                assert(prev[j] == loads[j]);
            }
        }
        if r.min_load < u16::MAX {
            if r.min_load < r0.min_load {
                assert(r.min_server == n);
                assert forall|j: int|
                    0 <= j < r.min_server implies (#[trigger] loads[j] is None || loads[j]->0
                        > r.min_load) by {
                    assert(prev[j] == loads[j]);
                    if prev[j] is Some {
                        assert(r0.min_load <= prev[j]->0);
                    }
                }
            } else {
                assert(r == r0);
                assert(loads[r.min_server as int] == prev[r.min_server as int]);
                assert forall|j: int|
                    0 <= j < r.min_server implies (#[trigger] loads[j] is None || loads[j]->0
                        > r.min_load) by {
                    assert(prev[j] == loads[j]);
                }
            }
        }
    }
}

/// True when the chosen server is one of the `n` servers of the list, or the
/// initial choice 0.
pub open spec fn choice_in_list(t: LeastLoaded, n: nat) -> bool {
    t.min_server == 0 || t.min_server < n
}

/// Taking the reply of a listed server into account keeps the choice in the
/// list; ending a round does not change the choice.
pub proof fn law_observe_keeps_choice_in_list(
    t: LeastLoaded,
    server: u16,
    load: Option<u16>,
    n: nat,
)
    requires
        choice_in_list(t, n),
        server < n,
    ensures
        choice_in_list(observed(t, server, load), n),
{
}

/// Across rounds: polling the servers of a list of `n` servers, in order,
/// keeps the chosen server in the list, whatever the replies.
pub proof fn law_round_keeps_choice_in_list(t: LeastLoaded, loads: Seq<Option<u16>>, n: nat)
    requires
        choice_in_list(t, n),
        loads.len() <= n,
    ensures
        choice_in_list(after_round(t, loads), n),
    decreases loads.len(),
{
    if loads.len() > 0 {
        law_round_keeps_choice_in_list(t, loads.drop_last(), n);
        let server = (loads.len() - 1) as u16;
        if loads.len() <= u16::MAX + 1 {
            assert(server == loads.len() - 1);
        } else {
            assert(server <= u16::MAX);
        }
        law_observe_keeps_choice_in_list(
            after_round(t, loads.drop_last()),
            (loads.len() - 1) as u16,
            loads.last(),
            n,
        );
    }
}

/// The tracker after polling rounds, each over the replies of the servers in
/// order and each followed by the start of a new round.
pub open spec fn after_rounds(t: LeastLoaded, rounds: Seq<Seq<Option<u16>>>) -> LeastLoaded
    decreases rounds.len(),
{
    if rounds.len() == 0 {
        t
    } else {
        let r = after_round(after_rounds(t, rounds.drop_last()), rounds.last());
        LeastLoaded { min_server: r.min_server, min_load: u16::MAX }
    }
}

/// Over any number of polling rounds of a list of `n` servers, from the
/// tracker that `LeastLoaded::new` makes, the chosen server stays 0 or in the
/// list.
pub proof fn law_rounds_keep_choice_in_list(rounds: Seq<Seq<Option<u16>>>, n: nat)
    requires
        forall|i: int| 0 <= i < rounds.len() ==> #[trigger] rounds[i].len() <= n,
    ensures
        choice_in_list(after_rounds(LeastLoaded { min_server: 0, min_load: u16::MAX }, rounds), n),
    decreases rounds.len(),
{
    if rounds.len() > 0 {
        let prev = rounds.drop_last();
        assert forall|i: int| 0 <= i < prev.len() implies #[trigger] prev[i].len() <= n by {
            assert(prev[i] == rounds[i]);
        }
        law_rounds_keep_choice_in_list(prev, n);
        let t0 = after_rounds(LeastLoaded { min_server: 0, min_load: u16::MAX }, prev);
        assert(rounds.last().len() <= n) by {
            assert(rounds.last() == rounds[rounds.len() - 1]);
        }
        law_round_keeps_choice_in_list(t0, rounds.last(), n);
    }
}

/// One step of the running average, over the integers: `n` answers so far
/// with average `a`, and a new sample `t`.
pub open spec fn average_step(n: int, a: int, t: int) -> int {
    (t + n * a) / (n + 1)
}

/// One step of the running average stays between the previous average and the
/// new sample, and times the new count it does not exceed the new total.
pub proof fn lemma_average_step(n: int, a: int, t: int)
    requires
        n >= 0,
        a >= 0,
        t >= 0,
    ensures
        a <= t ==> a <= average_step(n, a, t) <= t,
        t <= a ==> t <= average_step(n, a, t) <= a,
        average_step(n, a, t) * (n + 1) <= t + n * a,
        average_step(n, a, t) >= 0,
{
    let q = average_step(n, a, t);
    assert(q * (n + 1) <= t + n * a && q >= 0) by (nonlinear_arith)
        requires
            q == (t + n * a) / (n + 1),
            n >= 0,
            a >= 0,
            t >= 0,
    ;
    if a <= t {
        assert(a * (n + 1) <= t + n * a) by (nonlinear_arith)
            requires
                a <= t,
                n >= 0,
        ;
        assert(t + n * a <= t * (n + 1)) by (nonlinear_arith)
            requires
                a <= t,
                n >= 0,
        ;
        assert(a <= q <= t) by (nonlinear_arith)
            requires
                q == (t + n * a) / (n + 1),
                a * (n + 1) <= t + n * a,
                t + n * a <= t * (n + 1),
                n >= 0,
        ;
    }
    if t <= a {
        assert(t * (n + 1) <= t + n * a) by (nonlinear_arith)
            requires
                t <= a,
                n >= 0,
        ;
        assert(t + n * a <= a * (n + 1)) by (nonlinear_arith)
            requires
                t <= a,
                n >= 0,
        ;
        assert(t <= q <= a) by (nonlinear_arith)
            requires
                q == (t + n * a) / (n + 1),
                t * (n + 1) <= t + n * a,
                t + n * a <= a * (n + 1),
                n >= 0,
        ;
    }
}

/// The running average over the response times of a sequence of answers, as
/// the sender keeps it: each answer folds its time in with `average_step`.
pub open spec fn running_average(samples: Seq<int>) -> int
    decreases samples.len(),
{
    if samples.len() == 0 {
        0
    } else {
        average_step(
            samples.len() - 1,
            running_average(samples.drop_last()),
            samples.last(),
        )
    }
}

/// The sum of a sequence of samples.
pub open spec fn sample_sum(samples: Seq<int>) -> int
    decreases samples.len(),
{
    if samples.len() == 0 {
        0
    } else {
        sample_sum(samples.drop_last()) + samples.last()
    }
}

/// One folding step of the sender is one step of `running_average`: after the
/// sender has folded in answers with times `samples` (starting from zero, as
/// `new` does), one more answer with time `t` gives the running average of
/// `samples` followed by `t`.
pub proof fn law_sender_average_is_running_average(samples: Seq<int>, t: u128)
    requires
        forall|i: int| 0 <= i < samples.len() ==> #[trigger] samples[i] >= 0,
        running_average(samples) <= u128::MAX,
        samples.len() <= u128::MAX,
    ensures
        next_average(samples.len() as u128, running_average(samples) as u128, t)
            == running_average(samples.push(t as int)),
{
    if samples.len() >= 1 {
        law_running_average_bounds(samples);
    }
    assert(samples.push(t as int).drop_last() =~= samples);
}

/// Over several answers, the running average lies between the smallest and
/// the largest response time (some time is at or below it, some at or above
/// it), never exceeds the true mean (times the number of answers it is at most
/// their sum), and after one answer it is that answer's time.
pub proof fn law_running_average_bounds(samples: Seq<int>)
    requires
        samples.len() >= 1,
        forall|i: int| 0 <= i < samples.len() ==> #[trigger] samples[i] >= 0,
    ensures
        exists|j: int| 0 <= j < samples.len() && samples[j] <= running_average(samples),
        exists|j: int| 0 <= j < samples.len() && running_average(samples) <= samples[j],
        running_average(samples) * samples.len() <= sample_sum(samples),
        running_average(samples) >= 0,
        samples.len() == 1 ==> running_average(samples) == samples[0],
    decreases samples.len(),
{
    let n = samples.len() - 1;
    let t = samples.last();
    let prev = samples.drop_last();
    if n == 0 {
        assert(running_average(prev) == 0);
        assert(running_average(samples) == average_step(0, 0, t));
        assert(average_step(0, 0, t) == t) by (nonlinear_arith)
            requires
                t >= 0,
        ;
        assert(sample_sum(prev) == 0);
        assert(samples[0] == t);
    } else {
        assert forall|i: int| 0 <= i < prev.len() implies #[trigger] prev[i] >= 0 by {
            assert(prev[i] == samples[i]);
        }
        law_running_average_bounds(prev);
        let a = running_average(prev);
        lemma_average_step(n, a, t);
        let r = running_average(samples);
        assert(r == average_step(n, a, t));
        let jl = choose|j: int| 0 <= j < prev.len() && prev[j] <= a;
        let jh = choose|j: int| 0 <= j < prev.len() && a <= prev[j];
        assert(prev[jl] == samples[jl]);
        assert(prev[jh] == samples[jh]);
        if a <= t {
            assert(samples[jl] <= r);
            assert(r <= samples[n]);
        } else {
            assert(samples[n] <= r);
            assert(r <= samples[jh]);
        }
        assert(a * n <= sample_sum(prev));
        assert(r * (n + 1) <= t + n * a);
        assert(n * a <= sample_sum(prev)) by (nonlinear_arith)
            requires
                a * n <= sample_sum(prev),
        ;
    }
}

/// The running average never leaves the range between the previous average
/// and the new sample.
pub proof fn law_average_stays_between(count: u128, avg: u128, sample: u128)
    requires
        sample + count * avg <= u128::MAX,
    ensures
        avg <= sample ==> avg <= next_average(count, avg, sample) <= sample,
        sample <= avg ==> sample <= next_average(count, avg, sample) <= avg,
{
    lemma_average_step(count as int, avg as int, sample as int);
}

/// Reading a load reply takes the first byte as the high byte: the value is
/// the first byte times 256 plus the second, for every pair of bytes.
pub proof fn law_load_value_is_big_endian(b: Seq<u8>)
    requires
        b.len() == 2,
    ensures
        load_value(b) as nat == b[0] as nat * 256 + b[1] as nat,
{
}

/// A reply matches exactly when its text (NUL padding and surrounding
/// whitespace removed) has the length of the trimmed message and the same
/// character at every position; a longer or shorter reply text is rejected.
pub proof fn law_reply_match_is_exact(reply: Seq<u8>, message: Seq<char>)
    ensures
        reply_matches_spec(reply, message) <==> ({
            let got = trimmed(without_nul_ends(decode_utf8(reply)));
            let want = trimmed(message);
            &&& got.len() == want.len()
            &&& forall|i: int| 0 <= i < got.len() ==> #[trigger] got[i] == want[i]
        }),
        trimmed(without_nul_ends(decode_utf8(reply))).len() != trimmed(message).len()
            ==> !reply_matches_spec(reply, message),
{
    let got = trimmed(without_nul_ends(decode_utf8(reply)));
    let want = trimmed(message);
    if got.len() == want.len() && (forall|i: int| 0 <= i < got.len() ==> #[trigger] got[i] == want[i]) {
        assert(got =~= want);
    }
}

/// The statistics text, written out: the title line with the name, the
/// header, then for each tracked server `i`, in order, the row with `i`, the
/// requests sent to server `i` and the requests it answered (the counts that
/// `get_stats` reports for server `i`).
pub proof fn law_stats_report_rows(name: Seq<char>, per_server: Seq<(u32, u32)>)
    ensures
        stats_report_spec(name, per_server) == "\n"@ + name + " :\nServer\tSent\tAcknowledged"@
            + "\n"@ + decimal_chars(0) + "\t"@ + decimal_chars(per_server[0].0 as nat) + "\t"@
            + decimal_chars(per_server[0].1 as nat) + "\n"@ + decimal_chars(1) + "\t"@
            + decimal_chars(per_server[1].0 as nat) + "\t"@ + decimal_chars(
            per_server[1].1 as nat,
        ) + "\n"@ + decimal_chars(2) + "\t"@ + decimal_chars(per_server[2].0 as nat) + "\t"@
            + decimal_chars(per_server[2].1 as nat),
{
    reveal_with_fuel(stats_rows, 4);
    assert(stats_report_spec(name, per_server) =~= "\n"@ + name
        + " :\nServer\tSent\tAcknowledged"@ + "\n"@ + decimal_chars(0) + "\t"@ + decimal_chars(
        per_server[0].0 as nat,
    ) + "\t"@ + decimal_chars(per_server[0].1 as nat) + "\n"@ + decimal_chars(1) + "\t"@
        + decimal_chars(per_server[1].0 as nat) + "\t"@ + decimal_chars(per_server[1].1 as nat)
        + "\n"@ + decimal_chars(2) + "\t"@ + decimal_chars(per_server[2].0 as nat) + "\t"@
        + decimal_chars(per_server[2].1 as nat));
}

/// The text of request `j` of the client at `addr` is `Hello from `, the
/// address, ` [`, a run of decimal digits that reads back as `j` itself, and
/// `]`.
pub proof fn law_hello_message_carries_number(addr: Seq<char>, j: nat)
    ensures
        ({
            let m = hello_message_spec(addr, j);
            let n = addr.len() as int;
            let digits = m.subrange(13 + n, m.len() - 1);
            &&& m.len() >= 14 + n
            &&& m.subrange(0, 11) == "Hello from "@
            &&& m.subrange(11, 11 + n) == addr
            &&& m.subrange(11 + n, 13 + n) == " ["@
            &&& m.last() == ']'
            &&& is_decimal_digits(digits)
            &&& decimal_value(digits) == j
        }),
{
    reveal_strlit("Hello from ");
    reveal_strlit(" [");
    reveal_strlit("]");
    law_decimal_reads_back(j);
    let m = hello_message_spec(addr, j);
    let n = addr.len() as int;
    let d = decimal_chars(j);
    assert(m.len() == 14 + n + d.len());
    assert(m.subrange(0, 11) =~= "Hello from "@);
    assert(m.subrange(11, 11 + n) =~= addr);
    assert(m.subrange(11 + n, 13 + n) =~= " ["@);
    assert(m.subrange(13 + n, m.len() - 1) =~= d);
}

/// The name of client `i` is `Client ` followed by a run of decimal digits
/// that reads back as `i`; so different clients get different names.
pub proof fn law_client_name_carries_number(i: nat, k: nat)
    ensures
        client_name_spec(i).subrange(0, 7) == "Client "@,
        is_decimal_digits(client_name_spec(i).subrange(7, client_name_spec(i).len() as int)),
        decimal_value(client_name_spec(i).subrange(7, client_name_spec(i).len() as int)) == i,
        i != k ==> client_name_spec(i) != client_name_spec(k),
{
    reveal_strlit("Client ");
    law_decimal_reads_back(i);
    law_decimal_reads_back(k);
    assert(client_name_spec(i).subrange(0, 7) =~= "Client "@);
    assert(client_name_spec(i).subrange(7, client_name_spec(i).len() as int) =~= decimal_chars(i));
    assert(client_name_spec(k).subrange(7, client_name_spec(k).len() as int) =~= decimal_chars(k));
}

/// Different requests of a client get different texts.
pub proof fn law_hello_message_distinguishes_requests(addr: Seq<char>, j1: nat, j2: nat)
    requires
        j1 != j2,
    ensures
        hello_message_spec(addr, j1) != hello_message_spec(addr, j2),
{
    law_hello_message_carries_number(addr, j1);
    law_hello_message_carries_number(addr, j2);
}

} // verus!
