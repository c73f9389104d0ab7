//! The fixed ring of three servers: the position and the election port that
//! belong to each known request address.
use crate::server::receiver::RequestReceiver;
use crate::text::str_equal;
use vstd::prelude::*;

verus! {

/// The request addresses of the ring, in ring order.
pub open spec fn ring_addr(i: int) -> Seq<char> {
    if i == 0 {
        "127.0.0.1:5656"@
    } else if i == 1 {
        "127.0.0.1:5657"@
    } else {
        "127.0.0.1:5658"@
    }
}

/// Number of servers in the ring.
pub const RING_SIZE: usize = 3;

/// The address the server at ring position `i` takes part in the election on.
pub open spec fn election_addr_spec(i: int) -> Seq<char> {
    if i == 0 {
        "127.0.0.1:9000"@
    } else if i == 1 {
        "127.0.0.1:9001"@
    } else {
        "127.0.0.1:9002"@
    }
}

/// The election addresses of the whole ring, in ring order.
pub open spec fn election_addrs_spec() -> Seq<Seq<char>> {
    seq![election_addr_spec(0), election_addr_spec(1), election_addr_spec(2)]
}

/// The election address of ring position `i`.
pub fn election_addr(i: usize) -> (a: String)
    requires
        i < RING_SIZE,
    ensures
        a@ == election_addr_spec(i as int),
{
    if i == 0 {
        String::from_str("127.0.0.1:9000")
    } else if i == 1 {
        String::from_str("127.0.0.1:9001")
    } else {
        String::from_str("127.0.0.1:9002")
    }
}

/// The election addresses of the whole ring, in ring order.
pub fn election_addrs() -> (addrs: Vec<String>)
    ensures
        addrs.deep_view() == election_addrs_spec(),
{
    let mut addrs: Vec<String> = Vec::new();
    addrs.push(election_addr(0));
    addrs.push(election_addr(1));
    addrs.push(election_addr(2));
    assert(addrs.deep_view() =~= election_addrs_spec()) by {
        assert(addrs@[0]@ == election_addr_spec(0));
        assert(addrs@[1]@ == election_addr_spec(1));
        assert(addrs@[2]@ == election_addr_spec(2));
    }
    addrs
}

/// The ring position of a request address (0 for an unknown address).
pub open spec fn ring_index_spec(addr: Seq<char>) -> usize {
    if addr == ring_addr(0) {
        0
    } else if addr == ring_addr(1) {
        1
    } else if addr == ring_addr(2) {
        2
    } else {
        0
    }
}

/// The election port of a request address (8080 for an unknown address).
pub open spec fn election_port_spec(addr: Seq<char>) -> Seq<char> {
    if addr == ring_addr(0) {
        "9000"@
    } else if addr == ring_addr(1) {
        "9001"@
    } else if addr == ring_addr(2) {
        "9002"@
    } else {
        "8080"@
    }
}

/// The ring position of the server at `addr`.
pub fn ring_index(addr: &str) -> (i: usize)
    ensures
        i == ring_index_spec(addr@),
        i < 3,
{
    if str_equal(addr, "127.0.0.1:5656") {
        0
    } else if str_equal(addr, "127.0.0.1:5657") {
        1
    } else if str_equal(addr, "127.0.0.1:5658") {
        2
    } else {
        0
    }
}

/// The port the server at `addr` takes part in the election on.
pub fn election_port(addr: &str) -> (port: String)
    ensures
        port@ == election_port_spec(addr@),
{
    if str_equal(addr, "127.0.0.1:5656") {
        String::from_str("9000")
    } else if str_equal(addr, "127.0.0.1:5657") {
        String::from_str("9001")
    } else if str_equal(addr, "127.0.0.1:5658") {
        String::from_str("9002")
    } else {
        String::from_str("8080")
    }
}

/// The servers the address-only receiver knows, in ring order.
pub open spec fn ring_servers_spec() -> Seq<Seq<char>> {
    seq!["127.0.0.1:8080"@, "127.0.0.1:8081"@, "127.0.0.1:8082"@]
}

/// The servers the address-only receiver knows, in ring order.
pub fn ring_servers() -> (servers: Vec<String>)
    ensures
        servers.deep_view() == ring_servers_spec(),
{
    let mut servers: Vec<String> = Vec::new();
    servers.push(String::from_str("127.0.0.1:8080"));
    servers.push(String::from_str("127.0.0.1:8081"));
    servers.push(String::from_str("127.0.0.1:8082"));
    assert(servers.deep_view() =~= ring_servers_spec()) by {
        assert(servers@[0]@ == "127.0.0.1:8080"@);
        assert(servers@[1]@ == "127.0.0.1:8081"@);
        assert(servers@[2]@ == "127.0.0.1:8082"@);
    }
    servers
}

/// A receiver set up from its address alone: its ring position and election
/// port are those of the address, and it knows the servers of the ring.
pub struct AddressedReceiver {
    pub receiver: RequestReceiver,
    pub election_port: String,
    pub servers: Vec<String>,
}

impl AddressedReceiver {
    /// Sets up the receiver for the server at `addr`.
    pub fn new(addr: String) -> (r: AddressedReceiver)
        ensures
            r.receiver.addr@ == addr@,
            r.receiver.index == ring_index_spec(addr@),
            r.receiver.load == 0,
            r.election_port@ == election_port_spec(addr@),
            r.servers.deep_view() == ring_servers_spec(),
    {
        let election_port = election_port(addr.as_str());
        let receiver = RequestReceiver::from_address(addr);
        AddressedReceiver { receiver, election_port, servers: ring_servers() }
    }
}

} // verus!
