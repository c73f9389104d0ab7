# udp_balancer

A small UDP system in three parts: a console chat, a load-balancing client and
a ring of servers. The library in `src/` holds the decisions, verified with
Verus; `app/` holds the sockets, threads and files around them.

- `src/text.rs`: UTF-8 decoding, trimming, decimal rendering, byte comparison.
- `src/chat.rs`: framing of console lines and the console acknowledgement.
- `src/client/sender.rs`: server list, least-loaded server choice, reply
  matching, running average and statistics of a client.
- `src/client/receiver.rs`: what the acknowledging receiver answers.
- `src/server/receiver.rs`: how a server answers datagrams and counts its load,
  its log file, and the election round.
- `src/server/election.rs`: the 1024-byte election frame.
- `src/server/ring.rs`: ring positions and election ports of known addresses.
- `src/protocol.rs`: properties of the exchanges between the parts.

`app/main.rs` runs one part: `console <local> <remote> <0|1>`,
`client <send_addr>` or `server <addr> <index>`.
