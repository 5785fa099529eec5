# typenet

A userspace IPv4/ICMP/TCP/UDP echo server over a Linux TUN device, with its protocol logic
verified by Verus.

## Layout

- `src/` — the verified library:
  - `checksum`, `bytes`, `text`: the Internet checksum, big-endian integers, and text building
    (decimal, thousands separators, hexadecimal).
  - `ipv4`, `icmp_echo`, `udp`, `tcp::segment`: parsing and encoding of headers and payloads,
    with roundtrip laws (what is written parses back).
  - `tcp`: sequence-number arithmetic, connection states, the connection table, the reply state
    machine (handshake, echo with flow control, passive/active/simultaneous close, resets) and
    retransmission with exponential backoff. The connection table is a vector of entries whose
    keys are distinct (a type invariant), looked up by its 4-tuple key; a hash map keyed by that
    struct would leave lookups with nothing proved of them, and its walk order (used for
    retransmissions and active close) would change from run to run.
  - `handler`: dispatch over the three protocols.
  - `server`: the decisions of the server loop — what to send and when to stop on each event
    (packet, timeout, signal), including the graceful shutdown with a grace period.
  - `logger`, `display`, `config`, `tun`, `try_ops`: log output per level, payload rendering,
    settings, TUN interface names, and checked arithmetic/indexing.
- `app/` — the program around it: signal handling, attaching to the TUN device, `poll()`, reading
  and writing packets, randomness and the clock.
- `tests/` — tests of the library.

Times are milliseconds on a monotonic clock that the program reads and hands to the library.

## Settings

The program reads these environment variables; each has a default when unset.

| Key                     | Meaning                                                   | Default |
| ----------------------- | --------------------------------------------------------- | ------- |
| TYPENET_TUN_NAME        | Name of the TUN device to use                             | `tun0`  |
| TYPENET_INIT_RTO_MILLIS | Initial retransmission timeout before exponential backoff | 500     |
| TYPENET_MAX_RETRANSMITS | Number of retransmissions before giving up                | 5       |
| TYPENET_GRACE_SECS      | Wait time before shutdown when draining connections       | 5       |
| TYPENET_LOG_LEVEL       | Level of output for logging: 0 nothing, 1 server start and stop, 2 one mark per packet, 3 full details of each packet | 3 |
