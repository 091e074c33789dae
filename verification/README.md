# dpdk_udp

A user-space UDP stack over raw Ethernet frames, written in Verus.

- `src/` is the library. It builds and parses UDP, ICMP, ARP and NDP frames over
  IPv4 and IPv6, handles 802.1Q tags and GUE and GENEVE tunnels, keeps the ARP and
  neighbor caches, the receive queue and the frame pool, and decides what a socket
  does with each frame that it receives or sends. Contracts speak of byte sequences.
  Functions named `law_..` state what holds between several functions, such as that a
  parser gives back what the builder was given.
- `app/` puts a socket on a device: the clock, locks, polling, and the tables of the
  operating system.
- `tests/` runs the library on concrete frames.

Nothing in the library reads a clock: functions that depend on the time take it as an
argument, in nanoseconds.
