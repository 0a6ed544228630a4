# pingrs

An ICMP echo ("ping") library and command line tool, with its core verified by Verus.

- `src/` — the verified library:
  - `netorder` — 16-bit values in network byte order;
  - `checksum` — the Internet checksum, and the law that a checksum written
    into its zeroed field makes the data verify;
  - `error` — the error type;
  - `packet` — ICMP echo headers and packets, their encoding and decoding;
  - `receive` — locating, decoding and checking the ICMP message of a received
    datagram, and recognising the awaited echo reply;
  - `session` — identifier, sequence numbers, requests and default payload of a pinger;
  - `cli` — option parsing, request schedule and reply statistics of the tool.
- `app/` — the `ping` program: raw sockets (socket2, libc), name resolution,
  clocks, signal handling (ctrlc) and printing, around the library.
- `tests/` — tests of the library.

Raw sockets need root or the `CAP_NET_RAW` capability on Linux.
