# multicast-rs

IPv4 and IPv6 multicast publishers and subscribers.

- `src/` is the verified library:
  - `net`: IP and socket addresses, the default groups (224.0.0.123 and
    ff02::123) and port (7645), and how sockets join, bind and send;
  - `iface`: reading the `ip addr` and `ip link` listings of a named
    interface and choosing its address or index;
  - `text`: whitespace, trimming, words and decimal numbers over characters;
  - `publisher`: publisher statistics;
  - `subscriber`: subscriber counters, receive modes, the batch receive and
    the background listener, driven by the outcomes their callers report.
- `app/` holds the sockets, threads, system commands and serde decoding,
  with the `MulticastPublisher`, `MulticastSubscriber` and
  `BackgroundSubscriber` types.
- `tests/` runs the library on concrete values.
