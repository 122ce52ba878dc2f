# openvpn_conf

A verified reader for a line-oriented OpenVPN client configuration
(`client`, `dev`, `resolv-retry`, `nobind`, `persist-key`, `persist-tun`,
`verb`, `remote-cert-tls`, `ping`, `ping-restart`, `sndbuf`, `rcvbuf`,
`cipher`, `tls-cipher`, in that order, each on its own line).

The library is written in Verus: every function states in its contract
exactly what it returns, as a function of the UTF-8 bytes of its input.

Layout:

- `src/text.rs` – recognisers for fixed words, line endings, blanks, digits
  and the rest of a line, with the character-boundary lemmas that let them
  split a `&str`.
- `src/number.rs` – reading a `u32` the way `u32::from_str` does.
- `src/config.rs` – the configuration record, its enumerations and the
  conversions from a value's text.
- `src/parser.rs` – the grammar: one reader per directive line and the reader
  of a whole configuration, with their specifications.
- `src/laws.rs`, `src/canonical.rs` – properties proved of the grammar: what is
  consumed, which values can lack a conversion, the name tables, and that every
  configuration reads back from its canonical text.
- `src/rewriting.rs` – what a line depends on, and the laws that follow for a
  whole configuration: appended text, `"\r\n"` line endings and the blank run
  after a keyword leave the configuration read unchanged.
- `tests/` – concrete scenarios, and agreement of the recognisers with `nom`.
- `app/main.rs` – reads `conn.ovpn`, parses it and logs the result with
  `tracing`.
