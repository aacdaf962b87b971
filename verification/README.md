# Mole, verified

Mole gets past DPI-based site blocks on a Windows machine: it finds which
reshaping of the TLS ClientHello gets through on the user's line, applies it to
every outbound handshake, and watches that it keeps working.

This crate holds Mole's logic as a Verus library whose behaviour is stated in
`requires`/`ensures` contracts and proved:

| Module | What it holds |
|---|---|
| `checksum` | IPv4 and TCP (v4 and v6) one's-complement checksums |
| `packet` | IPv4/IPv6 + TCP parsing, the ClientHello's server name |
| `strategy`, `label` | the desync strategies as packet transforms, their labels and reading labels back |
| `dns` | DNS-over-HTTPS wire format: the query, the HTTP response, chunked bodies, A records |
| `engine`, `probe` | what the live engine does with each packet; how the probe classifies replies and builds its report |
| `serve`, `service`, `servicelog` | the service's health checks and retries, the service manager's codes, the service log's text |
| `cli`, `gui` | what the command line's arguments mean and what it prints; what the window shows for each state |
| `text`, `config`, `ffi`, `windivert` | text helpers, the saved configuration, the WinDivert records and errors |

`app/` is the `mole` command around the library: WinDivert, sockets, TLS, the
service manager, files and the console. `tests/` exercises the library on
concrete values.
