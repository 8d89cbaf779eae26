# rustpanel_core

The decision logic of a Linux server control panel, written in Verus: every
function in `src/` carries a `requires`/`ensures` contract over plain
mathematical values (sequences, maps, integers) and is proved to meet it.

- `src/` is the verified library. Each module covers one area of the panel
  (authentication and tokens, firewall and WAF rules, the app store, Docker,
  backups, cron, DNS, ACME, monitoring, files, proxies, notifications). Laws
  that relate several functions stand as public proof functions next to the
  functions they speak of (`law_…`).
- The trusted items are small wrappers: in `src/crypto.rs` around the HMAC,
  SHA-1, base32 (whose encoding is stated in `src/base32.rs`) and JWT
  crates (encoding and decoding tokens) and a few std calls (clock,
  UUIDs, Unicode case mapping), and `push_char` in
  `src/text.rs` around `String::push`. Each states what the called code
  documents; everything else in `src/` is proved.
- `tests/` runs the library on concrete values.
- `app/` is the thin program around it: configuration from the environment,
  file stores, the HTTP listener and process control.
