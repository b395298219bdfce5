# lsend

A headless command-line tool that sends and receives files over the local
network, speaking the LocalSend protocol (multicast discovery, HTTP(S)
prepare-upload / upload / cancel).

The crate is written in Verus. Its layout:

- `src/` — the verified library: discovery messages and the device table,
  the receive server's decisions (PIN checks and lockout, sessions, uploads,
  cancel), prepare-upload parsing over a JSON model, safe receive paths,
  the send plan, alias and locale handling, identities and fingerprints,
  the JSON documents printed on stdout, and the error classification.
  Every public function carries a contract; the laws that span several
  functions are public proof functions named `law_*`.
- `app/` — the program around it: argument parsing, files, sockets, the
  HTTP server and client, the clipboard and the terminal. It hands the
  library plain values and carries out what the library decides.
- `tests/` — tests of the library on concrete values.

Calls into outside crates (`serde_json`, `sha2`, `base64`, `hex`, `uuid`,
`rand`, `rcgen`, `mime_guess`, `anyhow`) stand behind small trusted
wrappers in `src/`, each documented with what its contract claims.
