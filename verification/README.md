# fastshare

Sends a file between machines over several parallel TCP streams, optionally
encrypted with AES-256-GCM, directly or through a relay.

`src/` is the library, verified with Verus:

- `ranges` — how the file is split between streams, and the proof that the
  ranges partition it.
- `transfer` — the announcement of a file, the sender's per-stream cursor that
  cuts its range into chunks, the single-stream receiver, cipher set-up on both
  sides.
- `reassembly` — the receiver's buffer that hands chunks out in file order.
- `crypto` — keys and their base64 text, chunk encryption and decryption.
- `framing` — length-prefixed messages.
- `relay` — the relay's sessions and how it answers clients.
- `display` — human-readable sizes; `text` — building strings.

`app/` is the command-line program: argument parsing, sockets, files, progress
bars and the serde forms of the messages.
