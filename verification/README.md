# asciidesk

Terminal-first, consent-based remote access: a host shares a shell (and,
when not headless, an ASCII rendering of its desktop) with clients that
either hold a key the host trusts or give the host's pairing code and are
approved by its operator. An optional rendezvous broker introduces clients
to hosts by a short-lived code.

## Layout

- `src/` — the library, checked by Verus.
  - `protocol.rs` wire messages, capabilities and their negotiation.
  - `keys.rs` Base64 key texts, Ed25519 identities, fingerprints.
  - `config.rs` configuration, the trusted-device list, paths, audit lines.
  - `host.rs` the host's handshake as a state machine, with its laws
    (default deny, consent only after the live pairing code, which is
    single-use and expires after five minutes, headless hosts never prompt,
    trust grows only by consent).
  - `client.rs` the client's handshake, session reactions, key bytes.
  - `session.rs` the host side of an active session, audit records, shells.
  - `desktop.rs` the frame encoder (cell averaging, luminance, colour codes),
    with the layout of every rendering (24 rows each ended by a line feed,
    then the attribute reset; 1948 bytes in monochrome) and the law that
    scaling a frame up leaves its rendering unchanged.
  - `rendezvous.rs` the broker's store and message handling, with its laws
    (single-use, time-limited pairing codes; only signaling is forwarded).
  - `signaling.rs` the peers' side of rendezvous signaling.
  - `session_hijack.rs` finding a graphical session in a process listing.
  - `input.rs` what injected pointer and key events do.
  - `transport.rs` how a message stream treats WebSocket frames.
  - `keyed.rs` a small map from text keys, `text.rs` text helpers.
    The device, pairing and offer tables and the broker's peer table are
    keyed by text (public keys, codes). vstd specifies `HashMap` well only
    for keys it can model, such as integers; with `String` keys the calls
    are accepted but nothing about the contents can be proved. So these
    tables are a `Vec` of entries whose invariant is that no key occurs
    twice, and every lookup, insertion and removal is proved against a
    `Map` view of it.
- `tests/` — tests of the library on concrete values.
- `app/` — the `asciidesk` program: command line, files, sockets, PTYs,
  terminals, screen capture and input injection, all driving the library.
