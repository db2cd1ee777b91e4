# sfu

The decision logic of a WebRTC selective forwarding unit (SFU), written in Verus and
proved against its contracts.

A lobby holds the participants of one stream. Each participant publishes media over one
WebRTC connection and subscribes to the others over a second one. The library decides,
for every published track, which subscribers of another participant it goes to, with
which payload types and header extension ids per leg, where a keyframe request goes, and
what the control channel to each browser says about renegotiation and mute state; it
also cuts a relay's CMAF stream into its init segment and fragments. It does not drive
the peer connections itself: adding and removing senders, creating offers and answers
and pumping connection events are left to the caller, which acts on what the library
returns.

## Layout

- `src/` — the verified library.
  - `util/` — text helpers, domain names and IRIs, ids, RSA key pairs.
  - `sfu/lobby.rs`, `sfu/peer.rs` — what a lobby and a peer decide on each request.
  - `sfu/media/` — tracks, the router of a lobby's media, the control data channel of
    a peer, track descriptions in SDP.
  - `sfu/rtc/` — the RTC core layer: port leases, core layout and lobby assignment,
    demultiplexing by ICE username, lobby membership, the forwarding table and its
    reconciliation, per-packet routing, codec and header extension mapping, the control
    channel router and the signaling decisions of a lobby.
  - `sfu/relay/` — relay ports, the RTP gate in front of the encoder, the CMAF box
    splitter and track preparation, the catalog, the pipeline supervisor.
- `tests/` — tests of the library.
- `app/` — what runs around the library: configuration parsing, network sockets, the
  RTP forwarding loop, JSON decoding of control messages.
