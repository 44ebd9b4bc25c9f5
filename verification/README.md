# rice_stream

Streams of an ICE agent, their components, and the consent freshness process
(RFC 7675) that keeps a selected pair alive, written and verified with Verus.

- `src/consent.rs`: the consent freshness process; `src/consent_laws.rs` states
  what holds of it over several calls.
- `src/stream_state.rs`: the state of a stream; `src/stream_laws.rs` its laws.
- `src/stream.rs`, `src/component.rs`: handles for streams and components.
- `src/agent.rs`: the agent that owns the streams; `src/agent_laws.rs` its laws.
- `src/checklist.rs`, `src/gathering.rs`: what is passed between a stream and
  the engines that check connectivity and gather candidates.
- `src/conncheck.rs`, `src/message.rs`: the requests that consent checks send,
  written with `stun_proto`.
- `src/candidate.rs`, `src/net.rs`, `src/time.rs`, `src/secret.rs`,
  `src/rand.rs`, `src/search.rs`: the values and helpers that the rest uses.
- `app/`: conversions from and to the types of `std` and `stun_proto`, and the
  loop that runs the engines.

The library does no I/O and reads no clock: points in time are handed in, and
what is to be done is handed out.
