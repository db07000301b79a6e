# llm_rtc

Low-latency audio transport logic for full-duplex voice conversations with a
language model, written and verified in Verus.

The library in `src/` holds the decisions of a voice session and proves what
they promise:

- `audio::jitter` reorders RTP packets and plays every slot exactly once, in
  sequence order, at a stable deadline. `audio::jitter_model` is the
  mathematical state that its contracts speak of, `audio::jitter_laws` states
  what holds over sequences of operations, and `audio::jitter_burst` that packets
  which arrive together play the same in any order.
- `audio::timing` and `audio::rtp` compute deadlines, the adaptive startup depth
  and the inter-arrival jitter estimate, and handle the wraparound of sequence
  numbers and timestamps.
- `audio::codec`, `audio::processor` and `audio::pipeline` check configurations,
  cut audio into frames and combine the parts of both directions.
  `audio::pipeline_laws` states that the packets of a microphone stream do not
  depend on how it is cut into chunks.
- `peer`, `transport` and `session` hold connection settings and the pacing of
  playout.

The library reads no clock and opens no device. Times are nanoseconds handed in
by the caller. Codecs and signal processing engines are handed in together with
the calls on them. Each call takes its engine by value and gives it back in its
next state, so the contracts say how often an engine is called, in which order
and with what, and what becomes of each answer, for every answer it may give.

`app/` attaches libopus, the WebRTC audio processing engine, a peer connection,
the asynchronous tasks of a session and Python bindings. `tests/` runs the
library with stand-in engines.
