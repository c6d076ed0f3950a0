# transcribe-server

OpenAI-compatible speech-to-text server: `/v1/audio/transcriptions`,
`/v1/audio/translations`, `/v1/models`, `/health` and a WebSocket streaming
endpoint, with optional Bearer authentication.

The crate is in two parts.

- `src/` is the `transcribe_server` library, verified with Verus. It holds the
  decisions the server makes: request validation and planning, the
  translation rule, model resolution and chunk-length limits, silence-aware
  chunking of PCM, the streaming session state machine, the `verbose_json`
  body, the model list, API keys, error shapes, the fake engine, cancellation
  flags, and the native engine's load and row-conversion rules. Times are
  counted in samples of 16 kHz audio (or whole milliseconds and
  microseconds), never in floating point.
- `app/` is the program around it: command line, sockets (axum), audio
  decoding (hound, and libav through ffmpeg-next when built with it), float
  PCM, JSON rendering, and the destructor-based guards that cancel a run when
  its client goes away.

`tests/` runs the library on concrete values.
