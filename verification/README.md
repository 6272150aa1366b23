# modular_agent_audio

Audio playback, device listing and speech-to-text for Modular Agent, with its
decisions written in Verus.

- `src/` is the library. It cuts audio into utterances, decides which of them are
  transcribed, runs the capture loop and the inference worker as state machines,
  finds model files, reads audio out of data URIs, and works out what a
  configuration asks for. Every function has a contract that Verus proves, but
  for the few items listed below.
- `app/` holds the modules as the agent framework sees them: devices, threads,
  channels, models and the audio arithmetic.
- `tests/` runs the library on concrete values.

Samples are values that the library moves around and never looks into. Loudness
levels are IEEE 754 bit patterns (`level`); comparing them is proved to agree
with the order of the numbers.

| Module | What it is about |
| ------ | ---------------- |
| `vad`, `vad_laws` | Energy-based voice activity detection |
| `silero_vad`, `silero_laws` | Bookkeeping around the Silero detector |
| `pipeline` | From utterances to transcription jobs |
| `ring`, `capture` | From the audio callback to the pipeline |
| `infer` | The inference worker |
| `engine_whisper`, `engine_sherpa`, `transcriber` | The engines |
| `session`, `session_run` | What a configuration asks for, and the course of a session |
| `device_list` | Capture devices |
| `player`, `playback` | Playback of data URIs, and the playing thread |
| `level`, `samples`, `text`, `error` | What the others are made of |

What is believed without proof stands in `ring` (the `rtrb` ring buffer), `player`
(`base64` decoding), `error` (the error texts of `modular-agent-core`), `text` and
`device_list` (two functions of the standard library); the comment above each item
says what is claimed.
