//! Verified core of an audio toolkit: voice activity detection, the speech
//! pipeline, capture and inference state machines, and the small decisions
//! around playback, device listing and engine selection.

pub mod call_laws;
pub mod capture;
pub mod device_list;
pub mod engine_sherpa;
pub mod engine_whisper;
pub mod error;
pub mod infer;
pub mod level;
pub mod pipeline;
pub mod playback;
pub mod player;
pub mod ring;
pub mod samples;
pub mod session;
pub mod session_run;
pub mod silero_laws;
pub mod silero_vad;
pub mod text;
pub mod transcriber;
pub mod vad;
pub mod vad_laws;
