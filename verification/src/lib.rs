//! Core of a push-to-talk dictation engine.
//!
//! The library covers the parts of the workflow that carry real logic: the
//! capture-session state machine with its sample buffer, the signal chain that
//! turns captured audio into a mono 16 kHz 16-bit WAV (downmix, linear
//! resampling, PCM encoding and decoding), the transcription-to-output
//! pipeline state machine with its graceful degradation rules, and the
//! history store with oldest-first pruning.  Hardware capture, networking,
//! persistence and UI remain outside; they hand the library plain values and
//! take plain values back.
//!
//! Audio amplitudes are held in fixed point: [`sample::FP_ONE`] units stand
//! for an amplitude of 1.0, so the whole signal chain is exact integer
//! arithmetic.

pub mod devices;
pub mod error;
pub mod history;
pub mod hotkey;
pub mod sample;
pub mod signal;
pub mod llm;
pub mod output;
pub mod pipeline;
pub mod recorder;
pub mod settings;
pub mod sounds;
pub mod text;
pub mod wav;
pub mod whisper;
