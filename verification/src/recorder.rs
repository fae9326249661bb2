//! The capture-session state machine.
//!
//! An [`AudioRecorder`] owns at most one active session.  The hardware layer
//! probes the device, starts a session with the probed configuration, feeds
//! converted fixed-point samples into it, and stops it; stopping drains the
//! buffer through the signal chain (downmix, resample to the target rate,
//! WAV-encode) in one step, so no partial hand-off can be observed.

use vstd::prelude::*;
use crate::error::AppError;
use crate::signal::{downmix_seq, resample_seq, to_mono, resample};
use crate::wav::{encode_wav, is_wav_encoding, MAX_WAV_SAMPLES};

verus! {

/// Sample rate of the WAV handed to transcription.
pub const TARGET_SAMPLE_RATE: u32 = 16000;

/// Channel count of the WAV handed to transcription.
pub const TARGET_CHANNELS: u16 = 1;

/// The buffer of one active capture session.
pub struct RecordingBuffer {
    /// Captured fixed-point samples, interleaved by channel.
    pub samples: Vec<i32>,
    /// Sample rate the device was probed at.
    pub source_sample_rate: u32,
    /// Channel count the device was probed at.
    pub source_channels: u16,
}

/// Recorder state: at most one session at a time.
pub struct AudioRecorder {
    session: Option<RecordingBuffer>,
}

/// Abstract recorder state: `None` when idle, otherwise the captured samples
/// with the probed sample rate and channel count.
pub type RecorderView = Option<(Seq<i32>, int, int)>;

impl View for AudioRecorder {
    type V = RecorderView;

    closed spec fn view(&self) -> RecorderView {
        match self.session {
            Some(b) => Some((b.samples@, b.source_sample_rate as int, b.source_channels as int)),
            None => None,
        }
    }
}

/// How a call to `start_recording` ends.
pub enum StartOutcome {
    Started,
    AlreadyRecording,
    InvalidConfig,
}

/// How a call to `stop_recording` ends.
pub enum StopOutcome {
    Stopped,
    NotRecording,
    TooLong,
}

/// Outcome of `start_recording` on a recorder in state `v`.
pub open spec fn start_outcome(v: RecorderView, rate: int, ch: int) -> StartOutcome {
    if v is Some {
        StartOutcome::AlreadyRecording
    } else if rate < 1 || ch < 1 {
        StartOutcome::InvalidConfig
    } else {
        StartOutcome::Started
    }
}

/// Recorder state after `start_recording` on state `v`.
pub open spec fn start_state(v: RecorderView, rate: int, ch: int) -> RecorderView {
    if start_outcome(v, rate, ch) is Started {
        Some((Seq::<i32>::empty(), rate, ch))
    } else {
        v
    }
}

/// The samples a session would hand to transcription: downmixed to mono and
/// resampled to the target rate.
pub open spec fn processed_samples(samples: Seq<i32>, rate: int, ch: int) -> Seq<i32> {
    resample_seq(downmix_seq(samples, ch), rate, TARGET_SAMPLE_RATE as int)
}

/// Whether a session's buffer has outgrown what a WAV file can hold.
pub open spec fn stop_too_long(samples: Seq<i32>, rate: int, ch: int) -> bool {
    ||| downmix_seq(samples, ch).len() * (TARGET_SAMPLE_RATE as int) > usize::MAX
    ||| processed_samples(samples, rate, ch).len() > MAX_WAV_SAMPLES
}

/// Outcome of `stop_recording` on a recorder in state `v`.
pub open spec fn stop_outcome(v: RecorderView) -> StopOutcome {
    match v {
        None => StopOutcome::NotRecording,
        Some((samples, rate, ch)) => if stop_too_long(samples, rate, ch) {
            StopOutcome::TooLong
        } else {
            StopOutcome::Stopped
        },
    }
}

impl AudioRecorder {
    /// Whether a session is active, as seen by contracts.
    pub open spec fn is_recording_spec(&self) -> bool {
        self@ is Some
    }

    /// A recorder is well formed when any active session carries a positive
    /// sample rate and channel count (established by `start_recording`).
    pub open spec fn wf(&self) -> bool {
        match self@ {
            Some((_samples, rate, ch)) => rate >= 1 && ch >= 1,
            None => true,
        }
    }

    /// A fresh, idle recorder.
    pub fn new() -> (r: Self)
        ensures
            r@ is None,
            r.wf(),
    {
        AudioRecorder { session: None }
    }

    /// Whether a session is active.
    pub fn is_recording(&self) -> (b: bool)
        ensures
            b == self.is_recording_spec(),
    {
        self.session.is_some()
    }

    /// Open a session with the probed device configuration.  Fails with
    /// `Already recording` while a session is active and with `Invalid device
    /// configuration` when the probe reported a zero rate or channel count;
    /// in both cases the recorder is unchanged.
    pub fn start_recording(&mut self, source_sample_rate: u32, source_channels: u16) -> (r:
        Result<(), AppError>)
        requires
            old(self).wf(),
        ensures
            final(self).wf(),
            final(self)@ == start_state(
                old(self)@,
                source_sample_rate as int,
                source_channels as int,
            ),
            match start_outcome(old(self)@, source_sample_rate as int, source_channels as int) {
                StartOutcome::Started => r is Ok,
                StartOutcome::AlreadyRecording => r matches Err(e) && e matches AppError::Audio(m)
                    && m@ == "Already recording"@,
                StartOutcome::InvalidConfig => r matches Err(e) && e matches AppError::Audio(m)
                    && m@ == "Invalid device configuration"@,
            },
    {
        if self.session.is_some() {
            return Err(AppError::Audio(String::from_str("Already recording")));
        }
        if source_sample_rate < 1 || source_channels < 1 {
            return Err(AppError::Audio(String::from_str("Invalid device configuration")));
        }
        self.session = Some(
            RecordingBuffer {
                samples: Vec::new(),
                source_sample_rate,
                source_channels,
            },
        );
        Ok(())
    }

    /// Append a chunk of captured samples.  A chunk arriving while no session
    /// is active is dropped.
    pub fn append_samples(&mut self, chunk: &Vec<i32>)
        ensures
            old(self)@ matches Some((samples, rate, ch)) ==> final(self)@ == Some(
                (samples + chunk@, rate, ch),
            ),
            old(self)@ is None ==> final(self)@ == old(self)@,
            final(self).wf() == old(self).wf(),
    {
        match &mut self.session {
            Some(buffer) => {
                buffer.samples.extend_from_slice(chunk.as_slice());
            },
            None => {},
        }
    }

    /// Close the session and run the capture through the signal chain:
    /// downmix to mono, resample to the target rate, encode as 16-bit PCM
    /// WAV.  Fails with `Not recording` when no session is active, and with
    /// `Recording too long` when the buffer outgrew what a WAV can hold; the
    /// recorder is idle afterwards in every case.
    pub fn stop_recording(&mut self) -> (r: Result<Vec<u8>, AppError>)
        requires
            old(self).wf(),
        ensures
            final(self)@ is None,
            final(self).wf(),
            match stop_outcome(old(self)@) {
                StopOutcome::Stopped => r matches Ok(w) && (old(self)@ matches Some(
                    (samples, rate, ch),
                ) && is_wav_encoding(
                    w@,
                    processed_samples(samples, rate, ch),
                    TARGET_SAMPLE_RATE as int,
                    TARGET_CHANNELS as int,
                )),
                StopOutcome::NotRecording => r matches Err(e) && e matches AppError::Audio(m)
                    && m@ == "Not recording"@,
                StopOutcome::TooLong => r matches Err(e) && e matches AppError::Audio(m)
                    && m@ == "Recording too long"@,
            },
    {
        let mut sess: Option<RecordingBuffer> = None;
        core::mem::swap(&mut sess, &mut self.session);
        let buffer = match sess {
            None => {
                return Err(AppError::Audio(String::from_str("Not recording")));
            },
            Some(b) => b,
        };
        let mono = to_mono(&buffer.samples, buffer.source_channels);
        proof {
            vstd::arithmetic::div_mod::lemma_fundamental_div_mod(
                usize::MAX as int,
                TARGET_SAMPLE_RATE as int,
            );
            vstd::arithmetic::div_mod::lemma_mod_bound(
                usize::MAX as int,
                TARGET_SAMPLE_RATE as int,
            );
        }
        if mono.len() > usize::MAX / (TARGET_SAMPLE_RATE as usize) {
            proof {
                assert(mono@.len() * (TARGET_SAMPLE_RATE as int) >= (usize::MAX as int
                    / TARGET_SAMPLE_RATE as int + 1) * (TARGET_SAMPLE_RATE as int))
                    by (nonlinear_arith)
                    requires
                        mono@.len() >= usize::MAX as int / TARGET_SAMPLE_RATE as int + 1,
                        TARGET_SAMPLE_RATE as int >= 1,
                ;
                assert((usize::MAX as int / TARGET_SAMPLE_RATE as int + 1) * (TARGET_SAMPLE_RATE
                    as int) == (TARGET_SAMPLE_RATE as int) * (usize::MAX as int
                    / TARGET_SAMPLE_RATE as int) + TARGET_SAMPLE_RATE as int)
                    by (nonlinear_arith);
            }
            return Err(AppError::Audio(String::from_str("Recording too long")));
        }
        proof {
            assert(mono@.len() * (TARGET_SAMPLE_RATE as int) <= (usize::MAX as int
                / TARGET_SAMPLE_RATE as int) * (TARGET_SAMPLE_RATE as int)) by (nonlinear_arith)
                requires
                    mono@.len() <= usize::MAX as int / TARGET_SAMPLE_RATE as int,
            ;
            assert((usize::MAX as int / TARGET_SAMPLE_RATE as int) * (TARGET_SAMPLE_RATE as int)
                == (TARGET_SAMPLE_RATE as int) * (usize::MAX as int / TARGET_SAMPLE_RATE as int))
                by (nonlinear_arith);
        }
        let resampled = resample(&mono, buffer.source_sample_rate, TARGET_SAMPLE_RATE);
        if resampled.len() > MAX_WAV_SAMPLES {
            return Err(AppError::Audio(String::from_str("Recording too long")));
        }
        proof {
            assert(old(self)@ == Some(
                (buffer.samples@, buffer.source_sample_rate as int, buffer.source_channels as int),
            ));
            assert(mono@ == downmix_seq(buffer.samples@, buffer.source_channels as int));
            assert(resampled@ == resample_seq(
                mono@,
                buffer.source_sample_rate as int,
                TARGET_SAMPLE_RATE as int,
            ));
            assert(resampled@ == processed_samples(
                buffer.samples@,
                buffer.source_sample_rate as int,
                buffer.source_channels as int,
            ));
            assert(stop_outcome(old(self)@) is Stopped);
        }
        Ok(encode_wav(&resampled, TARGET_SAMPLE_RATE, TARGET_CHANNELS))
    }
}

/// Exclusivity of capture: starting a session on an idle recorder succeeds,
/// and a second start without an intervening stop ends in `AlreadyRecording`,
/// whatever configuration it asks for.
pub proof fn lemma_start_is_exclusive(
    v: RecorderView,
    rate1: int,
    ch1: int,
    rate2: int,
    ch2: int,
)
    requires
        v is None,
        rate1 >= 1,
        ch1 >= 1,
    ensures
        start_outcome(v, rate1, ch1) is Started,
        start_outcome(start_state(v, rate1, ch1), rate2, ch2) is AlreadyRecording,
{
}

/// Stopping an idle recorder ends in `NotRecording`.
pub proof fn lemma_stop_without_start(v: RecorderView)
    requires
        v is None,
    ensures
        stop_outcome(v) is NotRecording,
{
}

} // verus!
