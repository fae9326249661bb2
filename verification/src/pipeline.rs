//! The transcription-to-output pipeline state machine.
//!
//! One run per capture: stop capture, transcribe, clean up, emit, persist.
//! The driver performs the outside work (transcription call, cleanup call,
//! clipboard, persistence) and feeds each outcome back; the functions here
//! make every decision and say which status event to broadcast.  Cleanup
//! failure degrades the run instead of aborting it, and a blank transcript
//! ends the run without a record.

use vstd::prelude::*;
use crate::error::AppError;
use crate::history::TranscriptionRecord;
use crate::text::{is_blank, is_blank_spec};

verus! {

/// Stage of a pipeline run.
#[derive(Debug, Clone, Copy, PartialEq, Eq, Structural)]
pub enum PipelineStatus {
    Recording,
    Transcribing,
    Cleaning,
    Done,
    Error,
}

/// One status broadcast: the stage plus the best-known text so far.
#[derive(Debug, Clone)]
pub struct PipelineStatusEvent {
    pub status: PipelineStatus,
    pub raw_text: Option<String>,
    pub cleaned_text: Option<String>,
    pub error: Option<String>,
}

/// The working state of one pipeline run.
#[derive(Debug)]
pub struct PipelineRun {
    pub status: PipelineStatus,
    pub raw_text: Option<String>,
    pub cleaned_text: Option<String>,
    pub error: Option<String>,
}

/// Relies on `uuid::Uuid::new_v4` and its `Display` form: a fresh random
/// identifier rendered as 36 hyphenated hexadecimal characters.
#[verifier::external_body]
fn fresh_record_id() -> (r: String)
    ensures
        r@.len() == 36,
{
    uuid::Uuid::new_v4().to_string()
}

/// Relies on `chrono::Utc::now().timestamp_millis()`: the wall clock as
/// milliseconds since the Unix epoch.  Nothing is promised of the value.
#[verifier::external_body]
fn now_unix_millis() -> (t: i64) {
    chrono::Utc::now().timestamp_millis()
}

/// The wall clock as milliseconds since the Unix epoch, clamped to zero for
/// clocks set before the epoch.
pub fn current_time_millis() -> (t: u64) {
    let raw = now_unix_millis();
    if raw > 0 {
        raw as u64
    } else {
        0
    }
}

impl PipelineRun {
    /// Begin a run: the capture has stopped and transcription is next.  The
    /// returned event announces the `Transcribing` stage.
    pub fn begin() -> (r: (PipelineRun, PipelineStatusEvent))
        ensures
            r.0.status == PipelineStatus::Transcribing,
            r.0.raw_text is None,
            r.0.cleaned_text is None,
            r.0.error is None,
            r.1.status == PipelineStatus::Transcribing,
            r.1.raw_text is None && r.1.cleaned_text is None && r.1.error is None,
    {
        let run = PipelineRun {
            status: PipelineStatus::Transcribing,
            raw_text: None,
            cleaned_text: None,
            error: None,
        };
        let ev = PipelineStatusEvent {
            status: PipelineStatus::Transcribing,
            raw_text: None,
            cleaned_text: None,
            error: None,
        };
        (run, ev)
    }

    /// Feed the transcription outcome.  A failure is fatal to the run; a
    /// blank transcript (nothing but white space) ends the run with `No
    /// speech detected`; otherwise the run moves to `Cleaning` carrying the
    /// transcript.
    pub fn on_transcription(&mut self, result: Result<String, AppError>) -> (ev:
        PipelineStatusEvent)
        requires
            old(self).status == PipelineStatus::Transcribing,
        ensures
            match result {
                Ok(t) => {
                    if is_blank_spec(t@) {
                        &&& final(self).status == PipelineStatus::Error
                        &&& final(self).raw_text is None
                        &&& final(self).error matches Some(m) && m@ == "No speech detected"@
                        &&& ev.status == PipelineStatus::Error
                        &&& ev.error matches Some(m) && m@ == "No speech detected"@
                        &&& ev.raw_text is None && ev.cleaned_text is None
                    } else {
                        &&& final(self).status == PipelineStatus::Cleaning
                        &&& final(self).raw_text matches Some(r) && r == t
                        &&& final(self).error is None
                        &&& ev.status == PipelineStatus::Cleaning
                        &&& ev.raw_text matches Some(r) && r@ == t@
                        &&& ev.cleaned_text is None && ev.error is None
                    }
                },
                Err(e) => {
                    &&& final(self).status == PipelineStatus::Error
                    &&& final(self).raw_text is None
                    &&& final(self).error matches Some(m) && m@ == e.spec_message()
                    &&& ev.status == PipelineStatus::Error
                    &&& ev.error matches Some(m) && m@ == e.spec_message()
                    &&& ev.raw_text is None && ev.cleaned_text is None
                },
            },
            final(self).cleaned_text is None,
    {
        match result {
            Ok(t) => {
                if is_blank(t.as_str()) {
                    self.status = PipelineStatus::Error;
                    self.raw_text = None;
                    self.cleaned_text = None;
                    self.error = Some(String::from_str("No speech detected"));
                    PipelineStatusEvent {
                        status: PipelineStatus::Error,
                        raw_text: None,
                        cleaned_text: None,
                        error: Some(String::from_str("No speech detected")),
                    }
                } else {
                    let shown = t.clone();
                    self.status = PipelineStatus::Cleaning;
                    self.raw_text = Some(t);
                    self.cleaned_text = None;
                    self.error = None;
                    PipelineStatusEvent {
                        status: PipelineStatus::Cleaning,
                        raw_text: Some(shown),
                        cleaned_text: None,
                        error: None,
                    }
                }
            },
            Err(e) => {
                let msg = String::from_str(e.message());
                self.status = PipelineStatus::Error;
                self.raw_text = None;
                self.cleaned_text = None;
                self.error = Some(msg.clone());
                PipelineStatusEvent {
                    status: PipelineStatus::Error,
                    raw_text: None,
                    cleaned_text: None,
                    error: Some(msg),
                }
            },
        }
    }

    /// Feed the cleanup outcome.  The run always reaches `Done`: a cleanup
    /// failure only forfeits the cleanup, and the raw transcript stands in
    /// for the cleaned text.
    pub fn on_cleanup(&mut self, result: Result<String, AppError>) -> (ev: PipelineStatusEvent)
        requires
            old(self).status == PipelineStatus::Cleaning,
            old(self).raw_text is Some,
        ensures
            final(self).status == PipelineStatus::Done,
            final(self).raw_text == old(self).raw_text,
            final(self).error == old(self).error,
            match result {
                Ok(c) => final(self).cleaned_text matches Some(t) && t == c,
                Err(_) => final(self).cleaned_text == old(self).raw_text,
            },
            ev.status == PipelineStatus::Done,
            ev.raw_text == final(self).raw_text,
            ev.cleaned_text == final(self).cleaned_text,
            ev.error is None,
    {
        let cleaned = match result {
            Ok(c) => c,
            Err(_) => match &self.raw_text {
                Some(r) => r.clone(),
                None => String::new(),
            },
        };
        self.status = PipelineStatus::Done;
        self.cleaned_text = Some(cleaned);
        let raw_shown = match &self.raw_text {
            Some(r) => Some(r.clone()),
            None => None,
        };
        let cleaned_shown = match &self.cleaned_text {
            Some(c) => Some(c.clone()),
            None => None,
        };
        PipelineStatusEvent {
            status: PipelineStatus::Done,
            raw_text: raw_shown,
            cleaned_text: cleaned_shown,
            error: None,
        }
    }

    /// The record to persist, if the run finished.  A run that did not reach
    /// `Done` (a failure or a blank transcript) yields no record.  The
    /// duration is the wall-clock time since `started_at_millis`, the moment
    /// the capture was stopped.
    pub fn build_record(&self, model_used: &str, started_at_millis: u64) -> (r: Option<
        TranscriptionRecord,
    >)
        ensures
            r is Some <==> self.status == PipelineStatus::Done && self.raw_text is Some
                && self.cleaned_text is Some,
            r matches Some(rec) ==> {
                &&& self.raw_text matches Some(t) && rec.raw_text@ == t@
                &&& self.cleaned_text matches Some(c) && rec.cleaned_text@ == c@
                &&& rec.model_used@ == model_used@
                &&& rec.id@.len() == 36
                &&& rec.duration_millis == if rec.created_at_millis >= started_at_millis {
                    rec.created_at_millis - started_at_millis
                } else {
                    0
                }
            },
    {
        if !(self.status == PipelineStatus::Done) {
            return None;
        }
        let raw = match &self.raw_text {
            Some(r) => r.clone(),
            None => {
                return None;
            },
        };
        let cleaned = match &self.cleaned_text {
            Some(c) => c.clone(),
            None => {
                return None;
            },
        };
        let created_at_millis = current_time_millis();
        let duration_millis = if created_at_millis >= started_at_millis {
            created_at_millis - started_at_millis
        } else {
            0
        };
        Some(
            TranscriptionRecord {
                id: fresh_record_id(),
                raw_text: raw,
                cleaned_text: cleaned,
                created_at_millis,
                duration_millis,
                model_used: String::from_str(model_used),
            },
        )
    }
}

} // verus!
