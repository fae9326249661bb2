use dictation_core::error::AppError;
use dictation_core::history::HistoryDb;
use dictation_core::pipeline::{PipelineRun, PipelineStatus};
use dictation_core::recorder::AudioRecorder;
use dictation_core::sample::FP_ONE;
use dictation_core::wav::decode_wav_to_samples;

#[test]
fn start_twice_yields_already_recording() {
    let mut rec = AudioRecorder::new();
    assert!(rec.start_recording(44100, 2).is_ok());
    let err = rec.start_recording(48000, 1).unwrap_err();
    assert!(matches!(&err, AppError::Audio(_)));
    assert_eq!(err.message(), "Already recording");
}

#[test]
fn stop_without_start_yields_not_recording() {
    let mut rec = AudioRecorder::new();
    let err = rec.stop_recording().unwrap_err();
    assert!(matches!(&err, AppError::Audio(_)));
    assert_eq!(err.message(), "Not recording");
}

#[test]
fn start_rejects_zero_configuration() {
    let mut rec = AudioRecorder::new();
    let err = rec.start_recording(0, 1).unwrap_err();
    assert_eq!(err.message(), "Invalid device configuration");
    let err = rec.start_recording(44100, 0).unwrap_err();
    assert_eq!(err.message(), "Invalid device configuration");
    assert!(!rec.is_recording());
}

#[test]
fn stop_after_start_allows_new_session() {
    let mut rec = AudioRecorder::new();
    assert!(rec.start_recording(16000, 1).is_ok());
    assert!(rec.is_recording());
    assert!(rec.stop_recording().is_ok());
    assert!(!rec.is_recording());
    assert!(rec.start_recording(16000, 1).is_ok());
}

#[test]
fn empty_session_produces_empty_wav() {
    let mut rec = AudioRecorder::new();
    rec.start_recording(44100, 2).unwrap();
    let wav = rec.stop_recording().unwrap();
    assert_eq!(wav.len(), 44);
    let decoded = decode_wav_to_samples(&wav).unwrap();
    assert!(decoded.is_empty());
}

#[test]
fn pipeline_degrades_on_cleanup_failure() {
    let (mut run, ev) = PipelineRun::begin();
    assert_eq!(ev.status, PipelineStatus::Transcribing);
    let ev = run.on_transcription(Ok("hello world".to_string()));
    assert_eq!(ev.status, PipelineStatus::Cleaning);
    assert_eq!(ev.raw_text.as_deref(), Some("hello world"));
    let ev = run.on_cleanup(Err(AppError::Llm("endpoint unreachable".to_string())));
    assert_eq!(ev.status, PipelineStatus::Done);
    assert_eq!(run.status, PipelineStatus::Done);
    assert_eq!(run.cleaned_text.as_deref(), Some("hello world"));
    let record = run.build_record("base", 0).unwrap();
    assert_eq!(record.raw_text, "hello world");
    assert_eq!(record.cleaned_text, "hello world");
}

#[test]
fn pipeline_keeps_cleaned_text_on_success() {
    let (mut run, _) = PipelineRun::begin();
    run.on_transcription(Ok("um hello world".to_string()));
    let ev = run.on_cleanup(Ok("Hello world.".to_string()));
    assert_eq!(ev.status, PipelineStatus::Done);
    assert_eq!(ev.raw_text.as_deref(), Some("um hello world"));
    assert_eq!(ev.cleaned_text.as_deref(), Some("Hello world."));
    let record = run.build_record("base", 0).unwrap();
    assert_eq!(record.raw_text, "um hello world");
    assert_eq!(record.cleaned_text, "Hello world.");
}

#[test]
fn pipeline_empty_speech_ends_without_record() {
    let (mut run, _) = PipelineRun::begin();
    let ev = run.on_transcription(Ok("".to_string()));
    assert_eq!(ev.status, PipelineStatus::Error);
    assert_eq!(ev.error.as_deref(), Some("No speech detected"));
    assert_eq!(run.status, PipelineStatus::Error);
    assert!(run.build_record("base", 0).is_none());
}

#[test]
fn pipeline_whitespace_speech_ends_without_record() {
    let (mut run, _) = PipelineRun::begin();
    let ev = run.on_transcription(Ok("  \t\n ".to_string()));
    assert_eq!(ev.status, PipelineStatus::Error);
    assert_eq!(ev.error.as_deref(), Some("No speech detected"));
    assert!(run.build_record("base", 0).is_none());
}

#[test]
fn pipeline_transcription_failure_is_fatal() {
    let (mut run, _) = PipelineRun::begin();
    let ev = run.on_transcription(Err(AppError::Whisper("engine crashed".to_string())));
    assert_eq!(ev.status, PipelineStatus::Error);
    assert_eq!(ev.error.as_deref(), Some("engine crashed"));
    assert!(run.build_record("base", 0).is_none());
}

#[test]
fn build_record_carries_identifier_and_model() {
    let (mut run, _) = PipelineRun::begin();
    run.on_transcription(Ok("words".to_string()));
    run.on_cleanup(Ok("Words.".to_string()));
    let record = run.build_record("large-v3-turbo", 0).unwrap();
    assert_eq!(record.id.chars().count(), 36);
    assert_eq!(record.model_used, "large-v3-turbo");
    let again = run.build_record("large-v3-turbo", 0).unwrap();
    assert_ne!(record.id, again.id);
}

#[test]
fn end_to_end_capture_to_done() {
    // Capture: synthetic mono 44100 Hz samples.
    let mut rec = AudioRecorder::new();
    rec.start_recording(44100, 1).unwrap();
    let chunk: Vec<i32> = (0..44100)
        .map(|i| if i % 2 == 0 { FP_ONE / 2 } else { -FP_ONE / 2 })
        .collect();
    rec.append_samples(&chunk);
    let wav = rec.stop_recording().unwrap();

    // The produced file is 16 kHz mono 16-bit.
    assert_eq!(u32::from_le_bytes([wav[24], wav[25], wav[26], wav[27]]), 16000);
    assert_eq!(u16::from_le_bytes([wav[22], wav[23]]), 1);
    assert_eq!(u16::from_le_bytes([wav[34], wav[35]]), 16);
    let decoded = decode_wav_to_samples(&wav).unwrap();
    assert_eq!(decoded.len(), 16000);

    // A stub transcription port consumes the WAV and answers a fixed text.
    let stub_transcribe = |bytes: &Vec<u8>| -> Result<String, AppError> {
        decode_wav_to_samples(bytes)?;
        Ok("testing one two".to_string())
    };

    let (mut run, _) = PipelineRun::begin();
    run.on_transcription(stub_transcribe(&wav));
    let ev = run.on_cleanup(Err(AppError::Llm("no cleanup".to_string())));
    assert_eq!(ev.status, PipelineStatus::Done);
    assert_eq!(run.status, PipelineStatus::Done);
    assert_eq!(run.raw_text.as_deref(), Some("testing one two"));

    let record = run.build_record("base", 0).unwrap();
    let mut history = HistoryDb::new();
    history.insert(&record).unwrap();
    let listed = history.list().unwrap();
    assert_eq!(listed.len(), 1);
    assert_eq!(listed[0].raw_text, "testing one two");
}

#[test]
fn append_without_session_is_dropped() {
    let mut rec = AudioRecorder::new();
    rec.append_samples(&vec![1, 2, 3]);
    let err = rec.stop_recording().unwrap_err();
    assert_eq!(err.message(), "Not recording");
}
