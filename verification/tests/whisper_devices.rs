use dictation_core::devices::usable_input_devices;
use dictation_core::error::AppError;
use dictation_core::sample::FP_ONE;
use dictation_core::sounds::SoundPlayer;
use dictation_core::wav::encode_wav;
use dictation_core::whisper::{
    api_transcript, api_transcription_url, download_progress_percent, huggingface_url,
    list_models, model_filename, WhisperEngine,
};

#[test]
fn model_filenames_from_catalog() {
    assert_eq!(model_filename("tiny"), Some("ggml-tiny.bin"));
    assert_eq!(model_filename("base"), Some("ggml-base.bin"));
    assert_eq!(model_filename("small"), Some("ggml-small.bin"));
    assert_eq!(model_filename("medium"), Some("ggml-medium.bin"));
    assert_eq!(model_filename("large-v3-turbo"), Some("ggml-large-v3-turbo.bin"));
    assert_eq!(model_filename("huge"), None);
}

#[test]
fn model_download_urls() {
    assert_eq!(
        huggingface_url("ggml-tiny.bin"),
        "https://huggingface.co/ggerganov/whisper.cpp/resolve/main/ggml-tiny.bin"
    );
}

#[test]
fn model_list_reflects_downloads() {
    let paths = vec![
        Some("/models/ggml-tiny.bin".to_string()),
        None,
        None,
        None,
        Some("/models/ggml-large-v3-turbo.bin".to_string()),
    ];
    let models = list_models(paths).unwrap();
    assert_eq!(models.len(), 5);
    assert_eq!(models[0].name, "tiny");
    assert_eq!(models[0].size, "75 MB");
    assert!(models[0].downloaded);
    assert_eq!(models[0].path.as_deref(), Some("/models/ggml-tiny.bin"));
    assert_eq!(models[1].name, "base");
    assert!(!models[1].downloaded);
    assert_eq!(models[1].path, None);
    assert_eq!(models[4].name, "large-v3-turbo");
    assert_eq!(models[4].size, "1.6 GB");
    assert!(models[4].downloaded);
}

#[test]
fn download_progress_formula() {
    assert_eq!(download_progress_percent(50, 200), 25);
    assert_eq!(download_progress_percent(0, 200), 0);
    assert_eq!(download_progress_percent(200, 200), 100);
    assert_eq!(download_progress_percent(300, 200), 150);
    assert_eq!(download_progress_percent(123, 0), 0);
    assert_eq!(download_progress_percent(1, 3), 33);
}

#[test]
fn engine_model_slot_lifecycle() {
    let mut engine = WhisperEngine::new();
    assert!(!engine.is_model_loaded());

    let err = engine.load_model("huge", true).unwrap_err();
    assert!(matches!(&err, AppError::Whisper(_)));
    assert_eq!(err.message(), "Unknown model: huge");
    assert!(!engine.is_model_loaded());

    let err = engine.load_model("tiny", false).unwrap_err();
    assert_eq!(err.message(), "Model not downloaded: tiny");
    assert!(!engine.is_model_loaded());

    engine.load_model("tiny", true).unwrap();
    assert!(engine.is_model_loaded());
    engine.unload();
    assert!(!engine.is_model_loaded());
}

#[test]
fn transcription_requires_a_loaded_model() {
    let engine = WhisperEngine::new();
    let wav = encode_wav(&vec![0, FP_ONE / 2], 16000, 1);
    let err = engine.prepare_transcription(&wav).unwrap_err();
    assert_eq!(err.message(), "No model loaded");
}

#[test]
fn transcription_decodes_the_wav() {
    let mut engine = WhisperEngine::new();
    engine.load_model("tiny", true).unwrap();
    let samples = vec![0, FP_ONE / 2, -FP_ONE / 2];
    let wav = encode_wav(&samples, 16000, 1);
    let decoded = engine.prepare_transcription(&wav).unwrap();
    assert_eq!(decoded.len(), samples.len());
    for (a, b) in samples.iter().zip(decoded.iter()) {
        assert!((a - b).abs() <= 1);
    }
    let err = engine.prepare_transcription(&vec![1u8, 2, 3]).unwrap_err();
    assert_eq!(err.message(), "Invalid WAV");
}

#[test]
fn segments_join_and_trim() {
    let mut engine = WhisperEngine::new();
    engine.load_model("tiny", true).unwrap();
    let segments = vec![" hello".to_string(), " world ".to_string()];
    assert_eq!(engine.finish_transcription(&segments), "hello world");
    assert_eq!(engine.finish_transcription(&Vec::new()), "");
}

#[test]
fn remote_transcription_url_and_reply() {
    assert_eq!(
        api_transcription_url("https://api.openai.com/"),
        "https://api.openai.com/v1/audio/transcriptions"
    );
    assert_eq!(api_transcript("  testing one two \n"), "testing one two");
}

#[test]
fn device_filter_keeps_usable_endpoints() {
    let names = vec![
        "pipewire".to_string(),
        "hw:CARD=0".to_string(),
        "default".to_string(),
        "surround40:CARD=1".to_string(),
        "NULL sink".to_string(),
        "PulseAudio".to_string(),
        "dmix:0".to_string(),
    ];
    let devices = usable_input_devices(&names);
    let kept: Vec<(usize, &str)> = devices.iter().map(|d| (d.index, d.name.as_str())).collect();
    assert_eq!(kept, vec![(0, "pipewire"), (2, "default"), (5, "PulseAudio")]);
}

#[test]
fn sound_player_queues_tones_in_order() {
    let mut player = SoundPlayer::new();
    player.play(&[1, 2, 3]);
    player.play(&[9]);
    let pending = player.take_pending();
    assert_eq!(pending, vec![vec![1, 2, 3], vec![9]]);
    assert!(player.take_pending().is_empty());
}

#[test]
fn error_messages_by_kind() {
    assert_eq!(AppError::Audio("a".to_string()).message(), "a");
    assert_eq!(AppError::Whisper("w".to_string()).message(), "w");
    assert_eq!(AppError::Llm("l".to_string()).message(), "l");
    assert_eq!(AppError::Settings("s".to_string()).message(), "s");
    assert_eq!(AppError::History("h".to_string()).message(), "h");
    assert_eq!(AppError::Hotkey("k".to_string()).message(), "k");
    assert_eq!(AppError::Output("o".to_string()).message(), "o");
    assert_eq!(AppError::Io("i".to_string()).message(), "i");
    assert_eq!(AppError::Other("x".to_string()).message(), "x");
}
