use dictation_core::llm::{
    build_cleanup_messages, chat_url, default_few_shot_examples, extract_from_tags, ApiType,
    LlmConfig, DEFAULT_SYSTEM_PROMPT,
};
use dictation_core::settings::{
    default_paste_shortcut, default_whisper_language, normalize_settings, AppSettings,
    WhisperMode,
};

#[test]
fn tag_extraction_unwraps_first_pair() {
    assert_eq!(extract_from_tags("<cleaned>hello</cleaned>"), "hello");
    assert_eq!(extract_from_tags("<t>  spaced  </t>"), "spaced");
    assert_eq!(extract_from_tags("prefix <t>x</t> suffix"), "x");
}

#[test]
fn tag_extraction_keeps_text_without_tags() {
    assert_eq!(extract_from_tags("no tags here"), "no tags here");
    assert_eq!(extract_from_tags(""), "");
    assert_eq!(extract_from_tags("a < b and c > d"), "a < b and c > d");
}

#[test]
fn tag_extraction_needs_a_matching_close() {
    assert_eq!(extract_from_tags("<open>never closed"), "<open>never closed");
    assert_eq!(extract_from_tags("</lead>text</lead>"), "</lead>text</lead>");
    assert_eq!(extract_from_tags("<a>x</b>"), "<a>x</b>");
}

#[test]
fn tag_extraction_ignores_attributes() {
    assert_eq!(extract_from_tags("<tag attr=\"1\">inner</tag>"), "inner");
}

#[test]
fn tag_extraction_takes_outermost_pair() {
    assert_eq!(extract_from_tags("<a><b>x</b></a>"), "<b>x</b>");
}

#[test]
fn cleanup_messages_follow_request_shape() {
    let config = LlmConfig::default();
    let msgs = build_cleanup_messages(&config, "raw words");
    assert_eq!(msgs.len(), 2 + 2 * config.few_shot_examples.len());
    assert_eq!(msgs[0].role, "system");
    assert_eq!(msgs[0].content, DEFAULT_SYSTEM_PROMPT);
    assert_eq!(msgs[1].role, "user");
    assert_eq!(
        msgs[1].content,
        format!("<transcription>{}</transcription>", config.few_shot_examples[0].input)
    );
    assert_eq!(msgs[2].role, "assistant");
    assert_eq!(msgs[2].content, config.few_shot_examples[0].output);
    let last = msgs.last().unwrap();
    assert_eq!(last.role, "user");
    assert_eq!(last.content, "<transcription>raw words</transcription>");
}

#[test]
fn chat_urls_per_api_shape() {
    assert_eq!(
        chat_url("http://localhost:11434/", &ApiType::Ollama),
        "http://localhost:11434/api/chat"
    );
    assert_eq!(
        chat_url("https://api.example.com", &ApiType::OpenAI),
        "https://api.example.com/v1/chat/completions"
    );
    assert_eq!(chat_url("http://h///", &ApiType::Ollama), "http://h/api/chat");
}

#[test]
fn default_examples_are_the_stock_five() {
    let examples = default_few_shot_examples();
    assert_eq!(examples.len(), 5);
    assert!(examples[0].input.starts_with("so um I was thinking"));
    assert_eq!(
        examples[4].input,
        "The quick brown fox jumped over the lazy dog."
    );
    assert_eq!(examples[4].output, examples[4].input);
}

#[test]
fn llm_defaults() {
    let config = LlmConfig::default();
    assert_eq!(config.endpoint, "http://localhost:11434");
    assert_eq!(config.model, "mistral");
    assert_eq!(config.api_type, ApiType::Ollama);
    assert_eq!(config.system_prompt, DEFAULT_SYSTEM_PROMPT);
    assert_eq!(config.few_shot_examples.len(), 5);
}

#[test]
fn settings_defaults() {
    let s = AppSettings::default();
    assert_eq!(s.audio_device_index, None);
    assert_eq!(s.hotkey, "ControlLeft+ShiftLeft+Space");
    assert_eq!(s.whisper_mode, WhisperMode::Local);
    assert_eq!(s.whisper_model, "large-v3-turbo-q5_0");
    assert_eq!(s.whisper_language, "en");
    assert_eq!(s.whisper_api_endpoint, "");
    assert_eq!(s.whisper_api_key, "");
    assert!(s.auto_paste);
    assert_eq!(s.paste_shortcut, "Ctrl+Shift+V");
    assert_eq!(s.history_max_items, 100);
    assert_eq!(default_whisper_language(), "en");
    assert_eq!(default_paste_shortcut(), "Ctrl+Shift+V");
}

#[test]
fn normalization_migrates_hotkey_and_model() {
    let mut s = AppSettings::default();
    s.hotkey = "CmdOrCtrl+Shift+Space".to_string();
    s.whisper_model = "medium".to_string();
    let s = normalize_settings(s);
    assert_eq!(s.hotkey, "ControlLeft+ShiftLeft+Space");
    assert_eq!(s.whisper_model, "large-v3-turbo-q5_0");
}

#[test]
fn normalization_keeps_current_values() {
    let mut s = AppSettings::default();
    s.hotkey = "F5".to_string();
    s.whisper_model = "large-v3-turbo-q5_0".to_string();
    s.history_max_items = 7;
    let s = normalize_settings(s);
    assert_eq!(s.hotkey, "F5");
    assert_eq!(s.whisper_model, "large-v3-turbo-q5_0");
    assert_eq!(s.history_max_items, 7);
}

#[test]
fn normalization_model_aliases() {
    for (old, new) in [
        ("tiny", "tiny-q5_1"),
        ("base", "tiny-q5_1"),
        ("small", "small-q5_1"),
        ("medium", "large-v3-turbo-q5_0"),
    ] {
        let mut s = AppSettings::default();
        s.whisper_model = old.to_string();
        assert_eq!(normalize_settings(s).whisper_model, new);
    }
}
