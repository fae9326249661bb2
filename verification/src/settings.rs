//! Application settings: the record, its defaults, and the normalization
//! applied when stored settings are loaded.
//!
//! Reading and writing the settings store is an outside concern; the loader
//! hands the stored record to [`normalize_settings`] and keeps the result.

use vstd::prelude::*;
use crate::hotkey::{migrate_hotkey_format, migrate_hotkey_spec, needs_migration,
    needs_migration_spec};
use crate::llm::{ApiType, LlmConfig, DEFAULT_SYSTEM_PROMPT, default_examples_ok};
use crate::text::str_eq;

verus! {

/// Which transcription backend is used.
#[derive(Debug, Clone, Copy, PartialEq, Eq, Structural)]
pub enum WhisperMode {
    Local,
    Api,
}

/// All user-facing settings of the engine.
#[derive(Debug)]
pub struct AppSettings {
    pub audio_device_index: Option<usize>,
    pub hotkey: String,
    pub whisper_mode: WhisperMode,
    pub whisper_model: String,
    pub whisper_language: String,
    pub whisper_api_endpoint: String,
    pub whisper_api_key: String,
    pub llm: LlmConfig,
    pub auto_paste: bool,
    pub paste_shortcut: String,
    pub history_max_items: usize,
}

impl Clone for AppSettings {
    /// Field-for-field copy.
    fn clone(&self) -> (r: Self)
        ensures
            r.audio_device_index == self.audio_device_index,
            r.hotkey@ == self.hotkey@,
            r.whisper_mode == self.whisper_mode,
            r.whisper_model@ == self.whisper_model@,
            r.whisper_language@ == self.whisper_language@,
            r.whisper_api_endpoint@ == self.whisper_api_endpoint@,
            r.whisper_api_key@ == self.whisper_api_key@,
            r.llm.endpoint@ == self.llm.endpoint@,
            r.llm.model@ == self.llm.model@,
            r.llm.system_prompt@ == self.llm.system_prompt@,
            r.llm.api_type == self.llm.api_type,
            r.llm.few_shot_examples@ == self.llm.few_shot_examples@,
            r.auto_paste == self.auto_paste,
            r.paste_shortcut@ == self.paste_shortcut@,
            r.history_max_items == self.history_max_items,
    {
        AppSettings {
            audio_device_index: self.audio_device_index,
            hotkey: self.hotkey.clone(),
            whisper_mode: self.whisper_mode,
            whisper_model: self.whisper_model.clone(),
            whisper_language: self.whisper_language.clone(),
            whisper_api_endpoint: self.whisper_api_endpoint.clone(),
            whisper_api_key: self.whisper_api_key.clone(),
            llm: self.llm.clone(),
            auto_paste: self.auto_paste,
            paste_shortcut: self.paste_shortcut.clone(),
            history_max_items: self.history_max_items,
        }
    }
}

/// The default transcription language hint.
pub fn default_whisper_language() -> (r: String)
    ensures
        r@ == "en"@,
{
    String::from_str("en")
}

/// The default paste shortcut.
pub fn default_paste_shortcut() -> (r: String)
    ensures
        r@ == "Ctrl+Shift+V"@,
{
    String::from_str("Ctrl+Shift+V")
}

impl Default for AppSettings {
    /// Local transcription with the large turbo model, auto-paste on, and a
    /// hundred history entries.
    fn default() -> (r: Self)
        ensures
            r.audio_device_index is None,
            r.hotkey@ == "ControlLeft+ShiftLeft+Space"@,
            r.whisper_mode == WhisperMode::Local,
            r.whisper_model@ == "large-v3-turbo-q5_0"@,
            r.whisper_language@ == "en"@,
            r.whisper_api_endpoint@ == Seq::<char>::empty(),
            r.whisper_api_key@ == Seq::<char>::empty(),
            r.llm.endpoint@ == "http://localhost:11434"@,
            r.llm.model@ == "mistral"@,
            r.llm.system_prompt@ == DEFAULT_SYSTEM_PROMPT@,
            r.llm.api_type == ApiType::Ollama,
            default_examples_ok(r.llm.few_shot_examples@),
            r.auto_paste == true,
            r.paste_shortcut@ == "Ctrl+Shift+V"@,
            r.history_max_items == 100,
    {
        AppSettings {
            audio_device_index: None,
            hotkey: String::from_str("ControlLeft+ShiftLeft+Space"),
            whisper_mode: WhisperMode::Local,
            whisper_model: String::from_str("large-v3-turbo-q5_0"),
            whisper_language: default_whisper_language(),
            whisper_api_endpoint: String::new(),
            whisper_api_key: String::new(),
            llm: LlmConfig::default(),
            auto_paste: true,
            paste_shortcut: default_paste_shortcut(),
            history_max_items: 100,
        }
    }
}

/// What a stored model name is migrated to: retired model names move to
/// their curated quantized successors.
pub open spec fn migrate_model_spec(s: Seq<char>) -> Seq<char> {
    if s == "tiny"@ || s == "base"@ {
        "tiny-q5_1"@
    } else if s == "small"@ {
        "small-q5_1"@
    } else if s == "medium"@ {
        "large-v3-turbo-q5_0"@
    } else {
        s
    }
}

/// Normalize freshly loaded settings: migrate an old-style hotkey spelling
/// and retired model names; everything else passes through unchanged.
pub fn normalize_settings(settings: AppSettings) -> (r: AppSettings)
    ensures
        r.hotkey@ == if needs_migration_spec(settings.hotkey@) {
            migrate_hotkey_spec(settings.hotkey@)
        } else {
            settings.hotkey@
        },
        r.whisper_model@ == migrate_model_spec(settings.whisper_model@),
        r.audio_device_index == settings.audio_device_index,
        r.whisper_mode == settings.whisper_mode,
        r.whisper_language@ == settings.whisper_language@,
        r.whisper_api_endpoint@ == settings.whisper_api_endpoint@,
        r.whisper_api_key@ == settings.whisper_api_key@,
        r.llm == settings.llm,
        r.auto_paste == settings.auto_paste,
        r.paste_shortcut@ == settings.paste_shortcut@,
        r.history_max_items == settings.history_max_items,
{
    let mut settings = settings;
    if needs_migration(settings.hotkey.as_str()) {
        settings.hotkey = migrate_hotkey_format(settings.hotkey.as_str());
    }
    let model = &settings.whisper_model;
    let migrated: Option<&str> = if str_eq(model.as_str(), "tiny") || str_eq(
        model.as_str(),
        "base",
    ) {
        Some("tiny-q5_1")
    } else if str_eq(model.as_str(), "small") {
        Some("small-q5_1")
    } else if str_eq(model.as_str(), "medium") {
        Some("large-v3-turbo-q5_0")
    } else {
        None
    };
    match migrated {
        Some(m) => {
            settings.whisper_model = String::from_str(m);
        },
        None => {},
    }
    settings
}

} // verus!
