//! Transcription support: the model catalog, the engine's model slot, and
//! the verified halves of both transcription paths.
//!
//! The native recognizer and the network client are outside concerns: the
//! local path decodes the WAV here ([`WhisperEngine::prepare_transcription`])
//! and joins the recognizer's segments here
//! ([`WhisperEngine::finish_transcription`]); the remote path builds its URL
//! and trims the reply here.

use vstd::prelude::*;
use crate::error::AppError;
use crate::sample::decode_sample_spec;
use crate::text::{str_eq, strip_end, strip_end_spec, trim, trim_spec};
use crate::wav::{decode_wav_to_samples, f32_fixed_spec, i16_le, u32_le, wav_parse};

verus! {

/// Number of models in the catalog.
pub const MODEL_COUNT: usize = 5;

/// The short name of the catalog model at `i`.
pub open spec fn model_name_spec(i: int) -> Seq<char> {
    if i == 0 {
        "tiny"@
    } else if i == 1 {
        "base"@
    } else if i == 2 {
        "small"@
    } else if i == 3 {
        "medium"@
    } else {
        "large-v3-turbo"@
    }
}

/// The download size shown for the catalog model at `i`.
pub open spec fn model_size_spec(i: int) -> Seq<char> {
    if i == 0 {
        "75 MB"@
    } else if i == 1 {
        "142 MB"@
    } else if i == 2 {
        "466 MB"@
    } else if i == 3 {
        "1.5 GB"@
    } else {
        "1.6 GB"@
    }
}

/// The file name of the catalog model at `i`.
pub open spec fn model_filename_spec(i: int) -> Seq<char> {
    if i == 0 {
        "ggml-tiny.bin"@
    } else if i == 1 {
        "ggml-base.bin"@
    } else if i == 2 {
        "ggml-small.bin"@
    } else if i == 3 {
        "ggml-medium.bin"@
    } else {
        "ggml-large-v3-turbo.bin"@
    }
}

/// The catalog position of the model called `name`, if any.
pub open spec fn model_index_spec(name: Seq<char>) -> Option<int> {
    if name == "tiny"@ {
        Some(0int)
    } else if name == "base"@ {
        Some(1int)
    } else if name == "small"@ {
        Some(2int)
    } else if name == "medium"@ {
        Some(3int)
    } else if name == "large-v3-turbo"@ {
        Some(4int)
    } else {
        None
    }
}

/// The file name of the model called `name`, or `None` for a name outside
/// the catalog.
pub fn model_filename(model_name: &str) -> (r: Option<&'static str>)
    ensures
        match model_index_spec(model_name@) {
            Some(i) => r matches Some(f) && f@ == model_filename_spec(i),
            None => r is None,
        },
{
    if str_eq(model_name, "tiny") {
        Some("ggml-tiny.bin")
    } else if str_eq(model_name, "base") {
        Some("ggml-base.bin")
    } else if str_eq(model_name, "small") {
        Some("ggml-small.bin")
    } else if str_eq(model_name, "medium") {
        Some("ggml-medium.bin")
    } else if str_eq(model_name, "large-v3-turbo") {
        Some("ggml-large-v3-turbo.bin")
    } else {
        None
    }
}

/// The download address of a model file.
pub fn huggingface_url(filename: &str) -> (r: String)
    ensures
        r@ == "https://huggingface.co/ggerganov/whisper.cpp/resolve/main/"@ + filename@,
{
    let mut url = String::from_str("https://huggingface.co/ggerganov/whisper.cpp/resolve/main/");
    url.append(filename);
    url
}

/// One catalog entry with its local availability.
#[derive(Debug)]
pub struct WhisperModelInfo {
    pub name: String,
    pub size: String,
    pub downloaded: bool,
    pub path: Option<String>,
}

/// The catalog with, for each model, the local file path when the model file
/// is present.  `present_paths` carries one entry per catalog model, in
/// catalog order, as the file system reports them.
pub fn list_models(present_paths: Vec<Option<String>>) -> (r: Result<
    Vec<WhisperModelInfo>,
    AppError,
>)
    requires
        present_paths@.len() == MODEL_COUNT,
    ensures
        r matches Ok(models) && {
            &&& models@.len() == MODEL_COUNT
            &&& forall|i: int|
                0 <= i < MODEL_COUNT ==> {
                    &&& (#[trigger] models@[i]).name@ == model_name_spec(i)
                    &&& models@[i].size@ == model_size_spec(i)
                    &&& models@[i].downloaded == (present_paths@[i] is Some)
                    &&& models@[i].path == present_paths@[i]
                }
        },
{
    let mut out: Vec<WhisperModelInfo> = Vec::new();
    let mut paths = present_paths;
    let mut i: usize = 0;
    proof {
        assert(paths@.subrange(0, MODEL_COUNT as int) =~= paths@);
    }
    while i < MODEL_COUNT
        invariant
            paths@.len() == MODEL_COUNT,
            0 <= i <= MODEL_COUNT,
            out@.len() == i,
            forall|k: int|
                0 <= k < i ==> {
                    &&& (#[trigger] out@[k]).name@ == model_name_spec(k)
                    &&& out@[k].size@ == model_size_spec(k)
                    &&& out@[k].downloaded == (paths@[k] is Some)
                    &&& out@[k].path == paths@[k]
                },
        decreases MODEL_COUNT - i,
    {
        let name = if i == 0 {
            "tiny"
        } else if i == 1 {
            "base"
        } else if i == 2 {
            "small"
        } else if i == 3 {
            "medium"
        } else {
            "large-v3-turbo"
        };
        let size = if i == 0 {
            "75 MB"
        } else if i == 1 {
            "142 MB"
        } else if i == 2 {
            "466 MB"
        } else if i == 3 {
            "1.5 GB"
        } else {
            "1.6 GB"
        };
        let path: Option<String> = match &paths[i] {
            Some(p) => Some(p.clone()),
            None => None,
        };
        let downloaded = path.is_some();
        out.push(
            WhisperModelInfo {
                name: String::from_str(name),
                size: String::from_str(size),
                downloaded,
                path,
            },
        );
        i = i + 1;
    }
    Ok(out)
}

/// Percentage shown while a model downloads: `downloaded * 100 / total`,
/// zero while the total is unknown, and capped at the type's limit for
/// nonsensical totals.
pub fn download_progress_percent(downloaded: u64, total: u64) -> (r: u32)
    ensures
        total > 0 ==> r == if (downloaded as int) * 100 / (total as int) <= u32::MAX {
            (downloaded as int) * 100 / (total as int)
        } else {
            u32::MAX as int
        },
        total == 0 ==> r == 0,
{
    if total == 0 {
        return 0;
    }
    let p = (downloaded as u128) * 100 / (total as u128);
    if p > u32::MAX as u128 {
        u32::MAX
    } else {
        p as u32
    }
}

/// The URL the remote transcription path posts to: the endpoint without
/// trailing slashes, then the fixed transcription route.
pub fn api_transcription_url(endpoint: &str) -> (r: String)
    ensures
        r@ == strip_end_spec(endpoint@, '/') + "/v1/audio/transcriptions"@,
{
    let base = strip_end(endpoint, '/');
    let mut out = base.to_owned();
    out.append("/v1/audio/transcriptions");
    out
}

/// What the remote path keeps of the reply body's text field.
pub fn api_transcript(text: &str) -> (r: String)
    ensures
        r@ == trim_spec(text@),
{
    trim(text).to_owned()
}

/// The transcription engine's model slot: which catalog model is loaded.
/// The native recognizer state lives with the caller; this slot makes the
/// load/transcribe decisions.
pub struct WhisperEngine {
    loaded_model: Option<String>,
}

impl WhisperEngine {
    /// The loaded model's name, as contracts see it.
    pub closed spec fn loaded_spec(&self) -> Option<Seq<char>> {
        match self.loaded_model {
            Some(m) => Some(m@),
            None => None,
        }
    }

    /// An engine with no model loaded.
    pub fn new() -> (r: Self)
        ensures
            r.loaded_spec() is None,
    {
        WhisperEngine { loaded_model: None }
    }

    /// Whether a model is loaded.
    pub fn is_model_loaded(&self) -> (r: bool)
        ensures
            r == (self.loaded_spec() is Some),
    {
        self.loaded_model.is_some()
    }

    /// Record a model as loaded.  The name must be in the catalog and its
    /// file must be present (`downloaded`); otherwise the slot is unchanged
    /// and the call fails with `Unknown model: `&hellip; or
    /// `Model not downloaded: `&hellip;.
    pub fn load_model(&mut self, model_name: &str, downloaded: bool) -> (r: Result<
        (),
        AppError,
    >)
        ensures
            match r {
                Ok(_) => {
                    &&& model_index_spec(model_name@) is Some
                    &&& downloaded
                    &&& final(self).loaded_spec() == Some(model_name@)
                },
                Err(e) => {
                    &&& final(self).loaded_spec() == old(self).loaded_spec()
                    &&& e matches AppError::Whisper(m)
                    &&& if model_index_spec(model_name@) is None {
                        m@ == "Unknown model: "@ + model_name@
                    } else {
                        !downloaded && m@ == "Model not downloaded: "@ + model_name@
                    }
                },
            },
    {
        match model_filename(model_name) {
            Some(_) => {},
            None => {
                let mut msg = String::from_str("Unknown model: ");
                msg.append(model_name);
                return Err(AppError::Whisper(msg));
            },
        }
        if !downloaded {
            let mut msg = String::from_str("Model not downloaded: ");
            msg.append(model_name);
            return Err(AppError::Whisper(msg));
        }
        self.loaded_model = Some(String::from_str(model_name));
        Ok(())
    }

    /// Drop the loaded model.
    pub fn unload(&mut self)
        ensures
            final(self).loaded_spec() is None,
    {
        self.loaded_model = None;
    }

    /// First half of local transcription: check that a model is loaded and
    /// decode the WAV bytes to the samples the recognizer consumes.  Without
    /// a model the call fails with `No model loaded`; a malformed file fails
    /// as the decoder says.
    pub fn prepare_transcription(&self, wav_bytes: &Vec<u8>) -> (r: Result<Vec<i32>, AppError>)
        ensures
            self.loaded_spec() is None ==> (r matches Err(e) && e matches AppError::Whisper(m)
                && m@ == "No model loaded"@),
            self.loaded_spec() is Some ==> match r {
                Ok(s) => {
                    &&& wav_parse(wav_bytes@) matches Some((f, _ch, _rate, bits, doff, dlen))
                        && {
                        ||| {
                            &&& f == 1 && bits == 16
                            &&& s@.len() == dlen / 2
                            &&& forall|i: int|
                                0 <= i < s@.len() ==> s@[i] == decode_sample_spec(
                                    i16_le(wav_bytes@, doff + 2 * i),
                                )
                        }
                        ||| {
                            &&& f == 3 && bits == 32
                            &&& s@.len() == dlen / 4
                            &&& forall|i: int|
                                0 <= i < s@.len() ==> s@[i] == f32_fixed_spec(
                                    u32_le(wav_bytes@, doff + 4 * i),
                                )
                        }
                    }
                },
                Err(e) => e matches AppError::Whisper(m) && match wav_parse(wav_bytes@) {
                    Some((f, _ch, _rate, bits, _doff, _dlen)) => !(f == 1 && bits == 16) && !(f
                        == 3 && bits == 32) && m@ == "Unsupported WAV sample format"@,
                    None => m@ == "Invalid WAV"@,
                },
            },
    {
        if !self.is_model_loaded() {
            return Err(AppError::Whisper(String::from_str("No model loaded")));
        }
        decode_wav_to_samples(wav_bytes)
    }

    /// Second half of local transcription: join the recognizer's segment
    /// texts and trim the result.
    pub fn finish_transcription(&self, segments: &Vec<String>) -> (r: String)
        ensures
            r@ == trim_spec(joined_segments(segments@, segments@.len() as int)),
    {
        let mut text = String::new();
        let mut i: usize = 0;
        while i < segments.len()
            invariant
                0 <= i <= segments@.len(),
                text@ == joined_segments(segments@, i as int),
            decreases segments@.len() - i,
        {
            text.append(segments[i].as_str());
            i = i + 1;
        }
        let trimmed = trim(text.as_str());
        trimmed.to_owned()
    }
}

/// The first `upto` segment texts, concatenated.
pub open spec fn joined_segments(segments: Seq<String>, upto: int) -> Seq<char>
    decreases upto,
{
    if upto <= 0 {
        Seq::empty()
    } else {
        joined_segments(segments, upto - 1) + segments[upto - 1]@
    }
}

} // verus!
