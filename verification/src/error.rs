use vstd::prelude::*;

verus! {

/// The error kinds of the engine.  Each carries a human-readable message;
/// the variant says which stage of the workflow failed.
#[derive(Debug, Clone)]
pub enum AppError {
    Audio(String),
    Whisper(String),
    Llm(String),
    Settings(String),
    History(String),
    Hotkey(String),
    Output(String),
    Io(String),
    Other(String),
}

impl AppError {
    /// The message carried by the error, without the kind prefix.
    pub fn message(&self) -> (r: &str)
        ensures
            r@ == self.spec_message(),
    {
        match self {
            AppError::Audio(m) => m.as_str(),
            AppError::Whisper(m) => m.as_str(),
            AppError::Llm(m) => m.as_str(),
            AppError::Settings(m) => m.as_str(),
            AppError::History(m) => m.as_str(),
            AppError::Hotkey(m) => m.as_str(),
            AppError::Output(m) => m.as_str(),
            AppError::Io(m) => m.as_str(),
            AppError::Other(m) => m.as_str(),
        }
    }

    /// The message as a sequence of characters, for use in contracts.
    pub open spec fn spec_message(&self) -> Seq<char> {
        match self {
            AppError::Audio(m) => m@,
            AppError::Whisper(m) => m@,
            AppError::Llm(m) => m@,
            AppError::Settings(m) => m@,
            AppError::History(m) => m@,
            AppError::Hotkey(m) => m@,
            AppError::Output(m) => m@,
            AppError::Io(m) => m@,
            AppError::Other(m) => m@,
        }
    }
}

} // verus!
