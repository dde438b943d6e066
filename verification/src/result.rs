use vstd::prelude::*;

verus! {

/// The failure conditions that the core distinguishes.  The first four arise
/// from the verified logic itself; the remaining ones are raised by the
/// unverified edge (file writes, the native engine, startup resources) and are
/// only carried through here.
#[derive(Clone, Copy, Debug, PartialEq, Eq, Structural)]
pub enum CoreError {
    /// The requested style id matches no loaded voice model.
    StyleNotFound,
    /// A dictionary mutation targeted a word uuid that is not present.
    WordNotFound,
    /// A dictionary insertion targeted a word uuid that is already present.
    DuplicateWord,
    /// A speaker of the registry has no entry in the color palette.
    PaletteMissing,
    /// The dictionary file could not be rewritten.
    PersistenceError,
    /// The native engine rejected a call.
    EngineError,
    /// The font needed to render assets could not be loaded.
    FontLoadFailure,
    /// A voice model file could not be constructed.
    ModelLoadFailure,
}

impl CoreError {
    /// A short diagnostic text for the failure, used at the request boundary.
    pub fn message(&self) -> (r: String)
        ensures
            r@.len() > 0,
    {
        let m = match self {
            CoreError::StyleNotFound => "style not found",
            CoreError::WordNotFound => "word not found",
            CoreError::DuplicateWord => "word uuid already present",
            CoreError::PaletteMissing => "speaker color palette entry missing",
            CoreError::PersistenceError => "failed to persist the user dictionary",
            CoreError::EngineError => "the synthesis engine rejected the call",
            CoreError::FontLoadFailure => "failed to load the font",
            CoreError::ModelLoadFailure => "failed to load a voice model",
        };
        proof {
            reveal_strlit("style not found");
            reveal_strlit("word not found");
            reveal_strlit("word uuid already present");
            reveal_strlit("speaker color palette entry missing");
            reveal_strlit("failed to persist the user dictionary");
            reveal_strlit("the synthesis engine rejected the call");
            reveal_strlit("failed to load the font");
            reveal_strlit("failed to load a voice model");
        }
        m.to_string()
    }
}

/// A failure as surfaced at the request boundary: a diagnostic text.
pub struct Error {
    pub message: String,
}

/// The JSON shape in which a failure is reported to a client.
pub struct ErrorJson {
    pub error: String,
}

} // verus!
