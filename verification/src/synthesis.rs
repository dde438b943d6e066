use vstd::prelude::*;

verus! {

// The request shapes of the synthesis routes, and the small decisions they
// make before and after calling the engine.  The engine calls themselves, and
// the floating-point tuning fields they exchange, live at the serving edge;
// which model to load for a style is decided by `EngineHandle`.

/// Query of the loaded-check route.
pub struct IsInitializedSpeakerQuery {
    pub speaker: u32,
}

/// Query of the model-loading route.
pub struct InitializeSpeakerQuery {
    pub speaker: u32,
}

/// Query of the audio-query route.
pub struct AudioQueryQuery {
    pub text: String,
    pub speaker: u32,
    pub is_kana: Option<bool>,
}

/// Query of the accent-phrase route.
pub struct AccentPhraseQuery {
    pub text: String,
    pub speaker: u32,
    pub is_kana: Option<bool>,
}

/// Query of the mora-editing routes.
pub struct MoraEditQuery {
    pub speaker: u32,
}

/// Query of the synthesis route.
pub struct SynthesisQuery {
    pub speaker: u32,
    pub enable_interrogative_upspeak: bool,
}

/// Whether a request asks for its text to be read as kana; an absent flag
/// means it does not.
pub fn wants_kana(is_kana: &Option<bool>) -> (r: bool)
    ensures
        r == (*is_kana == Some(true)),
{
    match is_kana {
        Some(b) => *b,
        None => false,
    }
}

/// The kana field handed to the engine: an empty text stands for "none".
pub fn kana_option(kana: &String) -> (r: Option<String>)
    ensures
        match r {
            None => kana@.len() == 0,
            Some(s) => s@ == kana@ && kana@.len() > 0,
        },
{
    if kana.as_str().unicode_len() == 0 {
        None
    } else {
        Some(kana.clone())
    }
}

/// The kana field of an engine response: an absent text is served as empty.
pub fn kana_or_empty(kana: Option<String>) -> (r: String)
    ensures
        match kana {
            Some(s) => r@ == s@,
            None => r@.len() == 0,
        },
{
    match kana {
        Some(s) => s,
        None => String::new(),
    }
}

} // verus!
