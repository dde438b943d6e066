use vstd::prelude::*;

verus! {

// The response shapes served to clients, as far as they are built by the
// core.  Audio queries and accent phrases carry the engine's floating-point
// tuning fields and are handled at the serving edge.

/// The fixed description of the engine served to clients.
pub struct EngineManifest {
    pub manifest_version: String,
    pub name: String,
    pub brand_name: String,
    pub uuid: String,
    pub url: String,
    pub icon: String,
    pub default_sampling_rate: i64,
    pub terms_of_service: String,
    pub update_infos: Vec<UpdateInfo>,
    pub dependency_licenses: Vec<DependencyLicense>,
    pub supported_features: SupportedFeatures,
}

/// One released update, as listed in the manifest.
pub struct UpdateInfo {
    pub version: String,
    pub descriptions: Vec<String>,
    pub contributors: Vec<String>,
}

/// One dependency's license, as listed in the manifest.
pub struct DependencyLicense {
    pub name: String,
    pub version: String,
    pub license: String,
    pub text: String,
}

/// Which request features this engine supports.
#[derive(Clone, Copy, Debug, PartialEq, Eq, Structural)]
pub struct SupportedFeatures {
    pub adjust_mora_pitch: bool,
    pub adjust_phoneme_length: bool,
    pub adjust_speed_scale: bool,
    pub adjust_pitch_scale: bool,
    pub adjust_intonation_scale: bool,
    pub adjust_volume_scale: bool,
    pub interrogative_upspeak: bool,
    pub synthesis_morphing: bool,
    pub manage_library: bool,
}

/// Everything served about one speaker: usage policy, the portrait, and one
/// entry per style.
pub struct SpeakerInfo {
    pub policy: String,
    pub portrait: String,
    pub style_infos: Vec<StyleInfo>,
}

/// Everything served about one style: its icon and voice samples, each
/// encoded for embedding in the response.
pub struct StyleInfo {
    pub id: i64,
    pub icon: String,
    pub portrait: Option<String>,
    pub voice_samples: Vec<String>,
}

} // verus!
