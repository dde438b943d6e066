use vstd::prelude::*;

use crate::models::{EngineManifest, SupportedFeatures, UpdateInfo, DependencyLicense};

verus! {

/// The body of the root route: the running engine's version.
pub struct Index {
    pub version: String,
}

/// Builds the root route's body from the engine's version.
pub fn index_get(version: String) -> (r: Index)
    ensures
        r.version@ == version@,
{
    Index { version }
}

/// Builds the manifest served to clients.  Every field but the terms of
/// service, which are read from a bundled file, is fixed.
pub fn engine_manifest_get(terms_of_service: String) -> (r: EngineManifest)
    ensures
        r.manifest_version@ == "0.13.1"@,
        r.name@ == "Rusty Voicevox Engine"@,
        r.brand_name@ == "Rusty Voicevox"@,
        r.uuid@ == "6d7c1608-538a-4f55-9055-7452d8e58025"@,
        r.url@ == "https://github.com/sevenc-nanashi/rusty-voicevox-engine"@,
        r.icon@
            == "https://raw.githubusercontent.com/sevenc-nanashi/rusty-voicevox-engine/main/assets/icon.png"@,
        r.default_sampling_rate == 24000,
        r.terms_of_service@ == terms_of_service@,
        r.update_infos@ == Seq::<UpdateInfo>::empty(),
        r.dependency_licenses@ == Seq::<DependencyLicense>::empty(),
        r.supported_features == (SupportedFeatures {
            adjust_mora_pitch: true,
            adjust_phoneme_length: true,
            adjust_speed_scale: true,
            adjust_pitch_scale: true,
            adjust_intonation_scale: true,
            adjust_volume_scale: true,
            interrogative_upspeak: true,
            synthesis_morphing: false,
            manage_library: false,
        }),
{
    EngineManifest {
        manifest_version: "0.13.1".to_string(),
        name: "Rusty Voicevox Engine".to_string(),
        brand_name: "Rusty Voicevox".to_string(),
        uuid: "6d7c1608-538a-4f55-9055-7452d8e58025".to_string(),
        url: "https://github.com/sevenc-nanashi/rusty-voicevox-engine".to_string(),
        icon: "https://raw.githubusercontent.com/sevenc-nanashi/rusty-voicevox-engine/main/assets/icon.png".to_string(),
        default_sampling_rate: 24000,
        terms_of_service,
        update_infos: Vec::new(),
        dependency_licenses: Vec::new(),
        supported_features: SupportedFeatures {
            adjust_mora_pitch: true,
            adjust_phoneme_length: true,
            adjust_speed_scale: true,
            adjust_pitch_scale: true,
            adjust_intonation_scale: true,
            adjust_volume_scale: true,
            interrogative_upspeak: true,
            synthesis_morphing: false,
            manage_library: false,
        },
    }
}

} // verus!
