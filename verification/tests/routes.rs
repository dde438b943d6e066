use rusty_vv::index;
use rusty_vv::info::{engine_manifest_get, index_get};
use rusty_vv::result::CoreError;
use rusty_vv::speakers::build_speaker_info;
use rusty_vv::synthesis::{kana_option, kana_or_empty, wants_kana};
use rusty_vv::vvm_manager::StyleMeta;

#[test]
fn engine_manifest_is_fixed() {
    let manifest = engine_manifest_get("terms".to_string());
    assert_eq!(manifest.manifest_version, "0.13.1");
    assert_eq!(manifest.name, "Rusty Voicevox Engine");
    assert_eq!(manifest.brand_name, "Rusty Voicevox");
    assert_eq!(manifest.uuid, "6d7c1608-538a-4f55-9055-7452d8e58025");
    assert_eq!(manifest.default_sampling_rate, 24000);
    assert_eq!(manifest.terms_of_service, "terms");
    assert!(manifest.update_infos.is_empty());
    assert!(manifest.dependency_licenses.is_empty());
    assert!(manifest.supported_features.adjust_mora_pitch);
    assert!(manifest.supported_features.interrogative_upspeak);
    assert!(!manifest.supported_features.synthesis_morphing);
    assert!(!manifest.supported_features.manage_library);
}

#[test]
fn index_bodies_carry_the_version() {
    assert_eq!(index::get("0.1.0".to_string()).version, "0.1.0");
    assert_eq!(index_get("0.1.0".to_string()).version, "0.1.0");
}

#[test]
fn speaker_info_pairs_styles_with_their_assets() {
    let styles = vec![
        StyleMeta { id: 1, name: "normal".to_string() },
        StyleMeta { id: 2, name: "calm".to_string() },
    ];
    let icons = vec!["icon-one".to_string(), "icon-two".to_string()];
    let samples = vec![
        vec!["s10".to_string(), "s11".to_string()],
        vec!["s20".to_string(), "s21".to_string()],
    ];
    let info = build_speaker_info(
        "policy".to_string(),
        "portrait".to_string(),
        &styles,
        &icons,
        &samples,
    );
    assert_eq!(info.policy, "policy");
    assert_eq!(info.portrait, "portrait");
    assert_eq!(info.style_infos.len(), 2);
    assert_eq!(info.style_infos[0].id, 1);
    assert_eq!(info.style_infos[0].icon, "icon-one");
    assert!(info.style_infos[0].portrait.is_none());
    assert_eq!(info.style_infos[0].voice_samples, vec!["s10", "s11"]);
    assert_eq!(info.style_infos[1].id, 2);
    assert_eq!(info.style_infos[1].icon, "icon-two");
}

#[test]
fn kana_flags_and_fields() {
    assert!(wants_kana(&Some(true)));
    assert!(!wants_kana(&Some(false)));
    assert!(!wants_kana(&None));
    assert_eq!(kana_option(&"".to_string()), None);
    assert_eq!(kana_option(&"アー".to_string()), Some("アー".to_string()));
    assert_eq!(kana_or_empty(Some("カナ".to_string())), "カナ");
    assert_eq!(kana_or_empty(None), "");
}

#[test]
fn error_messages_are_not_empty() {
    assert!(!CoreError::StyleNotFound.message().is_empty());
    assert!(!CoreError::WordNotFound.message().is_empty());
    assert!(!CoreError::DuplicateWord.message().is_empty());
    assert!(!CoreError::PaletteMissing.message().is_empty());
    assert!(!CoreError::PersistenceError.message().is_empty());
    assert!(!CoreError::EngineError.message().is_empty());
    assert!(!CoreError::FontLoadFailure.message().is_empty());
    assert!(!CoreError::ModelLoadFailure.message().is_empty());
}
