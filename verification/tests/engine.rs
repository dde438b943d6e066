use rusty_vv::engine::EngineHandle;
use rusty_vv::result::CoreError;
use rusty_vv::vvm_manager::{SpeakerMeta, StyleMeta, VvmManager, VvmMeta};

fn manager() -> VvmManager {
    VvmManager::new(vec![
        VvmMeta {
            metas: vec![SpeakerMeta {
                name: "Speaker A".to_string(),
                styles: vec![
                    StyleMeta { id: 1, name: "normal".to_string() },
                    StyleMeta { id: 2, name: "calm".to_string() },
                ],
                version: "0.1.0".to_string(),
                speaker_uuid: "uuid-a".to_string(),
            }],
        },
        VvmMeta {
            metas: vec![SpeakerMeta {
                name: "Speaker B".to_string(),
                styles: vec![StyleMeta { id: 7, name: "loud".to_string() }],
                version: "0.1.0".to_string(),
                speaker_uuid: "uuid-b".to_string(),
            }],
        },
    ])
}

#[test]
fn ensure_loaded_then_is_loaded() {
    let manager = manager();
    let mut engine = EngineHandle::new();
    assert!(!engine.is_loaded(7));
    let model = engine.ensure_loaded(&manager, 7).unwrap();
    assert_eq!(model, 1);
    assert!(engine.is_loaded(7));
}

#[test]
fn ensure_loaded_marks_every_style_of_the_model() {
    let manager = manager();
    let mut engine = EngineHandle::new();
    engine.ensure_loaded(&manager, 2).unwrap();
    assert!(engine.is_loaded(1));
    assert!(engine.is_loaded(2));
    assert!(!engine.is_loaded(7));
}

#[test]
fn ensure_loaded_twice_is_idempotent() {
    let manager = manager();
    let mut engine = EngineHandle::new();
    let first = engine.ensure_loaded(&manager, 1).unwrap();
    let second = engine.ensure_loaded(&manager, 1).unwrap();
    assert_eq!(first, second);
    assert!(engine.is_loaded(1));
    assert!(engine.is_loaded(2));
    assert!(!engine.is_loaded(7));
}

#[test]
fn absent_style_is_style_not_found_and_stays_unloaded() {
    let manager = manager();
    let mut engine = EngineHandle::new();
    assert_eq!(engine.ensure_loaded(&manager, 99), Err(CoreError::StyleNotFound));
    assert!(!engine.is_loaded(99));
    // The failure poisons nothing: other styles still load.
    engine.ensure_loaded(&manager, 1).unwrap();
    assert!(engine.is_loaded(1));
}

#[test]
fn resolve_alone_loads_nothing() {
    let manager = manager();
    let engine = EngineHandle::new();
    let model = engine.resolve_style(&manager, 7).unwrap();
    assert_eq!(model, 1);
    assert!(!engine.is_loaded(7));
}

#[test]
fn mark_after_load_commits_the_model_styles() {
    let manager = manager();
    let mut engine = EngineHandle::new();
    let model = engine.resolve_style(&manager, 2).unwrap();
    engine.mark_model_loaded(&manager, model);
    assert!(engine.is_loaded(1));
    assert!(engine.is_loaded(2));
    assert!(!engine.is_loaded(7));
}

#[test]
fn resolve_of_absent_style_fails_without_loading() {
    let manager = manager();
    let engine = EngineHandle::new();
    assert_eq!(engine.resolve_style(&manager, 99), Err(CoreError::StyleNotFound));
    assert!(!engine.is_loaded(99));
}

#[test]
fn first_declaring_model_wins() {
    // Style 1 is declared by both models; the first model is loaded.
    let manager = VvmManager::new(vec![
        VvmMeta {
            metas: vec![SpeakerMeta {
                name: "Speaker A".to_string(),
                styles: vec![StyleMeta { id: 1, name: "normal".to_string() }],
                version: "0.1.0".to_string(),
                speaker_uuid: "uuid-a".to_string(),
            }],
        },
        VvmMeta {
            metas: vec![SpeakerMeta {
                name: "Speaker B".to_string(),
                styles: vec![StyleMeta { id: 1, name: "other".to_string() }],
                version: "0.1.0".to_string(),
                speaker_uuid: "uuid-b".to_string(),
            }],
        },
    ]);
    let mut engine = EngineHandle::new();
    assert_eq!(engine.ensure_loaded(&manager, 1).unwrap(), 0);
}
