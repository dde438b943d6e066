use rusty_vv::vvm_manager::{SpeakerMeta, StyleMeta, VvmManager, VvmMeta};

fn style(id: u32, name: &str) -> StyleMeta {
    StyleMeta { id, name: name.to_string() }
}

fn record(uuid: &str, name: &str, styles: Vec<StyleMeta>) -> SpeakerMeta {
    SpeakerMeta {
        name: name.to_string(),
        styles,
        version: "0.1.0".to_string(),
        speaker_uuid: uuid.to_string(),
    }
}

#[test]
fn disjoint_models_give_one_speaker_each_in_scan_order() {
    let manager = VvmManager::new(vec![
        VvmMeta { metas: vec![record("uuid-a", "Speaker A", vec![style(1, "normal")])] },
        VvmMeta { metas: vec![record("uuid-b", "Speaker B", vec![style(2, "calm"), style(3, "loud")])] },
    ]);
    let speakers = manager.speakers();
    assert_eq!(speakers.len(), 2);
    assert_eq!(speakers[0].speaker_uuid, "uuid-a");
    assert_eq!(speakers[0].name, "Speaker A");
    assert_eq!(speakers[0].styles.len(), 1);
    assert_eq!(speakers[0].styles[0].id, 1);
    assert_eq!(speakers[1].speaker_uuid, "uuid-b");
    assert_eq!(speakers[1].styles.len(), 2);
    assert_eq!(speakers[1].styles[0].id, 2);
    assert_eq!(speakers[1].styles[1].id, 3);
}

#[test]
fn repeated_uuid_concatenates_styles_without_duplicate_entry() {
    let manager = VvmManager::new(vec![
        VvmMeta { metas: vec![record("uuid-a", "Speaker A", vec![style(1, "normal")])] },
        VvmMeta {
            metas: vec![
                record("uuid-a", "Speaker A", vec![style(4, "whisper")]),
                record("uuid-b", "Speaker B", vec![style(2, "calm")]),
            ],
        },
    ]);
    let speakers = manager.speakers();
    assert_eq!(speakers.len(), 2);
    assert_eq!(speakers[0].speaker_uuid, "uuid-a");
    assert_eq!(speakers[0].styles.len(), 2);
    assert_eq!(speakers[0].styles[0].id, 1);
    assert_eq!(speakers[0].styles[1].id, 4);
    assert_eq!(speakers[1].speaker_uuid, "uuid-b");
    // No duplicate uuid appears.
    for i in 0..speakers.len() {
        for j in (i + 1)..speakers.len() {
            assert_ne!(speakers[i].speaker_uuid, speakers[j].speaker_uuid);
        }
    }
}

#[test]
fn repeated_uuid_within_one_model_is_merged_too() {
    let manager = VvmManager::new(vec![VvmMeta {
        metas: vec![
            record("uuid-a", "Speaker A", vec![style(1, "normal")]),
            record("uuid-a", "Speaker A", vec![style(2, "calm")]),
        ],
    }]);
    let speakers = manager.speakers();
    assert_eq!(speakers.len(), 1);
    assert_eq!(speakers[0].styles.len(), 2);
}

#[test]
fn speaker_lookup_by_uuid() {
    let manager = VvmManager::new(vec![VvmMeta {
        metas: vec![record("uuid-a", "Speaker A", vec![style(1, "normal")])],
    }]);
    let found = manager.speaker("uuid-a").unwrap();
    assert_eq!(found.name, "Speaker A");
    assert!(manager.speaker("uuid-z").is_none());
}

#[test]
fn vvms_keeps_every_model() {
    let manager = VvmManager::new(vec![
        VvmMeta { metas: vec![record("uuid-a", "Speaker A", vec![style(1, "normal")])] },
        VvmMeta { metas: vec![] },
    ]);
    assert_eq!(manager.vvms().len(), 2);
    assert_eq!(manager.vvms()[0].metas[0].speaker_uuid, "uuid-a");
}
