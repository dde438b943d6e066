use rusty_vv::resource_manager::{render_jobs, ResourceManager, Rgb, SpeakerColor};
use rusty_vv::result::CoreError;
use rusty_vv::utils::binary_to_base64;
use rusty_vv::vvm_manager::{SpeakerMeta, StyleMeta, VvmManager, VvmMeta};

fn color(r: u8, g: u8, b: u8) -> Rgb {
    Rgb { r, g, b }
}

fn speakers() -> VvmManager {
    VvmManager::new(vec![VvmMeta {
        metas: vec![
            SpeakerMeta {
                name: "Speaker A".to_string(),
                styles: vec![
                    StyleMeta { id: 1, name: "normal".to_string() },
                    StyleMeta { id: 2, name: "calm".to_string() },
                ],
                version: "0.1.0".to_string(),
                speaker_uuid: "uuid-a".to_string(),
            },
            SpeakerMeta {
                name: "Speaker B".to_string(),
                styles: vec![StyleMeta { id: 7, name: "loud".to_string() }],
                version: "0.1.0".to_string(),
                speaker_uuid: "uuid-b".to_string(),
            },
        ],
    }])
}

#[test]
fn render_jobs_pair_speakers_with_their_palette_entries() {
    let manager = speakers();
    let palette = vec![
        (
            "Speaker B".to_string(),
            SpeakerColor { color: color(9, 9, 9), light_color: color(200, 200, 200) },
        ),
        (
            "Speaker A".to_string(),
            SpeakerColor { color: color(1, 2, 3), light_color: color(250, 250, 250) },
        ),
    ];
    let jobs = render_jobs(manager.speakers(), &palette).unwrap();
    assert_eq!(jobs.len(), 2);
    assert_eq!(jobs[0].speaker_uuid, "uuid-a");
    assert_eq!(jobs[0].name, "Speaker A");
    assert_eq!(jobs[0].color.color, color(1, 2, 3));
    assert_eq!(jobs[0].style_ids, vec![1, 2]);
    assert_eq!(jobs[1].speaker_uuid, "uuid-b");
    assert_eq!(jobs[1].color.color, color(9, 9, 9));
    assert_eq!(jobs[1].style_ids, vec![7]);
}

#[test]
fn missing_palette_entry_is_fatal() {
    let manager = speakers();
    let palette = vec![(
        "Speaker A".to_string(),
        SpeakerColor { color: color(1, 2, 3), light_color: color(250, 250, 250) },
    )];
    match render_jobs(manager.speakers(), &palette) {
        Ok(_) => panic!("a speaker without a palette entry must be fatal"),
        Err(e) => assert_eq!(e, CoreError::PaletteMissing),
    }
}

#[test]
fn portraits_are_served_for_known_uuids_only() {
    let cache = ResourceManager::new(
        vec![
            ("uuid-a".to_string(), vec![1, 2, 3]),
            ("uuid-b".to_string(), vec![4, 5]),
        ],
        vec![(1, vec![9]), (2, vec![8]), (7, vec![7])],
    );
    let portrait = cache.portrait_image("uuid-a").unwrap();
    assert_eq!(portrait, &vec![1, 2, 3]);
    assert!(!portrait.is_empty());
    assert_eq!(cache.portrait_image("uuid-b").unwrap(), &vec![4, 5]);
    assert!(cache.portrait_image("uuid-z").is_none());
}

#[test]
fn icons_are_served_per_style_id() {
    let cache = ResourceManager::new(
        vec![("uuid-a".to_string(), vec![1])],
        vec![(1, vec![9]), (2, vec![8])],
    );
    assert_eq!(cache.style_icon(1).unwrap(), &vec![9]);
    assert_eq!(cache.style_icon(2).unwrap(), &vec![8]);
    assert!(cache.style_icon(3).is_none());
}

#[test]
fn later_raster_wins_on_a_repeated_key() {
    let cache = ResourceManager::new(
        vec![
            ("uuid-a".to_string(), vec![1]),
            ("uuid-a".to_string(), vec![2]),
        ],
        vec![(5, vec![1]), (5, vec![2])],
    );
    assert_eq!(cache.portrait_image("uuid-a").unwrap(), &vec![2]);
    assert_eq!(cache.style_icon(5).unwrap(), &vec![2]);
}

#[test]
fn base64_of_known_bytes() {
    let bytes: Vec<u8> = b"hello".to_vec();
    assert_eq!(binary_to_base64(&bytes), "aGVsbG8");
    let empty: Vec<u8> = Vec::new();
    assert_eq!(binary_to_base64(&empty), "");
    let png_header: Vec<u8> = vec![0x89, 0x50, 0x4E, 0x47];
    assert_eq!(binary_to_base64(&png_header), "iVBORw");
}
