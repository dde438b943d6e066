use rusty_vv::result::CoreError;
use rusty_vv::user_dict::{UserDict, VvUserDictWord, VvUserDictWordParam};

fn param(surface: &str, pronunciation: &str, accent_type: usize, priority: u32) -> VvUserDictWordParam {
    VvUserDictWordParam {
        priority,
        accent_type,
        surface: surface.to_string(),
        pronunciation: pronunciation.to_string(),
    }
}

#[test]
fn add_then_list_round_trip() {
    let mut dict = UserDict::new();
    let uuid = dict.add_word(&param("テスト", "テスト", 1, 5)).unwrap();
    assert_eq!(uuid.len(), 36);
    let words = dict.list();
    assert_eq!(words.len(), 1);
    assert_eq!(words[0].0, uuid);
    assert_eq!(words[0].1.surface, "テスト");
    assert_eq!(words[0].1.pronunciation, "テスト");
    assert_eq!(words[0].1.accent_type, 1);
    assert_eq!(words[0].1.priority, 5);
    assert_eq!(words[0].1.mora_count, 3);
}

#[test]
fn remove_drops_exactly_the_word() {
    let mut dict = UserDict::new();
    let u1 = dict.add_word(&param("一", "イチ", 0, 1)).unwrap();
    let u2 = dict.add_word(&param("二", "ニ", 0, 1)).unwrap();
    dict.remove_word(&u1).unwrap();
    let words = dict.list();
    assert_eq!(words.len(), 1);
    assert_eq!(words[0].0, u2);
    assert!(!dict.contains(&u1));
    assert!(dict.contains(&u2));
}

#[test]
fn update_changes_exactly_the_targeted_word() {
    let mut dict = UserDict::new();
    let u1 = dict.add_word(&param("一", "イチ", 0, 1)).unwrap();
    let u2 = dict.add_word(&param("二", "ニ", 0, 1)).unwrap();
    dict.update_word(&u1, &param("壱", "イチバン", 2, 9)).unwrap();
    let words = dict.list();
    let w1 = words.iter().find(|w| w.0 == u1).unwrap();
    let w2 = words.iter().find(|w| w.0 == u2).unwrap();
    assert_eq!(w1.1.surface, "壱");
    assert_eq!(w1.1.pronunciation, "イチバン");
    assert_eq!(w1.1.accent_type, 2);
    assert_eq!(w1.1.priority, 9);
    assert_eq!(w1.1.mora_count, 4);
    assert_eq!(w2.1.surface, "二");
    assert_eq!(w2.1.pronunciation, "ニ");
}

#[test]
fn update_of_absent_uuid_is_word_not_found() {
    let mut dict = UserDict::new();
    let missing = "00000000-0000-0000-0000-000000000000".to_string();
    assert_eq!(dict.update_word(&missing, &param("a", "ア", 0, 0)), Err(CoreError::WordNotFound));
}

#[test]
fn remove_of_absent_uuid_is_word_not_found() {
    let mut dict = UserDict::new();
    let missing = "00000000-0000-0000-0000-000000000000".to_string();
    assert_eq!(dict.remove_word(&missing), Err(CoreError::WordNotFound));
}

#[test]
fn add_with_taken_uuid_is_duplicate_word() {
    let mut dict = UserDict::new();
    let taken = "11111111-1111-1111-1111-111111111111".to_string();
    dict.add_word_with_uuid(taken.clone(), &param("a", "ア", 0, 0)).unwrap();
    assert_eq!(
        dict.add_word_with_uuid(taken, &param("b", "イ", 0, 0)),
        Err(CoreError::DuplicateWord)
    );
}

#[test]
fn two_adds_both_survive() {
    // The serialization of two concurrent add calls under the store's
    // exclusive lock: whichever order the lock grants, neither is lost.
    let mut dict = UserDict::new();
    let u1 = dict.add_word(&param("甲", "コウ", 0, 1)).unwrap();
    let u2 = dict.add_word(&param("乙", "オツ", 0, 2)).unwrap();
    assert_ne!(u1, u2);
    let words = dict.list();
    assert_eq!(words.len(), 2);
    assert!(words.iter().any(|w| w.0 == u1 && w.1.surface == "甲"));
    assert!(words.iter().any(|w| w.0 == u2 && w.1.surface == "乙"));
}

#[test]
fn import_merges_and_overwrites_by_uuid() {
    let mut dict = UserDict::new();
    let kept = "22222222-2222-2222-2222-222222222222".to_string();
    let replaced = "33333333-3333-3333-3333-333333333333".to_string();
    dict.add_word_with_uuid(kept.clone(), &param("旧", "キュウ", 0, 1)).unwrap();
    dict.add_word_with_uuid(replaced.clone(), &param("古", "フルイ", 0, 1)).unwrap();
    let batch = vec![
        (
            replaced.clone(),
            VvUserDictWord {
                priority: 8,
                accent_type: 1,
                mora_count: 0,
                surface: "新".to_string(),
                pronunciation: "アタラシイ".to_string(),
            },
        ),
        (
            "44444444-4444-4444-4444-444444444444".to_string(),
            VvUserDictWord {
                priority: 3,
                accent_type: 0,
                mora_count: 0,
                surface: "追".to_string(),
                pronunciation: "ツイカ".to_string(),
            },
        ),
    ];
    dict.import(&batch);
    let words = dict.list();
    assert_eq!(words.len(), 3);
    let w = words.iter().find(|w| w.0 == replaced).unwrap();
    assert_eq!(w.1.surface, "新");
    assert_eq!(w.1.pronunciation, "アタラシイ");
    // The mora count of a listed word is always derived from the
    // pronunciation, never taken from the imported field.
    assert_eq!(w.1.mora_count, 5);
    assert!(words.iter().any(|w| w.0 == kept && w.1.surface == "旧"));
}

#[test]
fn displayed_word_derives_mora_count_from_param() {
    let w = VvUserDictWord::from(param("今日", "キョウ", 1, 5));
    assert_eq!(w.mora_count, 2);
    assert_eq!(w.surface, "今日");
    assert_eq!(w.pronunciation, "キョウ");
    assert_eq!(w.accent_type, 1);
    assert_eq!(w.priority, 5);
}
