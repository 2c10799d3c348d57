use mahjong_bot::hand_score::{HandScoreData, ScoringSettings};
use mahjong_bot::json::Json;
use mahjong_bot::json_file_updater::JsonFileUpdaterError;
use mahjong_bot::user_settings::{get_default_settings, UserSettings};
use mahjong_bot::user_state::{
    get_default_user_state, get_default_user_states, load_user_states, merge_user_state,
    user_states_to_json, UserState, UserStatesLoadError,
};

fn s(text: &str) -> String {
    text.to_string()
}

fn obj(entries: Vec<(&str, Json)>) -> Json {
    Json::Object(entries.into_iter().map(|(k, v)| (k.to_string(), v)).collect())
}

fn settings(kiriage: bool, honba: bool, kazoe: bool, lang: &str) -> UserSettings {
    UserSettings {
        scoring_settings: ScoringSettings {
            use_kiriage_mangan: kiriage,
            use_honba: honba,
            use_kazoe_yakuman: kazoe,
        },
        language_key: s(lang),
    }
}

fn busy_state(st: UserSettings) -> UserState {
    UserState {
        hand_score: Some(HandScoreData { han: 3, fu: 40, honba: 1, ron: true, is_dealer: false }),
        settings: st,
        settings_unsaved: true,
    }
}

fn old_file() -> Json {
    obj(vec![
        ("version", Json::Str(s("0.1.0"))),
        (
            "states",
            obj(vec![(
                "42",
                obj(vec![
                    (
                        "scoring_settings",
                        obj(vec![
                            ("use_4_30_mangan", Json::Bool(true)),
                            ("use_honba", Json::Bool(true)),
                            ("use_kazoe_yakuman", Json::Bool(false)),
                        ]),
                    ),
                    ("language_key", Json::Str(s("enj"))),
                ]),
            )]),
        ),
    ])
}

#[test]
fn defaults() {
    let st = get_default_settings();
    assert!(!st.scoring_settings.use_kiriage_mangan);
    assert!(!st.scoring_settings.use_honba);
    assert!(st.scoring_settings.use_kazoe_yakuman);
    assert_eq!(st.language_key, "en");
    let u = get_default_user_state();
    assert!(u.hand_score.is_none());
    assert!(!u.settings_unsaved);
    let all = get_default_user_states();
    assert_eq!(all.version, "0.2.0");
    assert!(all.states.is_empty());
}

#[test]
fn save_then_load_keeps_settings_and_resets_transient_state() {
    let mut states = get_default_user_states();
    states.insert_state(s("1"), busy_state(settings(true, false, true, "ene")));
    states.insert_state(s("2"), busy_state(settings(false, true, false, "enj")));
    let mut doc = user_states_to_json(&states);
    let loaded = load_user_states(&mut doc).unwrap();
    assert!(!loaded.updated);
    let back = loaded.user_states;
    assert_eq!(back.version, "0.2.0");
    assert_eq!(back.states.len(), 2);
    assert_eq!(back.states[0].0, "1");
    assert_eq!(back.states[1].0, "2");
    let a = &back.states[0].1;
    assert!(a.settings.scoring_settings.use_kiriage_mangan);
    assert!(!a.settings.scoring_settings.use_honba);
    assert!(a.settings.scoring_settings.use_kazoe_yakuman);
    assert_eq!(a.settings.language_key, "ene");
    assert!(a.hand_score.is_none());
    assert!(!a.settings_unsaved);
    let b = &back.states[1].1;
    assert!(b.settings.scoring_settings.use_honba);
    assert_eq!(b.settings.language_key, "enj");
    assert!(b.hand_score.is_none());
    assert!(!b.settings_unsaved);
}

#[test]
fn encoded_document_layout() {
    let mut states = get_default_user_states();
    states.insert_state(s("7"), busy_state(settings(true, false, true, "en")));
    let expected = obj(vec![
        ("version", Json::Str(s("0.2.0"))),
        (
            "states",
            obj(vec![(
                "7",
                obj(vec![
                    (
                        "scoring_settings",
                        obj(vec![
                            ("use_kiriage_mangan", Json::Bool(true)),
                            ("use_honba", Json::Bool(false)),
                            ("use_kazoe_yakuman", Json::Bool(true)),
                        ]),
                    ),
                    ("language_key", Json::Str(s("en"))),
                ]),
            )]),
        ),
    ]);
    assert_eq!(user_states_to_json(&states), expected);
}

#[test]
fn second_writer_drops_first_writers_user() {
    // Both writers read the same file before either writes.
    let file = user_states_to_json(&get_default_user_states());
    let mut read_a = user_states_to_json(&get_default_user_states());
    let mut read_b = user_states_to_json(&get_default_user_states());
    let written_a = merge_user_state(&mut read_a, s("A"), &busy_state(settings(true, true, true, "en"))).unwrap();
    let written_b = merge_user_state(&mut read_b, s("B"), &busy_state(settings(false, false, false, "en"))).unwrap();
    assert_ne!(written_a, file);
    // The second write lands last and becomes the file.
    let mut last = written_b;
    let loaded = load_user_states(&mut last).unwrap();
    let keys: Vec<&str> = loaded.user_states.states.iter().map(|(k, _)| k.as_str()).collect();
    assert_eq!(keys, vec!["B"]);
}

#[test]
fn older_file_heals_on_first_load() {
    let mut doc = old_file();
    let first = load_user_states(&mut doc).unwrap();
    assert!(first.updated);
    let st = &first.user_states.states[0].1.settings;
    assert!(st.scoring_settings.use_kiriage_mangan);
    assert!(st.scoring_settings.use_honba);
    assert!(!st.scoring_settings.use_kazoe_yakuman);
    assert_eq!(st.language_key, "enj");
    let mut rewritten = user_states_to_json(&first.user_states);
    let second = load_user_states(&mut rewritten).unwrap();
    assert!(!second.updated);
    assert_eq!(second.user_states.states.len(), 1);
    assert_eq!(second.user_states.states[0].0, "42");
}

#[test]
fn unknown_version_fails_load() {
    let mut doc = obj(vec![("version", Json::Str(s("9.9.9"))), ("states", obj(vec![]))]);
    let r = load_user_states(&mut doc);
    assert_eq!(
        r.err(),
        Some(UserStatesLoadError::Update(JsonFileUpdaterError::UnknownVersion {
            version: s("9.9.9"),
            latest_version: s("0.2.0"),
        }))
    );
}

#[test]
fn malformed_user_fails_load() {
    let mut doc = obj(vec![
        ("version", Json::Str(s("0.2.0"))),
        ("states", obj(vec![("1", obj(vec![("language_key", Json::Str(s("en")))]))])),
    ]);
    assert_eq!(load_user_states(&mut doc).err(), Some(UserStatesLoadError::Malformed));
    let mut no_states = obj(vec![("version", Json::Str(s("0.2.0")))]);
    assert_eq!(load_user_states(&mut no_states).err(), Some(UserStatesLoadError::Malformed));
}

#[test]
fn later_duplicate_user_wins() {
    let user = |lang: &str| {
        obj(vec![
            (
                "scoring_settings",
                obj(vec![
                    ("use_kiriage_mangan", Json::Bool(false)),
                    ("use_honba", Json::Bool(false)),
                    ("use_kazoe_yakuman", Json::Bool(false)),
                ]),
            ),
            ("language_key", Json::Str(s(lang))),
        ])
    };
    let mut doc = obj(vec![
        ("version", Json::Str(s("0.2.0"))),
        ("states", obj(vec![("1", user("ene")), ("1", user("enj"))])),
    ]);
    let loaded = load_user_states(&mut doc).unwrap();
    assert_eq!(loaded.user_states.states.len(), 1);
    assert_eq!(loaded.user_states.states[0].1.settings.language_key, "enj");
}

#[test]
fn insert_overwrites_existing_user() {
    let mut states = get_default_user_states();
    states.insert_state(s("1"), busy_state(settings(false, false, false, "ene")));
    states.insert_state(s("2"), busy_state(settings(false, false, false, "ene")));
    states.insert_state(s("1"), busy_state(settings(true, true, true, "enj")));
    assert_eq!(states.states.len(), 2);
    assert_eq!(states.states[0].0, "1");
    assert_eq!(states.states[0].1.settings.language_key, "enj");
}

#[test]
fn merge_sets_one_user_in_loaded_file() {
    let mut doc = old_file();
    let out = merge_user_state(&mut doc, s("43"), &get_default_user_state()).unwrap();
    let mut out = out;
    let loaded = load_user_states(&mut out).unwrap();
    assert!(!loaded.updated);
    assert_eq!(loaded.user_states.states.len(), 2);
    assert_eq!(loaded.user_states.states[1].0, "43");
    assert_eq!(loaded.user_states.states[1].1.settings.language_key, "en");
}
