use mahjong_bot::json::Json;
use mahjong_bot::json_file_updater::{
    JsonFileUpdater, JsonFileUpdaterError, JsonTransform, RegistryError, UpdateResult,
};
use mahjong_bot::version::{numbers_before, parse_version};
use mahjong_bot::user_state_updaters::{
    register_json_updaters, update_user_states_to_the_latest_version, LATEST_SAVE_VERSION,
};

fn s(text: &str) -> String {
    text.to_string()
}

fn obj(entries: Vec<(&str, Json)>) -> Json {
    Json::Object(entries.into_iter().map(|(k, v)| (k.to_string(), v)).collect())
}

fn old_user(use_4_30: bool) -> Json {
    obj(vec![
        (
            "scoring_settings",
            obj(vec![
                ("use_4_30_mangan", Json::Bool(use_4_30)),
                ("use_honba", Json::Bool(false)),
                ("use_kazoe_yakuman", Json::Bool(true)),
            ]),
        ),
        ("language_key", Json::Str(s("en"))),
    ])
}

fn two_step_updater() -> JsonFileUpdater {
    let mut u = JsonFileUpdater::new("version");
    u.add_update_function("0.1.0", JsonTransform::Unchanged).unwrap();
    u.add_update_function(
        "0.2.0",
        JsonTransform::RenameInRecords {
            records: s("states"),
            section: s("scoring_settings"),
            from: s("use_4_30_mangan"),
            to: s("use_kiriage_mangan"),
        },
    )
    .unwrap();
    u
}

#[test]
fn latest_document_is_left_alone() {
    let mut doc = obj(vec![
        ("version", Json::Str(s("0.2.0"))),
        ("states", obj(vec![("u1", old_user(true))])),
    ]);
    let before = obj(vec![
        ("version", Json::Str(s("0.2.0"))),
        ("states", obj(vec![("u1", old_user(true))])),
    ]);
    let r = update_user_states_to_the_latest_version(&mut doc);
    assert_eq!(r, UpdateResult::NoUpdateNeeded);
    assert_eq!(doc, before);
}

#[test]
fn untagged_document_gets_both_steps() {
    let mut doc = obj(vec![("states", obj(vec![("u1", old_user(true))]))]);
    let r = two_step_updater().update_json(&mut doc);
    assert_eq!(r, UpdateResult::Updated);
    let expected = obj(vec![
        (
            "states",
            obj(vec![(
                "u1",
                obj(vec![
                    (
                        "scoring_settings",
                        obj(vec![
                            ("use_honba", Json::Bool(false)),
                            ("use_kazoe_yakuman", Json::Bool(true)),
                            ("use_kiriage_mangan", Json::Bool(true)),
                        ]),
                    ),
                    ("language_key", Json::Str(s("en"))),
                ]),
            )]),
        ),
        ("version", Json::Str(s("0.2.0"))),
    ]);
    assert_eq!(doc, expected);
}

#[test]
fn unknown_version_is_rejected() {
    let make = || {
        obj(vec![
            ("version", Json::Str(s("9.9.9"))),
            ("states", obj(vec![("u1", old_user(true))])),
        ])
    };
    let mut doc = make();
    let r = two_step_updater().update_json(&mut doc);
    assert_eq!(
        r,
        UpdateResult::Error(JsonFileUpdaterError::UnknownVersion {
            version: s("9.9.9"),
            latest_version: s("0.2.0"),
        })
    );
    assert_eq!(doc, make());
}

#[test]
fn renames_4_30_mangan_to_kiriage_mangan() {
    let mut doc = obj(vec![
        ("version", Json::Str(s("0.1.0"))),
        ("states", obj(vec![("u1", old_user(true))])),
    ]);
    let r = update_user_states_to_the_latest_version(&mut doc);
    assert_eq!(r, UpdateResult::Updated);
    let expected = obj(vec![
        ("version", Json::Str(s("0.2.0"))),
        (
            "states",
            obj(vec![(
                "u1",
                obj(vec![
                    (
                        "scoring_settings",
                        obj(vec![
                            ("use_honba", Json::Bool(false)),
                            ("use_kazoe_yakuman", Json::Bool(true)),
                            ("use_kiriage_mangan", Json::Bool(true)),
                        ]),
                    ),
                    ("language_key", Json::Str(s("en"))),
                ]),
            )]),
        ),
    ]);
    assert_eq!(doc, expected);
}

#[test]
fn rename_keeps_false_values_and_every_user() {
    let mut doc = obj(vec![
        ("version", Json::Str(s("0.1.0"))),
        ("states", obj(vec![("u1", old_user(false)), ("u2", old_user(true))])),
    ]);
    assert_eq!(update_user_states_to_the_latest_version(&mut doc), UpdateResult::Updated);
    let states = match &doc {
        Json::Object(e) => &e[1].1,
        _ => panic!("not an object"),
    };
    let users = match states {
        Json::Object(u) => u,
        _ => panic!("no users"),
    };
    assert_eq!(users.len(), 2);
    for (i, expected) in [false, true].iter().enumerate() {
        match &users[i].1 {
            Json::Object(f) => match &f[0].1 {
                Json::Object(sc) => {
                    assert_eq!(sc.len(), 3);
                    assert_eq!(sc[2], (s("use_kiriage_mangan"), Json::Bool(*expected)));
                    assert!(sc.iter().all(|(k, _)| k != "use_4_30_mangan"));
                }
                _ => panic!("no scoring settings"),
            },
            _ => panic!("user is not an object"),
        }
    }
}

#[test]
fn non_object_document_with_due_steps_is_an_error() {
    let mut doc = Json::Array(vec![Json::Null]);
    let r = two_step_updater().update_json(&mut doc);
    assert_eq!(r, UpdateResult::Error(JsonFileUpdaterError::NotAnObject));
    assert_eq!(doc, Json::Array(vec![Json::Null]));
}

#[test]
fn duplicate_or_decreasing_version_is_refused() {
    let mut u = JsonFileUpdater::new("version");
    assert_eq!(u.add_update_function("0.9.0", JsonTransform::Unchanged), Ok(()));
    assert_eq!(
        u.add_update_function("0.9.0", JsonTransform::Unchanged),
        Err(RegistryError::NotIncreasing)
    );
    assert_eq!(
        u.add_update_function("0.8.5", JsonTransform::Unchanged),
        Err(RegistryError::NotIncreasing)
    );
    assert_eq!(
        u.add_update_function("0.9", JsonTransform::Unchanged),
        Err(RegistryError::NotIncreasing)
    );
    assert_eq!(u.steps.len(), 1);
    assert_eq!(u.add_update_function("0.10.0", JsonTransform::Unchanged), Ok(()));
    assert_eq!(u.add_update_function("0.10.0.1", JsonTransform::Unchanged), Ok(()));
    assert_eq!(u.steps.len(), 3);
}

#[test]
fn text_that_is_no_version_is_refused() {
    let mut u = JsonFileUpdater::new("version");
    for bad in ["", ".1", "1.", "1..2", "v1", "1.2-beta", "99999999999999999999"] {
        assert_eq!(
            u.add_update_function(bad, JsonTransform::Unchanged),
            Err(RegistryError::InvalidVersion),
            "{}",
            bad
        );
    }
    assert!(u.steps.is_empty());
}

#[test]
fn version_numbers_are_read_and_compared() {
    assert_eq!(parse_version("0.2.0"), Some(vec![0, 2, 0]));
    assert_eq!(parse_version("10.0.18446744073709551615"), Some(vec![10, 0, u64::MAX]));
    assert_eq!(parse_version("1.18446744073709551616"), None);
    assert!(numbers_before(&vec![0, 9, 0], &vec![0, 10, 0]));
    assert!(numbers_before(&vec![1], &vec![1, 0]));
    assert!(!numbers_before(&vec![1, 0], &vec![1, 0]));
    assert!(!numbers_before(&vec![2], &vec![1, 5]));
}

#[test]
fn registry_ends_at_latest_version() {
    let u = register_json_updaters();
    assert_eq!(u.version_field_name, "version");
    assert_eq!(u.steps.len(), 2);
    assert_eq!(u.steps[0].version, "0.1.0");
    assert_eq!(u.steps[1].version, LATEST_SAVE_VERSION);
}

#[test]
fn middle_version_gets_only_later_steps() {
    let mut u = JsonFileUpdater::new("v");
    u.add_update_function("1", JsonTransform::Unchanged).unwrap();
    u.add_update_function(
        "2",
        JsonTransform::RenameInRecords { records: s("r"), section: s("s"), from: s("a"), to: s("b") },
    )
    .unwrap();
    u.add_update_function("3", JsonTransform::Unchanged).unwrap();
    let mut doc = obj(vec![("v", Json::Str(s("2"))), ("r", obj(vec![("k", obj(vec![("s", obj(vec![("a", Json::Null)]))]))]))]);
    assert_eq!(u.update_json(&mut doc), UpdateResult::Updated);
    let expected = obj(vec![("v", Json::Str(s("3"))), ("r", obj(vec![("k", obj(vec![("s", obj(vec![("a", Json::Null)]))]))]))]);
    assert_eq!(doc, expected);
}

#[test]
fn empty_updater_leaves_untagged_document() {
    let u = JsonFileUpdater::new("version");
    let mut doc = obj(vec![]);
    assert_eq!(u.update_json(&mut doc), UpdateResult::NoUpdateNeeded);
    assert_eq!(doc, obj(vec![]));
}
