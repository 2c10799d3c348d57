use vstd::prelude::*;

use crate::hand_score::HandScoreData;
use crate::json::{
    entries_view, field_of, find_entry, is_first_key, key_index, lemma_entries_view,
    lemma_key_index, lemma_no_key, with_entry, Json, JsonValue,
};
use crate::json_file_updater::{
    upgrade, version_of, JsonFileUpdaterError, Outcome, UpdateResult,
};
use crate::user_settings::{default_settings, get_default_settings, SettingsModel, UserSettings};
use crate::hand_score::ScoringSettings;
use crate::user_state_updaters::{
    update_user_states_to_the_latest_version, user_states_updater, LATEST_SAVE_VERSION,
    VERSION_FIELD_NAME,
};

verus! {

/// What the bot holds for one user: the hand in play and whether the settings
/// changed since they were last written, which are never kept on disk, and the
/// settings, which are.
#[derive(Debug)]
pub struct UserState {
    pub hand_score: Option<HandScoreData>,
    pub settings: UserSettings,
    pub settings_unsaved: bool,
}

/// The value of a user's state.
pub struct StateModel {
    pub hand_score: Option<HandScoreData>,
    pub settings: SettingsModel,
    pub settings_unsaved: bool,
}

impl View for UserState {
    type V = StateModel;

    open spec fn view(&self) -> StateModel {
        StateModel {
            hand_score: self.hand_score,
            settings: self.settings@,
            settings_unsaved: self.settings_unsaved,
        }
    }
}

impl Clone for UserState {
    fn clone(&self) -> (r: UserState)
        ensures
            r@ == self@,
    {
        UserState {
            hand_score: self.hand_score,
            settings: self.settings.clone(),
            settings_unsaved: self.settings_unsaved,
        }
    }
}

/// A state with the given settings and no hand in play, as it is after a load.
pub open spec fn state_with_settings(s: SettingsModel) -> StateModel {
    StateModel { hand_score: None, settings: s, settings_unsaved: false }
}

/// The state of a user that the bot has not seen before.
pub fn get_default_user_state() -> (r: UserState)
    ensures
        r@ == state_with_settings(default_settings()),
{
    UserState { hand_score: None, settings: get_default_settings(), settings_unsaved: false }
}

/// Every user's state, with the version of the document they were read from. Each
/// user (a chat id, in decimal) appears once.
#[derive(Debug)]
pub struct UserStates {
    pub version: String,
    pub states: Vec<(String, UserState)>,
}

/// The value of a set of user states: the version and each user with their state,
/// in order.
pub struct StatesModel {
    pub version: Seq<char>,
    pub states: Seq<(Seq<char>, StateModel)>,
}

/// The value of each user and state.
pub open spec fn states_view(v: Seq<(String, UserState)>) -> Seq<(Seq<char>, StateModel)> {
    Seq::new(v.len(), |i: int| (v[i].0@, v[i].1@))
}

impl View for UserStates {
    type V = StatesModel;

    open spec fn view(&self) -> StatesModel {
        StatesModel { version: self.version@, states: states_view(self.states@) }
    }
}

/// No two entries share a key.
pub open spec fn keys_unique<V>(e: Seq<(Seq<char>, V)>) -> bool {
    forall|i: int, j: int| 0 <= i < j < e.len() ==> e[i].0 != e[j].0
}

impl UserStates {
    /// Each user appears once.
    pub open spec fn wf(&self) -> bool {
        keys_unique(self@.states)
    }
}

/// The state of user `k`, if there is one.
pub open spec fn state_of(m: StatesModel, k: Seq<char>) -> Option<StateModel> {
    if key_index(m.states, k) >= 0 {
        Some(m.states[key_index(m.states, k)].1)
    } else {
        None
    }
}

/// The user states of a new store: the latest version and no user.
pub fn get_default_user_states() -> (r: UserStates)
    ensures
        r@ == (StatesModel { version: LATEST_SAVE_VERSION@, states: Seq::empty() }),
        r.wf(),
{
    let r = UserStates { version: LATEST_SAVE_VERSION.to_string(), states: Vec::new() };
    proof {
        assert(r@.states =~= Seq::<(Seq<char>, StateModel)>::empty());
    }
    r
}

fn find_state(v: &Vec<(String, UserState)>, k: &String) -> (r: Option<usize>)
    ensures
        match r {
            Some(i) => i as int == key_index(states_view(v@), k@),
            None => key_index(states_view(v@), k@) == -1,
        },
{
    let mut i: usize = 0;
    while i < v.len()
        invariant
            0 <= i <= v@.len(),
            forall|j: int| 0 <= j < i ==> states_view(v@)[j].0 != k@,
        decreases v@.len() - i,
    {
        if v[i].0 == *k {
            proof {
                lemma_key_index(states_view(v@), k@, i as int);
            }
            return Some(i);
        }
        i = i + 1;
    }
    proof {
        lemma_no_key(states_view(v@), k@);
    }
    None
}

/// Setting an entry keeps keys unique.
pub proof fn lemma_with_entry_unique<V>(e: Seq<(Seq<char>, V)>, k: Seq<char>, v: V)
    requires
        keys_unique(e),
    ensures
        keys_unique(with_entry(e, k, v)),
{
    if key_index(e, k) < 0 {
        assert forall|j: int| 0 <= j < e.len() implies e[j].0 != k by {
            if e[j].0 == k {
                crate::json_file_updater::lemma_some_first_key(e, k, j);
            }
        }
    } else {
        assert(is_first_key(e, k, key_index(e, k)));
    }
}

impl UserStates {
    /// Sets the state of user `key`, adding the user where they are new.
    pub fn insert_state(&mut self, key: String, state: UserState)
        ensures
            final(self)@ == (StatesModel {
                version: old(self)@.version,
                states: with_entry(old(self)@.states, key@, state@),
            }),
            old(self).wf() ==> final(self).wf(),
    {
        let ghost s0 = self@.states;
        let ghost kv = key@;
        let ghost sv = state@;
        match find_state(&self.states, &key) {
            Some(i) => {
                self.states.remove(i);
                self.states.insert(i, (key, state));
            },
            None => {
                self.states.push((key, state));
            },
        }
        proof {
            assert(self@.states =~= with_entry(s0, kv, sv));
            if keys_unique(s0) {
                lemma_with_entry_unique(s0, kv, sv);
            }
        }
    }
}

} // verus!

verus! {

/// The document of one user's settings.
pub open spec fn settings_json(s: SettingsModel) -> JsonValue {
    JsonValue::Object(
        seq![
            (
                "scoring_settings"@,
                JsonValue::Object(
                    seq![
                        ("use_kiriage_mangan"@, JsonValue::Bool(s.scoring_settings.use_kiriage_mangan)),
                        ("use_honba"@, JsonValue::Bool(s.scoring_settings.use_honba)),
                        ("use_kazoe_yakuman"@, JsonValue::Bool(s.scoring_settings.use_kazoe_yakuman)),
                    ],
                ),
            ),
            ("language_key"@, JsonValue::Str(s.language_key)),
        ],
    )
}

/// The document of a set of user states: its version and each user's settings.
/// Nothing else of a state is kept.
pub open spec fn user_states_json(m: StatesModel) -> JsonValue {
    JsonValue::Object(
        seq![
            (VERSION_FIELD_NAME@, JsonValue::Str(m.version)),
            (
                "states"@,
                JsonValue::Object(
                    Seq::new(m.states.len(), |i: int| (m.states[i].0, settings_json(m.states[i].1.settings))),
                ),
            ),
        ],
    )
}

/// The boolean under key `k` of an object.
pub open spec fn bool_of(j: JsonValue, k: Seq<char>) -> Option<bool> {
    match field_of(j, k) {
        Some(JsonValue::Bool(b)) => Some(b),
        _ => None,
    }
}

/// The settings that a document holds: an object with the three scoring rules as
/// booleans under `scoring_settings` and a string under `language_key`. Other
/// entries are ignored.
pub open spec fn settings_of(j: JsonValue) -> Option<SettingsModel> {
    match field_of(j, "scoring_settings"@) {
        Some(sc) => match (
            bool_of(sc, "use_kiriage_mangan"@),
            bool_of(sc, "use_honba"@),
            bool_of(sc, "use_kazoe_yakuman"@),
            field_of(j, "language_key"@),
        ) {
            (Some(a), Some(b), Some(c), Some(JsonValue::Str(l))) => Some(
                SettingsModel {
                    scoring_settings: ScoringSettings {
                        use_kiriage_mangan: a,
                        use_honba: b,
                        use_kazoe_yakuman: c,
                    },
                    language_key: l,
                },
            ),
            _ => None,
        },
        None => None,
    }
}

/// The states that the entries of a `states` object hold, each with no hand in play;
/// where a user appears twice the later entry wins. None where an entry holds no
/// settings.
pub open spec fn records_of(recs: Seq<(Seq<char>, JsonValue)>) -> Option<Seq<(Seq<char>, StateModel)>>
    decreases recs.len(),
{
    if recs.len() == 0 {
        Some(Seq::empty())
    } else {
        match (records_of(recs.drop_last()), settings_of(recs.last().1)) {
            (Some(r), Some(s)) => Some(with_entry(r, recs.last().0, state_with_settings(s))),
            _ => None,
        }
    }
}

/// The user states that a document holds: a string tag and an object of users.
pub open spec fn states_of(j: JsonValue) -> Option<StatesModel> {
    match (version_of(j, VERSION_FIELD_NAME@), field_of(j, "states"@)) {
        (Some(v), Some(JsonValue::Object(recs))) => match records_of(recs) {
            Some(r) => Some(StatesModel { version: v, states: r }),
            None => None,
        },
        _ => None,
    }
}

/// The entry under key `k` of an object.
fn get_field<'a>(j: &'a Json, k: &String) -> (r: Option<&'a Json>)
    ensures
        match r {
            Some(v) => field_of(j@, k@) == Some(v@),
            None => field_of(j@, k@) is None,
        },
{
    match j {
        Json::Object(e) => {
            proof {
                lemma_entries_view(e@);
            }
            match find_entry(e, k) {
                Some(i) => Some(&e[i].1),
                None => None,
            }
        },
        _ => None,
    }
}

fn get_bool(j: &Json, k: &String) -> (r: Option<bool>)
    ensures
        r == bool_of(j@, k@),
{
    match get_field(j, k) {
        Some(Json::Bool(b)) => Some(*b),
        _ => None,
    }
}

/// Reads a user's settings from their document.
pub fn settings_from_json(j: &Json) -> (r: Option<UserSettings>)
    ensures
        match r {
            Some(s) => settings_of(j@) == Some(s@),
            None => settings_of(j@) is None,
        },
{
    let sc = match get_field(j, &"scoring_settings".to_string()) {
        Some(sc) => sc,
        None => return None,
    };
    let a = get_bool(sc, &"use_kiriage_mangan".to_string());
    let b = get_bool(sc, &"use_honba".to_string());
    let c = get_bool(sc, &"use_kazoe_yakuman".to_string());
    let l = get_field(j, &"language_key".to_string());
    match (a, b, c, l) {
        (Some(a), Some(b), Some(c), Some(Json::Str(l))) => Some(
            UserSettings {
                scoring_settings: ScoringSettings {
                    use_kiriage_mangan: a,
                    use_honba: b,
                    use_kazoe_yakuman: c,
                },
                language_key: l.clone(),
            },
        ),
        _ => None,
    }
}

/// Reads the user states from a document that is at the latest version.
pub fn user_states_from_json(j: &Json) -> (r: Option<UserStates>)
    ensures
        match r {
            Some(s) => states_of(j@) == Some(s@) && s.wf(),
            None => states_of(j@) is None,
        },
{
    let version = match get_field(j, &VERSION_FIELD_NAME.to_string()) {
        Some(Json::Str(v)) => v.clone(),
        _ => return None,
    };
    let recs = match get_field(j, &"states".to_string()) {
        Some(Json::Object(recs)) => recs,
        _ => return None,
    };
    let ghost rv = entries_view(recs@);
    proof {
        lemma_entries_view(recs@);
    }
    let ghost vv = version@;
    assert(field_of(j@, "states"@) == Some(JsonValue::Object(rv)));
    assert(version_of(j@, VERSION_FIELD_NAME@) == Some(vv));
    let mut out = UserStates { version, states: Vec::new() };
    proof {
        assert(out@.states =~= Seq::<(Seq<char>, StateModel)>::empty());
        assert(rv.take(0) =~= Seq::<(Seq<char>, JsonValue)>::empty());
    }
    let mut i: usize = 0;
    while i < recs.len()
        invariant
            0 <= i <= recs@.len(),
            rv == entries_view(recs@),
            rv.len() == recs@.len(),
            forall|j: int| 0 <= j < recs@.len() ==> #[trigger] rv[j] == (recs@[j].0@, recs@[j].1@),
            records_of(rv.take(i as int)) == Some(out@.states),
            out.wf(),
            out@.version == vv,
            field_of(j@, "states"@) == Some(JsonValue::Object(rv)),
            version_of(j@, VERSION_FIELD_NAME@) == Some(vv),
        decreases recs@.len() - i,
    {
        let s = match settings_from_json(&recs[i].1) {
            Some(s) => s,
            None => {
                proof {
                    lemma_records_of_prefix_none(rv, i as int);
                }
                return None;
            },
        };
        let ghost before = out@.states;
        let st = UserState { hand_score: None, settings: s, settings_unsaved: false };
        out.insert_state(recs[i].0.clone(), st);
        proof {
            assert(rv.take(i + 1).drop_last() =~= rv.take(i as int));
            assert(rv.take(i + 1).last() == rv[i as int]);
        }
        i = i + 1;
    }
    proof {
        assert(rv.take(recs@.len() as int) =~= rv);
    }
    Some(out)
}

/// Once an entry holds no settings, no longer prefix holds states either.
proof fn lemma_records_of_prefix_none(rv: Seq<(Seq<char>, JsonValue)>, i: int)
    requires
        0 <= i < rv.len(),
        settings_of(rv[i].1) is None,
    ensures
        records_of(rv) is None,
    decreases rv.len(),
{
    if i < rv.len() - 1 {
        lemma_records_of_prefix_none(rv.drop_last(), i);
    }
}

fn settings_to_json(s: &UserSettings) -> (j: Json)
    ensures
        j@ == settings_json(s@),
{
    let mut sc: Vec<(String, Json)> = Vec::new();
    sc.push(("use_kiriage_mangan".to_string(), Json::Bool(s.scoring_settings.use_kiriage_mangan)));
    sc.push(("use_honba".to_string(), Json::Bool(s.scoring_settings.use_honba)));
    sc.push(("use_kazoe_yakuman".to_string(), Json::Bool(s.scoring_settings.use_kazoe_yakuman)));
    let mut e: Vec<(String, Json)> = Vec::new();
    let ghost scv = sc@;
    e.push(("scoring_settings".to_string(), Json::Object(sc)));
    e.push(("language_key".to_string(), Json::Str(s.language_key.clone())));
    proof {
        lemma_entries_view(scv);
        lemma_entries_view(e@);
        assert(entries_view(scv) =~= seq![
            ("use_kiriage_mangan"@, JsonValue::Bool(s.scoring_settings.use_kiriage_mangan)),
            ("use_honba"@, JsonValue::Bool(s.scoring_settings.use_honba)),
            ("use_kazoe_yakuman"@, JsonValue::Bool(s.scoring_settings.use_kazoe_yakuman)),
        ]);
        assert(entries_view(e@) =~= settings_json(s@)->Object_0);
    }
    Json::Object(e)
}

/// The document that holds the user states: their version and each user's settings.
pub fn user_states_to_json(s: &UserStates) -> (j: Json)
    ensures
        j@ == user_states_json(s@),
{
    let mut recs: Vec<(String, Json)> = Vec::new();
    let mut i: usize = 0;
    while i < s.states.len()
        invariant
            0 <= i <= s.states@.len(),
            entries_view(recs@) =~= Seq::new(
                i as nat,
                |j: int| (s@.states[j].0, settings_json(s@.states[j].1.settings)),
            ),
        decreases s.states@.len() - i,
    {
        let ghost before = recs@;
        recs.push((s.states[i].0.clone(), settings_to_json(&s.states[i].1.settings)));
        proof {
            assert(recs@.drop_last() =~= before);
        }
        i = i + 1;
    }
    let mut e: Vec<(String, Json)> = Vec::new();
    let ghost rs = recs@;
    e.push((VERSION_FIELD_NAME.to_string(), Json::Str(s.version.clone())));
    e.push(("states".to_string(), Json::Object(recs)));
    proof {
        lemma_entries_view(e@);
        assert(entries_view(e@) =~= user_states_json(s@)->Object_0);
    }
    Json::Object(e)
}

} // verus!

verus! {

/// Why a user states document could not be loaded.
#[derive(Debug, Clone, PartialEq)]
pub enum UserStatesLoadError {
    /// The document could not be brought to the latest version.
    Update(JsonFileUpdaterError),
    /// At the latest version, the document does not hold user states.
    Malformed,
}

/// User states read from a document, and whether the document had to be updated
/// first (in which case it should be written back).
pub struct LoadedUserStates {
    pub user_states: UserStates,
    pub updated: bool,
}

/// What loading a document gives: the states it holds once updated, and whether it
/// was updated; none where it cannot be updated or holds no states.
pub open spec fn load_result(doc: JsonValue) -> Option<(StatesModel, bool)> {
    let (o, d) = upgrade(user_states_updater(), doc);
    if (o == Outcome::NoUpdateNeeded || o == Outcome::Updated) && states_of(d) is Some {
        Some((states_of(d).unwrap(), o == Outcome::Updated))
    } else {
        None
    }
}

/// Brings a user states document to the latest version and reads the states from it.
pub fn load_user_states(doc: &mut Json) -> (r: Result<LoadedUserStates, UserStatesLoadError>)
    ensures
        final(doc)@ == upgrade(user_states_updater(), old(doc)@).1,
        match r {
            Ok(l) => load_result(old(doc)@) == Some((l.user_states@, l.updated))
                && l.user_states.wf(),
            Err(UserStatesLoadError::Update(e)) => UpdateResult::Error(e)@ == upgrade(
                user_states_updater(),
                old(doc)@,
            ).0,
            Err(UserStatesLoadError::Malformed) => load_result(old(doc)@) is None && (upgrade(
                user_states_updater(),
                old(doc)@,
            ).0 == Outcome::NoUpdateNeeded || upgrade(user_states_updater(), old(doc)@).0
                == Outcome::Updated),
        },
{
    let update_result = update_user_states_to_the_latest_version(doc);
    let updated = match update_result {
        UpdateResult::NoUpdateNeeded => false,
        UpdateResult::Updated => true,
        UpdateResult::Error(e) => return Err(UserStatesLoadError::Update(e)),
    };
    match user_states_from_json(doc) {
        Some(user_states) => Ok(LoadedUserStates { user_states, updated }),
        None => Err(UserStatesLoadError::Malformed),
    }
}

/// The document to write when one user's state is set: `doc` loaded, the state of
/// `chat_id` set to `user_state`, and the result turned back into a document.
pub fn merge_user_state(doc: &mut Json, chat_id: String, user_state: &UserState) -> (r: Result<
    Json,
    UserStatesLoadError,
>)
    ensures
        final(doc)@ == upgrade(user_states_updater(), old(doc)@).1,
        r is Ok <==> load_result(old(doc)@) is Some,
        match r {
            Ok(j) => j@ == user_states_json(
                StatesModel {
                    version: load_result(old(doc)@).unwrap().0.version,
                    states: with_entry(load_result(old(doc)@).unwrap().0.states, chat_id@, user_state@),
                },
            ),
            Err(UserStatesLoadError::Update(e)) => UpdateResult::Error(e)@ == upgrade(
                user_states_updater(),
                old(doc)@,
            ).0,
            Err(UserStatesLoadError::Malformed) => upgrade(user_states_updater(), old(doc)@).0
                == Outcome::NoUpdateNeeded || upgrade(user_states_updater(), old(doc)@).0
                == Outcome::Updated,
        },
{
    let loaded = load_user_states(doc);
    match loaded {
        Ok(l) => {
            let mut user_states = l.user_states;
            user_states.insert_state(chat_id, user_state.clone());
            Ok(user_states_to_json(&user_states))
        },
        Err(e) => Err(e),
    }
}

} // verus!

verus! {

/// The states with every hand and unsaved mark dropped: what a load gives back.
pub open spec fn persisted(m: StatesModel) -> StatesModel {
    StatesModel {
        version: m.version,
        states: Seq::new(m.states.len(), |i: int| (m.states[i].0, state_with_settings(m.states[i].1.settings))),
    }
}

/// A user's settings are read back from their document as they were.
pub proof fn lemma_settings_round_trip(s: SettingsModel)
    ensures
        settings_of(settings_json(s)) == Some(s),
{
    reveal_strlit("scoring_settings");
    reveal_strlit("language_key");
    reveal_strlit("use_kiriage_mangan");
    reveal_strlit("use_honba");
    reveal_strlit("use_kazoe_yakuman");
    let e = settings_json(s)->Object_0;
    let sc = e[0].1;
    let f = sc->Object_0;
    lemma_key_index(e, "scoring_settings"@, 0);
    assert("scoring_settings"@.len() == 16 && "language_key"@.len() == 12);
    assert(e[0].0 != "language_key"@);
    lemma_key_index(e, "language_key"@, 1);
    lemma_key_index(f, "use_kiriage_mangan"@, 0);
    assert("use_kiriage_mangan"@.len() == 18 && "use_honba"@.len() == 9);
    assert("use_kazoe_yakuman"@.len() == 17);
    assert(f[0].0 != "use_honba"@);
    lemma_key_index(f, "use_honba"@, 1);
    assert(f[0].0 != "use_kazoe_yakuman"@);
    assert(f[1].0 != "use_kazoe_yakuman"@);
    lemma_key_index(f, "use_kazoe_yakuman"@, 2);
}

/// The users of a `states` object with unique keys are read back in order, with their
/// settings and nothing else.
proof fn lemma_records_round_trip(m: StatesModel, n: int)
    requires
        keys_unique(m.states),
        0 <= n <= m.states.len(),
    ensures
        records_of(Seq::new(n as nat, |i: int| (m.states[i].0, settings_json(m.states[i].1.settings))))
            == Some(persisted(m).states.take(n)),
    decreases n,
{
    let enc = Seq::new(n as nat, |i: int| (m.states[i].0, settings_json(m.states[i].1.settings)));
    if n == 0 {
        assert(persisted(m).states.take(0) =~= Seq::<(Seq<char>, StateModel)>::empty());
    } else {
        let prev = Seq::new((n - 1) as nat, |i: int| (m.states[i].0, settings_json(m.states[i].1.settings)));
        lemma_records_round_trip(m, n - 1);
        assert(enc.drop_last() =~= prev);
        lemma_settings_round_trip(m.states[n - 1].1.settings);
        let r = persisted(m).states.take(n - 1);
        assert forall|j: int| 0 <= j < r.len() implies r[j].0 != m.states[n - 1].0 by {
            assert(r[j].0 == m.states[j].0);
        }
        lemma_no_key(r, m.states[n - 1].0);
        assert(with_entry(r, m.states[n - 1].0, state_with_settings(m.states[n - 1].1.settings))
            =~= persisted(m).states.take(n));
    }
}

/// The document of a set of states carries its version as the tag and its users
/// under `states`.
proof fn lemma_user_states_json_fields(m: StatesModel)
    ensures
        version_of(user_states_json(m), VERSION_FIELD_NAME@) == Some(m.version),
        field_of(user_states_json(m), "states"@) == Some(user_states_json(m)->Object_0[1].1),
{
    reveal_strlit("version");
    reveal_strlit("states");
    let e = user_states_json(m)->Object_0;
    lemma_key_index(e, VERSION_FIELD_NAME@, 0);
    assert(VERSION_FIELD_NAME@.len() == 7 && "states"@.len() == 6);
    assert(e[0].0 != "states"@);
    lemma_key_index(e, "states"@, 1);
}

/// Writing states at the latest version and loading them back gives every user's
/// settings as they were, with no hand in play and nothing marked unsaved, and no update.
pub proof fn lemma_save_then_load(m: StatesModel)
    requires
        keys_unique(m.states),
        m.version == LATEST_SAVE_VERSION@,
    ensures
        load_result(user_states_json(m)) == Some((persisted(m), false)),
{
    let j = user_states_json(m);
    lemma_user_states_json_fields(m);
    reveal_strlit("0.2.0");
    crate::json_file_updater::lemma_current_document_unchanged(user_states_updater(), j);
    lemma_records_round_trip(m, m.states.len() as int);
    assert(persisted(m).states.take(m.states.len() as int) =~= persisted(m).states);
    assert(Seq::new(m.states.len(), |i: int| (m.states[i].0, settings_json(m.states[i].1.settings)))
        =~= j->Object_0[1].1->Object_0);
}

/// The states read from a document have unique users, none with a hand in play or
/// marked unsaved.
proof fn lemma_records_of_persisted(recs: Seq<(Seq<char>, JsonValue)>)
    requires
        records_of(recs) is Some,
    ensures
        keys_unique(records_of(recs).unwrap()),
        forall|i: int| 0 <= i < records_of(recs).unwrap().len()
            ==> #[trigger] records_of(recs).unwrap()[i].1 == state_with_settings(
            records_of(recs).unwrap()[i].1.settings,
        ),
    decreases recs.len(),
{
    if recs.len() > 0 {
        lemma_records_of_persisted(recs.drop_last());
        let r = records_of(recs.drop_last()).unwrap();
        let s = settings_of(recs.last().1).unwrap();
        lemma_with_entry_unique(r, recs.last().0, state_with_settings(s));
    }
}

/// Loading a document at an older version gives states that, written back, load again
/// as they are and with no update.
pub proof fn lemma_updated_load_heals(doc: JsonValue)
    requires
        load_result(doc) is Some,
        load_result(doc).unwrap().1,
    ensures
        load_result(user_states_json(load_result(doc).unwrap().0)) == Some(
            (load_result(doc).unwrap().0, false),
        ),
{
    let reg = user_states_updater();
    let d = upgrade(reg, doc).1;
    let s = load_result(doc).unwrap().0;
    crate::json_file_updater::lemma_updated_document_is_current(reg, doc);
    reveal_strlit("0.2.0");
    let recs = field_of(d, "states"@).unwrap()->Object_0;
    lemma_records_of_persisted(recs);
    lemma_save_then_load(s);
    assert(persisted(s).states =~= s.states);
}

/// Two writers that each load the same states, set a different user and write the
/// whole back: the states that the second one writes hold, for the first writer's
/// user, what the loaded states held, so the first writer's change is lost.
pub proof fn lemma_second_writer_drops_first(
    base: StatesModel,
    a: Seq<char>,
    state_a: StateModel,
    b: Seq<char>,
    state_b: StateModel,
)
    requires
        a != b,
    ensures
        state_of(
            StatesModel { version: base.version, states: with_entry(base.states, a, state_a) },
            a,
        ) == Some(state_a),
        state_of(
            StatesModel { version: base.version, states: with_entry(base.states, b, state_b) },
            a,
        ) == state_of(base, a),
{
    let e = base.states;
    crate::json_file_updater::lemma_field_of_with_field_any(e, a, state_a);
    let eb = with_entry(e, b, state_b);
    if key_index(e, b) >= 0 {
        let ib = key_index(e, b);
        assert(is_first_key(e, b, ib));
        if key_index(e, a) >= 0 {
            let ia = key_index(e, a);
            assert(is_first_key(e, a, ia));
            assert(is_first_key(eb, a, ia));
            lemma_key_index(eb, a, ia);
        } else {
            assert forall|j: int| 0 <= j < eb.len() implies eb[j].0 != a by {
                if e[j].0 == a {
                    crate::json_file_updater::lemma_some_first_key(e, a, j);
                }
            }
            lemma_no_key(eb, a);
        }
    } else {
        if key_index(e, a) >= 0 {
            let ia = key_index(e, a);
            assert(is_first_key(e, a, ia));
            assert(is_first_key(eb, a, ia));
            lemma_key_index(eb, a, ia);
        } else {
            assert forall|j: int| 0 <= j < eb.len() implies eb[j].0 != a by {
                if j < e.len() && e[j].0 == a {
                    crate::json_file_updater::lemma_some_first_key(e, a, j);
                }
            }
            lemma_no_key(eb, a);
        }
    }
}

} // verus!
