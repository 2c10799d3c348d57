use vstd::prelude::*;

use crate::json::Json;
use crate::version::{numbers_less, version_numbers};
use crate::json_file_updater::{
    latest_version, upgrade, JsonFileUpdater, JsonTransform, TransformModel, UpdateResult,
    UpdaterModel,
};

verus! {

/// The field of the user states document that holds its version tag.
pub const VERSION_FIELD_NAME: &'static str = "version";

/// The version of the user states document that this code reads and writes.
pub const LATEST_SAVE_VERSION: &'static str = "0.2.0";

/// The steps of the user states document: `0.1.0` changed no shape; `0.2.0` renamed
/// the scoring setting `use_4_30_mangan` to `use_kiriage_mangan` in every user's state.
pub open spec fn user_states_updater() -> UpdaterModel {
    UpdaterModel {
        field: VERSION_FIELD_NAME@,
        steps: seq![
            ("0.1.0"@, TransformModel::Unchanged),
            (
                "0.2.0"@,
                TransformModel::RenameInRecords {
                    records: "states"@,
                    section: "scoring_settings"@,
                    from: "use_4_30_mangan"@,
                    to: "use_kiriage_mangan"@,
                },
            ),
        ],
    }
}

/// Brings a user states document to `LATEST_SAVE_VERSION`.
pub fn update_user_states_to_the_latest_version(user_states_json: &mut Json) -> (r: UpdateResult)
    ensures
        (r@, final(user_states_json)@) == upgrade(user_states_updater(), old(user_states_json)@),
{
    let json_file_updater = register_json_updaters();
    json_file_updater.update_json(user_states_json)
}

/// The updater of the user states document; its last step produces `LATEST_SAVE_VERSION`.
pub fn register_json_updaters() -> (r: JsonFileUpdater)
    ensures
        r@ == user_states_updater(),
        r.wf(),
        latest_version(r@) == LATEST_SAVE_VERSION@,
{
    let mut json_file_updater = JsonFileUpdater::new(VERSION_FIELD_NAME);
    proof {
        reveal_strlit("0.1.0");
        reveal_strlit("0.2.0");
    }
    proof {
        lemma_version_numbers_of('1');
        lemma_version_numbers_of('2');
    }
    let _ = json_file_updater.add_update_function("0.1.0", JsonTransform::Unchanged);
    let _ = json_file_updater.add_update_function("0.2.0", v0_2_0_rename_4_30_mangan_to_kiriage_mangan());
    proof {
        assert(json_file_updater@.steps =~= user_states_updater().steps);
    }
    json_file_updater
}

/// The numbers of the version `0.d.0`.
proof fn lemma_version_numbers_of(d: char)
    requires
        d == '1' || d == '2',
    ensures
        d == '1' ==> version_numbers("0.1.0"@) == Some(seq![0int, 1, 0]),
        d == '2' ==> version_numbers("0.2.0"@) == Some(seq![0int, 2, 0]),
        numbers_less(seq![0int, 1, 0], seq![0int, 2, 0]),
{
    reveal_strlit("0.1.0");
    reveal_strlit("0.2.0");
    let s = seq!['0', '.', d, '.', '0'];
    let s4 = seq!['0', '.', d, '.'];
    let s3 = seq!['0', '.', d];
    let s2 = seq!['0', '.'];
    let s1 = seq!['0'];
    assert(s.drop_last() =~= s4);
    assert(s4.drop_last() =~= s3);
    assert(s3.drop_last() =~= s2);
    assert(s2.drop_last() =~= s1);
    assert(s1.drop_last() =~= Seq::<char>::empty());
    assert(version_numbers(s1) == Some(seq![0int]));
    let v = d as int - '0' as int;
    assert(version_numbers(s3) =~= Some(seq![0int, v]));
    assert(version_numbers(s) =~= Some(seq![0int, v, 0]));
    if d == '1' {
        assert("0.1.0"@ =~= s);
    } else {
        assert("0.2.0"@ =~= s);
    }
    let a = seq![0int, 1, 0];
    let b = seq![0int, 2, 0];
    assert(a.drop_first() =~= seq![1int, 0]);
    assert(b.drop_first() =~= seq![2int, 0]);
    assert(numbers_less(seq![1int, 0], seq![2int, 0]));
}

fn v0_2_0_rename_4_30_mangan_to_kiriage_mangan() -> (t: JsonTransform)
    ensures
        t@ == (TransformModel::RenameInRecords {
            records: "states"@,
            section: "scoring_settings"@,
            from: "use_4_30_mangan"@,
            to: "use_kiriage_mangan"@,
        }),
{
    JsonTransform::RenameInRecords {
        records: "states".to_string(),
        section: "scoring_settings".to_string(),
        from: "use_4_30_mangan".to_string(),
        to: "use_kiriage_mangan".to_string(),
    }
}

} // verus!
