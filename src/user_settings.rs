use vstd::prelude::*;

use crate::hand_score::ScoringSettings;

verus! {

/// What a user has chosen; this is what is kept on disk for each user.
#[derive(Debug)]
pub struct UserSettings {
    pub scoring_settings: ScoringSettings,
    pub language_key: String,
}

/// The value of a user's settings.
pub struct SettingsModel {
    pub scoring_settings: ScoringSettings,
    pub language_key: Seq<char>,
}

impl View for UserSettings {
    type V = SettingsModel;

    open spec fn view(&self) -> SettingsModel {
        SettingsModel { scoring_settings: self.scoring_settings, language_key: self.language_key@ }
    }
}

impl Clone for UserSettings {
    fn clone(&self) -> (r: UserSettings)
        ensures
            r@ == self@,
    {
        UserSettings { scoring_settings: self.scoring_settings, language_key: self.language_key.clone() }
    }
}

/// The settings of a new user: no kiriage mangan, no honba, kazoe yakuman counted, English.
pub open spec fn default_settings() -> SettingsModel {
    SettingsModel {
        scoring_settings: ScoringSettings {
            use_kiriage_mangan: false,
            use_honba: false,
            use_kazoe_yakuman: true,
        },
        language_key: "en"@,
    }
}

/// The settings of a new user.
pub fn get_default_settings() -> (r: UserSettings)
    ensures
        r@ == default_settings(),
{
    UserSettings {
        scoring_settings: ScoringSettings {
            use_kiriage_mangan: false,
            use_honba: false,
            use_kazoe_yakuman: true,
        },
        language_key: "en".to_string(),
    }
}

} // verus!
