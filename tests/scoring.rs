use mahjong_bot::hand_score::{HandScoreData, ScoringSettings};
use mahjong_bot::translations::{load_translations, translate};
use mahjong_bot::user_settings::UserSettings;

fn rules(kiriage: bool, honba: bool, kazoe: bool) -> ScoringSettings {
    ScoringSettings { use_kiriage_mangan: kiriage, use_honba: honba, use_kazoe_yakuman: kazoe }
}

fn hand(han: u8, fu: u8, honba: u8, ron: bool, is_dealer: bool) -> HandScoreData {
    HandScoreData { han, fu, honba, ron, is_dealer }
}

#[test]
fn non_dealer_ron_small_hand() {
    let t = hand(1, 30, 0, true, false).calculate_totals(rules(false, false, true));
    assert_eq!((t.dealer, t.others), (0, 1000));
}

#[test]
fn non_dealer_tsumo_splits_payment() {
    let t = hand(3, 30, 0, false, false).calculate_totals(rules(false, false, true));
    assert_eq!((t.dealer, t.others), (2000, 1000));
}

#[test]
fn dealer_tsumo_all_pay_alike() {
    let t = hand(2, 30, 0, false, true).calculate_totals(rules(false, false, true));
    assert_eq!((t.dealer, t.others), (0, 1000));
}

#[test]
fn dealer_ron_mangan() {
    let t = hand(5, 30, 0, true, true).calculate_totals(rules(false, false, true));
    assert_eq!((t.dealer, t.others), (0, 12000));
}

#[test]
fn kiriage_mangan_only_when_on() {
    let off = hand(4, 30, 0, true, false).calculate_totals(rules(false, false, true));
    assert_eq!(off.others, 7700);
    let on = hand(4, 30, 0, true, false).calculate_totals(rules(true, false, true));
    assert_eq!(on.others, 8000);
    let on60 = hand(3, 60, 0, true, false).calculate_totals(rules(true, false, true));
    assert_eq!(on60.others, 8000);
}

#[test]
fn limit_hands_with_and_without_kazoe() {
    let with = hand(13, 30, 0, true, false).calculate_totals(rules(false, false, true));
    assert_eq!(with.others, 32000);
    let without = hand(13, 30, 0, true, false).calculate_totals(rules(false, false, false));
    assert_eq!(without.others, 24000);
    let haneman = hand(6, 30, 0, true, false).calculate_totals(rules(false, false, true));
    assert_eq!(haneman.others, 12000);
    let baiman = hand(8, 30, 0, true, false).calculate_totals(rules(false, false, true));
    assert_eq!(baiman.others, 16000);
}

#[test]
fn honba_adds_per_payer() {
    let ron = hand(1, 30, 2, true, false).calculate_totals(rules(false, true, true));
    assert_eq!((ron.dealer, ron.others), (0, 1600));
    let tsumo = hand(3, 30, 2, false, false).calculate_totals(rules(false, true, true));
    assert_eq!((tsumo.dealer, tsumo.others), (2200, 1200));
}

#[test]
fn translate_looks_up_language_then_key() {
    let t = load_translations();
    let mut st = UserSettings {
        scoring_settings: rules(false, false, true),
        language_key: "ene".to_string(),
    };
    assert_eq!(translate("tenpai_hand", &t, &st), "The hand is ready now");
    st.language_key = "enj".to_string();
    assert_eq!(translate("tenpai_hand", &t, &st), "Tenpai");
}
