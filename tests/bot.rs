use mahjong_bot::hand_score::{HandScoreData, ScoringSettings};
use mahjong_bot::telegram_bot::{generate_new_hand_text, process_user_message, text_response};
use mahjong_bot::text::score_parts;
use mahjong_bot::user_state::{get_default_user_state, UserState};

fn hand(han: u8, fu: u8, honba: u8, ron: bool, is_dealer: bool) -> HandScoreData {
    HandScoreData { han, fu, honba, ron, is_dealer }
}

fn reply(state: &mut UserState, text: Option<&str>, next: HandScoreData) -> String {
    let r = process_user_message(state, text, next);
    assert_eq!(r.len(), 1);
    r.into_iter().next().unwrap().text
}

#[test]
fn hand_text_lists_han_fu_winner_and_honba() {
    let mut h = None;
    let t = generate_new_hand_text(&mut h, hand(3, 40, 2, true, false));
    assert_eq!(t, "3 han\n40 fu\nnon-dealer\nron\n2 honba");
    assert_eq!(h, Some(hand(3, 40, 2, true, false)));
    let t = generate_new_hand_text(&mut h, hand(6, 30, 0, false, true));
    assert_eq!(t, "6 han\ndealer\ntsumo");
}

#[test]
fn start_deals_the_given_hand() {
    let mut st = get_default_user_state();
    let t = reply(&mut st, Some("/start"), hand(1, 30, 0, true, false));
    assert_eq!(t, "1 han\n30 fu\nnon-dealer\nron");
    assert_eq!(st.hand_score, Some(hand(1, 30, 0, true, false)));
}

#[test]
fn correct_answer_in_either_order() {
    let mut st = get_default_user_state();
    st.hand_score = Some(hand(3, 30, 0, false, false));
    let t = reply(&mut st, Some("1000/2000"), hand(1, 30, 0, true, false));
    assert_eq!(t, "Correct score\n\nNext hand:\n1 han\n30 fu\nnon-dealer\nron");
    st.hand_score = Some(hand(3, 30, 0, false, false));
    let t = reply(&mut st, Some("2000 1000"), hand(1, 30, 0, true, false));
    assert!(t.starts_with("Correct score"));
}

#[test]
fn wrong_answer_shows_correct_score() {
    let mut st = get_default_user_state();
    st.hand_score = Some(hand(1, 30, 0, true, false));
    let t = reply(&mut st, Some("1500"), hand(2, 30, 0, true, true));
    assert_eq!(t, "Incorrect score, correct score is\n1000\n\nNext hand:\n2 han\n30 fu\ndealer\nron");
    st.hand_score = Some(hand(3, 30, 0, false, false));
    let t = reply(&mut st, Some("1000"), hand(2, 30, 0, true, true));
    assert!(t.starts_with("Incorrect score, correct score is\n1000/2000\n\nNext hand:\n"));
}

#[test]
fn unparsable_answer_keeps_hand() {
    let mut st = get_default_user_state();
    st.hand_score = Some(hand(1, 30, 0, true, false));
    let t = reply(&mut st, Some("abc"), hand(2, 30, 0, true, true));
    assert_eq!(t, "Failed to parse score, format is 1000 or 1000/2000");
    assert_eq!(st.hand_score, Some(hand(1, 30, 0, true, false)));
    let t = reply(&mut st, Some("1000/x"), hand(2, 30, 0, true, true));
    assert_eq!(t, "Failed to parse score, format is 1000 or 1000/2000");
}

#[test]
fn no_game_and_no_text() {
    let mut st = get_default_user_state();
    assert_eq!(
        reply(&mut st, Some("1000"), hand(1, 30, 0, true, false)),
        "No game is in progress, send /start to start a new game"
    );
    assert_eq!(reply(&mut st, None, hand(1, 30, 0, true, false)), "No message received");
}

#[test]
fn toggles_flip_rules_and_mark_unsaved() {
    let mut st = get_default_user_state();
    let t = reply(&mut st, Some("/toggle_kiriage_mangan"), hand(1, 30, 0, true, false));
    assert_eq!(t, "4 han 30 fu is now counted as mangan");
    assert!(st.settings.scoring_settings.use_kiriage_mangan);
    assert!(st.settings_unsaved);
    let t = reply(&mut st, Some("/toggle_honba"), hand(1, 30, 0, true, false));
    assert_eq!(t, "Honba is now used");
    let t = reply(&mut st, Some("/toggle_kazoe"), hand(1, 30, 0, true, false));
    assert_eq!(t, "Kazoe yakuman is now not counted");
    assert_eq!(
        st.settings.scoring_settings,
        ScoringSettings { use_kiriage_mangan: true, use_honba: true, use_kazoe_yakuman: false }
    );
    assert!(st.hand_score.is_none());
}

#[test]
fn settings_lists_what_each_toggle_does() {
    let mut st = get_default_user_state();
    let t = reply(&mut st, Some("/settings"), hand(1, 30, 0, true, false));
    assert_eq!(
        t,
        "\n/toggle_kiriage_mangan - turn on counting 4 han 30 fu and 3 han 60 fu as mangan\n/toggle_honba - turn on honba counting\n/toggle_kazoe - turn off counting kazoe yakuman"
    );
    assert!(!st.settings_unsaved);
}

#[test]
fn help_text() {
    let mut st = get_default_user_state();
    let t = reply(&mut st, Some("  /help  "), hand(1, 30, 0, true, false));
    assert!(t.starts_with("This bot helps training score counting in riichi mahjong."));
}

#[test]
fn answer_numbers_follow_integer_parsing() {
    let mut st = get_default_user_state();
    st.hand_score = Some(hand(1, 30, 0, true, false));
    let t = reply(&mut st, Some("+1000"), hand(5, 30, 0, true, true));
    assert!(t.starts_with("Correct score"));
    // The next hand, a dealer mangan on a ron, is worth 12000.
    let t = reply(&mut st, Some("65536"), hand(1, 30, 0, true, false));
    assert_eq!(t, "Failed to parse score, format is 1000 or 1000/2000");
    let t = reply(&mut st, Some("-12000"), hand(1, 30, 0, true, false));
    assert_eq!(t, "Failed to parse score, format is 1000 or 1000/2000");
    let t = reply(&mut st, Some("11000"), hand(1, 30, 0, true, false));
    assert!(t.starts_with("Incorrect score, correct score is\n12000\n\nNext hand:\n"));
}

#[test]
fn score_text_is_cut_at_slashes_and_spaces() {
    assert_eq!(score_parts("1000/2000/3"), ("1000".to_string(), Some("2000".to_string())));
    assert_eq!(score_parts("1000"), ("1000".to_string(), None));
    assert_eq!(score_parts("1000 "), ("1000".to_string(), Some(String::new())));
    assert_eq!(score_parts("/5"), (String::new(), Some("5".to_string())));
    assert_eq!(text_response("x")[0].text, "x");
}

#[test]
fn whitespace_only_message_is_an_answer() {
    let mut st = get_default_user_state();
    st.hand_score = Some(hand(1, 30, 0, true, false));
    let t = reply(&mut st, Some("   "), hand(1, 30, 0, true, false));
    assert_eq!(t, "Failed to parse score, format is 1000 or 1000/2000");
}
