use vstd::prelude::*;
use vstd::string::StringExecFns;

use crate::hand_score::{dealer_total, lemma_totals_fit, others_total, HandScoreData, ScoringSettings};
use crate::text::{
    decimal, decimal_text, first_word, first_word_of, parse_u16, parsed_u16, score_parts,
    score_parts_of,
};
use crate::user_settings::SettingsModel;
use crate::user_state::{StateModel, UserState};

verus! {

/// One message for the bot to send.
pub struct Response {
    pub text: String,
}

/// The reply to a message while no hand is in play.
pub const NO_GAME_IN_PROGRESS_MESSAGE: &'static str =
    "No game is in progress, send /start to start a new game";

/// The reply to a message that holds no text.
pub const NO_MESSAGE_TEXT: &'static str = "No message received";

/// The reply to an answer that is not one or two numbers.
pub const SCORE_FORMAT_MESSAGE: &'static str = "Failed to parse score, format is 1000 or 1000/2000";

/// The reply to `/help`.
pub const HELP_MESSAGE: &'static str =
    "This bot helps training score counting in riichi mahjong.\n\nSend /start to start a new game, then send the score in the format 1000 or 1000/2000 to check if it's correct.\n\nSend /settings to see and change the settings";

/// A single response with the given text.
pub fn text_response(text: &str) -> (r: Vec<Response>)
    ensures
        r@.len() == 1,
        r@[0].text@ == text@,
{
    let mut r = Vec::new();
    r.push(Response { text: text.to_string() });
    r
}

/// A single response with the given text.
pub fn text_response_str(text: String) -> (r: Vec<Response>)
    ensures
        r@.len() == 1,
        r@[0].text@ == text@,
{
    let mut r = Vec::new();
    r.push(Response { text });
    r
}

/// The text that presents a hand: han, fu below five han, who won, how, and honba.
pub open spec fn hand_text(h: HandScoreData) -> Seq<char> {
    decimal(h.han as nat) + " han"@ + (if h.han >= 5 {
        Seq::empty()
    } else {
        "\n"@ + decimal(h.fu as nat) + " fu"@
    }) + "\n"@ + (if h.is_dealer {
        "dealer"@
    } else {
        "non-dealer"@
    }) + "\n"@ + (if h.ron {
        "ron"@
    } else {
        "tsumo"@
    }) + (if h.honba > 0 {
        "\n"@ + decimal(h.honba as nat) + " honba"@
    } else {
        Seq::empty()
    })
}

/// Puts `new_hand` in play and returns the text that presents it.
pub fn generate_new_hand_text(hand_score: &mut Option<HandScoreData>, new_hand: HandScoreData) -> (r: String)
    ensures
        *final(hand_score) == Some(new_hand),
        r@ == hand_text(new_hand),
{
    *hand_score = Some(new_hand);
    let h = new_hand;
    let mut t = decimal_text(h.han as u16);
    t.append(" han");
    if h.han < 5 {
        t.append("\n");
        t.append(decimal_text(h.fu as u16).as_str());
        t.append(" fu");
    }
    t.append("\n");
    t.append(if h.is_dealer { "dealer" } else { "non-dealer" });
    t.append("\n");
    t.append(if h.ron { "ron" } else { "tsumo" });
    if h.honba > 0 {
        t.append("\n");
        t.append(decimal_text(h.honba as u16).as_str());
        t.append(" honba");
    }
    proof {
        assert(t@ =~= hand_text(new_hand));
    }
    t
}

/// "off" for a rule that is on, "on" for one that is off: what a toggle would do.
pub open spec fn toggle_word(on: bool) -> Seq<char> {
    if on {
        "off"@
    } else {
        "on"@
    }
}

/// The list of toggles, each saying what it would do.
pub open spec fn settings_text(s: ScoringSettings) -> Seq<char> {
    "\n/toggle_kiriage_mangan - turn "@ + toggle_word(s.use_kiriage_mangan)
        + " counting 4 han 30 fu and 3 han 60 fu as mangan\n/toggle_honba - turn "@ + toggle_word(
        s.use_honba,
    ) + " honba counting\n/toggle_kazoe - turn "@ + toggle_word(s.use_kazoe_yakuman)
        + " counting kazoe yakuman"@
}

/// "" for a rule that is now on, "not " for one that is now off.
pub open spec fn not_word(on: bool) -> Seq<char> {
    if on {
        Seq::empty()
    } else {
        "not "@
    }
}

/// The state with new scoring rules, marked unsaved.
pub open spec fn with_rules(st: StateModel, r: ScoringSettings) -> StateModel {
    StateModel {
        hand_score: st.hand_score,
        settings: SettingsModel { scoring_settings: r, language_key: st.settings.language_key },
        settings_unsaved: true,
    }
}

/// The state with `h` in play.
pub open spec fn with_hand(st: StateModel, h: HandScoreData) -> StateModel {
    StateModel { hand_score: Some(h), settings: st.settings, settings_unsaved: st.settings_unsaved }
}

/// The reply to a command, and the state after it; none for a word that is no command.
pub open spec fn command_reply(st: StateModel, word: Seq<char>, new_hand: HandScoreData) -> Option<
    (StateModel, Seq<char>),
> {
    let r = st.settings.scoring_settings;
    if word == "/start"@ {
        Some((with_hand(st, new_hand), hand_text(new_hand)))
    } else if word == "/settings"@ {
        Some((st, settings_text(r)))
    } else if word == "/toggle_kiriage_mangan"@ {
        let k = !r.use_kiriage_mangan;
        Some(
            (
                with_rules(
                    st,
                    ScoringSettings {
                        use_kiriage_mangan: k,
                        use_honba: r.use_honba,
                        use_kazoe_yakuman: r.use_kazoe_yakuman,
                    },
                ),
                "4 han 30 fu is now "@ + not_word(k) + "counted as mangan"@,
            ),
        )
    } else if word == "/toggle_honba"@ {
        let h = !r.use_honba;
        Some(
            (
                with_rules(
                    st,
                    ScoringSettings {
                        use_kiriage_mangan: r.use_kiriage_mangan,
                        use_honba: h,
                        use_kazoe_yakuman: r.use_kazoe_yakuman,
                    },
                ),
                "Honba is now "@ + not_word(h) + "used"@,
            ),
        )
    } else if word == "/toggle_kazoe"@ {
        let z = !r.use_kazoe_yakuman;
        Some(
            (
                with_rules(
                    st,
                    ScoringSettings {
                        use_kiriage_mangan: r.use_kiriage_mangan,
                        use_honba: r.use_honba,
                        use_kazoe_yakuman: z,
                    },
                ),
                "Kazoe yakuman is now "@ + not_word(z) + "counted"@,
            ),
        )
    } else if word == "/help"@ {
        Some((st, HELP_MESSAGE@))
    } else {
        None
    }
}

/// The verdict on an answer of `others` and `dealer` for hand `h`, followed by the
/// next hand.
pub open spec fn verdict(h: HandScoreData, s: ScoringSettings, others: int, dealer: int, new_hand: HandScoreData) -> Seq<char> {
    let to = others_total(h, s);
    let td = dealer_total(h, s);
    if others == to && dealer == td || others == td && dealer == to {
        "Correct score\n\nNext hand:\n"@ + hand_text(new_hand)
    } else if td == 0 {
        "Incorrect score, correct score is\n"@ + decimal(to as nat) + "\n\nNext hand:\n"@ + hand_text(
            new_hand,
        )
    } else {
        "Incorrect score, correct score is\n"@ + decimal(to as nat) + "/"@ + decimal(td as nat)
            + "\n\nNext hand:\n"@ + hand_text(new_hand)
    }
}

/// The reply to an answer for hand `h`: the numbers before and after the first
/// separator (the second one 0 where there is no separator), then the verdict and
/// the next hand; the state keeps its hand where the answer is not numbers.
pub open spec fn answer_reply(st: StateModel, h: HandScoreData, text: Seq<char>, new_hand: HandScoreData) -> (
    StateModel,
    Seq<char>,
) {
    let (first, second) = score_parts_of(text);
    let s = st.settings.scoring_settings;
    match parsed_u16(first) {
        None => (st, SCORE_FORMAT_MESSAGE@),
        Some(o) => match second {
            Some(q) => match parsed_u16(q) {
                None => (st, SCORE_FORMAT_MESSAGE@),
                Some(d) => (with_hand(st, new_hand), verdict(h, s, o as int, d as int, new_hand)),
            },
            None => (with_hand(st, new_hand), verdict(h, s, o as int, 0, new_hand)),
        },
    }
}

/// The reply to a message, and the user's state after it.
pub open spec fn message_reply(st: StateModel, text: Option<Seq<char>>, new_hand: HandScoreData) -> (
    StateModel,
    Seq<char>,
) {
    match text {
        None => (st, NO_MESSAGE_TEXT@),
        Some(t) => {
            let command = match first_word_of(t) {
                Some(w) => command_reply(st, w, new_hand),
                None => None,
            };
            match command {
                Some(c) => c,
                None => match st.hand_score {
                    None => (st, NO_GAME_IN_PROGRESS_MESSAGE@),
                    Some(h) => answer_reply(st, h, t, new_hand),
                },
            }
        },
    }
}

/// A hand that the bot could have dealt: at most twelve honba.
pub open spec fn hand_in_range(h: HandScoreData) -> bool {
    h.honba <= 12
}

fn verdict_text(h: &HandScoreData, settings: ScoringSettings, others: u16, dealer: u16, hand_score: &mut Option<HandScoreData>, new_hand: HandScoreData) -> (r: String)
    requires
        hand_in_range(*h),
    ensures
        r@ == verdict(*h, settings, others as int, dealer as int, new_hand),
        *final(hand_score) == Some(new_hand),
{
    proof {
        lemma_totals_fit(*h, settings);
    }
    let totals = h.calculate_totals(settings);
    let next = generate_new_hand_text(hand_score, new_hand);
    if others == totals.others && dealer == totals.dealer || others == totals.dealer && dealer
        == totals.others {
        let mut t = "Correct score\n\nNext hand:\n".to_string();
        t.append(next.as_str());
        t
    } else if totals.dealer == 0 {
        let mut t = "Incorrect score, correct score is\n".to_string();
        t.append(decimal_text(totals.others).as_str());
        t.append("\n\nNext hand:\n");
        t.append(next.as_str());
        proof {
            assert(t@ =~= verdict(*h, settings, others as int, dealer as int, new_hand));
        }
        t
    } else {
        let mut t = "Incorrect score, correct score is\n".to_string();
        t.append(decimal_text(totals.others).as_str());
        t.append("/");
        t.append(decimal_text(totals.dealer).as_str());
        t.append("\n\nNext hand:\n");
        t.append(next.as_str());
        proof {
            assert(t@ =~= verdict(*h, settings, others as int, dealer as int, new_hand));
        }
        t
    }
}

/// Answers a user's message and updates their state: commands change the rules or
/// deal `new_hand`; otherwise the text is taken as the score of the hand in play,
/// and a judged answer deals `new_hand`.
pub fn process_user_message(user_state: &mut UserState, message_text: Option<&str>, new_hand: HandScoreData) -> (r: Vec<Response>)
    requires
        match old(user_state).hand_score {
            Some(h) => hand_in_range(h),
            None => true,
        },
    ensures
        r@.len() == 1,
        (final(user_state)@, r@[0].text@) == message_reply(
            old(user_state)@,
            match message_text {
                Some(t) => Some(t@),
                None => None,
            },
            new_hand,
        ),
{
    let message_text = match message_text {
        Some(t) => t,
        None => return text_response(NO_MESSAGE_TEXT),
    };
    proof {
        reveal_strlit("");
    }
    if let Some(word) = first_word(message_text) {
        if word == "/start".to_string() {
            let t = generate_new_hand_text(&mut user_state.hand_score, new_hand);
            return text_response_str(t);
        } else if word == "/settings".to_string() {
            let r = user_state.settings.scoring_settings;
            let mut t = "\n/toggle_kiriage_mangan - turn ".to_string();
            t.append(if r.use_kiriage_mangan { "off" } else { "on" });
            t.append(" counting 4 han 30 fu and 3 han 60 fu as mangan\n/toggle_honba - turn ");
            t.append(if r.use_honba { "off" } else { "on" });
            t.append(" honba counting\n/toggle_kazoe - turn ");
            t.append(if r.use_kazoe_yakuman { "off" } else { "on" });
            t.append(" counting kazoe yakuman");
            proof {
                assert(t@ =~= settings_text(r));
            }
            return text_response_str(t);
        } else if word == "/toggle_kiriage_mangan".to_string() {
            let k = !user_state.settings.scoring_settings.use_kiriage_mangan;
            user_state.settings.scoring_settings.use_kiriage_mangan = k;
            user_state.settings_unsaved = true;
            let mut t = "4 han 30 fu is now ".to_string();
            t.append(if k { "" } else { "not " });
            t.append("counted as mangan");
            proof {
                assert(t@ =~= "4 han 30 fu is now "@ + not_word(k) + "counted as mangan"@);
            }
            return text_response_str(t);
        } else if word == "/toggle_honba".to_string() {
            let h = !user_state.settings.scoring_settings.use_honba;
            user_state.settings.scoring_settings.use_honba = h;
            user_state.settings_unsaved = true;
            let mut t = "Honba is now ".to_string();
            t.append(if h { "" } else { "not " });
            t.append("used");
            proof {
                assert(t@ =~= "Honba is now "@ + not_word(h) + "used"@);
            }
            return text_response_str(t);
        } else if word == "/toggle_kazoe".to_string() {
            let z = !user_state.settings.scoring_settings.use_kazoe_yakuman;
            user_state.settings.scoring_settings.use_kazoe_yakuman = z;
            user_state.settings_unsaved = true;
            let mut t = "Kazoe yakuman is now ".to_string();
            t.append(if z { "" } else { "not " });
            t.append("counted");
            proof {
                assert(t@ =~= "Kazoe yakuman is now "@ + not_word(z) + "counted"@);
            }
            return text_response_str(t);
        } else if word == "/help".to_string() {
            return text_response(HELP_MESSAGE);
        }
    }
    let hand = match user_state.hand_score {
        Some(h) => h,
        None => return text_response(NO_GAME_IN_PROGRESS_MESSAGE),
    };
    let (first, second) = score_parts(message_text);
    let others = match parse_u16(first.as_str()) {
        Some(o) => o,
        None => return text_response(SCORE_FORMAT_MESSAGE),
    };
    let dealer = match second {
        Some(q) => match parse_u16(q.as_str()) {
            Some(d) => d,
            None => return text_response(SCORE_FORMAT_MESSAGE),
        },
        None => 0,
    };
    let settings = user_state.settings.scoring_settings;
    let t = verdict_text(&hand, settings, others, dealer, &mut user_state.hand_score, new_hand);
    text_response_str(t)
}

} // verus!
