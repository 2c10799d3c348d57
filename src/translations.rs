use vstd::prelude::*;

use crate::json::key_index;
use crate::user_settings::UserSettings;

verus! {

/// Texts by language key, then by text key.
pub struct Translations {
    pub languages: Vec<(String, Vec<(String, String)>)>,
}

/// The value of a table of texts.
pub open spec fn translations_view(t: &Translations) -> Seq<(Seq<char>, Seq<(Seq<char>, Seq<char>)>)> {
    Seq::new(
        t.languages@.len(),
        |i: int|
            (
                t.languages@[i].0@,
                Seq::new(
                    t.languages@[i].1@.len(),
                    |j: int| (t.languages@[i].1@[j].0@, t.languages@[i].1@[j].1@),
                ),
            ),
    )
}

/// The text under `key` for language `language`, the first where several match.
pub open spec fn translation_of(
    t: Seq<(Seq<char>, Seq<(Seq<char>, Seq<char>)>)>,
    language: Seq<char>,
    key: Seq<char>,
) -> Option<Seq<char>> {
    let li = key_index(t, language);
    if li >= 0 {
        let texts = t[li].1;
        let ki = key_index(texts, key);
        if ki >= 0 {
            Some(texts[ki].1)
        } else {
            None
        }
    } else {
        None
    }
}

fn find_language(t: &Translations, language: &String) -> (r: Option<usize>)
    ensures
        match r {
            Some(i) => i as int == key_index(translations_view(t), language@),
            None => key_index(translations_view(t), language@) == -1,
        },
{
    let mut i: usize = 0;
    while i < t.languages.len()
        invariant
            0 <= i <= t.languages@.len(),
            forall|j: int| 0 <= j < i ==> translations_view(t)[j].0 != language@,
        decreases t.languages@.len() - i,
    {
        if t.languages[i].0 == *language {
            proof {
                crate::json::lemma_key_index(translations_view(t), language@, i as int);
            }
            return Some(i);
        }
        i = i + 1;
    }
    proof {
        crate::json::lemma_no_key(translations_view(t), language@);
    }
    None
}

fn find_text(texts: &Vec<(String, String)>, key: &String) -> (r: Option<usize>)
    ensures
        match r {
            Some(i) => i as int == key_index(
                Seq::new(texts@.len(), |j: int| (texts@[j].0@, texts@[j].1@)),
                key@,
            ),
            None => key_index(Seq::new(texts@.len(), |j: int| (texts@[j].0@, texts@[j].1@)), key@)
                == -1,
        },
{
    let ghost v = Seq::new(texts@.len(), |j: int| (texts@[j].0@, texts@[j].1@));
    let mut i: usize = 0;
    while i < texts.len()
        invariant
            0 <= i <= texts@.len(),
            v == Seq::new(texts@.len(), |j: int| (texts@[j].0@, texts@[j].1@)),
            forall|j: int| 0 <= j < i ==> v[j].0 != key@,
        decreases texts@.len() - i,
    {
        if texts[i].0 == *key {
            proof {
                crate::json::lemma_key_index(v, key@, i as int);
            }
            return Some(i);
        }
        i = i + 1;
    }
    proof {
        crate::json::lemma_no_key(v, key@);
    }
    None
}

/// The text under `key` in the user's language.
pub fn translate(key: &str, translations: &Translations, user_settings: &UserSettings) -> (r: String)
    requires
        translation_of(translations_view(translations), user_settings.language_key@, key@) is Some,
    ensures
        Some(r@) == translation_of(translations_view(translations), user_settings.language_key@, key@),
{
    let k = key.to_string();
    let li = find_language(translations, &user_settings.language_key).unwrap();
    let texts = &translations.languages[li].1;
    let ki = find_text(texts, &k).unwrap();
    texts[ki].1.clone()
}

/// The texts that the bot knows.
pub fn load_translations() -> (t: Translations)
    ensures
        translations_view(&t) == seq![
            ("ene"@, seq![("tenpai_hand"@, "The hand is ready now"@)]),
            ("enj"@, seq![("tenpai_hand"@, "Tenpai"@)]),
        ],
{
    let mut languages: Vec<(String, Vec<(String, String)>)> = Vec::new();
    let mut ene: Vec<(String, String)> = Vec::new();
    ene.push(("tenpai_hand".to_string(), "The hand is ready now".to_string()));
    languages.push(("ene".to_string(), ene));
    let mut enj: Vec<(String, String)> = Vec::new();
    enj.push(("tenpai_hand".to_string(), "Tenpai".to_string()));
    languages.push(("enj".to_string(), enj));
    let t = Translations { languages };
    proof {
        let v = translations_view(&t);
        assert(v[0].1 =~= seq![("tenpai_hand"@, "The hand is ready now"@)]);
        assert(v[1].1 =~= seq![("tenpai_hand"@, "Tenpai"@)]);
        assert(v =~= seq![
            ("ene"@, seq![("tenpai_hand"@, "The hand is ready now"@)]),
            ("enj"@, seq![("tenpai_hand"@, "Tenpai"@)]),
        ]);
    }
    t
}

} // verus!
