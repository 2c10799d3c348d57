use vstd::prelude::*;
use vstd::string::StrSliceExecFns;

verus! {

/// The character of decimal digit `d`.
pub open spec fn digit_char(d: int) -> char {
    "0123456789"@[d]
}

/// The decimal text of `n`, with no sign and no leading zero.
pub open spec fn decimal(n: nat) -> Seq<char>
    decreases n,
{
    if n < 10 {
        seq![digit_char(n as int)]
    } else {
        decimal(n / 10).push(digit_char((n % 10) as int))
    }
}

/// Relies on the `Display` of `u16`, which writes a number in decimal.
#[verifier::external_body]
pub(crate) fn decimal_text(n: u16) -> (r: String)
    ensures
        r@ == decimal(n as nat),
{
    n.to_string()
}

/// `c` is an ASCII digit.
pub open spec fn is_digit(c: char) -> bool {
    '0' <= c <= '9'
}

/// The number that a string of digits writes.
pub open spec fn digits_value(s: Seq<char>) -> int
    decreases s.len(),
{
    if s.len() == 0 {
        0
    } else {
        digits_value(s.drop_last()) * 10 + (s.last() as int - '0' as int)
    }
}

/// What `u16` reads from a text: an optional `+`, then one or more ASCII digits whose
/// value fits in sixteen bits.
pub open spec fn parsed_u16(s: Seq<char>) -> Option<u16> {
    let d = if s.len() > 0 && s[0] == '+' {
        s.drop_first()
    } else {
        s
    };
    if d.len() > 0 && (forall|i: int| 0 <= i < d.len() ==> is_digit(#[trigger] d[i])) && digits_value(d)
        <= u16::MAX {
        Some(digits_value(d) as u16)
    } else {
        None
    }
}

/// Relies on `str::parse::<u16>`, which reads an optional `+` and decimal digits and
/// fails on anything else or on a value above `u16::MAX`.
#[verifier::external_body]
pub(crate) fn parse_u16(s: &str) -> (r: Option<u16>)
    ensures
        r == parsed_u16(s@),
{
    s.parse::<u16>().ok()
}

/// The first word of a text, as `split_whitespace` cuts it.
pub uninterp spec fn first_word_of(s: Seq<char>) -> Option<Seq<char>>;

/// Relies on `str::split_whitespace`: the first of the words of `s`, a function of the
/// text alone.
#[verifier::external_body]
pub(crate) fn first_word(s: &str) -> (r: Option<String>)
    ensures
        match r {
            Some(w) => first_word_of(s@) == Some(w@),
            None => first_word_of(s@) is None,
        },
{
    s.split_whitespace().next().map(str::to_string)
}

/// `c` separates the two numbers of a score.
pub open spec fn is_score_separator(c: char) -> bool {
    c == '/' || c == ' '
}

/// The index of the first separator at or after `from`, or -1.
pub open spec fn separator_from(s: Seq<char>, from: int) -> int
    decreases s.len() - from,
{
    if from < 0 || from >= s.len() {
        -1
    } else if is_score_separator(s[from]) {
        from
    } else {
        separator_from(s, from + 1)
    }
}

/// The first two pieces of a text cut at every `/` and space: the text before the
/// first separator, and the text between it and the next, where there is a first.
pub open spec fn score_parts_of(s: Seq<char>) -> (Seq<char>, Option<Seq<char>>) {
    let i = separator_from(s, 0);
    if i < 0 {
        (s, None)
    } else {
        let j = separator_from(s, i + 1);
        let end = if j < 0 {
            s.len() as int
        } else {
            j
        };
        (s.subrange(0, i), Some(s.subrange(i + 1, end)))
    }
}

fn find_separator(s: &str, from: usize) -> (r: Option<usize>)
    requires
        from <= s@.len(),
    ensures
        match r {
            Some(i) => i as int == separator_from(s@, from as int) && i < s@.len(),
            None => separator_from(s@, from as int) == -1,
        },
{
    let n = s.unicode_len();
    let mut i = from;
    while i < n
        invariant
            n == s@.len(),
            from <= i <= n,
            separator_from(s@, from as int) == separator_from(s@, i as int),
        decreases n - i,
    {
        let c = s.get_char(i);
        if c == '/' || c == ' ' {
            return Some(i);
        }
        i = i + 1;
    }
    None
}

/// Cuts a score text into its first two pieces, as `score_parts_of` says.
pub fn score_parts(s: &str) -> (r: (String, Option<String>))
    ensures
        r.0@ == score_parts_of(s@).0,
        match r.1 {
            Some(p) => score_parts_of(s@).1 == Some(p@),
            None => score_parts_of(s@).1 is None,
        },
{
    let n = s.unicode_len();
    match find_separator(s, 0) {
        None => (s.to_string(), None),
        Some(i) => {
            let end = match find_separator(s, i + 1) {
                Some(j) => j,
                None => n,
            };
            proof {
                if separator_from(s@, i + 1) >= 0 {
                    lemma_separator_from_at_least(s@, i + 1);
                }
            }
            (s.substring_char(0, i).to_string(), Some(s.substring_char(i + 1, end).to_string()))
        },
    }
}

proof fn lemma_separator_from_at_least(s: Seq<char>, from: int)
    requires
        separator_from(s, from) >= 0,
    ensures
        from <= separator_from(s, from) < s.len(),
    decreases s.len() - from,
{
    if from >= 0 && from < s.len() && !is_score_separator(s[from]) {
        lemma_separator_from_at_least(s, from + 1);
    }
}


} // verus!
