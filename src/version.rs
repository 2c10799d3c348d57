use vstd::prelude::*;
use vstd::string::StrSliceExecFns;

use crate::text::is_digit;

verus! {

/// The numbers of a version such as `0.2.0`: one or more groups of ASCII digits
/// joined by single dots, each group's value fitting in 64 bits. None for any other text.
pub open spec fn version_numbers(s: Seq<char>) -> Option<Seq<int>>
    decreases s.len(),
{
    if s.len() == 0 || !is_digit(s.last()) {
        None
    } else {
        let d = s.last() as int - '0' as int;
        let p = s.drop_last();
        if p.len() == 0 {
            Some(seq![d])
        } else if p.last() == '.' {
            match version_numbers(p.drop_last()) {
                Some(v) => Some(v.push(d)),
                None => None,
            }
        } else {
            match version_numbers(p) {
                Some(v) => if v.last() * 10 + d <= u64::MAX {
                    Some(v.drop_last().push(v.last() * 10 + d))
                } else {
                    None
                },
                None => None,
            }
        }
    }
}

/// `a` comes before `b`: at the first place they differ `a` is smaller, or `a` is a
/// proper prefix of `b`.
pub open spec fn numbers_less(a: Seq<int>, b: Seq<int>) -> bool
    decreases a.len(),
{
    if b.len() == 0 {
        false
    } else if a.len() == 0 {
        true
    } else if a[0] != b[0] {
        a[0] < b[0]
    } else {
        numbers_less(a.drop_first(), b.drop_first())
    }
}

/// Version `a` comes strictly before version `b`; false where either is no version.
pub open spec fn version_less(a: Seq<char>, b: Seq<char>) -> bool {
    match (version_numbers(a), version_numbers(b)) {
        (Some(x), Some(y)) => numbers_less(x, y),
        _ => false,
    }
}

/// A text that no continuation turns into a version.
spec fn dead(t: Seq<char>) -> bool {
    &&& version_numbers(t) is None
    &&& !(t.len() >= 2 && t.last() == '.' && version_numbers(t.drop_last()) is Some)
}

proof fn lemma_dead_prefix(s: Seq<char>, k: int)
    requires
        0 < k <= s.len(),
        dead(s.take(k)),
    ensures
        version_numbers(s) is None,
    decreases s.len(),
{
    if s.len() == k {
        assert(s.take(k) =~= s);
    } else if is_digit(s.last()) {
        let p = s.drop_last();
        assert(p.take(k) =~= s.take(k));
        if p.last() == '.' {
            if p.len() == k {
                assert(p.take(k) =~= p);
                if p.len() >= 2 {
                } else {
                    assert(p.drop_last().len() == 0);
                }
            } else {
                let q = p.drop_last();
                assert(q.take(k) =~= s.take(k));
                lemma_dead_prefix(q, k);
            }
        } else {
            lemma_dead_prefix(p, k);
        }
    }
}

/// Reads the numbers of a version.
pub fn parse_version(s: &str) -> (r: Option<Vec<u64>>)
    ensures
        match r {
            Some(v) => version_numbers(s@) == Some(v@.map_values(|x: u64| x as int)),
            None => version_numbers(s@) is None,
        },
{
    let n = s.unicode_len();
    let mut v: Vec<u64> = Vec::new();
    let mut i: usize = 0;
    // After a dot, the numbers read so far belong to the text before it.
    while i < n
        invariant
            n == s@.len(),
            0 <= i <= n,
            i > 0 && s@[i - 1] == '.' ==> i >= 2 && version_numbers(s@.take(i - 1)) == Some(
                v@.map_values(|x: u64| x as int),
            ),
            i > 0 && s@[i - 1] != '.' ==> version_numbers(s@.take(i as int)) == Some(
                v@.map_values(|x: u64| x as int),
            ),
            i == 0 ==> v@.len() == 0,
        decreases n - i,
    {
        let c = s.get_char(i);
        let ghost t = s@.take(i + 1);
        proof {
            assert(t.drop_last() =~= s@.take(i as int));
            assert(t.last() == c);
        }
        if c == '.' {
            if i == 0 || s.get_char(i - 1) == '.' {
                proof {
                    lemma_dead_prefix(s@, i + 1);
                }
                return None;
            }
        } else if '0' <= c && c <= '9' {
            let d: u64 = (c as u32 - '0' as u32) as u64;
            if i == 0 || s.get_char(i - 1) == '.' {
                proof {
                    if i > 0 {
                        assert(s@.take(i as int).drop_last() =~= s@.take(i - 1));
                    }
                }
                v.push(d);
                proof {
                    assert(v@.map_values(|x: u64| x as int) =~= (if i == 0 {
                        Seq::<u64>::empty().map_values(|x: u64| x as int)
                    } else {
                        version_numbers(s@.take(i - 1)).unwrap()
                    }).push(d as int));
                }
            } else {
                let last = v[v.len() - 1];
                if last > (u64::MAX - d) / 10 {
                    proof {
                        lemma_dead_prefix(s@, i + 1);
                    }
                    return None;
                }
                let ghost before = v@;
                v.set(v.len() - 1, last * 10 + d);
                proof {
                    assert(v@.map_values(|x: u64| x as int) =~= before.map_values(|x: u64| x as int).drop_last().push(
                        last * 10 + d,
                    ));
                }
            }
        } else {
            proof {
                lemma_dead_prefix(s@, i + 1);
            }
            return None;
        }
        i = i + 1;
    }
    if n == 0 || s.get_char(n - 1) == '.' {
        proof {
            assert(s@.take(n as int) =~= s@);
        }
        return None;
    }
    proof {
        assert(s@.take(n as int) =~= s@);
    }
    Some(v)
}

/// `numbers_less` is transitive.
pub proof fn lemma_numbers_less_transitive(a: Seq<int>, b: Seq<int>, c: Seq<int>)
    requires
        numbers_less(a, b),
        numbers_less(b, c),
    ensures
        numbers_less(a, c),
    decreases a.len(),
{
    if a.len() > 0 && b.len() > 0 && c.len() > 0 && a[0] == b[0] && b[0] == c[0] {
        lemma_numbers_less_transitive(a.drop_first(), b.drop_first(), c.drop_first());
    }
}

/// No sequence comes before itself.
pub proof fn lemma_numbers_less_irreflexive(a: Seq<int>)
    ensures
        !numbers_less(a, a),
    decreases a.len(),
{
    if a.len() > 0 {
        lemma_numbers_less_irreflexive(a.drop_first());
    }
}

/// Versions in order are different texts, and the order is transitive.
pub proof fn lemma_version_less(a: Seq<char>, b: Seq<char>, c: Seq<char>)
    ensures
        version_less(a, b) ==> a != b,
        version_less(a, b) && version_less(b, c) ==> version_less(a, c),
{
    if version_numbers(a) is Some {
        lemma_numbers_less_irreflexive(version_numbers(a).unwrap());
    }
    if version_less(a, b) && version_less(b, c) {
        lemma_numbers_less_transitive(
            version_numbers(a).unwrap(),
            version_numbers(b).unwrap(),
            version_numbers(c).unwrap(),
        );
    }
}

/// Compares two version number lists as `numbers_less` does.
pub fn numbers_before(a: &Vec<u64>, b: &Vec<u64>) -> (r: bool)
    ensures
        r == numbers_less(a@.map_values(|x: u64| x as int), b@.map_values(|x: u64| x as int)),
{
    let ghost sa = a@.map_values(|x: u64| x as int);
    let ghost sb = b@.map_values(|x: u64| x as int);
    let mut i: usize = 0;
    proof {
        assert(sa.skip(0) =~= sa);
        assert(sb.skip(0) =~= sb);
    }
    while i < a.len() && i < b.len()
        invariant
            0 <= i <= a@.len(),
            i <= b@.len(),
            sa == a@.map_values(|x: u64| x as int),
            sb == b@.map_values(|x: u64| x as int),
            numbers_less(sa, sb) == numbers_less(sa.skip(i as int), sb.skip(i as int)),
        decreases a@.len() - i,
    {
        if a[i] != b[i] {
            return a[i] < b[i];
        }
        proof {
            assert(sa.skip(i as int).drop_first() =~= sa.skip(i + 1));
            assert(sb.skip(i as int).drop_first() =~= sb.skip(i + 1));
        }
        i = i + 1;
    }
    i < b.len()
}

} // verus!
