use vstd::prelude::*;

verus! {

/// A JSON document held as a tree of plain values.
#[derive(Debug, PartialEq)]
pub enum Json {
    Null,
    Bool(bool),
    /// A number kept as the text of its literal.
    Number(String),
    Str(String),
    Array(Vec<Json>),
    /// The entries of an object, in document order.
    Object(Vec<(String, Json)>),
}

/// The mathematical value of a JSON document.
pub enum JsonValue {
    Null,
    Bool(bool),
    Number(Seq<char>),
    Str(Seq<char>),
    Array(Seq<JsonValue>),
    Object(Seq<(Seq<char>, JsonValue)>),
}

impl View for Json {
    type V = JsonValue;

    open spec fn view(&self) -> JsonValue
        decreases self, 1nat,
    {
        match self {
            Json::Null => JsonValue::Null,
            Json::Bool(b) => JsonValue::Bool(*b),
            Json::Number(n) => JsonValue::Number(n@),
            Json::Str(s) => JsonValue::Str(s@),
            Json::Array(v) => JsonValue::Array(items_view(v@)),
            Json::Object(v) => JsonValue::Object(entries_view(v@)),
        }
    }
}

/// The values of a sequence of documents.
pub open spec fn items_view(s: Seq<Json>) -> Seq<JsonValue>
    decreases s, 0nat,
{
    if s.len() == 0 {
        Seq::empty()
    } else {
        items_view(s.drop_last()).push(s.last()@)
    }
}

/// The values of a sequence of object entries.
pub open spec fn entries_view(s: Seq<(String, Json)>) -> Seq<(Seq<char>, JsonValue)>
    decreases s, 0nat,
{
    if s.len() == 0 {
        Seq::empty()
    } else {
        entries_view(s.drop_last()).push((s.last().0@, s.last().1@))
    }
}

/// The key and value of each entry, as values.
pub proof fn lemma_entries_view(s: Seq<(String, Json)>)
    ensures
        entries_view(s).len() == s.len(),
        forall|i: int|
            0 <= i < s.len() ==> #[trigger] entries_view(s)[i] == (s[i].0@, s[i].1@),
    decreases s.len(),
{
    if s.len() > 0 {
        let t = s.drop_last();
        lemma_entries_view(t);
        assert(entries_view(s) == entries_view(t).push((s.last().0@, s.last().1@)));
        assert forall|i: int| 0 <= i < s.len() implies #[trigger] entries_view(s)[i] == (
            s[i].0@,
            s[i].1@,
        ) by {
            if i < t.len() {
                assert(t[i] == s[i]);
            }
        }
    }
}

/// Index `i` holds the first entry under key `k`.
pub open spec fn is_first_key<V>(e: Seq<(Seq<char>, V)>, k: Seq<char>, i: int) -> bool {
    &&& 0 <= i < e.len()
    &&& e[i].0 == k
    &&& forall|j: int| 0 <= j < i ==> e[j].0 != k
}

/// The index of the first entry under key `k`, or -1 where there is none.
pub open spec fn key_index<V>(e: Seq<(Seq<char>, V)>, k: Seq<char>) -> int {
    if exists|i: int| is_first_key(e, k, i) {
        choose|i: int| is_first_key(e, k, i)
    } else {
        -1
    }
}

/// Only one index holds the first entry under a key.
pub proof fn lemma_key_index<V>(e: Seq<(Seq<char>, V)>, k: Seq<char>, i: int)
    requires
        is_first_key(e, k, i),
    ensures
        key_index(e, k) == i,
{
    let c = key_index(e, k);
    assert(is_first_key(e, k, c));
    if c < i {
        assert(e[c].0 != k);
    } else if i < c {
        assert(e[i].0 != k);
    }
}

/// No entry holds key `k`.
pub proof fn lemma_no_key<V>(e: Seq<(Seq<char>, V)>, k: Seq<char>)
    requires
        forall|j: int| 0 <= j < e.len() ==> e[j].0 != k,
    ensures
        key_index(e, k) == -1,
{
}

/// The value under key `k` of an object, the first where several share it.
pub open spec fn field_of(j: JsonValue, k: Seq<char>) -> Option<JsonValue> {
    match j {
        JsonValue::Object(e) => if key_index(e, k) >= 0 {
            Some(e[key_index(e, k)].1)
        } else {
            None
        },
        _ => None,
    }
}

/// The entries with the first one under `k` set to `v`, or with `(k, v)` appended.
pub open spec fn with_entry<V>(e: Seq<(Seq<char>, V)>, k: Seq<char>, v: V) -> Seq<(Seq<char>, V)> {
    if key_index(e, k) >= 0 {
        e.update(key_index(e, k), (k, v))
    } else {
        e.push((k, v))
    }
}

/// The document with field `k` set to `v`; a value that is no object stays as it is.
pub open spec fn with_field(j: JsonValue, k: Seq<char>, v: JsonValue) -> JsonValue {
    match j {
        JsonValue::Object(e) => JsonValue::Object(with_entry(e, k, v)),
        _ => j,
    }
}

/// The entries with the first one under `from` moved to key `to`.
pub open spec fn renamed_entries(e: Seq<(Seq<char>, JsonValue)>, from: Seq<char>, to: Seq<char>) -> Seq<
    (Seq<char>, JsonValue),
> {
    if key_index(e, from) >= 0 {
        with_entry(e.remove(key_index(e, from)), to, e[key_index(e, from)].1)
    } else {
        e
    }
}

/// Finds the first entry under key `k`.
pub fn find_entry(e: &Vec<(String, Json)>, k: &String) -> (r: Option<usize>)
    ensures
        match r {
            Some(i) => i as int == key_index(entries_view(e@), k@),
            None => key_index(entries_view(e@), k@) == -1,
        },
{
    proof {
        lemma_entries_view(e@);
    }
    let mut i: usize = 0;
    while i < e.len()
        invariant
            0 <= i <= e@.len(),
            entries_view(e@).len() == e@.len(),
            forall|j: int| 0 <= j < e@.len() ==> #[trigger] entries_view(e@)[j] == (e@[j].0@, e@[j].1@),
            forall|j: int| 0 <= j < i ==> entries_view(e@)[j].0 != k@,
        decreases e@.len() - i,
    {
        if e[i].0 == *k {
            proof {
                lemma_key_index(entries_view(e@), k@, i as int);
            }
            return Some(i);
        }
        i = i + 1;
    }
    proof {
        lemma_no_key(entries_view(e@), k@);
    }
    None
}

/// Sets the first entry under `k` to `v`, or appends `(k, v)`.
pub fn put_entry(e: &mut Vec<(String, Json)>, k: String, v: Json)
    ensures
        entries_view(final(e)@) == with_entry(entries_view(old(e)@), k@, v@),
{
    proof {
        lemma_entries_view(e@);
    }
    let found = find_entry(e, &k);
    match found {
        Some(i) => {
            let ghost kv = k@;
            let ghost vv = v@;
            e.remove(i);
            e.insert(i, (k, v));
            proof {
                lemma_entries_view(e@);
                assert(entries_view(e@) =~= with_entry(entries_view(old(e)@), kv, vv));
            }
        },
        None => {
            let ghost kv = k@;
            let ghost vv = v@;
            e.push((k, v));
            proof {
                lemma_entries_view(e@);
                assert(entries_view(e@) =~= with_entry(entries_view(old(e)@), kv, vv));
            }
        },
    }
}

/// Sets field `k` of an object to `v`; a value that is no object is left as it is.
pub fn set_field(doc: &mut Json, k: String, v: Json)
    ensures
        final(doc)@ == with_field(old(doc)@, k@, v@),
{
    let mut d = Json::Null;
    std::mem::swap(doc, &mut d);
    match d {
        Json::Object(mut e) => {
            put_entry(&mut e, k, v);
            *doc = Json::Object(e);
        },
        other => {
            *doc = other;
        },
    }
}

/// Moves the first entry under `from` to key `to`, where there is one.
pub fn rename_entry(e: &mut Vec<(String, Json)>, from: &String, to: &String)
    ensures
        entries_view(final(e)@) == renamed_entries(entries_view(old(e)@), from@, to@),
{
    proof {
        lemma_entries_view(e@);
    }
    let found = find_entry(e, from);
    if let Some(i) = found {
        let (_, v) = e.remove(i);
        proof {
            lemma_entries_view(e@);
            assert(entries_view(e@) =~= entries_view(old(e)@).remove(i as int));
        }
        put_entry(e, to.clone(), v);
    }
}

} // verus!
