use vstd::prelude::*;

use crate::json::{
    entries_view, field_of, find_entry, is_first_key, key_index, lemma_entries_view, lemma_key_index,
    lemma_no_key, rename_entry, renamed_entries, set_field, with_entry, with_field, Json, JsonValue,
};

use crate::version::{lemma_version_less, numbers_before, parse_version, version_less, version_numbers};

verus! {

/// A change of shape that one version of a document brings.
#[derive(Debug, Clone, PartialEq)]
pub enum JsonTransform {
    /// The version changes the meaning of the data but not its shape.
    Unchanged,
    /// In each record of the object under `records`, the entry `from` of the
    /// object under `section` moves to the key `to`. A document, record or section
    /// without that shape, or without that entry, is left as it is.
    RenameInRecords { records: String, section: String, from: String, to: String },
}

/// The value of a transform.
pub enum TransformModel {
    Unchanged,
    RenameInRecords { records: Seq<char>, section: Seq<char>, from: Seq<char>, to: Seq<char> },
}

impl View for JsonTransform {
    type V = TransformModel;

    open spec fn view(&self) -> TransformModel {
        match self {
            JsonTransform::Unchanged => TransformModel::Unchanged,
            JsonTransform::RenameInRecords { records, section, from, to } =>
                TransformModel::RenameInRecords {
                records: records@,
                section: section@,
                from: from@,
                to: to@,
            },
        }
    }
}

/// One record with the entry `from` of its object `section` moved to `to`.
pub open spec fn renamed_record(r: JsonValue, section: Seq<char>, from: Seq<char>, to: Seq<char>) -> JsonValue {
    match field_of(r, section) {
        Some(JsonValue::Object(s)) => with_field(r, section, JsonValue::Object(renamed_entries(s, from, to))),
        _ => r,
    }
}

/// Each record renamed by `renamed_record`, keys and order kept.
pub open spec fn renamed_records(
    recs: Seq<(Seq<char>, JsonValue)>,
    section: Seq<char>,
    from: Seq<char>,
    to: Seq<char>,
) -> Seq<(Seq<char>, JsonValue)> {
    Seq::new(recs.len(), |i: int| (recs[i].0, renamed_record(recs[i].1, section, from, to)))
}

/// The document after transform `t`.
pub open spec fn transformed(t: TransformModel, doc: JsonValue) -> JsonValue {
    match t {
        TransformModel::Unchanged => doc,
        TransformModel::RenameInRecords { records, section, from, to } => match field_of(doc, records) {
            Some(JsonValue::Object(recs)) => with_field(
                doc,
                records,
                JsonValue::Object(renamed_records(recs, section, from, to)),
            ),
            _ => doc,
        },
    }
}

fn rename_in_record(r: Json, section: &String, from: &String, to: &String) -> (out: Json)
    ensures
        out@ == renamed_record(r@, section@, from@, to@),
{
    match r {
        Json::Object(mut f) => {
            let ghost f0 = f@;
            proof {
                lemma_entries_view(f0);
            }
            match find_entry(&f, section) {
                Some(i) => {
                    let (k, v) = f.remove(i);
                    match v {
                        Json::Object(mut se) => {
                            let ghost s0 = se@;
                            rename_entry(&mut se, from, to);
                            f.insert(i, (k, Json::Object(se)));
                            proof {
                                lemma_entries_view(f@);
                                lemma_entries_view(s0);
                                assert(entries_view(f@) =~= entries_view(f0).update(
                                    i as int,
                                    (section@, JsonValue::Object(renamed_entries(entries_view(s0), from@, to@))),
                                ));
                            }
                            Json::Object(f)
                        },
                        other => {
                            f.insert(i, (k, other));
                            proof {
                                assert(f@ =~= f0);
                            }
                            Json::Object(f)
                        },
                    }
                },
                None => Json::Object(f),
            }
        },
        other => other,
    }
}

fn rename_in_records(recs: &mut Vec<(String, Json)>, section: &String, from: &String, to: &String)
    ensures
        entries_view(final(recs)@) == renamed_records(entries_view(old(recs)@), section@, from@, to@),
{
    let ghost r0 = entries_view(recs@);
    proof {
        lemma_entries_view(recs@);
    }
    let n = recs.len();
    let mut i: usize = 0;
    while i < n
        invariant
            n == recs@.len(),
            0 <= i <= n,
            r0.len() == n,
            entries_view(recs@).len() == n,
            forall|j: int| 0 <= j < n ==> #[trigger] entries_view(recs@)[j] == (recs@[j].0@, recs@[j].1@),
            forall|j: int| 0 <= j < i ==> #[trigger] entries_view(recs@)[j] == renamed_records(r0, section@, from@, to@)[j],
            forall|j: int| i <= j < n ==> #[trigger] entries_view(recs@)[j] == r0[j],
        decreases n - i,
    {
        let ghost before = recs@;
        let (k, v) = recs.remove(i);
        let w = rename_in_record(v, section, from, to);
        let ghost kw = (k, w);
        recs.insert(i, (k, w));
        proof {
            lemma_entries_view(recs@);
            assert(recs@ =~= before.update(i as int, kw));
            assert forall|j: int| 0 <= j < n && j != i implies #[trigger] entries_view(recs@)[j]
                == entries_view(before)[j] by {
                assert(recs@[j] == before[j]);
            }
            assert(entries_view(before)[i as int] == r0[i as int]);
            assert(entries_view(recs@)[i as int] == renamed_records(r0, section@, from@, to@)[i as int]);
        }
        i = i + 1;
    }
    proof {
        assert(entries_view(recs@) =~= renamed_records(r0, section@, from@, to@));
    }
}

/// Applies transform `t` to the document.
pub fn apply_transform(t: &JsonTransform, doc: &mut Json)
    ensures
        final(doc)@ == transformed(t@, old(doc)@),
{
    match t {
        JsonTransform::Unchanged => {},
        JsonTransform::RenameInRecords { records, section, from, to } => {
            let mut d = Json::Null;
            std::mem::swap(doc, &mut d);
            match d {
                Json::Object(mut e) => {
                    let ghost e0 = e@;
                    proof {
                        lemma_entries_view(e0);
                    }
                    match find_entry(&e, records) {
                        Some(i) => {
                            let (k, v) = e.remove(i);
                            match v {
                                Json::Object(mut recs) => {
                                    let ghost rs0 = recs@;
                                    rename_in_records(&mut recs, section, from, to);
                                    e.insert(i, (k, Json::Object(recs)));
                                    proof {
                                        lemma_entries_view(e@);
                                        lemma_entries_view(rs0);
                                        assert(entries_view(e@) =~= entries_view(e0).update(
                                            i as int,
                                            (
                                                records@,
                                                JsonValue::Object(
                                                    renamed_records(entries_view(rs0), section@, from@, to@),
                                                ),
                                            ),
                                        ));
                                    }
                                },
                                other => {
                                    e.insert(i, (k, other));
                                    proof {
                                        assert(e@ =~= e0);
                                    }
                                },
                            }
                        },
                        None => {},
                    }
                    *doc = Json::Object(e);
                },
                other => {
                    *doc = other;
                },
            }
        },
    }
}

/// One registered step: the version it produces and the transform that leads there.
pub struct UpdateStep {
    pub version: String,
    pub transform: JsonTransform,
}

/// The ordered steps that lead a document from its oldest version to the latest,
/// and the name of the field that holds the version tag.
pub struct JsonFileUpdater {
    pub version_field_name: String,
    pub steps: Vec<UpdateStep>,
}

/// The value of an updater: the tag's field name and each step's version and transform.
pub struct UpdaterModel {
    pub field: Seq<char>,
    pub steps: Seq<(Seq<char>, TransformModel)>,
}

impl View for JsonFileUpdater {
    type V = UpdaterModel;

    open spec fn view(&self) -> UpdaterModel {
        UpdaterModel {
            field: self.version_field_name@,
            steps: Seq::new(
                self.steps@.len(),
                |i: int| (self.steps@[i].version@, self.steps@[i].transform@),
            ),
        }
    }
}

/// Why a document could not be updated.
#[derive(Debug, Clone, PartialEq)]
pub enum JsonFileUpdaterError {
    /// The tag names no version that the updater knows.
    UnknownVersion { version: String, latest_version: String },
    /// Steps are due but the document is no object, so it cannot hold a tag.
    NotAnObject,
}

/// What an update did.
#[derive(Debug, Clone, PartialEq)]
pub enum UpdateResult {
    NoUpdateNeeded,
    Updated,
    Error(JsonFileUpdaterError),
}

/// The value of an update's result.
pub enum Outcome {
    NoUpdateNeeded,
    Updated,
    UnknownVersion { version: Seq<char>, latest_version: Seq<char> },
    NotAnObject,
}

impl View for UpdateResult {
    type V = Outcome;

    open spec fn view(&self) -> Outcome {
        match self {
            UpdateResult::NoUpdateNeeded => Outcome::NoUpdateNeeded,
            UpdateResult::Updated => Outcome::Updated,
            UpdateResult::Error(JsonFileUpdaterError::UnknownVersion { version, latest_version }) =>
                Outcome::UnknownVersion { version: version@, latest_version: latest_version@ },
            UpdateResult::Error(JsonFileUpdaterError::NotAnObject) => Outcome::NotAnObject,
        }
    }
}

/// Why a step was refused.
#[derive(Debug, Clone, PartialEq)]
pub enum RegistryError {
    /// The text is no version: groups of digits joined by dots.
    InvalidVersion,
    /// The version does not come after the last registered one.
    NotIncreasing,
}

/// The version tag of a document: a string under the tag's field. Any other value
/// there counts as no tag.
pub open spec fn version_of(doc: JsonValue, field: Seq<char>) -> Option<Seq<char>> {
    match field_of(doc, field) {
        Some(JsonValue::Str(v)) => Some(v),
        _ => None,
    }
}

/// Each step's version comes after those of the steps before it.
pub open spec fn increasing(m: UpdaterModel) -> bool {
    forall|i: int, j: int| 0 <= i < j < m.steps.len() ==> version_less(#[trigger] m.steps[i].0, #[trigger] m.steps[j].0)
}

/// The version of the last step; empty where there is no step.
pub open spec fn latest_version(m: UpdaterModel) -> Seq<char> {
    if m.steps.len() > 0 {
        m.steps.last().0
    } else {
        Seq::empty()
    }
}

/// The document after step `i`: its transform, then the tag set to its version.
pub open spec fn after_step(m: UpdaterModel, i: int, doc: JsonValue) -> JsonValue {
    with_field(transformed(m.steps[i].1, doc), m.field, JsonValue::Str(m.steps[i].0))
}

/// The document after the steps `from .. to`, in order.
pub open spec fn after_steps(m: UpdaterModel, from: int, to: int, doc: JsonValue) -> JsonValue
    decreases to - from,
{
    if to <= from {
        doc
    } else {
        after_step(m, to - 1, after_steps(m, from, to - 1, doc))
    }
}

/// The index of the first step due: 0 for an untagged document, the one after the
/// step that produced the tag otherwise, none for a tag that no step produced.
pub open spec fn first_due(m: UpdaterModel, doc: JsonValue) -> Option<int> {
    match version_of(doc, m.field) {
        None => Some(0),
        Some(v) => if key_index(m.steps, v) >= 0 {
            Some(key_index(m.steps, v) + 1)
        } else {
            None
        },
    }
}

/// What an update returns, and the document it leaves.
pub open spec fn upgrade(m: UpdaterModel, doc: JsonValue) -> (Outcome, JsonValue) {
    if m.steps.len() > 0 && version_of(doc, m.field) == Some(latest_version(m)) {
        (Outcome::NoUpdateNeeded, doc)
    } else {
        match first_due(m, doc) {
            None => (
                Outcome::UnknownVersion {
                    version: version_of(doc, m.field).unwrap(),
                    latest_version: latest_version(m),
                },
                doc,
            ),
            Some(s) => if s >= m.steps.len() {
                (Outcome::NoUpdateNeeded, doc)
            } else if !(doc is Object) {
                (Outcome::NotAnObject, doc)
            } else {
                (Outcome::Updated, after_steps(m, s, m.steps.len() as int, doc))
            },
        }
    }
}

/// The document's version tag, if it holds one.
fn version_tag(doc: &Json, field: &String) -> (r: Option<String>)
    ensures
        match r {
            Some(v) => version_of(doc@, field@) == Some(v@),
            None => version_of(doc@, field@) is None,
        },
{
    match doc {
        Json::Object(e) => {
            proof {
                lemma_entries_view(e@);
            }
            match find_entry(e, field) {
                Some(i) => match &e[i].1 {
                    Json::Str(v) => Some(v.clone()),
                    _ => None,
                },
                None => None,
            }
        },
        _ => None,
    }
}

impl JsonFileUpdater {
    /// An updater with no step, whose documents keep their tag under `version_field_name`.
    pub fn new(version_field_name: &str) -> (r: JsonFileUpdater)
        ensures
            r@.field == version_field_name@,
            r@.steps.len() == 0,
    {
        JsonFileUpdater { version_field_name: version_field_name.to_string(), steps: Vec::new() }
    }

    /// The index of the step that produces `version`.
    fn step_index(&self, version: &String) -> (r: Option<usize>)
        ensures
            match r {
                Some(i) => i as int == key_index(self@.steps, version@),
                None => key_index(self@.steps, version@) == -1,
            },
    {
        let mut i: usize = 0;
        while i < self.steps.len()
            invariant
                0 <= i <= self.steps@.len(),
                forall|j: int| 0 <= j < i ==> self@.steps[j].0 != version@,
            decreases self.steps@.len() - i,
        {
            if self.steps[i].version == *version {
                proof {
                    lemma_key_index(self@.steps, version@, i as int);
                }
                return Some(i);
            }
            i = i + 1;
        }
        proof {
            lemma_no_key(self@.steps, version@);
        }
        None
    }

    /// Each step's version comes after the one before it.
    pub open spec fn wf(&self) -> bool {
        increasing(self@)
    }

    /// Registers the step that produces `version`, after all steps registered so far.
    /// A text that is no version, or a version that does not come after the last
    /// registered one, is refused and the updater is left as it is.
    pub fn add_update_function(&mut self, version: &str, transform: JsonTransform) -> (r: Result<(), RegistryError>)
        ensures
            r is Ok <==> version_numbers(version@) is Some && (old(self)@.steps.len() == 0
                || version_less(latest_version(old(self)@), version@)),
            r == Err::<(), _>(RegistryError::InvalidVersion) <==> version_numbers(version@) is None,
            r is Ok ==> final(self)@ == (UpdaterModel {
                field: old(self)@.field,
                steps: old(self)@.steps.push((version@, transform@)),
            }),
            r is Err ==> final(self)@ == old(self)@,
            old(self).wf() ==> final(self).wf(),
    {
        let numbers = match parse_version(version) {
            Some(numbers) => numbers,
            None => return Err(RegistryError::InvalidVersion),
        };
        let n = self.steps.len();
        if n > 0 {
            match parse_version(self.steps[n - 1].version.as_str()) {
                Some(last) => {
                    if !numbers_before(&last, &numbers) {
                        return Err(RegistryError::NotIncreasing);
                    }
                },
                None => return Err(RegistryError::NotIncreasing),
            }
        }
        let ghost m0 = self@;
        let ghost tv = transform@;
        self.steps.push(UpdateStep { version: version.to_string(), transform });
        proof {
            assert(self@.steps =~= m0.steps.push((version@, tv)));
            if increasing(m0) {
                assert forall|i: int, j: int| 0 <= i < j < self@.steps.len() implies version_less(
                    #[trigger] self@.steps[i].0,
                    #[trigger] self@.steps[j].0,
                ) by {
                    if j == n {
                        if i < n - 1 {
                            lemma_version_less(self@.steps[i].0, m0.steps[n - 1].0, version@);
                        }
                    }
                }
            }
        }
        Ok(())
    }

    /// Brings `doc` to the latest version: applies, in order, every step after the one
    /// that produced its tag (all steps where it has none), setting the tag after each.
    /// On a tag that no step produced, or where steps are due on a value that is no
    /// object, the document is left as it is.
    pub fn update_json(&self, doc: &mut Json) -> (r: UpdateResult)
        ensures
            (r@, final(doc)@) == upgrade(self@, old(doc)@),
    {
        let n = self.steps.len();
        let tag = version_tag(doc, &self.version_field_name);
        let latest = if n > 0 {
            self.steps[n - 1].version.clone()
        } else {
            String::new()
        };
        if n > 0 {
            if let Some(t) = &tag {
                if *t == latest {
                    return UpdateResult::NoUpdateNeeded;
                }
            }
        }
        let start = match tag {
            None => 0,
            Some(t) => match self.step_index(&t) {
                Some(i) => i + 1,
                None => {
                    return UpdateResult::Error(
                        JsonFileUpdaterError::UnknownVersion { version: t, latest_version: latest },
                    );
                },
            },
        };
        if start >= n {
            return UpdateResult::NoUpdateNeeded;
        }
        if !matches!(doc, Json::Object(_)) {
            return UpdateResult::Error(JsonFileUpdaterError::NotAnObject);
        }
        let ghost d0 = doc@;
        let mut k: usize = start;
        while k < n
            invariant
                n == self.steps@.len(),
                start <= k <= n,
                doc@ == after_steps(self@, start as int, k as int, d0),
            decreases n - k,
        {
            let step = &self.steps[k];
            apply_transform(&step.transform, doc);
            set_field(doc, self.version_field_name.clone(), Json::Str(step.version.clone()));
            k = k + 1;
        }
        UpdateResult::Updated
    }
}

/// Setting a field of an object and reading it back gives the value set.
pub proof fn lemma_field_of_with_field(e: Seq<(Seq<char>, JsonValue)>, k: Seq<char>, v: JsonValue)
    ensures
        field_of(with_field(JsonValue::Object(e), k, v), k) == Some(v),
{
    let e2 = with_entry(e, k, v);
    if key_index(e, k) >= 0 {
        let i = key_index(e, k);
        assert(is_first_key(e, k, i));
        assert(is_first_key(e2, k, i));
        lemma_key_index(e2, k, i);
    } else {
        assert forall|j: int| 0 <= j < e.len() implies e[j].0 != k by {
            if e[j].0 == k {
                assert(exists|i: int| is_first_key(e, k, i)) by {
                    lemma_some_first_key(e, k, j);
                }
            }
        }
        assert(is_first_key(e2, k, e.len() as int));
        lemma_key_index(e2, k, e.len() as int);
    }
}

/// Setting an entry and looking its key up again finds the value set.
pub proof fn lemma_field_of_with_field_any<V>(e: Seq<(Seq<char>, V)>, k: Seq<char>, v: V)
    ensures
        key_index(with_entry(e, k, v), k) >= 0,
        with_entry(e, k, v)[key_index(with_entry(e, k, v), k)].1 == v,
{
    let e2 = with_entry(e, k, v);
    if key_index(e, k) >= 0 {
        let i = key_index(e, k);
        assert(is_first_key(e, k, i));
        assert(is_first_key(e2, k, i));
        lemma_key_index(e2, k, i);
    } else {
        assert forall|j: int| 0 <= j < e.len() implies e[j].0 != k by {
            if e[j].0 == k {
                lemma_some_first_key(e, k, j);
            }
        }
        assert(is_first_key(e2, k, e.len() as int));
        lemma_key_index(e2, k, e.len() as int);
    }
}

/// Where some entry holds key `k`, a first one does.
pub proof fn lemma_some_first_key<V>(e: Seq<(Seq<char>, V)>, k: Seq<char>, j: int)
    requires
        0 <= j < e.len(),
        e[j].0 == k,
    ensures
        exists|i: int| is_first_key(e, k, i),
    decreases j,
{
    if forall|i: int| 0 <= i < j ==> e[i].0 != k {
        assert(is_first_key(e, k, j));
    } else {
        let i = choose|i: int| 0 <= i < j && e[i].0 == k;
        lemma_some_first_key(e, k, i);
    }
}

/// After any step, an object stays an object and carries that step's version as its tag.
pub proof fn lemma_after_step_tag(m: UpdaterModel, i: int, doc: JsonValue)
    requires
        0 <= i < m.steps.len(),
        doc is Object,
    ensures
        after_step(m, i, doc) is Object,
        version_of(after_step(m, i, doc), m.field) == Some(m.steps[i].0),
{
    let t = transformed(m.steps[i].1, doc);
    assert(t is Object);
    lemma_field_of_with_field(t->Object_0, m.field, JsonValue::Str(m.steps[i].0));
}

/// A document whose tag is the latest version is not touched by an update.
pub proof fn lemma_current_document_unchanged(m: UpdaterModel, doc: JsonValue)
    requires
        m.steps.len() > 0,
        version_of(doc, m.field) == Some(latest_version(m)),
    ensures
        upgrade(m, doc) == (Outcome::NoUpdateNeeded, doc),
{
}

/// With steps to `v1` then `v2`, an untagged object gets both transforms, the first
/// one first, and ends tagged `v2`.
pub proof fn lemma_untagged_gets_every_step(m: UpdaterModel, doc: JsonValue)
    requires
        m.steps.len() == 2,
        doc is Object,
        version_of(doc, m.field) is None,
    ensures
        upgrade(m, doc) == (Outcome::Updated, after_step(m, 1, after_step(m, 0, doc))),
        version_of(upgrade(m, doc).1, m.field) == Some(m.steps[1].0),
{
    assert(after_steps(m, 0, 0, doc) == doc);
    assert(after_steps(m, 0, 1, doc) == after_step(m, 0, doc));
    lemma_after_step_tag(m, 0, doc);
    lemma_after_step_tag(m, 1, after_step(m, 0, doc));
}

/// A tag that no step produced is reported with the latest version, and the
/// document is left as it is.
pub proof fn lemma_unknown_version_rejected(m: UpdaterModel, doc: JsonValue, v: Seq<char>)
    requires
        version_of(doc, m.field) == Some(v),
        forall|i: int| 0 <= i < m.steps.len() ==> m.steps[i].0 != v,
    ensures
        upgrade(m, doc) == (
            Outcome::UnknownVersion { version: v, latest_version: latest_version(m) },
            doc,
        ),
{
    lemma_no_key(m.steps, v);
}

/// An update that changed a document leaves it tagged with the latest version, so
/// updating it again changes nothing.
pub proof fn lemma_updated_document_is_current(m: UpdaterModel, doc: JsonValue)
    requires
        upgrade(m, doc).0 == Outcome::Updated,
    ensures
        version_of(upgrade(m, doc).1, m.field) == Some(latest_version(m)),
        upgrade(m, upgrade(m, doc).1) == (Outcome::NoUpdateNeeded, upgrade(m, doc).1),
{
    let s = first_due(m, doc).unwrap();
    let n = m.steps.len() as int;
    lemma_after_steps_tag(m, s, n, doc);
}

/// Applying steps `from .. to` to an object, with at least one step, leaves an
/// object tagged with the version of step `to - 1`.
pub proof fn lemma_after_steps_tag(m: UpdaterModel, from: int, to: int, doc: JsonValue)
    requires
        0 <= from < to <= m.steps.len(),
        doc is Object,
    ensures
        after_steps(m, from, to, doc) is Object,
        version_of(after_steps(m, from, to, doc), m.field) == Some(m.steps[to - 1].0),
    decreases to - from,
{
    if to - 1 > from {
        lemma_after_steps_tag(m, from, to - 1, doc);
    } else {
        assert(after_steps(m, from, to - 1, doc) == doc);
    }
    lemma_after_step_tag(m, to - 1, after_steps(m, from, to - 1, doc));
}

} // verus!
