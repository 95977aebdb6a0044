use vstd::prelude::*;

use crate::error::DecodeError;
use crate::json::{is_string_lit, key_is, JsonValue};

verus! {

/// The members that a record decodes from: a feature's geometry under the
/// key `geometry`, and the members of its `properties` object, each key at
/// most once, in the order in which each key was first inserted.
pub struct FieldMap {
    entries: Vec<(String, JsonValue)>,
}

/// The first position at or after `from` whose key is `k`, or -1.
pub open spec fn index_of_key(m: Seq<(String, JsonValue)>, k: Seq<char>, from: int) -> int
    decreases m.len() - from,
{
    if from < 0 || from >= m.len() {
        -1
    } else if m[from].0@ == k {
        from
    } else {
        index_of_key(m, k, from + 1)
    }
}

pub(crate) proof fn lemma_index_of_key_bounds(m: Seq<(String, JsonValue)>, k: Seq<char>, from: int)
    requires
        0 <= from,
    ensures
        index_of_key(m, k, from) == -1 || (from <= index_of_key(m, k, from) < m.len() && m[index_of_key(m, k, from)].0@ == k),
    decreases m.len() - from,
{
    if from < m.len() && m[from].0@ != k {
        lemma_index_of_key_bounds(m, k, from + 1);
    }
}

pub(crate) proof fn lemma_index_of_key_absent(m: Seq<(String, JsonValue)>, k: Seq<char>, from: int)
    requires
        0 <= from,
        index_of_key(m, k, from) == -1,
    ensures
        forall|i: int| from <= i < m.len() ==> #[trigger] m[i].0@ != k,
    decreases m.len() - from,
{
    if from < m.len() {
        lemma_index_of_key_absent(m, k, from + 1);
    }
}

/// No key occurs twice in `m`.
pub open spec fn unique_keys(m: Seq<(String, JsonValue)>) -> bool {
    forall|i: int, j: int| 0 <= i < j < m.len() ==> m[i].0@ != m[j].0@
}

/// Inserting keeps the keys unique.
pub proof fn lemma_field_insert_unique(m: Seq<(String, JsonValue)>, key: String, value: JsonValue)
    requires
        unique_keys(m),
    ensures
        unique_keys(field_insert(m, key, value)),
{
    let i = index_of_key(m, key@, 0);
    lemma_index_of_key_bounds(m, key@, 0);
    if i < 0 {
        lemma_index_of_key_absent(m, key@, 0);
        let r = m.push((key, value));
        assert forall|a: int, b: int| 0 <= a < b < r.len() implies r[a].0@ != r[b].0@ by {
            if b == m.len() {
                assert(m[a].0@ != key@);
            }
        }
    }
}

/// `m` with `value` under `key`: an entry with that key is replaced in
/// place, else the pair goes at the end.
pub open spec fn field_insert(m: Seq<(String, JsonValue)>, key: String, value: JsonValue) -> Seq<
    (String, JsonValue),
> {
    let i = index_of_key(m, key@, 0);
    if i < 0 {
        m.push((key, value))
    } else {
        m.update(i, (key, value))
    }
}

/// `m` after inserting each of `members` in turn.
pub open spec fn insert_all(m: Seq<(String, JsonValue)>, members: Seq<(String, JsonValue)>) -> Seq<
    (String, JsonValue),
>
    decreases members.len(),
{
    if members.len() == 0 {
        m
    } else {
        insert_all(field_insert(m, members[0].0, members[0].1), members.drop_first())
    }
}

/// The members `entries` of a feature seen after a state in which its
/// type was confirmed (`has_type`), its geometry member was `geometry`
/// (the last one seen), and the members of its `properties` objects were
/// `props`, one object after another.
pub open spec fn feature_scan(
    entries: Seq<(String, JsonValue)>,
    has_type: bool,
    geometry: Option<(String, JsonValue)>,
    props: Seq<(String, JsonValue)>,
) -> Result<(bool, Option<(String, JsonValue)>, Seq<(String, JsonValue)>), DecodeError>
    decreases entries.len(),
{
    if entries.len() == 0 {
        Ok((has_type, geometry, props))
    } else {
        let (key, value) = entries[0];
        let rest = entries.drop_first();
        if key@ == "type"@ {
            if is_string_lit(value, "Feature"@) {
                feature_scan(rest, true, geometry, props)
            } else {
                Err(DecodeError::InvalidFeatureType)
            }
        } else if key@ == "geometry"@ {
            if value is Object {
                feature_scan(rest, has_type, Some((key, value)), props)
            } else {
                Err(DecodeError::InvalidGeometry)
            }
        } else if key@ == "properties"@ {
            match value {
                JsonValue::Object(members) => feature_scan(rest, has_type, geometry, props + members@),
                _ => Err(DecodeError::InvalidProperties),
            }
        } else {
            Err(DecodeError::ForeignMember)
        }
    }
}

/// The field map made of a geometry member and property members: the
/// geometry goes in first, then each property in turn, so a property named
/// `geometry` takes the geometry's place whatever the order of the members
/// in the document.
pub open spec fn assemble(geometry: Option<(String, JsonValue)>, props: Seq<(String, JsonValue)>) -> Seq<
    (String, JsonValue),
> {
    match geometry {
        Some(g) => insert_all(seq![g], props),
        None => insert_all(Seq::empty(), props),
    }
}

/// The field map of the feature `v`.
pub open spec fn feature_fields(v: JsonValue) -> Result<Seq<(String, JsonValue)>, DecodeError> {
    match v {
        JsonValue::Object(entries) => match feature_scan(entries@, false, None, Seq::empty()) {
            Err(e) => Err(e),
            Ok((has_type, geometry, props)) => if has_type {
                Ok(assemble(geometry, props))
            } else {
                Err(DecodeError::MissingFeatureType)
            },
        },
        _ => Err(DecodeError::NotAnObject),
    }
}

impl View for FieldMap {
    type V = Seq<(String, JsonValue)>;

    closed spec fn view(&self) -> Seq<(String, JsonValue)> {
        self.entries@
    }
}

impl FieldMap {
    /// Whether the map is well formed: no key occurs twice.
    pub open spec fn wf(&self) -> bool {
        unique_keys(self@)
    }

    pub fn new() -> (r: Self)
        ensures
            r@ == Seq::<(String, JsonValue)>::empty(),
            r.wf(),
    {
        FieldMap { entries: Vec::new() }
    }

    pub fn len(&self) -> (r: usize)
        ensures
            r == self@.len(),
    {
        self.entries.len()
    }

    /// The position of `key`, if the map holds it.
    fn position(&self, key: &String) -> (r: Option<usize>)
        ensures
            match r {
                Some(i) => index_of_key(self@, key@, 0) == i as int && i < self@.len(),
                None => index_of_key(self@, key@, 0) < 0,
            },
    {
        let mut i: usize = 0;
        while i < self.entries.len()
            invariant
                i <= self@.len(),
                index_of_key(self@, key@, 0) == index_of_key(self@, key@, i as int),
            decreases self@.len() - i,
        {
            if *key == self.entries[i].0 {
                return Some(i);
            }
            i = i + 1;
        }
        None
    }

    /// Puts `value` under `key`, in place of what the map held there.
    pub fn insert(&mut self, key: String, value: JsonValue)
        requires
            old(self).wf(),
        ensures
            final(self)@ == field_insert(old(self)@, key, value),
            final(self).wf(),
    {
        proof {
            lemma_field_insert_unique(self@, key, value);
        }
        match self.position(&key) {
            Some(i) => {
                self.entries.set(i, (key, value));
            },
            None => {
                self.entries.push((key, value));
            },
        }
    }

    /// Inserts each of `members` in turn.
    pub fn insert_all(&mut self, members: Vec<(String, JsonValue)>)
        requires
            old(self).wf(),
        ensures
            final(self)@ == insert_all(old(self)@, members@),
            final(self).wf(),
    {
        let ghost all = members@;
        let ghost start = self@;
        let mut rest = members;
        while rest.len() > 0
            invariant
                insert_all(start, all) == insert_all(self@, rest@),
                self.wf(),
            decreases rest.len(),
        {
            let ghost before = rest@;
            let (key, value) = rest.remove(0);
            assert(rest@ == before.drop_first());
            self.insert(key, value);
        }
    }

    /// The value under `key`, if any.
    pub fn get(&self, key: &str) -> (r: Option<&JsonValue>)
        ensures
            match r {
                Some(v) => {
                    let i = index_of_key(self@, key@, 0);
                    0 <= i && *v == self@[i].1
                },
                None => index_of_key(self@, key@, 0) < 0,
            },
    {
        let mut i: usize = 0;
        while i < self.entries.len()
            invariant
                i <= self@.len(),
                index_of_key(self@, key@, 0) == index_of_key(self@, key@, i as int),
            decreases self@.len() - i,
        {
            if key_is(&self.entries[i].0, key) {
                proof {
                    lemma_index_of_key_bounds(self@, key@, 0);
                }
                return Some(&self.entries[i].1);
            }
            i = i + 1;
        }
        None
    }

    /// The pairs of the map, in its order.
    pub fn into_entries(self) -> (r: Vec<(String, JsonValue)>)
        ensures
            r@ == self@,
    {
        self.entries
    }
}

/// Checks the members of one Feature object and builds its field map.
pub struct FeatureVisitor;

impl FeatureVisitor {
    pub fn new() -> (r: Self) {
        FeatureVisitor
    }

    /// Checks the members of a feature object and returns its field map:
    /// its geometry, then the members of its properties. A property named
    /// `geometry` takes the place of the feature's geometry, whichever of
    /// the two comes first in the document.
    pub fn visit_map(self, entries: Vec<(String, JsonValue)>) -> (r: Result<FieldMap, DecodeError>)
        ensures
            fields_result(r) == feature_fields(JsonValue::Object(entries)),
            r is Ok ==> r->Ok_0.wf(),
    {
        let ghost all = entries@;
        let mut rest = entries;
        let mut has_type = false;
        let mut geometry: Option<(String, JsonValue)> = None;
        let mut props: Vec<(String, JsonValue)> = Vec::new();
        while rest.len() > 0
            invariant
                all == entries@,
                feature_scan(all, false, None, Seq::empty()) == feature_scan(
                    rest@,
                    has_type,
                    geometry,
                    props@,
                ),
            decreases rest.len(),
        {
            let ghost before = rest@;
            let (key, value) = rest.remove(0);
            assert(rest@ == before.drop_first());
            if key_is(&key, "type") {
                if value.is_str("Feature") {
                    has_type = true;
                } else {
                    return Err(DecodeError::InvalidFeatureType);
                }
            } else if key_is(&key, "geometry") {
                if let JsonValue::Object(_) = value {
                    geometry = Some((key, value));
                } else {
                    return Err(DecodeError::InvalidGeometry);
                }
            } else if key_is(&key, "properties") {
                match value {
                    JsonValue::Object(members) => {
                        let mut members = members;
                        props.append(&mut members);
                    },
                    _ => {
                        return Err(DecodeError::InvalidProperties);
                    },
                }
            } else {
                return Err(DecodeError::ForeignMember);
            }
        }
        if !has_type {
            return Err(DecodeError::MissingFeatureType);
        }
        let mut fields = FieldMap::new();
        match geometry {
            Some((key, value)) => {
                fields.insert(key, value);
                assert(fields@ == seq![(key, value)]);
            },
            None => {},
        }
        fields.insert_all(props);
        Ok(fields)
    }
}

/// The mathematical form of the outcome of decoding a field map.
pub open spec fn fields_result(r: Result<FieldMap, DecodeError>) -> Result<
    Seq<(String, JsonValue)>,
    DecodeError,
> {
    match r {
        Ok(m) => Ok(m@),
        Err(e) => Err(e),
    }
}

/// Checks one feature value and returns its field map.
pub fn decode_fields(value: JsonValue) -> (r: Result<FieldMap, DecodeError>)
    ensures
        fields_result(r) == feature_fields(value),
        r is Ok ==> r->Ok_0.wf(),
{
    match value {
        JsonValue::Object(entries) => FeatureVisitor::new().visit_map(entries),
        _ => Err(DecodeError::NotAnObject),
    }
}

} // verus!
