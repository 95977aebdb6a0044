use vstd::prelude::*;

use crate::collection::{collection_features, collection_scan};
use crate::error::DecodeError;
use crate::feature::{
    assemble, feature_fields, feature_scan, field_insert, fields_result, index_of_key, insert_all,
    lemma_index_of_key_absent, lemma_index_of_key_bounds, FieldMap,
};
use crate::json::{is_string_lit, JsonValue};
use crate::reader::document_features;

verus! {

/// A member that a collection object may hold without error by itself: a
/// `type` of `FeatureCollection`, or an array of `features`.
pub open spec fn sound_collection_member(e: (String, JsonValue)) -> bool {
    (e.0@ == "type"@ && is_string_lit(e.1, "FeatureCollection"@)) || (e.0@ == "features"@
        && e.1 is Array)
}

/// A member that a feature object may hold without error by itself.
pub open spec fn sound_feature_member(e: (String, JsonValue)) -> bool {
    (e.0@ == "type"@ && is_string_lit(e.1, "Feature"@)) || (e.0@ == "geometry"@ && e.1 is Object)
        || (e.0@ == "properties"@ && e.1 is Object)
}

/// A feature of exactly three sound members, `type`, `geometry` and
/// `properties`, in any order.
pub open spec fn plain_feature(v: JsonValue) -> bool {
    match v {
        JsonValue::Object(es) => es@.len() == 3 && (forall|k: int|
            0 <= k < 3 ==> sound_feature_member(#[trigger] es@[k])) && index_of_key(es@, "type"@, 0)
            >= 0 && index_of_key(es@, "geometry"@, 0) >= 0 && index_of_key(es@, "properties"@, 0)
            >= 0,
        _ => false,
    }
}

/// The field map of a plain feature: its geometry, then its properties
/// inserted one by one.
pub open spec fn merged_fields(v: JsonValue) -> Seq<(String, JsonValue)> {
    match v {
        JsonValue::Object(es) => {
            let g = index_of_key(es@, "geometry"@, 0);
            let p = index_of_key(es@, "properties"@, 0);
            match es@[p].1 {
                JsonValue::Object(members) => insert_all(seq![es@[g]], members@),
                _ => Seq::empty(),
            }
        },
        _ => Seq::empty(),
    }
}

/// A collection of two members: a `type` of `FeatureCollection` and the
/// array of its features, in either order.
pub open spec fn plain_collection(doc: JsonValue, items: Seq<JsonValue>) -> bool {
    match doc {
        JsonValue::Object(es) => es@.len() == 2 && exists|t: int|
            0 <= t < 2 && #[trigger] es@[t].0@ == "type"@ && is_string_lit(
                es@[t].1,
                "FeatureCollection"@,
            ) && es@[1 - t].0@ == "features"@ && match es@[1 - t].1 {
                JsonValue::Array(a) => a@ == items,
                _ => false,
            },
        _ => false,
    }
}

proof fn lemma_key_literals_differ()
    ensures
        "type"@ != "features"@,
        "type"@ != "geometry"@,
        "type"@ != "properties"@,
        "geometry"@ != "properties"@,
{
    reveal_strlit("type");
    reveal_strlit("features");
    reveal_strlit("geometry");
    reveal_strlit("properties");
    assert("type"@.len() != "features"@.len());
    assert("type"@.len() != "geometry"@.len());
    assert("type"@.len() != "properties"@.len());
    assert("geometry"@[0] != "properties"@[0]);
}

/// A plain collection yields its features in the order of the array,
/// whichever of its two members comes first, and
/// each plain feature among them yields its geometry merged with its
/// properties.
pub proof fn lemma_plain_collection_decodes(doc: JsonValue, items: Seq<JsonValue>)
    requires
        plain_collection(doc, items),
    ensures
        document_features(doc) == Ok::<_, DecodeError>(items),
        forall|i: int|
            0 <= i < items.len() && plain_feature(#[trigger] items[i]) ==> feature_fields(items[i])
                == Ok::<_, DecodeError>(merged_fields(items[i])),
{
    lemma_key_literals_differ();
    if let JsonValue::Object(es) = doc {
        let s = es@;
        let t = choose|t: int|
            0 <= t < 2 && #[trigger] s[t].0@ == "type"@ && is_string_lit(
                s[t].1,
                "FeatureCollection"@,
            ) && s[1 - t].0@ == "features"@ && match s[1 - t].1 {
                JsonValue::Array(a) => a@ == items,
                _ => false,
            };
        let r1 = s.drop_first();
        let r2 = r1.drop_first();
        assert(r2.len() == 0);
        if t == 0 {
            assert(collection_scan(s, false, None) == collection_scan(r1, true, None));
            assert(collection_scan(r1, true, None) == collection_scan(r2, true, Some(items)));
        } else {
            assert(collection_scan(s, false, None) == collection_scan(r1, false, Some(items)));
            assert(collection_scan(r1, false, Some(items)) == collection_scan(r2, true, Some(items)));
        }
        assert(collection_features(s) == Ok::<_, DecodeError>(items));
    }
    assert forall|i: int|
        0 <= i < items.len() && plain_feature(#[trigger] items[i]) implies feature_fields(items[i])
            == Ok::<_, DecodeError>(merged_fields(items[i])) by {
        lemma_plain_feature_decodes(items[i]);
    }
}

/// A plain feature yields its geometry merged with its properties,
/// whatever the order of its members.
pub proof fn lemma_plain_feature_decodes(v: JsonValue)
    requires
        plain_feature(v),
    ensures
        feature_fields(v) == Ok::<_, DecodeError>(merged_fields(v)),
{
    lemma_key_literals_differ();
    reveal_with_fuel(feature_scan, 4);
    reveal_with_fuel(index_of_key, 4);
    if let JsonValue::Object(es) = v {
        let s = es@;
        assert(sound_feature_member(s[0]));
        assert(sound_feature_member(s[1]));
        assert(sound_feature_member(s[2]));
        let r1 = s.drop_first();
        let r2 = r1.drop_first();
        let r3 = r2.drop_first();
        assert(r3.len() == 0);
        assert(r2[0] == s[2]);
        assert(r1[0] == s[1]);
        assert(r1[1] == s[2]);
        assert(Seq::<(String, JsonValue)>::empty() + s[index_of_key(s, "properties"@, 0)].1->Object_0@
            == s[index_of_key(s, "properties"@, 0)].1->Object_0@);
    }
}

proof fn lemma_bad_type_scan(
    es: Seq<(String, JsonValue)>,
    has_type: bool,
    features: Option<Seq<JsonValue>>,
    i: int,
)
    requires
        0 <= i < es.len(),
        es[i].0@ == "type"@,
        !is_string_lit(es[i].1, "FeatureCollection"@),
    ensures
        collection_scan(es, has_type, features) is Err,
    decreases es.len(),
{
    if i > 0 {
        let rest = es.drop_first();
        assert(rest[i - 1] == es[i]);
        lemma_bad_type_scan(rest, true, features, i - 1);
        lemma_bad_type_scan(rest, has_type, features, i - 1);
        match es[0].1 {
            JsonValue::Array(items) => {
                lemma_bad_type_scan(rest, has_type, Some(items@), i - 1);
            },
            _ => {},
        }
    }
}

/// A collection whose `type` member names anything other than
/// `FeatureCollection` is refused as a whole: no feature comes out of it.
pub proof fn lemma_wrong_collection_type_refused(doc: JsonValue, i: int)
    requires
        doc is Object,
        0 <= i < doc->Object_0@.len(),
        doc->Object_0@[i].0@ == "type"@,
        !is_string_lit(doc->Object_0@[i].1, "FeatureCollection"@),
    ensures
        document_features(doc) is Err,
{
    lemma_bad_type_scan(doc->Object_0@, false, None, i);
}

proof fn lemma_second_features_scan(
    es: Seq<(String, JsonValue)>,
    has_type: bool,
    features: Option<Seq<JsonValue>>,
    i: int,
    j: int,
)
    requires
        forall|k: int| 0 <= k < es.len() ==> sound_collection_member(#[trigger] es[k]),
        0 <= j < es.len(),
        es[j].0@ == "features"@,
        features is Some || (0 <= i < j && es[i].0@ == "features"@),
    ensures
        collection_scan(es, has_type, features) == Err::<
            (bool, Option<Seq<JsonValue>>),
            DecodeError,
        >(DecodeError::DuplicateFeatures),
    decreases es.len(),
{
    lemma_key_literals_differ();
    assert(sound_collection_member(es[0]));
    if j > 0 {
        let rest = es.drop_first();
        assert forall|k: int| 0 <= k < rest.len() implies sound_collection_member(
            #[trigger] rest[k],
        ) by {
            assert(rest[k] == es[k + 1]);
        }
        assert(rest[j - 1] == es[j]);
        if es[0].0@ == "type"@ {
            lemma_second_features_scan(rest, true, features, i - 1, j - 1);
        } else {
            match es[0].1 {
                JsonValue::Array(items) => {
                    if features is None {
                        lemma_second_features_scan(rest, has_type, Some(items@), i - 1, j - 1);
                    }
                },
                _ => {},
            }
        }
    }
}

/// A collection that names `features` twice, and is otherwise sound, is
/// refused for holding more than one list of features.
pub proof fn lemma_duplicate_features_refused(doc: JsonValue, i: int, j: int)
    requires
        doc is Object,
        forall|k: int|
            0 <= k < doc->Object_0@.len() ==> sound_collection_member(
                #[trigger] doc->Object_0@[k],
            ),
        0 <= i < j < doc->Object_0@.len(),
        doc->Object_0@[i].0@ == "features"@,
        doc->Object_0@[j].0@ == "features"@,
    ensures
        document_features(doc) == Err::<Seq<JsonValue>, DecodeError>(
            DecodeError::DuplicateFeatures,
        ),
{
    lemma_second_features_scan(doc->Object_0@, false, None, i, j);
}

proof fn lemma_foreign_scan(
    es: Seq<(String, JsonValue)>,
    has_type: bool,
    geometry: Option<(String, JsonValue)>,
    props: Seq<(String, JsonValue)>,
    j: int,
)
    requires
        0 <= j < es.len(),
        forall|k: int| 0 <= k < j ==> sound_feature_member(#[trigger] es[k]),
        es[j].0@ != "type"@,
        es[j].0@ != "geometry"@,
        es[j].0@ != "properties"@,
    ensures
        feature_scan(es, has_type, geometry, props) is Err,
        feature_scan(es, has_type, geometry, props)->Err_0 == DecodeError::ForeignMember,
    decreases es.len(),
{
    lemma_key_literals_differ();
    if j > 0 {
        let rest = es.drop_first();
        assert(sound_feature_member(es[0]));
        assert forall|k: int| 0 <= k < j - 1 implies sound_feature_member(#[trigger] rest[k]) by {
            assert(rest[k] == es[k + 1]);
        }
        assert(rest[j - 1] == es[j]);
        lemma_foreign_scan(rest, true, geometry, props, j - 1);
        lemma_foreign_scan(rest, has_type, Some(es[0]), props, j - 1);
        match es[0].1 {
            JsonValue::Object(members) => {
                lemma_foreign_scan(rest, has_type, geometry, props + members@, j - 1);
            },
            _ => {},
        }
    }
}

/// A feature with a member that its schema does not name is refused as a
/// foreign member, when the members before it are sound.
pub proof fn lemma_foreign_member_refused(v: JsonValue, j: int)
    requires
        v is Object,
        0 <= j < v->Object_0@.len(),
        forall|k: int| 0 <= k < j ==> sound_feature_member(#[trigger] v->Object_0@[k]),
        v->Object_0@[j].0@ != "type"@,
        v->Object_0@[j].0@ != "geometry"@,
        v->Object_0@[j].0@ != "properties"@,
    ensures
        feature_fields(v) == Err::<Seq<(String, JsonValue)>, DecodeError>(
            DecodeError::ForeignMember,
        ),
{
    lemma_foreign_scan(v->Object_0@, false, None, Seq::empty(), j);
}

/// Decoding a feature is repeatable: two decodings of equal values give
/// equal field maps, or the same error.
pub proof fn lemma_feature_decode_repeatable(
    v1: JsonValue,
    v2: JsonValue,
    r1: Result<FieldMap, DecodeError>,
    r2: Result<FieldMap, DecodeError>,
)
    requires
        v1 == v2,
        fields_result(r1) == feature_fields(v1),
        fields_result(r2) == feature_fields(v2),
    ensures
        fields_result(r1) == fields_result(r2),
        r1 is Ok <==> r2 is Ok,
{
}

proof fn lemma_collection_scan_split(
    a: Seq<(String, JsonValue)>,
    b: Seq<(String, JsonValue)>,
    has_type: bool,
    features: Option<Seq<JsonValue>>,
)
    ensures
        collection_scan(a + b, has_type, features) == match collection_scan(a, has_type, features) {
            Err(e) => Err(e),
            Ok((t, f)) => collection_scan(b, t, f),
        },
    decreases a.len(),
{
    if a.len() == 0 {
        assert(a + b == b);
    } else {
        assert((a + b).drop_first() == a.drop_first() + b);
        assert((a + b)[0] == a[0]);
        lemma_collection_scan_split(a.drop_first(), b, true, features);
        lemma_collection_scan_split(a.drop_first(), b, has_type, features);
        match a[0].1 {
            JsonValue::Array(items) => {
                lemma_collection_scan_split(a.drop_first(), b, has_type, Some(items@));
            },
            _ => {},
        }
    }
}

/// The check of a collection does not depend on the order of its sound
/// members: swapping two neighbouring sound members, wherever they stand,
/// leaves the outcome as it was. By repeated swaps, a collection whose
/// members are all sound gives the same outcome in every order.
pub proof fn lemma_collection_member_swap(
    a: Seq<(String, JsonValue)>,
    x: (String, JsonValue),
    y: (String, JsonValue),
    b: Seq<(String, JsonValue)>,
)
    requires
        sound_collection_member(x),
        sound_collection_member(y),
    ensures
        collection_features(a + seq![x, y] + b) == collection_features(a + seq![y, x] + b),
{
    lemma_key_literals_differ();
    let xy = seq![x, y] + b;
    let yx = seq![y, x] + b;
    assert(a + seq![x, y] + b == a + xy);
    assert(a + seq![y, x] + b == a + yx);
    lemma_collection_scan_split(a, xy, false, None);
    lemma_collection_scan_split(a, yx, false, None);
    assert(xy[0] == x && xy.drop_first()[0] == y && xy.drop_first().drop_first() == b);
    assert(yx[0] == y && yx.drop_first()[0] == x && yx.drop_first().drop_first() == b);
    match collection_scan(a, false, None) {
        Err(_) => {},
        Ok((t, f)) => {
            reveal_with_fuel(collection_scan, 3);
            assert(collection_scan(xy, t, f) == collection_scan(yx, t, f));
        },
    }
}

/// The value under the key `k` in the field map `m`, if any.
pub open spec fn lookup(m: Seq<(String, JsonValue)>, k: Seq<char>) -> Option<JsonValue> {
    let i = index_of_key(m, k, 0);
    if 0 <= i < m.len() {
        Some(m[i].1)
    } else {
        None
    }
}

proof fn lemma_index_after_push(m: Seq<(String, JsonValue)>, x: (String, JsonValue), k: Seq<char>, from: int)
    requires
        0 <= from <= m.len(),
    ensures
        index_of_key(m.push(x), k, from) == if index_of_key(m, k, from) >= 0 {
            index_of_key(m, k, from)
        } else if x.0@ == k {
            m.len() as int
        } else {
            -1
        },
    decreases m.len() - from,
{
    lemma_index_of_key_bounds(m, k, from);
    if from < m.len() {
        assert(m.push(x)[from] == m[from]);
        lemma_index_after_push(m, x, k, from + 1);
    } else {
        assert(m.push(x)[from] == x);
        assert(index_of_key(m.push(x), k, from + 1) == -1);
    }
}

proof fn lemma_index_after_update(m: Seq<(String, JsonValue)>, i: int, x: (String, JsonValue), k: Seq<char>, from: int)
    requires
        0 <= i < m.len(),
        0 <= from,
        x.0@ == m[i].0@,
    ensures
        index_of_key(m.update(i, x), k, from) == index_of_key(m, k, from),
    decreases m.len() - from,
{
    if from < m.len() {
        lemma_index_after_update(m, i, x, k, from + 1);
    }
}

proof fn lemma_lookup_after_insert(m: Seq<(String, JsonValue)>, key: String, value: JsonValue, k: Seq<char>)
    ensures
        lookup(field_insert(m, key, value), k) == if key@ == k {
            Some(value)
        } else {
            lookup(m, k)
        },
{
    let i = index_of_key(m, key@, 0);
    lemma_index_of_key_bounds(m, key@, 0);
    lemma_index_of_key_bounds(m, k, 0);
    if i < 0 {
        lemma_index_after_push(m, (key, value), k, 0);
        lemma_index_of_key_absent(m, key@, 0);
    } else {
        lemma_index_after_update(m, i, (key, value), k, 0);
        if key@ == k {
            assert(index_of_key(m, k, 0) == i);
        }
    }
}

proof fn lemma_lookup_after_others(m: Seq<(String, JsonValue)>, props: Seq<(String, JsonValue)>, k: Seq<char>)
    requires
        forall|j: int| 0 <= j < props.len() ==> #[trigger] props[j].0@ != k,
    ensures
        lookup(insert_all(m, props), k) == lookup(m, k),
    decreases props.len(),
{
    if props.len() > 0 {
        let rest = props.drop_first();
        assert forall|j: int| 0 <= j < rest.len() implies #[trigger] rest[j].0@ != k by {
            assert(rest[j] == props[j + 1]);
        }
        assert(props[0].0@ != k);
        lemma_lookup_after_insert(m, props[0].0, props[0].1, k);
        lemma_lookup_after_others(field_insert(m, props[0].0, props[0].1), rest, k);
    }
}

proof fn lemma_last_property_wins(m: Seq<(String, JsonValue)>, props: Seq<(String, JsonValue)>, k: int, key: Seq<char>)
    requires
        0 <= k < props.len(),
        props[k].0@ == key,
        forall|j: int| k < j < props.len() ==> #[trigger] props[j].0@ != key,
    ensures
        lookup(insert_all(m, props), key) == Some(props[k].1),
    decreases props.len(),
{
    let rest = props.drop_first();
    let m2 = field_insert(m, props[0].0, props[0].1);
    if k == 0 {
        assert forall|j: int| 0 <= j < rest.len() implies #[trigger] rest[j].0@ != key by {
            assert(rest[j] == props[j + 1]);
        }
        lemma_lookup_after_others(m2, rest, key);
        lemma_lookup_after_insert(m, props[0].0, props[0].1, key);
    } else {
        assert forall|j: int| k - 1 < j < rest.len() implies #[trigger] rest[j].0@ != key by {
            assert(rest[j] == props[j + 1]);
        }
        assert(rest[k - 1] == props[k]);
        lemma_last_property_wins(m2, rest, k - 1, key);
    }
}

/// A property named `geometry` takes the place of the feature's geometry
/// in the field map, whatever the order of the feature's members: the
/// map's `geometry` entry is the last property of that name.
pub proof fn lemma_property_geometry_wins(
    geometry: Option<(String, JsonValue)>,
    props: Seq<(String, JsonValue)>,
    k: int,
)
    requires
        0 <= k < props.len(),
        props[k].0@ == "geometry"@,
        forall|j: int| k < j < props.len() ==> #[trigger] props[j].0@ != "geometry"@,
    ensures
        lookup(assemble(geometry, props), "geometry"@) == Some(props[k].1),
{
    match geometry {
        Some(g) => lemma_last_property_wins(seq![g], props, k, "geometry"@),
        None => lemma_last_property_wins(Seq::empty(), props, k, "geometry"@),
    }
}

/// Without a property named `geometry`, the field map's `geometry` entry is
/// the feature's geometry.
pub proof fn lemma_feature_geometry_kept(g: (String, JsonValue), props: Seq<(String, JsonValue)>)
    requires
        g.0@ == "geometry"@,
        forall|j: int| 0 <= j < props.len() ==> #[trigger] props[j].0@ != "geometry"@,
    ensures
        lookup(assemble(Some(g), props), "geometry"@) == Some(g.1),
{
    lemma_lookup_after_others(seq![g], props, "geometry"@);
    assert(index_of_key(seq![g], "geometry"@, 0) == 0);
}

} // verus!
