use geojson::{
    deserialize_collection_features, deserialize_geometry, DecodeError, Feature, FeatureReader,
    FieldMap, FromFields, FromGeometry, Geometry, GeometryKind, JsonValue,
};

fn s(text: &str) -> JsonValue {
    JsonValue::String(text.to_string())
}

fn num(text: &str) -> JsonValue {
    JsonValue::Number(text.to_string())
}

fn obj(members: Vec<(&str, JsonValue)>) -> JsonValue {
    JsonValue::Object(members.into_iter().map(|(k, v)| (k.to_string(), v)).collect())
}

fn point_geometry(x: &str, y: &str) -> JsonValue {
    obj(vec![
        ("type", s("Point")),
        ("coordinates", JsonValue::Array(vec![num(x), num(y)])),
    ])
}

fn polygon_geometry() -> JsonValue {
    let ring = JsonValue::Array(vec![
        JsonValue::Array(vec![num("0"), num("0")]),
        JsonValue::Array(vec![num("1"), num("0")]),
        JsonValue::Array(vec![num("1"), num("1")]),
        JsonValue::Array(vec![num("0"), num("0")]),
    ]);
    obj(vec![
        ("type", s("Polygon")),
        ("coordinates", JsonValue::Array(vec![ring])),
    ])
}

fn feature(x: &str, y: &str, name: &str, age: &str) -> JsonValue {
    obj(vec![
        ("type", s("Feature")),
        ("geometry", point_geometry(x, y)),
        ("properties", obj(vec![("name", s(name)), ("age", num(age))])),
    ])
}

fn collection(features: Vec<JsonValue>) -> JsonValue {
    obj(vec![
        ("type", s("FeatureCollection")),
        ("features", JsonValue::Array(features)),
    ])
}

fn two_feature_collection() -> JsonValue {
    collection(vec![
        feature("125.6", "10.1", "Dinagat Islands", "123"),
        feature("2.3", "4.5", "Neverland", "456"),
    ])
}

/// A geometry representation that only models points.
#[derive(Debug, PartialEq)]
struct OnlyPoint {
    x: f64,
    y: f64,
}

fn coordinate(v: &JsonValue) -> Result<f64, String> {
    match v {
        JsonValue::Number(text) => text.parse::<f64>().map_err(|e| e.to_string()),
        _ => Err("coordinate is not a number".to_string()),
    }
}

impl FromGeometry for OnlyPoint {
    fn from_geometry(g: Geometry) -> Result<Self, String> {
        match g.kind {
            GeometryKind::Point if g.body.len() == 2 => Ok(OnlyPoint {
                x: coordinate(&g.body[0])?,
                y: coordinate(&g.body[1])?,
            }),
            kind => Err(format!("only points can be represented, not {:?}", kind)),
        }
    }
}

#[derive(Debug, PartialEq)]
struct MyRecord {
    geometry: OnlyPoint,
    name: String,
    age: u64,
}

impl FromFields for MyRecord {
    fn from_fields(fields: FieldMap) -> Result<Self, String> {
        let mut geometry = None;
        let mut name = None;
        let mut age = None;
        for (key, value) in fields.into_entries() {
            match key.as_str() {
                "geometry" => {
                    geometry = Some(deserialize_geometry::<OnlyPoint>(value).map_err(|e| e.message())?)
                }
                "name" => match value {
                    JsonValue::String(text) => name = Some(text),
                    _ => return Err("invalid type for `name`".to_string()),
                },
                "age" => match value {
                    JsonValue::Number(text) => {
                        age = Some(text.parse::<u64>().map_err(|e| e.to_string())?)
                    }
                    _ => return Err("invalid type for `age`".to_string()),
                },
                _ => {}
            }
        }
        Ok(MyRecord {
            geometry: geometry.ok_or("missing field `geometry`")?,
            name: name.ok_or("missing field `name`")?,
            age: age.ok_or("missing field `age`")?,
        })
    }
}

#[test]
fn feature_collection_from_reader() {
    let records: Vec<MyRecord> = deserialize_collection_features(two_feature_collection())
        .expect("a valid feature collection")
        .records::<MyRecord>()
        .into_iter()
        .map(|result| result.expect("a valid feature"))
        .collect();

    assert_eq!(records.len(), 2);

    assert_eq!(records[0].geometry, OnlyPoint { x: 125.6, y: 10.1 });
    assert_eq!(records[0].name, "Dinagat Islands");
    assert_eq!(records[0].age, 123);

    assert_eq!(records[1].geometry, OnlyPoint { x: 2.3, y: 4.5 });
    assert_eq!(records[1].name, "Neverland");
    assert_eq!(records[1].age, 456);
}

#[test]
fn deserialize_into_type() {
    let feature_reader = FeatureReader::from_reader(two_feature_collection());

    let records: Vec<MyRecord> = feature_reader
        .deserialize()
        .expect("a valid feature collection")
        .records::<MyRecord>()
        .into_iter()
        .map(|result| result.expect("a valid feature"))
        .collect();

    assert_eq!(records.len(), 2);

    assert_eq!(records[0].geometry, OnlyPoint { x: 125.6, y: 10.1 });
    assert_eq!(records[0].name, "Dinagat Islands");
    assert_eq!(records[0].age, 123);

    assert_eq!(records[1].geometry, OnlyPoint { x: 2.3, y: 4.5 });
    assert_eq!(records[1].name, "Neverland");
    assert_eq!(records[1].age, 456);
}

#[test]
fn two_features_yield_merged_field_maps_in_order() {
    let stream = deserialize_collection_features(two_feature_collection()).unwrap();
    assert_eq!(stream.len(), 2);
    let maps = stream.field_maps();
    assert_eq!(maps.len(), 2);
    let first = maps[0].as_ref().unwrap();
    assert_eq!(first.len(), 3);
    assert_eq!(first.get("geometry"), Some(&point_geometry("125.6", "10.1")));
    assert_eq!(first.get("name"), Some(&s("Dinagat Islands")));
    assert_eq!(first.get("age"), Some(&num("123")));
    let second = maps[1].as_ref().unwrap();
    assert_eq!(second.get("name"), Some(&s("Neverland")));
    assert_eq!(second.get("age"), Some(&num("456")));
    assert_eq!(second.get("type"), None);
}

#[test]
fn stream_is_taken_one_feature_at_a_time() {
    let mut stream = deserialize_collection_features(two_feature_collection()).unwrap();
    let first = stream.next_record::<MyRecord>().unwrap().unwrap();
    assert_eq!(first.name, "Dinagat Islands");
    assert_eq!(stream.len(), 1);
    let second = stream.next_fields().unwrap().unwrap();
    assert_eq!(second.get("name"), Some(&s("Neverland")));
    assert!(stream.next_fields().is_none());
    assert!(stream.next_record::<MyRecord>().is_none());
}

#[test]
fn point_collection_type_is_refused() {
    let doc = obj(vec![
        ("type", s("Point")),
        ("features", JsonValue::Array(vec![feature("1", "2", "a", "1")])),
    ]);
    assert_eq!(
        deserialize_collection_features(doc).err(),
        Some(DecodeError::InvalidCollectionType)
    );
}

#[test]
fn duplicate_features_are_refused() {
    let doc = obj(vec![
        ("type", s("FeatureCollection")),
        ("features", JsonValue::Array(vec![feature("1", "2", "a", "1")])),
        ("features", JsonValue::Array(vec![])),
    ]);
    let err = FeatureReader::from_reader(doc).deserialize().err().unwrap();
    assert_eq!(err, DecodeError::DuplicateFeatures);
    assert_eq!(err.message(), "Encountered more than one list of `features`");
}

#[test]
fn collection_envelope_errors() {
    let missing_type = obj(vec![("features", JsonValue::Array(vec![]))]);
    assert_eq!(deserialize_collection_features(missing_type).err(), Some(DecodeError::MissingType));
    let missing_features = obj(vec![("type", s("FeatureCollection"))]);
    assert_eq!(
        deserialize_collection_features(missing_features).err(),
        Some(DecodeError::MissingFeatures)
    );
    let bad_features = obj(vec![("type", s("FeatureCollection")), ("features", s("none"))]);
    assert_eq!(
        deserialize_collection_features(bad_features).err(),
        Some(DecodeError::InvalidFeatures)
    );
    let foreign = obj(vec![
        ("type", s("FeatureCollection")),
        ("features", JsonValue::Array(vec![])),
        ("bbox", JsonValue::Array(vec![])),
    ]);
    assert_eq!(deserialize_collection_features(foreign).err(), Some(DecodeError::ForeignMember));
    let type_not_string = obj(vec![("type", num("1")), ("features", JsonValue::Array(vec![]))]);
    assert_eq!(
        deserialize_collection_features(type_not_string).err(),
        Some(DecodeError::InvalidCollectionType)
    );
    assert_eq!(
        deserialize_collection_features(JsonValue::Array(vec![])).err(),
        Some(DecodeError::NotAnObject)
    );
}

#[test]
fn member_order_does_not_matter_and_empty_collection_is_sound() {
    let doc = obj(vec![
        ("features", JsonValue::Array(vec![])),
        ("type", s("FeatureCollection")),
    ]);
    let stream = deserialize_collection_features(doc).unwrap();
    assert_eq!(stream.len(), 0);
    assert!(stream.field_maps().is_empty());
}

#[test]
fn missing_property_fails_only_its_feature() {
    let without_age = obj(vec![
        ("type", s("Feature")),
        ("geometry", point_geometry("0", "0")),
        ("properties", obj(vec![("name", s("Nowhere"))])),
    ]);
    let doc = collection(vec![
        feature("1", "2", "First", "1"),
        without_age,
        feature("3", "4", "Last", "3"),
    ]);
    let records = deserialize_collection_features(doc).unwrap().records::<MyRecord>();
    assert_eq!(records.len(), 3);
    assert_eq!(records[0].as_ref().unwrap().name, "First");
    assert_eq!(
        records[1].as_ref().err(),
        Some(&DecodeError::Record("missing field `age`".to_string()))
    );
    assert_eq!(records[2].as_ref().unwrap().name, "Last");
}

#[test]
fn foreign_feature_member_fails_only_its_feature() {
    let with_bbox = obj(vec![
        ("type", s("Feature")),
        ("geometry", point_geometry("0", "0")),
        ("properties", obj(vec![("name", s("Boxed")), ("age", num("9"))])),
        ("bbox", JsonValue::Array(vec![num("0"), num("0"), num("1"), num("1")])),
    ]);
    let doc = collection(vec![with_bbox, feature("3", "4", "Plain", "3")]);
    let records = deserialize_collection_features(doc).unwrap().records::<MyRecord>();
    assert_eq!(records.len(), 2);
    assert_eq!(records[0].as_ref().err(), Some(&DecodeError::ForeignMember));
    assert_eq!(records[1].as_ref().unwrap().age, 3);
}

#[test]
fn feature_schema_errors() {
    let cases = vec![
        (obj(vec![("type", s("Point"))]), DecodeError::InvalidFeatureType),
        (
            obj(vec![("type", s("Feature")), ("geometry", num("1"))]),
            DecodeError::InvalidGeometry,
        ),
        (
            obj(vec![("type", s("Feature")), ("properties", JsonValue::Null)]),
            DecodeError::InvalidProperties,
        ),
        (
            obj(vec![("geometry", point_geometry("1", "2"))]),
            DecodeError::MissingFeatureType,
        ),
        (s("Feature"), DecodeError::NotAnObject),
    ];
    let mut expected = Vec::new();
    let mut values = Vec::new();
    for (value, err) in cases {
        values.push(value);
        expected.push(err);
    }
    let maps = deserialize_collection_features(collection(values)).unwrap().field_maps();
    for (map, err) in maps.iter().zip(expected.iter()) {
        assert_eq!(map.as_ref().err(), Some(err));
    }
}

#[test]
fn properties_geometry_key_replaces_feature_geometry() {
    let doc = collection(vec![obj(vec![
        ("type", s("Feature")),
        ("geometry", point_geometry("1", "2")),
        ("properties", obj(vec![("geometry", s("shadow")), ("name", s("x"))])),
    ])]);
    let maps = deserialize_collection_features(doc).unwrap().field_maps();
    let map = maps[0].as_ref().unwrap();
    assert_eq!(map.len(), 2);
    assert_eq!(map.get("geometry"), Some(&s("shadow")));
}

#[test]
fn point_converts_and_polygon_is_refused() {
    let point = deserialize_geometry::<OnlyPoint>(point_geometry("125.6", "10.1"));
    assert_eq!(point, Ok(OnlyPoint { x: 125.6, y: 10.1 }));
    let polygon = deserialize_geometry::<OnlyPoint>(polygon_geometry());
    let err = polygon.err().unwrap();
    assert_eq!(
        err,
        DecodeError::GeometryConversion("only points can be represented, not Polygon".to_string())
    );
    assert_eq!(
        err.message(),
        "unable to convert from geojson Geometry: only points can be represented, not Polygon"
    );
}

#[test]
fn value_that_is_no_geometry_is_refused() {
    let unknown_kind = obj(vec![("type", s("Circle")), ("coordinates", JsonValue::Array(vec![]))]);
    assert_eq!(
        deserialize_geometry::<OnlyPoint>(unknown_kind).err(),
        Some(DecodeError::GeometryDecode)
    );
    let no_coordinates = obj(vec![("type", s("Point"))]);
    assert_eq!(
        deserialize_geometry::<OnlyPoint>(no_coordinates).err(),
        Some(DecodeError::GeometryDecode)
    );
    assert_eq!(
        DecodeError::GeometryDecode.message(),
        "unable to decode as geojson geometry"
    );
}

#[test]
fn geometry_reads_kind_and_body() {
    let g = Geometry::from_value(polygon_geometry()).unwrap();
    assert_eq!(g.kind, GeometryKind::Polygon);
    assert_eq!(g.body.len(), 1);
    let collection_geometry = obj(vec![
        ("type", s("GeometryCollection")),
        ("geometries", JsonValue::Array(vec![point_geometry("1", "2")])),
    ]);
    let g = Geometry::from_value(collection_geometry).unwrap();
    assert_eq!(g.kind, GeometryKind::GeometryCollection);
    assert_eq!(g.body, vec![point_geometry("1", "2")]);
    let mixed = obj(vec![
        ("type", s("Point")),
        ("geometries", JsonValue::Array(vec![])),
    ]);
    assert_eq!(Geometry::from_value(mixed).err(), Some(DecodeError::GeometryDecode));
}

#[test]
fn decoding_the_same_feature_twice_gives_equal_results() {
    let a = deserialize_collection_features(collection(vec![feature("1", "2", "Same", "7")]))
        .unwrap()
        .field_maps();
    let b = deserialize_collection_features(collection(vec![feature("1", "2", "Same", "7")]))
        .unwrap()
        .field_maps();
    let ma = a[0].as_ref().unwrap();
    let mb = b[0].as_ref().unwrap();
    assert_eq!(ma.len(), mb.len());
    for key in ["geometry", "name", "age"] {
        assert_eq!(ma.get(key), mb.get(key));
    }
    let r1 = geojson::decode_record::<MyRecord>(feature("1", "2", "Same", "7")).unwrap();
    let r2 = geojson::decode_record::<MyRecord>(feature("1", "2", "Same", "7")).unwrap();
    assert_eq!(r1, r2);
}

#[test]
fn canonical_features_keep_properties_unflattened() {
    let features = FeatureReader::from_reader(two_feature_collection())
        .features()
        .expect("a valid feature collection");
    assert_eq!(features.len(), 2);
    let first: &Feature = features[0].as_ref().unwrap();
    assert_eq!(first.property("name"), Some(&s("Dinagat Islands")));
    assert_eq!(first.property("age"), Some(&num("123")));
    assert_eq!(first.property("missing"), None);
    assert_eq!(first.geometry, Some(point_geometry("125.6", "10.1")));
    let second = features[1].as_ref().unwrap();
    assert_eq!(second.property("name"), Some(&s("Neverland")));
}

#[test]
fn canonical_feature_allows_null_and_keeps_foreign_members() {
    let v = obj(vec![
        ("type", s("Feature")),
        ("geometry", JsonValue::Null),
        ("properties", JsonValue::Null),
        ("id", num("7")),
    ]);
    let f = Feature::from_value(v).unwrap();
    assert_eq!(f.geometry, None);
    assert_eq!(f.properties, None);
    assert_eq!(f.property("id"), None);
    assert_eq!(f.foreign_members, vec![("id".to_string(), num("7"))]);
    assert_eq!(
        Feature::from_value(obj(vec![("type", s("Other"))])).err(),
        Some(DecodeError::InvalidFeatureType)
    );
}

#[test]
fn field_map_insert_replaces_in_place() {
    let mut m = FieldMap::new();
    m.insert("a".to_string(), num("1"));
    m.insert("b".to_string(), num("2"));
    m.insert("a".to_string(), num("3"));
    assert_eq!(m.len(), 2);
    assert_eq!(m.get("a"), Some(&num("3")));
    m.insert_all(vec![("c".to_string(), JsonValue::Bool(true))]);
    let entries = m.into_entries();
    assert_eq!(entries[0].0, "a");
    assert_eq!(entries[1].0, "b");
    assert_eq!(entries[2], ("c".to_string(), JsonValue::Bool(true)));
}

#[test]
fn every_error_has_its_message() {
    assert_eq!(
        DecodeError::InvalidFeatureType.message(),
        "GeoJSON Feature had a `type` other than \"Feature\""
    );
    assert_eq!(
        DecodeError::MissingFeatureType.message(),
        "A GeoJSON Feature must have a `type: \"Feature\"` field, but found none."
    );
    assert_eq!(DecodeError::Record("bad".to_string()).message(), "bad");
    assert_eq!(DecodeError::MissingType.message(), "No `type` field was found");
}

#[test]
fn properties_geometry_key_wins_when_properties_come_first() {
    let doc = collection(vec![obj(vec![
        ("type", s("Feature")),
        ("properties", obj(vec![("geometry", JsonValue::Null), ("name", s("x"))])),
        ("geometry", point_geometry("1", "2")),
    ])]);
    let maps = deserialize_collection_features(doc).unwrap().field_maps();
    let map = maps[0].as_ref().unwrap();
    assert_eq!(map.len(), 2);
    assert_eq!(map.get("geometry"), Some(&JsonValue::Null));
    assert_eq!(map.get("name"), Some(&s("x")));
}

#[test]
fn feature_members_in_any_order_give_the_same_map() {
    let reordered = obj(vec![
        ("properties", obj(vec![("name", s("Dinagat Islands")), ("age", num("123"))])),
        ("geometry", point_geometry("125.6", "10.1")),
        ("type", s("Feature")),
    ]);
    let doc = collection(vec![reordered, feature("125.6", "10.1", "Dinagat Islands", "123")]);
    let maps = deserialize_collection_features(doc).unwrap().field_maps();
    let a = maps[0].as_ref().unwrap();
    let b = maps[1].as_ref().unwrap();
    assert_eq!(a.len(), 3);
    for key in ["geometry", "name", "age"] {
        assert_eq!(a.get(key), b.get(key));
    }
}

#[test]
fn caller_results_are_kept_unchanged() {
    assert_eq!(geojson::record_from::<u8>(Ok(5)), Ok(5));
    assert_eq!(
        geojson::record_from::<u8>(Err("missing field `age`".to_string())),
        Err(DecodeError::Record("missing field `age`".to_string()))
    );
    assert_eq!(geojson::geometry_from::<u8>(Ok(7)), Ok(7));
    assert_eq!(
        geojson::geometry_from::<u8>(Err("not a point".to_string())),
        Err(DecodeError::GeometryConversion("not a point".to_string()))
    );
}
