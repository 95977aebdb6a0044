//! Decoding of GeoJSON feature collections into caller-chosen records.
//!
//! A parsed document is checked against the FeatureCollection schema, and
//! each of its features is checked against the Feature schema and turned
//! into a field map: its geometry under the key `geometry`, beside the
//! members of its `properties` object. A record type decodes itself from
//! that field map.
mod canonical;
mod collection;
mod error;
mod feature;
mod geometry;
mod json;
mod laws;
mod reader;

pub use canonical::{canonical_feature, canonical_scan, properties_view, Feature, FeatureView};
pub use collection::{collection_features, collection_scan, FeatureCollectionVisitor};
pub use error::{conversion_prefix, message_of, DecodeError};
pub use feature::{
    assemble, decode_fields, feature_fields, feature_scan, field_insert, fields_result, index_of_key,
    insert_all, lemma_field_insert_unique, unique_keys, FeatureVisitor, FieldMap,
};
pub use geometry::{
    deserialize_geometry, geometry_from, geometry_of, geometry_outcome, geometry_scan, kind_named, FromGeometry,
    Geometry, GeometryKind,
};
pub use json::{is_string_lit, key_is, JsonValue};
pub use laws::{
    lemma_collection_member_swap, lemma_duplicate_features_refused, lemma_feature_decode_repeatable,
    lemma_feature_geometry_kept, lemma_foreign_member_refused, lemma_plain_collection_decodes,
    lemma_plain_feature_decodes, lemma_property_geometry_wins, lemma_wrong_collection_type_refused,
    lookup, merged_fields, plain_collection, plain_feature,
    sound_collection_member, sound_feature_member,
};
pub use reader::{
    canonical_outcome, decode_record, deserialize_collection_features, document_features,
    record_from, record_outcome, FeatureReader, FeatureStream, FromFields,
};
