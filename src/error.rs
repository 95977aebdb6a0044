use vstd::prelude::*;
use vstd::string::StringExecFns;

verus! {

/// Why a document, a feature or a geometry could not be decoded.
#[derive(Debug, Clone, PartialEq, Eq)]
pub enum DecodeError {
    /// The collection's `type` member is not the string `FeatureCollection`.
    InvalidCollectionType,
    /// The collection names `features` more than once.
    DuplicateFeatures,
    /// The collection's `features` member is not an array.
    InvalidFeatures,
    /// A collection or a feature has a member that its schema does not know.
    ForeignMember,
    /// The collection has no `type` member.
    MissingType,
    /// The collection has no `features` member.
    MissingFeatures,
    /// A collection or a feature is not a JSON object.
    NotAnObject,
    /// A feature's `type` member is not the string `Feature`.
    InvalidFeatureType,
    /// A feature's `geometry` member is not an object.
    InvalidGeometry,
    /// A feature's `properties` member is not an object.
    InvalidProperties,
    /// A feature has no `type` member.
    MissingFeatureType,
    /// A value could not be read as a GeoJSON geometry.
    GeometryDecode,
    /// A geometry could not be converted to the requested representation;
    /// the text is the conversion's own description of the failure.
    GeometryConversion(String),
    /// The record type could not be decoded from a feature's field map;
    /// the text is the record decoder's description of the failure.
    Record(String),
}

/// The prefix of the description of a refused geometry conversion.
pub open spec fn conversion_prefix() -> Seq<char> {
    "unable to convert from geojson Geometry: "@
}

/// The human-readable description of `e`.
pub open spec fn message_of(e: DecodeError) -> Seq<char> {
    match e {
        DecodeError::InvalidCollectionType => "invalid type for feature collection"@,
        DecodeError::DuplicateFeatures => "Encountered more than one list of `features`"@,
        DecodeError::InvalidFeatures => "`features` had unexpected value"@,
        DecodeError::ForeignMember => "foreign members are not handled by FeatureCollection deserializer"@,
        DecodeError::MissingType => "No `type` field was found"@,
        DecodeError::MissingFeatures => "No `features` field was found"@,
        DecodeError::NotAnObject => "invalid type: expected a JSON object"@,
        DecodeError::InvalidFeatureType => "GeoJSON Feature had a `type` other than \"Feature\""@,
        DecodeError::InvalidGeometry => "GeoJSON Feature had a unexpected geometry"@,
        DecodeError::InvalidProperties => "GeoJSON Feature had unexpected properties"@,
        DecodeError::MissingFeatureType => "A GeoJSON Feature must have a `type: \"Feature\"` field, but found none."@,
        DecodeError::GeometryDecode => "unable to decode as geojson geometry"@,
        DecodeError::GeometryConversion(cause) => conversion_prefix() + cause@,
        DecodeError::Record(m) => m@,
    }
}

impl DecodeError {
    /// Describes the error in words.
    pub fn message(&self) -> (r: String)
        ensures
            r@ == message_of(*self),
    {
        match self {
            DecodeError::InvalidCollectionType => "invalid type for feature collection".to_owned(),
            DecodeError::DuplicateFeatures => "Encountered more than one list of `features`".to_owned(),
            DecodeError::InvalidFeatures => "`features` had unexpected value".to_owned(),
            DecodeError::ForeignMember => "foreign members are not handled by FeatureCollection deserializer".to_owned(),
            DecodeError::MissingType => "No `type` field was found".to_owned(),
            DecodeError::MissingFeatures => "No `features` field was found".to_owned(),
            DecodeError::NotAnObject => "invalid type: expected a JSON object".to_owned(),
            DecodeError::InvalidFeatureType => "GeoJSON Feature had a `type` other than \"Feature\"".to_owned(),
            DecodeError::InvalidGeometry => "GeoJSON Feature had a unexpected geometry".to_owned(),
            DecodeError::InvalidProperties => "GeoJSON Feature had unexpected properties".to_owned(),
            DecodeError::MissingFeatureType => "A GeoJSON Feature must have a `type: \"Feature\"` field, but found none.".to_owned(),
            DecodeError::GeometryDecode => "unable to decode as geojson geometry".to_owned(),
            DecodeError::GeometryConversion(cause) => {
                "unable to convert from geojson Geometry: ".to_owned().concat(cause.as_str())
            },
            DecodeError::Record(m) => m.clone(),
        }
    }
}

} // verus!
