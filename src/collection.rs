use vstd::prelude::*;

use crate::error::DecodeError;
use crate::json::{is_string_lit, key_is, JsonValue};

verus! {

/// Checks the members of a FeatureCollection object, in the order the
/// document gives them, and hands out its features.
pub struct FeatureCollectionVisitor;

/// The members `entries` seen after a state in which the collection's type
/// was confirmed (`has_type`) and its features were found (`features`).
pub open spec fn collection_scan(
    entries: Seq<(String, JsonValue)>,
    has_type: bool,
    features: Option<Seq<JsonValue>>,
) -> Result<(bool, Option<Seq<JsonValue>>), DecodeError>
    decreases entries.len(),
{
    if entries.len() == 0 {
        Ok((has_type, features))
    } else {
        let (key, value) = entries[0];
        let rest = entries.drop_first();
        if key@ == "type"@ {
            if is_string_lit(value, "FeatureCollection"@) {
                collection_scan(rest, true, features)
            } else {
                Err(DecodeError::InvalidCollectionType)
            }
        } else if key@ == "features"@ {
            match value {
                JsonValue::Array(items) => if features is Some {
                    Err(DecodeError::DuplicateFeatures)
                } else {
                    collection_scan(rest, has_type, Some(items@))
                },
                _ => Err(DecodeError::InvalidFeatures),
            }
        } else {
            Err(DecodeError::ForeignMember)
        }
    }
}

/// The features of a collection object whose members are `entries`.
pub open spec fn collection_features(entries: Seq<(String, JsonValue)>) -> Result<
    Seq<JsonValue>,
    DecodeError,
> {
    match collection_scan(entries, false, None) {
        Err(e) => Err(e),
        Ok((has_type, features)) => match features {
            None => Err(DecodeError::MissingFeatures),
            Some(items) => if has_type {
                Ok(items)
            } else {
                Err(DecodeError::MissingType)
            },
        },
    }
}

spec fn features_view(features: Option<Vec<JsonValue>>) -> Option<Seq<JsonValue>> {
    match features {
        Some(v) => Some(v@),
        None => None,
    }
}

impl FeatureCollectionVisitor {
    pub fn new() -> (r: Self) {
        FeatureCollectionVisitor
    }

    /// Checks the members of a collection object and returns its features
    /// in the order of the document.
    pub fn visit_map(self, entries: Vec<(String, JsonValue)>) -> (r: Result<
        Vec<JsonValue>,
        DecodeError,
    >)
        ensures
            match r {
                Ok(items) => collection_features(entries@) == Ok::<_, DecodeError>(items@),
                Err(e) => collection_features(entries@) == Err::<Seq<JsonValue>, _>(e),
            },
    {
        let ghost all = entries@;
        let mut rest = entries;
        let mut has_type = false;
        let mut features: Option<Vec<JsonValue>> = None;
        while rest.len() > 0
            invariant
                all == entries@,
                collection_scan(all, false, None) == collection_scan(
                    rest@,
                    has_type,
                    features_view(features),
                ),
            decreases rest.len(),
        {
            let ghost before = rest@;
            let (key, value) = rest.remove(0);
            assert(rest@ == before.drop_first());
            if key_is(&key, "type") {
                if value.is_str("FeatureCollection") {
                    has_type = true;
                } else {
                    return Err(DecodeError::InvalidCollectionType);
                }
            } else if key_is(&key, "features") {
                match value {
                    JsonValue::Array(items) => {
                        if features.is_some() {
                            return Err(DecodeError::DuplicateFeatures);
                        }
                        features = Some(items);
                    },
                    _ => {
                        return Err(DecodeError::InvalidFeatures);
                    },
                }
            } else {
                return Err(DecodeError::ForeignMember);
            }
        }
        match features {
            Some(items) => if has_type {
                Ok(items)
            } else {
                Err(DecodeError::MissingType)
            },
            None => Err(DecodeError::MissingFeatures),
        }
    }
}

} // verus!
