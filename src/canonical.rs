use vstd::prelude::*;

use crate::error::DecodeError;
use crate::feature::{index_of_key, lemma_index_of_key_bounds};
use crate::json::{is_string_lit, key_is, JsonValue};

verus! {

/// A GeoJSON feature as the document gives it: its geometry and its
/// properties, neither flattened, and the members that its schema does not
/// name.
pub struct Feature {
    pub geometry: Option<JsonValue>,
    pub properties: Option<Vec<(String, JsonValue)>>,
    pub foreign_members: Vec<(String, JsonValue)>,
}

/// The mathematical form of a [`Feature`].
pub struct FeatureView {
    pub geometry: Option<JsonValue>,
    pub properties: Option<Seq<(String, JsonValue)>>,
    pub foreign_members: Seq<(String, JsonValue)>,
}

pub open spec fn properties_view(p: Option<Vec<(String, JsonValue)>>) -> Option<
    Seq<(String, JsonValue)>,
> {
    match p {
        Some(v) => Some(v@),
        None => None,
    }
}

impl View for Feature {
    type V = FeatureView;

    open spec fn view(&self) -> FeatureView {
        FeatureView {
            geometry: self.geometry,
            properties: properties_view(self.properties),
            foreign_members: self.foreign_members@,
        }
    }
}

/// The members `entries` of a feature seen after a state in which its type
/// was confirmed (`has_type`) and the feature read so far is `f`.
pub open spec fn canonical_scan(entries: Seq<(String, JsonValue)>, has_type: bool, f: FeatureView) -> Result<
    (bool, FeatureView),
    DecodeError,
>
    decreases entries.len(),
{
    if entries.len() == 0 {
        Ok((has_type, f))
    } else {
        let (key, value) = entries[0];
        let rest = entries.drop_first();
        if key@ == "type"@ {
            if is_string_lit(value, "Feature"@) {
                canonical_scan(rest, true, f)
            } else {
                Err(DecodeError::InvalidFeatureType)
            }
        } else if key@ == "geometry"@ {
            match value {
                JsonValue::Null => canonical_scan(rest, has_type, FeatureView { geometry: None, ..f }),
                JsonValue::Object(_) => canonical_scan(
                    rest,
                    has_type,
                    FeatureView { geometry: Some(value), ..f },
                ),
                _ => Err(DecodeError::InvalidGeometry),
            }
        } else if key@ == "properties"@ {
            match value {
                JsonValue::Null => canonical_scan(rest, has_type, FeatureView { properties: None, ..f }),
                JsonValue::Object(members) => canonical_scan(
                    rest,
                    has_type,
                    FeatureView { properties: Some(members@), ..f },
                ),
                _ => Err(DecodeError::InvalidProperties),
            }
        } else {
            canonical_scan(
                rest,
                has_type,
                FeatureView { foreign_members: f.foreign_members.push((key, value)), ..f },
            )
        }
    }
}

/// The feature that the value `v` holds.
pub open spec fn canonical_feature(v: JsonValue) -> Result<FeatureView, DecodeError> {
    match v {
        JsonValue::Object(entries) => match canonical_scan(
            entries@,
            false,
            FeatureView { geometry: None, properties: None, foreign_members: Seq::empty() },
        ) {
            Err(e) => Err(e),
            Ok((has_type, f)) => if has_type {
                Ok(f)
            } else {
                Err(DecodeError::MissingFeatureType)
            },
        },
        _ => Err(DecodeError::NotAnObject),
    }
}

impl Feature {
    /// Reads a feature from a JSON value.
    pub fn from_value(v: JsonValue) -> (r: Result<Feature, DecodeError>)
        ensures
            match r {
                Ok(f) => canonical_feature(v) == Ok::<_, DecodeError>(f@),
                Err(e) => canonical_feature(v) == Err::<FeatureView, _>(e),
            },
    {
        let entries = match v {
            JsonValue::Object(entries) => entries,
            _ => {
                return Err(DecodeError::NotAnObject);
            },
        };
        let ghost all = entries@;
        let mut rest = entries;
        let mut has_type = false;
        let mut f = Feature { geometry: None, properties: None, foreign_members: Vec::new() };
        assert(f@ == FeatureView { geometry: None, properties: None, foreign_members: Seq::empty() });
        while rest.len() > 0
            invariant
                all == entries@,
                v == JsonValue::Object(entries),
                canonical_scan(
                    all,
                    false,
                    FeatureView { geometry: None, properties: None, foreign_members: Seq::empty() },
                ) == canonical_scan(rest@, has_type, f@),
            decreases rest.len(),
        {
            let ghost before = rest@;
            let (key, value) = rest.remove(0);
            assert(rest@ == before.drop_first());
            if key_is(&key, "type") {
                if value.is_str("Feature") {
                    has_type = true;
                } else {
                    return Err(DecodeError::InvalidFeatureType);
                }
            } else if key_is(&key, "geometry") {
                match value {
                    JsonValue::Null => {
                        f.geometry = None;
                    },
                    JsonValue::Object(_) => {
                        f.geometry = Some(value);
                    },
                    _ => {
                        return Err(DecodeError::InvalidGeometry);
                    },
                }
            } else if key_is(&key, "properties") {
                match value {
                    JsonValue::Null => {
                        f.properties = None;
                    },
                    JsonValue::Object(members) => {
                        f.properties = Some(members);
                    },
                    _ => {
                        return Err(DecodeError::InvalidProperties);
                    },
                }
            } else {
                f.foreign_members.push((key, value));
            }
        }
        if has_type {
            Ok(f)
        } else {
            Err(DecodeError::MissingFeatureType)
        }
    }

    /// The property named `name`, if the feature has properties and one of
    /// them is so named (the first such, in the document's order).
    pub fn property(&self, name: &str) -> (r: Option<&JsonValue>)
        ensures
            match self@.properties {
                None => r is None,
                Some(p) => match r {
                    Some(v) => {
                        let i = index_of_key(p, name@, 0);
                        0 <= i < p.len() && *v == p[i].1
                    },
                    None => index_of_key(p, name@, 0) < 0,
                },
            },
    {
        match &self.properties {
            None => None,
            Some(p) => {
                let mut i: usize = 0;
                while i < p.len()
                    invariant
                        self@.properties == Some(p@),
                        i <= p@.len(),
                        index_of_key(p@, name@, 0) == index_of_key(p@, name@, i as int),
                    decreases p@.len() - i,
                {
                    if key_is(&p[i].0, name) {
                        proof {
                            lemma_index_of_key_bounds(p@, name@, 0);
                        }
                        return Some(&p[i].1);
                    }
                    i = i + 1;
                }
                None
            },
        }
    }
}

} // verus!
