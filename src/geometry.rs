use vstd::prelude::*;

use crate::error::DecodeError;
use crate::json::{key_is, JsonValue};

verus! {

/// The seven kinds of GeoJSON geometry.
#[derive(Debug, Clone, Copy, PartialEq, Eq, Structural)]
pub enum GeometryKind {
    Point,
    MultiPoint,
    LineString,
    MultiLineString,
    Polygon,
    MultiPolygon,
    GeometryCollection,
}

/// The geometry kind whose GeoJSON name is `s`.
pub open spec fn kind_named(s: Seq<char>) -> Option<GeometryKind> {
    if s == "Point"@ {
        Some(GeometryKind::Point)
    } else if s == "MultiPoint"@ {
        Some(GeometryKind::MultiPoint)
    } else if s == "LineString"@ {
        Some(GeometryKind::LineString)
    } else if s == "MultiLineString"@ {
        Some(GeometryKind::MultiLineString)
    } else if s == "Polygon"@ {
        Some(GeometryKind::Polygon)
    } else if s == "MultiPolygon"@ {
        Some(GeometryKind::MultiPolygon)
    } else if s == "GeometryCollection"@ {
        Some(GeometryKind::GeometryCollection)
    } else {
        None
    }
}

fn kind_of_name(s: &String) -> (r: Option<GeometryKind>)
    ensures
        r == kind_named(s@),
{
    if key_is(s, "Point") {
        Some(GeometryKind::Point)
    } else if key_is(s, "MultiPoint") {
        Some(GeometryKind::MultiPoint)
    } else if key_is(s, "LineString") {
        Some(GeometryKind::LineString)
    } else if key_is(s, "MultiLineString") {
        Some(GeometryKind::MultiLineString)
    } else if key_is(s, "Polygon") {
        Some(GeometryKind::Polygon)
    } else if key_is(s, "MultiPolygon") {
        Some(GeometryKind::MultiPolygon)
    } else if key_is(s, "GeometryCollection") {
        Some(GeometryKind::GeometryCollection)
    } else {
        None
    }
}

/// A GeoJSON geometry: its kind, and its body, which is the array of its
/// `coordinates`, or for a collection the array of its `geometries`.
pub struct Geometry {
    pub kind: GeometryKind,
    pub body: Vec<JsonValue>,
}

/// The members `entries` of a geometry object seen after a state in which
/// its kind is `kind` and the body read so far is `body`, with the name of
/// the member it came from (`true` for `geometries`). Members other than
/// `type`, `coordinates` and `geometries` are passed over; a later member
/// takes the place of an earlier one of the same name.
pub open spec fn geometry_scan(
    entries: Seq<(String, JsonValue)>,
    kind: Option<GeometryKind>,
    body: Option<(bool, Seq<JsonValue>)>,
) -> Result<(Option<GeometryKind>, Option<(bool, Seq<JsonValue>)>), DecodeError>
    decreases entries.len(),
{
    if entries.len() == 0 {
        Ok((kind, body))
    } else {
        let (key, value) = entries[0];
        let rest = entries.drop_first();
        if key@ == "type"@ {
            match value {
                JsonValue::String(s) => match kind_named(s@) {
                    Some(k) => geometry_scan(rest, Some(k), body),
                    None => Err(DecodeError::GeometryDecode),
                },
                _ => Err(DecodeError::GeometryDecode),
            }
        } else if key@ == "coordinates"@ || key@ == "geometries"@ {
            match value {
                JsonValue::Array(items) => geometry_scan(
                    rest,
                    kind,
                    Some((key@ == "geometries"@, items@)),
                ),
                _ => Err(DecodeError::GeometryDecode),
            }
        } else {
            geometry_scan(rest, kind, body)
        }
    }
}

/// The geometry that the value `v` holds, as its kind and body.
pub open spec fn geometry_of(v: JsonValue) -> Result<(GeometryKind, Seq<JsonValue>), DecodeError> {
    match v {
        JsonValue::Object(entries) => match geometry_scan(entries@, None, None) {
            Ok((Some(k), Some((from_geometries, items)))) => if from_geometries == (k
                == GeometryKind::GeometryCollection) {
                Ok((k, items))
            } else {
                Err(DecodeError::GeometryDecode)
            },
            Ok(_) => Err(DecodeError::GeometryDecode),
            Err(e) => Err(e),
        },
        _ => Err(DecodeError::GeometryDecode),
    }
}

impl Geometry {
    /// Reads a geometry from a JSON value.
    pub fn from_value(v: JsonValue) -> (r: Result<Geometry, DecodeError>)
        ensures
            match r {
                Ok(g) => geometry_of(v) == Ok::<_, DecodeError>((g.kind, g.body@)),
                Err(e) => geometry_of(v) == Err::<(GeometryKind, Seq<JsonValue>), _>(e),
            },
    {
        let entries = match v {
            JsonValue::Object(entries) => entries,
            _ => {
                return Err(DecodeError::GeometryDecode);
            },
        };
        let ghost all = entries@;
        let mut rest = entries;
        let mut kind: Option<GeometryKind> = None;
        let mut body: Option<(bool, Vec<JsonValue>)> = None;
        while rest.len() > 0
            invariant
                all == entries@,
                v == JsonValue::Object(entries),
                geometry_scan(all, None, None) == geometry_scan(rest@, kind, body_view(body)),
            decreases rest.len(),
        {
            let ghost before = rest@;
            let (key, value) = rest.remove(0);
            assert(rest@ == before.drop_first());
            if key_is(&key, "type") {
                match value {
                    JsonValue::String(s) => match kind_of_name(&s) {
                        Some(k) => {
                            kind = Some(k);
                        },
                        None => {
                            return Err(DecodeError::GeometryDecode);
                        },
                    },
                    _ => {
                        return Err(DecodeError::GeometryDecode);
                    },
                }
            } else if key_is(&key, "coordinates") || key_is(&key, "geometries") {
                match value {
                    JsonValue::Array(items) => {
                        body = Some((key_is(&key, "geometries"), items));
                    },
                    _ => {
                        return Err(DecodeError::GeometryDecode);
                    },
                }
            }
        }
        match (kind, body) {
            (Some(k), Some((from_geometries, items))) => {
                let is_collection = match k {
                    GeometryKind::GeometryCollection => true,
                    _ => false,
                };
                if from_geometries == is_collection {
                    Ok(Geometry { kind: k, body: items })
                } else {
                    Err(DecodeError::GeometryDecode)
                }
            },
            _ => Err(DecodeError::GeometryDecode),
        }
    }
}

spec fn body_view(body: Option<(bool, Vec<JsonValue>)>) -> Option<(bool, Seq<JsonValue>)> {
    match body {
        Some((b, v)) => Some((b, v@)),
        None => None,
    }
}

/// A geometry representation of the caller's choice, converted from a
/// GeoJSON geometry; the conversion may refuse a geometry it cannot
/// represent, and describes why in words.
pub trait FromGeometry: Sized {
    fn from_geometry(g: Geometry) -> Result<Self, String>;
}

/// What a geometry field decoder may return for the value `v`: an error if
/// `v` is no geometry, else a converted value or a conversion error.
pub open spec fn geometry_outcome<G>(v: JsonValue, r: Result<G, DecodeError>) -> bool {
    match geometry_of(v) {
        Err(e) => r == Err::<G, DecodeError>(e),
        Ok(_) => r is Ok || r->Err_0 is GeometryConversion,
    }
}

/// The outcome of a geometry conversion's own result: the converted value
/// as it came, or the conversion's description of its refusal, unchanged,
/// as a conversion error.
pub fn geometry_from<G>(converted: Result<G, String>) -> (r: Result<G, DecodeError>)
    ensures
        r == match converted {
            Ok(g) => Ok::<G, DecodeError>(g),
            Err(cause) => Err::<G, DecodeError>(DecodeError::GeometryConversion(cause)),
        },
{
    match converted {
        Ok(g) => Ok(g),
        Err(cause) => Err(DecodeError::GeometryConversion(cause)),
    }
}

/// Decodes a geometry field: reads the value as a GeoJSON geometry, then
/// converts it into `G`. A refusal by the conversion is kept in the error.
pub fn deserialize_geometry<G: FromGeometry>(value: JsonValue) -> (r: Result<G, DecodeError>)
    ensures
        geometry_outcome(value, r),
{
    match Geometry::from_value(value) {
        Ok(g) => geometry_from(G::from_geometry(g)),
        Err(e) => Err(e),
    }
}

} // verus!
