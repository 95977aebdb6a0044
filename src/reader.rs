use vstd::prelude::*;

use crate::canonical::{canonical_feature, Feature, FeatureView};
use crate::collection::{collection_features, FeatureCollectionVisitor};
use crate::error::DecodeError;
use crate::feature::{decode_fields, feature_fields, fields_result, FieldMap};
use crate::json::JsonValue;

verus! {

/// A record type that decodes itself from a feature's field map.
pub trait FromFields: Sized {
    /// Decodes a record, or describes in words why the fields do not make one.
    fn from_fields(fields: FieldMap) -> Result<Self, String>;
}

/// The features of the document `doc`, which must be a collection object.
pub open spec fn document_features(doc: JsonValue) -> Result<Seq<JsonValue>, DecodeError> {
    match doc {
        JsonValue::Object(entries) => collection_features(entries@),
        _ => Err(DecodeError::NotAnObject),
    }
}

/// What a record decoder may return for the feature `value`: the feature's
/// own schema error, or when the feature is sound, a record or a record
/// error.
pub open spec fn record_outcome<D>(value: JsonValue, r: Result<D, DecodeError>) -> bool {
    match feature_fields(value) {
        Err(e) => r == Err::<D, DecodeError>(e),
        Ok(_) => r is Ok || r->Err_0 is Record,
    }
}

/// The outcome of a record decoder's own result: a record as it came, or
/// its description of the failure, unchanged, as a record error.
pub fn record_from<D>(decoded: Result<D, String>) -> (r: Result<D, DecodeError>)
    ensures
        r == match decoded {
            Ok(d) => Ok::<D, DecodeError>(d),
            Err(m) => Err::<D, DecodeError>(DecodeError::Record(m)),
        },
{
    match decoded {
        Ok(record) => Ok(record),
        Err(message) => Err(DecodeError::Record(message)),
    }
}

/// Decodes one feature value into a record of type `D`.
pub fn decode_record<D: FromFields>(value: JsonValue) -> (r: Result<D, DecodeError>)
    ensures
        record_outcome(value, r),
{
    match decode_fields(value) {
        Ok(fields) => record_from(D::from_fields(fields)),
        Err(e) => Err(e),
    }
}

/// The features of a collection that are still to be decoded, first one
/// first. Each is decoded when it is taken.
pub struct FeatureStream {
    remaining: Vec<JsonValue>,
}

impl View for FeatureStream {
    type V = Seq<JsonValue>;

    closed spec fn view(&self) -> Seq<JsonValue> {
        self.remaining@
    }
}

impl FeatureStream {
    /// The number of features still to be decoded.
    pub fn len(&self) -> (r: usize)
        ensures
            r == self@.len(),
    {
        self.remaining.len()
    }

    /// Takes the next feature and returns its field map.
    pub fn next_fields(&mut self) -> (r: Option<Result<FieldMap, DecodeError>>)
        ensures
            old(self)@.len() == 0 ==> r is None && final(self)@ == old(self)@,
            old(self)@.len() > 0 ==> final(self)@ == old(self)@.drop_first() && r is Some
                && fields_result(r->Some_0) == feature_fields(old(self)@[0]) && (r->Some_0 is Ok
                ==> r->Some_0->Ok_0.wf()),
    {
        if self.remaining.len() == 0 {
            return None;
        }
        let ghost before = self.remaining@;
        let value = self.remaining.remove(0);
        assert(self.remaining@ == before.drop_first());
        Some(decode_fields(value))
    }

    /// Takes the next feature and decodes it into a record of type `D`.
    pub fn next_record<D: FromFields>(&mut self) -> (r: Option<Result<D, DecodeError>>)
        ensures
            old(self)@.len() == 0 ==> r is None && final(self)@ == old(self)@,
            old(self)@.len() > 0 ==> final(self)@ == old(self)@.drop_first() && r is Some
                && record_outcome(old(self)@[0], r->Some_0),
    {
        if self.remaining.len() == 0 {
            return None;
        }
        let ghost before = self.remaining@;
        let value = self.remaining.remove(0);
        assert(self.remaining@ == before.drop_first());
        Some(decode_record(value))
    }

    /// Takes every remaining feature and returns its field map, one outcome
    /// per feature, in order.
    pub fn field_maps(self) -> (r: Vec<Result<FieldMap, DecodeError>>)
        ensures
            r@.len() == self@.len(),
            forall|i: int|
                0 <= i < r@.len() ==> fields_result(#[trigger] r@[i]) == feature_fields(self@[i]),
    {
        let ghost all = self@;
        let mut stream = self;
        let mut out: Vec<Result<FieldMap, DecodeError>> = Vec::new();
        while stream.len() > 0
            invariant
                out@.len() + stream@.len() == all.len(),
                stream@ == all.subrange(out@.len() as int, all.len() as int),
                forall|i: int|
                    0 <= i < out@.len() ==> fields_result(#[trigger] out@[i]) == feature_fields(all[i]),
            decreases stream@.len(),
        {
            let next = stream.next_fields();
            match next {
                Some(m) => {
                    out.push(m);
                },
                None => {},
            }
            assert(stream@ == all.subrange(out@.len() as int, all.len() as int));
        }
        out
    }

    /// Decodes every remaining feature into a record of type `D`, one
    /// outcome per feature, in order; a failed feature leaves the others
    /// as they are.
    pub fn records<D: FromFields>(self) -> (r: Vec<Result<D, DecodeError>>)
        ensures
            r@.len() == self@.len(),
            forall|i: int| 0 <= i < r@.len() ==> #[trigger] record_outcome(self@[i], r@[i]),
    {
        let ghost all = self@;
        let mut stream = self;
        let mut out: Vec<Result<D, DecodeError>> = Vec::new();
        while stream.len() > 0
            invariant
                out@.len() + stream@.len() == all.len(),
                stream@ == all.subrange(out@.len() as int, all.len() as int),
                forall|i: int| 0 <= i < out@.len() ==> #[trigger] record_outcome(all[i], out@[i]),
            decreases stream@.len(),
        {
            let next = stream.next_record();
            match next {
                Some(record) => {
                    out.push(record);
                },
                None => {},
            }
            assert(stream@ == all.subrange(out@.len() as int, all.len() as int));
        }
        out
    }
}

/// Checks a collection document and returns the stream of its features.
/// A document that fails the check yields no feature at all.
pub fn deserialize_collection_features(document: JsonValue) -> (r: Result<FeatureStream, DecodeError>)
    ensures
        match r {
            Ok(s) => document_features(document) == Ok::<_, DecodeError>(s@),
            Err(e) => document_features(document) == Err::<Seq<JsonValue>, _>(e),
        },
{
    match document {
        JsonValue::Object(entries) => match FeatureCollectionVisitor::new().visit_map(entries) {
            Ok(items) => Ok(FeatureStream { remaining: items }),
            Err(e) => Err(e),
        },
        _ => Err(DecodeError::NotAnObject),
    }
}

/// Whether `r` is the outcome of reading the feature `v` in its canonical form.
pub open spec fn canonical_outcome(v: JsonValue, r: Result<Feature, DecodeError>) -> bool {
    match r {
        Ok(f) => canonical_feature(v) == Ok::<_, DecodeError>(f@),
        Err(e) => canonical_feature(v) == Err::<FeatureView, _>(e),
    }
}

/// The features of one GeoJSON FeatureCollection document, read either in
/// their canonical form or as records of the caller's type. The document
/// comes already parsed.
pub struct FeatureReader {
    document: JsonValue,
}

impl FeatureReader {
    /// The document this reader reads.
    pub closed spec fn source(&self) -> JsonValue {
        self.document
    }

    pub fn from_reader(document: JsonValue) -> (r: Self)
        ensures
            r.source() == document,
    {
        FeatureReader { document }
    }

    /// Reads each feature of the collection in its canonical form, with its
    /// geometry and properties as the document gives them.
    pub fn features(self) -> (r: Result<Vec<Result<Feature, DecodeError>>, DecodeError>)
        ensures
            match r {
                Err(e) => document_features(self.source()) == Err::<Seq<JsonValue>, _>(e),
                Ok(fs) => match document_features(self.source()) {
                    Ok(items) => fs@.len() == items.len() && forall|i: int|
                        0 <= i < fs@.len() ==> #[trigger] canonical_outcome(items[i], fs@[i]),
                    Err(_) => false,
                },
            },
    {
        let mut stream = match deserialize_collection_features(self.document) {
            Ok(s) => s,
            Err(e) => {
                return Err(e);
            },
        };
        let ghost all = stream.remaining@;
        let mut out: Vec<Result<Feature, DecodeError>> = Vec::new();
        while stream.remaining.len() > 0
            invariant
                document_features(self.source()) == Ok::<_, DecodeError>(all),
                out@.len() + stream.remaining@.len() == all.len(),
                stream.remaining@ == all.subrange(out@.len() as int, all.len() as int),
                forall|i: int| 0 <= i < out@.len() ==> #[trigger] canonical_outcome(all[i], out@[i]),
            decreases stream.remaining@.len(),
        {
            let ghost before = stream.remaining@;
            let value = stream.remaining.remove(0);
            assert(stream.remaining@ == before.drop_first());
            out.push(Feature::from_value(value));
            assert(stream.remaining@ == all.subrange(out@.len() as int, all.len() as int));
        }
        Ok(out)
    }

    /// Checks the collection and returns the stream of its features, each
    /// to be decoded into a record when it is taken.
    pub fn deserialize(self) -> (r: Result<FeatureStream, DecodeError>)
        ensures
            match r {
                Ok(s) => document_features(self.source()) == Ok::<_, DecodeError>(s@),
                Err(e) => document_features(self.source()) == Err::<Seq<JsonValue>, _>(e),
            },
    {
        deserialize_collection_features(self.document)
    }
}

} // verus!
