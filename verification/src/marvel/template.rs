//! The upstream response envelope as the cache sees it: an opaque
//! validator string and the response payload, kept verbatim.

use vstd::prelude::*;

verus! {

/// A decoded response envelope: the upstream validator (entity tag) and
/// the response body it validates, byte for byte.
pub struct DataWrapper {
    pub etag: String,
    pub body: Vec<u8>,
}

impl Clone for DataWrapper {
    fn clone(&self) -> (r: Self)
        ensures
            r.etag@ == self.etag@,
            r.body@ == self.body@,
    {
        let body = self.body.clone();
        proof {
            assert(body@ =~= self.body@);
        }
        DataWrapper { etag: self.etag.clone(), body }
    }
}

/// The validator of a response body: the string under the `etag` key of
/// the top-level JSON object, when the body decodes to one.  It depends on
/// the bytes alone.
pub uninterp spec fn spec_envelope_etag(body: Seq<u8>) -> Option<Seq<char>>;

/// Relies on `serde_json::from_slice` and `serde_json::Map::get`: the
/// decoded `etag` field is a function of the body bytes alone.
#[verifier::external_body]
pub fn decode_etag(body: &Vec<u8>) -> (r: Option<String>)
    ensures
        match r {
            Some(s) => spec_envelope_etag(body@) == Some(s@),
            None => spec_envelope_etag(body@) is None,
        },
{
    match serde_json::from_slice::<serde_json::Value>(body.as_slice()) {
        Ok(serde_json::Value::Object(map)) => match map.get("etag") {
            Some(serde_json::Value::String(s)) => Some(s.clone()),
            _ => None,
        },
        _ => None,
    }
}

} // verus!
