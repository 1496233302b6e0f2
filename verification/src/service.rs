//! The protocol-level capability the pipeline stages layer over: a request,
//! a response, and the notion of a service that maps one to the other.

use vstd::prelude::*;
use vstd::string::*;

use crate::errors::Error;
use crate::text::push_char;

verus! {

/// The upstream status that reports "not modified since the given validator".
pub const STATUS_NOT_MODIFIED: u16 = 304;

/// An outbound request as the pipeline sees it.  A logical request starts
/// with only a path and a query; the stages fill in scheme and host and may
/// attach the conditional-request validator header.
pub struct Request {
    pub scheme: Option<String>,
    pub host: Option<String>,
    pub path: String,
    pub query: String,
    /// The validator-check header (`If-None-Match`), when one is attached.
    pub if_none_match: Option<String>,
}

/// The mathematical view of a request: each part as a character sequence.
pub struct RequestModel {
    pub scheme: Option<Seq<char>>,
    pub host: Option<Seq<char>>,
    pub path: Seq<char>,
    pub query: Seq<char>,
    pub if_none_match: Option<Seq<char>>,
}

impl View for Request {
    type V = RequestModel;

    open spec fn view(&self) -> RequestModel {
        RequestModel {
            scheme: self.scheme.deep_view(),
            host: self.host.deep_view(),
            path: self.path@,
            query: self.query@,
            if_none_match: self.if_none_match.deep_view(),
        }
    }
}

impl Request {
    /// A fresh logical request: a path and a query, nothing else yet.
    pub fn new(path: String, query: String) -> (r: Request)
        ensures
            r@ == (RequestModel {
                scheme: None,
                host: None,
                path: path@,
                query: query@,
                if_none_match: None,
            }),
    {
        Request { scheme: None, host: None, path, query, if_none_match: None }
    }
}

/// A raw upstream response: the status code and the body, verbatim.
pub struct HttpResponse {
    pub status: u16,
    pub body: Vec<u8>,
}

/// The capability at the bottom of the pipeline: something that carries a
/// fully-formed request to the upstream service and returns its response.
/// Nothing is assumed of an implementation; every stage above states what
/// holds whatever comes back.
pub trait HttpService {
    fn call(&mut self, req: Request) -> Result<HttpResponse, Error>;
}

/// The cache key of a logical request: its path and query, joined the way
/// they appear in a request target.  Host, scheme and signature never enter
/// the key, so it must be taken before normalization and signing.
pub open spec fn spec_cache_key(path: Seq<char>, query: Seq<char>) -> Seq<char> {
    if query.len() == 0 {
        path
    } else {
        path + seq!['?'] + query
    }
}

/// Derives the cache key of a request.
pub fn cache_key(req: &Request) -> (r: String)
    ensures
        r@ == spec_cache_key(req@.path, req@.query),
{
    let mut key = req.path.clone();
    if !req.query.as_str().is_empty() {
        push_char(&mut key, '?');
        key.append(req.query.as_str());
        assert(key@ =~= spec_cache_key(req@.path, req@.query));
    }
    key
}

/// Relies on `chrono::Utc::now` and `DateTime::timestamp_millis`: the
/// current time as milliseconds since the Unix epoch.  Nothing is assumed
/// of the value; callers state what holds whatever the clock reads.
#[verifier::external_body]
pub(crate) fn now_millis() -> i64 {
    chrono::Utc::now().timestamp_millis()
}

} // verus!
