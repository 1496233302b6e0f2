//! The URI-normalizing stage: it pins the upstream host and scheme and
//! makes sure the request path carries the mandatory prefix.

use vstd::prelude::*;
use vstd::string::*;

use crate::errors::Error;
use crate::service::{HttpResponse, HttpService, Request, RequestModel};
use crate::text::{path_valid, spec_path_valid, str_starts_with};

verus! {

/// The path with the mandatory prefix in front: untouched when it already
/// begins with the prefix, prefixed otherwise.
pub open spec fn spec_prefixed_path(prefix: Seq<char>, path: Seq<char>) -> Seq<char> {
    if prefix.is_prefix_of(path) {
        path
    } else {
        prefix + path
    }
}

/// Prefixing a path is idempotent: a path that came out of the rewrite is
/// left unchanged by a second rewrite.
pub proof fn lemma_prefixed_path_idempotent(prefix: Seq<char>, path: Seq<char>)
    ensures
        spec_prefixed_path(prefix, spec_prefixed_path(prefix, path)) == spec_prefixed_path(
            prefix,
            path,
        ),
{
    if !prefix.is_prefix_of(path) {
        assert(prefix.is_prefix_of(prefix + path)) by {
            assert(prefix =~= (prefix + path).subrange(0, prefix.len() as int));
        }
    }
}

/// The configuration of the URI-normalizing stage.
pub struct UriMiddlewareLayer {
    pub host: String,
    pub scheme: String,
    pub path_prefix: String,
}

impl UriMiddlewareLayer {
    pub fn new(host: String, scheme: String, path_prefix: String) -> (r: Self)
        ensures
            r.host@ == host@,
            r.scheme@ == scheme@,
            r.path_prefix@ == path_prefix@,
    {
        UriMiddlewareLayer { host, scheme, path_prefix }
    }

    /// Wraps an inner service with the URI-normalizing stage.
    pub fn layer<S: HttpService>(&self, inner: S) -> (r: UriMiddleware<S>)
        ensures
            r.inner == inner,
            r.host@ == self.host@,
            r.scheme@ == self.scheme@,
            r.path_prefix@ == self.path_prefix@,
    {
        UriMiddleware::new(inner, self.host.clone(), self.scheme.clone(), self.path_prefix.clone())
    }
}

/// The URI-normalizing stage around an inner service.
pub struct UriMiddleware<S> {
    pub inner: S,
    pub host: String,
    pub scheme: String,
    pub path_prefix: String,
}

impl<S> UriMiddleware<S> {
    pub fn new(inner: S, host: String, scheme: String, path_prefix: String) -> (r: Self)
        ensures
            r.inner == inner,
            r.host@ == host@,
            r.scheme@ == scheme@,
            r.path_prefix@ == path_prefix@,
    {
        UriMiddleware { inner, host, scheme, path_prefix }
    }

    /// Rewrites the request target: host and scheme are set to the
    /// configured values, the path gains the mandatory prefix, and the
    /// query is left untouched.  `MalformedUri` exactly when the resulting
    /// path holds a character that may not stand in a request path.
    pub fn rewrite(&self, req: Request) -> (r: Result<Request, Error>)
        ensures
            match r {
                Ok(q) => spec_path_valid(spec_prefixed_path(self.path_prefix@, req@.path)) && q@
                    == (RequestModel {
                    scheme: Some(self.scheme@),
                    host: Some(self.host@),
                    path: spec_prefixed_path(self.path_prefix@, req@.path),
                    query: req@.query,
                    if_none_match: req@.if_none_match,
                }),
                Err(e) => e == Error::MalformedUri && !spec_path_valid(
                    spec_prefixed_path(self.path_prefix@, req@.path),
                ),
            },
    {
        let path = if str_starts_with(req.path.as_str(), self.path_prefix.as_str()) {
            req.path
        } else {
            let mut p = self.path_prefix.clone();
            p.append(req.path.as_str());
            p
        };
        if path_valid(path.as_str()) {
            Ok(
                Request {
                    scheme: Some(self.scheme.clone()),
                    host: Some(self.host.clone()),
                    path,
                    query: req.query,
                    if_none_match: req.if_none_match,
                },
            )
        } else {
            Err(Error::MalformedUri)
        }
    }
}

impl<S: HttpService> HttpService for UriMiddleware<S> {
    fn call(&mut self, req: Request) -> Result<HttpResponse, Error> {
        let rewritten = match self.rewrite(req) {
            Ok(q) => q,
            Err(e) => {
                return Err(e);
            },
        };
        self.inner.call(rewritten)
    }
}

} // verus!
