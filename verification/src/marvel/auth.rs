//! The request-signing stage: it appends the time-based authentication
//! parameters to the query string of an outbound request.
//!
//! The signature is a one-way hash over the timestamp, the private key and
//! the public key, concatenated in that order without separators; the
//! public key and the timestamp travel alongside it as query parameters.

use vstd::prelude::*;
use vstd::string::*;

use crate::errors::Error;
use crate::service::{now_millis, HttpResponse, HttpService, Request, RequestModel};
use crate::text::{
    lemma_concat_cancel_left, lemma_dec_nat_digits, lemma_dec_nat_injective,
    lemma_digit_run_framed, push_char, push_dec_i64, query_valid, spec_dec_i64, spec_dec_nat,
    spec_is_digit, spec_query_valid,
};

verus! {

/// The lowercase-hex MD5 digest of a string: the signature scheme the
/// upstream service prescribes.  The rendering depends on the input alone.
pub uninterp spec fn spec_md5_hex(input: Seq<char>) -> Seq<char>;

/// Relies on `md5::compute` and the `LowerHex` rendering of its digest:
/// thirty-two hex characters that are a function of the input alone.
#[verifier::external_body]
fn md5_hex(input: &str) -> (r: String)
    ensures
        r@ == spec_md5_hex(input@),
        r@.len() == 32,
{
    format!("{:x}", md5::compute(input))
}

/// The input of the signature hash: timestamp, private key and public key,
/// concatenated without separators.
pub open spec fn spec_hash_input(pub_key: Seq<char>, priv_key: Seq<char>, ts: int) -> Seq<char> {
    spec_dec_i64(ts) + priv_key + pub_key
}

/// The authentication parameters appended to a query string.
pub open spec fn spec_auth_params(pub_key: Seq<char>, priv_key: Seq<char>, ts: int) -> Seq<char> {
    "apikey="@ + pub_key + "&ts="@ + spec_dec_i64(ts) + "&hash="@ + spec_md5_hex(
        spec_hash_input(pub_key, priv_key, ts),
    )
}

/// A query string with the authentication parameters merged in: appended
/// with a `&` separator when a query already exists, alone otherwise.
pub open spec fn spec_signed_query(
    query: Seq<char>,
    pub_key: Seq<char>,
    priv_key: Seq<char>,
    ts: int,
) -> Seq<char> {
    if query.len() == 0 {
        spec_auth_params(pub_key, priv_key, ts)
    } else {
        query + seq!['&'] + spec_auth_params(pub_key, priv_key, ts)
    }
}

/// The configuration of the signing stage: the credential, handed in once
/// at construction.
pub struct MiddlewareLayer {
    pub pub_key: String,
    pub priv_key: String,
}

impl MiddlewareLayer {
    pub fn new(pub_key: String, priv_key: String) -> (r: Self)
        ensures
            r.pub_key == pub_key,
            r.priv_key == priv_key,
    {
        MiddlewareLayer { pub_key, priv_key }
    }

    /// Wraps an inner service with the signing stage.
    pub fn layer<S: HttpService>(&self, inner: S) -> (r: Middleware<S>)
        ensures
            r.inner == inner,
            r.pub_key == self.pub_key,
            r.priv_key == self.priv_key,
    {
        Middleware::new(inner, self.pub_key.clone(), self.priv_key.clone())
    }
}

/// The signing stage around an inner service.
pub struct Middleware<S> {
    pub inner: S,
    pub pub_key: String,
    pub priv_key: String,
}

impl<S> Middleware<S> {
    pub fn new(inner: S, pub_key: String, priv_key: String) -> (r: Self)
        ensures
            r.inner == inner,
            r.pub_key == pub_key,
            r.priv_key == priv_key,
    {
        Middleware { inner, pub_key, priv_key }
    }

    /// Signs a request for the given timestamp: the query string gains the
    /// authentication parameters, everything else is left untouched.
    /// `InvalidQueryEncoding` exactly when the signed query holds a
    /// character that may not stand in a query component.
    pub fn sign(&self, req: Request, ts: i64) -> (r: Result<Request, Error>)
        ensures
            match r {
                Ok(q) => spec_query_valid(
                    spec_signed_query(req@.query, self.pub_key@, self.priv_key@, ts as int),
                ) && q@ == (RequestModel {
                    query: spec_signed_query(req@.query, self.pub_key@, self.priv_key@, ts as int),
                    ..req@
                }),
                Err(e) => e == Error::InvalidQueryEncoding && !spec_query_valid(
                    spec_signed_query(req@.query, self.pub_key@, self.priv_key@, ts as int),
                ),
            },
    {
        let Request { scheme, host, path, query, if_none_match } = req;

        let mut hash_input = String::new();
        push_dec_i64(&mut hash_input, ts);
        hash_input.append(self.priv_key.as_str());
        hash_input.append(self.pub_key.as_str());
        assert(hash_input@ =~= spec_hash_input(self.pub_key@, self.priv_key@, ts as int));
        let hash = md5_hex(hash_input.as_str());

        let mut auth = String::new();
        auth.append("apikey=");
        auth.append(self.pub_key.as_str());
        auth.append("&ts=");
        push_dec_i64(&mut auth, ts);
        auth.append("&hash=");
        auth.append(hash.as_str());
        assert(auth@ =~= spec_auth_params(self.pub_key@, self.priv_key@, ts as int));

        let signed = if query.as_str().is_empty() {
            auth
        } else {
            let mut q = query;
            push_char(&mut q, '&');
            q.append(auth.as_str());
            q
        };
        assert(signed@ =~= spec_signed_query(
            req@.query,
            self.pub_key@,
            self.priv_key@,
            ts as int,
        ));

        if query_valid(signed.as_str()) {
            Ok(Request { scheme, host, path, query: signed, if_none_match })
        } else {
            Err(Error::InvalidQueryEncoding)
        }
    }
}

impl<S: HttpService> HttpService for Middleware<S> {
    fn call(&mut self, req: Request) -> Result<HttpResponse, Error> {
        let ts = now_millis();
        let signed = match self.sign(req, ts) {
            Ok(q) => q,
            Err(e) => {
                return Err(e);
            },
        };
        self.inner.call(signed)
    }
}

/// The timestamp cannot be forged away: the authentication parameters, and
/// with them any signed query, differ whenever the timestamp differs, all
/// else equal.
pub proof fn lemma_signature_fresh(
    query: Seq<char>,
    pub_key: Seq<char>,
    priv_key: Seq<char>,
    ts1: int,
    ts2: int,
)
    requires
        ts1 != ts2,
    ensures
        spec_auth_params(pub_key, priv_key, ts1) != spec_auth_params(pub_key, priv_key, ts2),
        spec_signed_query(query, pub_key, priv_key, ts1) != spec_signed_query(
            query,
            pub_key,
            priv_key,
            ts2,
        ),
{
    let a1 = spec_auth_params(pub_key, priv_key, ts1);
    let a2 = spec_auth_params(pub_key, priv_key, ts2);
    let front = "apikey="@ + pub_key + "&ts="@;
    let h1 = spec_md5_hex(spec_hash_input(pub_key, priv_key, ts1));
    let h2 = spec_md5_hex(spec_hash_input(pub_key, priv_key, ts2));
    let s1 = "&hash="@ + h1;
    let s2 = "&hash="@ + h2;
    let x1 = spec_dec_i64(ts1);
    let x2 = spec_dec_i64(ts2);

    reveal_strlit("&hash=");
    assert(s1.len() > 0 && s1[0] == '&');
    assert(s2.len() > 0 && s2[0] == '&');
    assert(!spec_is_digit('&'));

    if a1 == a2 {
        assert(a1 =~= front + (x1 + s1));
        assert(a2 =~= front + (x2 + s2));
        lemma_concat_cancel_left(front, x1 + s1, x2 + s2);
        lemma_dec_nat_digits((if ts1 < 0 {
            -ts1
        } else {
            ts1
        }) as nat);
        lemma_dec_nat_digits((if ts2 < 0 {
            -ts2
        } else {
            ts2
        }) as nat);
        if ts1 >= 0 && ts2 >= 0 {
            lemma_digit_run_framed(spec_dec_nat(ts1 as nat), spec_dec_nat(ts2 as nat), s1, s2);
            lemma_dec_nat_injective(ts1 as nat, ts2 as nat);
        } else if ts1 < 0 && ts2 < 0 {
            let m1 = spec_dec_nat((-ts1) as nat);
            let m2 = spec_dec_nat((-ts2) as nat);
            assert(x1 + s1 =~= seq!['-'] + (m1 + s1));
            assert(x2 + s2 =~= seq!['-'] + (m2 + s2));
            lemma_concat_cancel_left(seq!['-'], m1 + s1, m2 + s2);
            lemma_digit_run_framed(m1, m2, s1, s2);
            lemma_dec_nat_injective((-ts1) as nat, (-ts2) as nat);
        } else if ts1 >= 0 {
            // A digit on one side, the minus sign on the other.
            assert((x1 + s1)[0] == spec_dec_nat(ts1 as nat)[0]);
            assert((x2 + s2)[0] == '-');
            assert(spec_is_digit((x1 + s1)[0]));
        } else {
            assert((x1 + s1)[0] == '-');
            assert((x2 + s2)[0] == spec_dec_nat(ts2 as nat)[0]);
            assert(spec_is_digit((x2 + s2)[0]));
        }
        assert(false);
    }

    if query.len() > 0 {
        let q1 = spec_signed_query(query, pub_key, priv_key, ts1);
        let q2 = spec_signed_query(query, pub_key, priv_key, ts2);
        if q1 == q2 {
            assert(q1 =~= (query + seq!['&']) + a1);
            assert(q2 =~= (query + seq!['&']) + a2);
            lemma_concat_cancel_left(query + seq!['&'], a1, a2);
            assert(false);
        }
    }
}

} // verus!
