//! The conditional-request cache stage.
//!
//! Per cache key the store holds at most one entry: the validator the
//! upstream handed out, the payload it validates, and the insertion time.
//! A request whose key is cached goes out with the validator attached; a
//! "not modified" answer is served from the store, anything else either
//! refreshes the entry or leaves the store untouched.

use vstd::prelude::*;

use crate::errors::Error;
use crate::service::{
    cache_key, now_millis, HttpService, Request, RequestModel, STATUS_NOT_MODIFIED,
};
use super::template::{decode_etag, spec_envelope_etag, DataWrapper};

verus! {

/// One cached response and the time it was stored.
pub struct CacheEntry {
    pub validator: String,
    pub payload: Vec<u8>,
    pub inserted_at: i64,
}

/// The mathematical view of a cache entry.
pub struct EntryModel {
    pub validator: Seq<char>,
    pub payload: Seq<u8>,
    pub inserted_at: int,
}

impl View for CacheEntry {
    type V = EntryModel;

    open spec fn view(&self) -> EntryModel {
        EntryModel {
            validator: self.validator@,
            payload: self.payload@,
            inserted_at: self.inserted_at as int,
        }
    }
}

/// The keyed store of cached responses.  Its view is the map from cache
/// keys to entry models; the storage never holds two entries for one key.
pub struct EtagCache {
    entries: Vec<(String, CacheEntry)>,
}

spec fn spec_map_of(s: Seq<(String, CacheEntry)>) -> Map<Seq<char>, EntryModel>
    decreases s.len(),
{
    if s.len() == 0 {
        Map::empty()
    } else {
        spec_map_of(s.drop_last()).insert(s.last().0@, s.last().1@)
    }
}

spec fn spec_keys_unique(s: Seq<(String, CacheEntry)>) -> bool {
    forall|i: int, j: int|
        0 <= i < j < s.len() ==> #[trigger] s[i].0@ != #[trigger] s[j].0@
}

impl View for EtagCache {
    type V = Map<Seq<char>, EntryModel>;

    closed spec fn view(&self) -> Map<Seq<char>, EntryModel> {
        spec_map_of(self.entries@)
    }
}

/// An entry of the storage is in the map, with its own value.
proof fn lemma_map_of_get(s: Seq<(String, CacheEntry)>, i: int)
    requires
        spec_keys_unique(s),
        0 <= i < s.len(),
    ensures
        spec_map_of(s).contains_key(s[i].0@),
        spec_map_of(s)[s[i].0@] == s[i].1@,
    decreases s.len(),
{
    if i < s.len() - 1 {
        assert(spec_keys_unique(s.drop_last())) by {
            assert(forall|a: int, b: int|
                0 <= a < b < s.drop_last().len() ==> s.drop_last()[a] == s[a] && s.drop_last()[b]
                    == s[b]);
        }
        assert(s.drop_last()[i] == s[i]);
        lemma_map_of_get(s.drop_last(), i);
        assert(s[i].0@ != s.last().0@);
    }
}

/// A key that matches no entry of the storage is not in the map.
proof fn lemma_map_of_miss(s: Seq<(String, CacheEntry)>, k: Seq<char>)
    requires
        forall|i: int| 0 <= i < s.len() ==> #[trigger] s[i].0@ != k,
    ensures
        !spec_map_of(s).contains_key(k),
    decreases s.len(),
{
    if s.len() > 0 {
        assert(forall|i: int|
            0 <= i < s.drop_last().len() ==> #[trigger] s.drop_last()[i].0@ != k);
        lemma_map_of_miss(s.drop_last(), k);
    }
}

/// Replacing the entry of a key updates the map at that key alone.
proof fn lemma_map_of_update(s: Seq<(String, CacheEntry)>, i: int, kv: (String, CacheEntry))
    requires
        spec_keys_unique(s),
        0 <= i < s.len(),
        kv.0@ == s[i].0@,
    ensures
        spec_keys_unique(s.update(i, kv)),
        spec_map_of(s.update(i, kv)) == spec_map_of(s).insert(kv.0@, kv.1@),
    decreases s.len(),
{
    let t = s.update(i, kv);
    assert(spec_keys_unique(t)) by {
        assert(forall|a: int|
            0 <= a < t.len() ==> #[trigger] t[a].0@ == s[a].0@);
    }
    if i == s.len() - 1 {
        assert(t.drop_last() =~= s.drop_last());
        assert(t.last() == kv);
        assert(forall|j: int|
            0 <= j < s.drop_last().len() ==> #[trigger] s.drop_last()[j].0@ != kv.0@);
        lemma_map_of_miss(s.drop_last(), kv.0@);
        assert(spec_map_of(t) =~= spec_map_of(s).insert(kv.0@, kv.1@));
    } else {
        assert(spec_keys_unique(s.drop_last())) by {
            assert(forall|a: int, b: int|
                0 <= a < b < s.drop_last().len() ==> s.drop_last()[a] == s[a] && s.drop_last()[b]
                    == s[b]);
        }
        assert(t.drop_last() =~= s.drop_last().update(i, kv));
        assert(s.drop_last()[i] == s[i]);
        lemma_map_of_update(s.drop_last(), i, kv);
        assert(t.last() == s.last());
        assert(kv.0@ != s.last().0@);
        assert(spec_map_of(t) =~= spec_map_of(s).insert(kv.0@, kv.1@));
    }
}

impl EtagCache {
    /// Storage well-formedness: at most one entry per key.
    pub closed spec fn wf(self) -> bool {
        spec_keys_unique(self.entries@)
    }

    /// A fresh, empty cache.
    pub fn new() -> (r: Self)
        ensures
            r.wf(),
            r@ == Map::<Seq<char>, EntryModel>::empty(),
    {
        EtagCache { entries: Vec::new() }
    }

    /// The index of the entry for `key`, when one is stored.
    fn find(&self, key: &String) -> (r: Option<usize>)
        requires
            self.wf(),
        ensures
            match r {
                Some(i) => i < self.entries@.len() && self.entries@[i as int].0@ == key@
                    && self@.contains_key(key@) && self@[key@] == self.entries@[i as int].1@,
                None => !self@.contains_key(key@),
            },
    {
        let n = self.entries.len();
        let mut i: usize = 0;
        while i < n
            invariant
                self.wf(),
                n == self.entries@.len(),
                i <= n,
                forall|j: int| 0 <= j < i ==> #[trigger] self.entries@[j].0@ != key@,
            decreases n - i,
        {
            if self.entries[i].0.eq(key) {
                proof {
                    lemma_map_of_get(self.entries@, i as int);
                }
                return Some(i);
            }
            i = i + 1;
        }
        proof {
            lemma_map_of_miss(self.entries@, key@);
        }
        None
    }

    /// The entry stored for `key`, when one is stored.
    pub fn get(&self, key: &String) -> (r: Option<&CacheEntry>)
        requires
            self.wf(),
        ensures
            match r {
                Some(e) => self@.contains_key(key@) && e@ == self@[key@],
                None => !self@.contains_key(key@),
            },
    {
        match self.find(key) {
            Some(i) => Some(&self.entries[i].1),
            None => None,
        }
    }

    /// Stores or overwrites the entry for `key`: the map gains exactly
    /// this association, everything else is untouched.
    pub fn store(&mut self, key: String, entry: CacheEntry)
        requires
            old(self).wf(),
        ensures
            final(self).wf(),
            final(self)@ == old(self)@.insert(key@, entry@),
    {
        match self.find(&key) {
            Some(i) => {
                proof {
                    lemma_map_of_update(self.entries@, i as int, (key, entry));
                }
                self.entries[i] = (key, entry);
            },
            None => {
                let ghost s0 = self.entries@;
                let ghost k = key@;
                proof {
                    assert forall|i: int| 0 <= i < s0.len() implies #[trigger] s0[i].0@ != k by {
                        if s0[i].0@ == k {
                            lemma_map_of_get(s0, i);
                        }
                    }
                }
                self.entries.push((key, entry));
                proof {
                    assert(self.entries@.drop_last() =~= s0);
                    assert(self.entries@[s0.len() as int].0@ == k);
                    assert(spec_keys_unique(self.entries@)) by {
                        assert(forall|a: int|
                            0 <= a < s0.len() ==> #[trigger] self.entries@[a] == s0[a]);
                    }
                }
            },
        }
    }

    /// Attaches the stored validator to a request whose key is cached;
    /// a request for an uncached key passes through untouched.
    pub fn prepare(&self, key: &String, req: Request) -> (r: Request)
        requires
            self.wf(),
        ensures
            r@ == (RequestModel {
                if_none_match: if self@.contains_key(key@) {
                    Some(self@[key@].validator)
                } else {
                    req@.if_none_match
                },
                ..req@
            }),
    {
        match self.get(key) {
            Some(entry) => {
                let validator = entry.validator.clone();
                Request {
                    scheme: req.scheme,
                    host: req.host,
                    path: req.path,
                    query: req.query,
                    if_none_match: Some(validator),
                }
            },
            None => req,
        }
    }

    /// Resolves an upstream response against the cache for `key`.
    ///
    /// The returned envelope and the new cache state are exactly
    /// `spec_resolve_result` and `spec_resolve_map` of the old state.
    pub fn resolve(&mut self, key: &String, status: u16, body: Vec<u8>, now: i64) -> (r: Result<
        DataWrapper,
        Error,
    >)
        requires
            old(self).wf(),
        ensures
            final(self).wf(),
            final(self)@ == spec_resolve_map(old(self)@, key@, status, body@, now as int),
            forall|k: Seq<char>|
                old(self)@.contains_key(k) ==> #[trigger] final(self)@.contains_key(k),
            match r {
                Ok(w) => spec_resolve_result(old(self)@, key@, status, body@, now as int) == Ok::<
                    (Seq<char>, Seq<u8>),
                    Error,
                >((w.etag@, w.body@)),
                Err(e) => spec_resolve_result(old(self)@, key@, status, body@, now as int)
                    == Err::<(Seq<char>, Seq<u8>), Error>(e),
            },
    {
        if status == STATUS_NOT_MODIFIED {
            match self.get(key) {
                Some(entry) => {
                    let validator = entry.validator.clone();
                    let payload = entry.payload.clone();
                    proof {
                        assert(payload@ =~= entry.payload@);
                    }
                    Ok(DataWrapper { etag: validator, body: payload })
                },
                None => Err(Error::CacheInconsistency),
            }
        } else if 200 <= status && status < 300 {
            match decode_etag(&body) {
                Some(validator) => {
                    let wrapper = DataWrapper { etag: validator, body };
                    let entry = CacheEntry {
                        validator: wrapper.etag.clone(),
                        payload: wrapper.body.clone(),
                        inserted_at: now,
                    };
                    proof {
                        assert(entry.payload@ =~= wrapper.body@);
                    }
                    self.store(key.clone(), entry);
                    Ok(wrapper)
                },
                None => Err(Error::DecodeFailure),
            }
        } else {
            Err(Error::UpstreamFailure { status: Some(status) })
        }
    }
}

/// How one upstream response changes the cache: a successful response that
/// decodes refreshes the entry for its key; everything else leaves the
/// cache exactly as it was.
pub open spec fn spec_resolve_map(
    m: Map<Seq<char>, EntryModel>,
    key: Seq<char>,
    status: u16,
    body: Seq<u8>,
    now: int,
) -> Map<Seq<char>, EntryModel> {
    if 200 <= status < 300 {
        match spec_envelope_etag(body) {
            Some(v) => m.insert(key, EntryModel { validator: v, payload: body, inserted_at: now }),
            None => m,
        }
    } else {
        m
    }
}

/// What one upstream response resolves to: the stored payload on "not
/// modified" (an inconsistency error when nothing is stored), the freshly
/// decoded envelope on success, the decode error when the envelope shape
/// is wrong, and the upstream failure for any other status.
pub open spec fn spec_resolve_result(
    m: Map<Seq<char>, EntryModel>,
    key: Seq<char>,
    status: u16,
    body: Seq<u8>,
    now: int,
) -> Result<(Seq<char>, Seq<u8>), Error> {
    if status == STATUS_NOT_MODIFIED {
        if m.contains_key(key) {
            Ok((m[key].validator, m[key].payload))
        } else {
            Err(Error::CacheInconsistency)
        }
    } else if 200 <= status < 300 {
        match spec_envelope_etag(body) {
            Some(v) => Ok((v, body)),
            None => Err(Error::DecodeFailure),
        }
    } else {
        Err(Error::UpstreamFailure { status: Some(status) })
    }
}

/// The cache round trip: a fetch into a cold key stores the validator and
/// payload as one unit, and a later "not modified" answer serves exactly
/// that payload back without touching the entry - its insertion time
/// included.
pub proof fn lemma_cache_round_trip(
    m: Map<Seq<char>, EntryModel>,
    key: Seq<char>,
    status1: u16,
    body: Seq<u8>,
    v: Seq<char>,
    t1: int,
    body2: Seq<u8>,
    t2: int,
)
    requires
        !m.contains_key(key),
        200 <= status1 < 300,
        spec_envelope_etag(body) == Some(v),
    ensures
        spec_resolve_result(m, key, status1, body, t1) == Ok::<(Seq<char>, Seq<u8>), Error>(
            (v, body),
        ),
        spec_resolve_map(m, key, status1, body, t1)[key] == (EntryModel {
            validator: v,
            payload: body,
            inserted_at: t1,
        }),
        spec_resolve_result(
            spec_resolve_map(m, key, status1, body, t1),
            key,
            STATUS_NOT_MODIFIED,
            body2,
            t2,
        ) == Ok::<(Seq<char>, Seq<u8>), Error>((v, body)),
        spec_resolve_map(
            spec_resolve_map(m, key, status1, body, t1),
            key,
            STATUS_NOT_MODIFIED,
            body2,
            t2,
        ) == spec_resolve_map(m, key, status1, body, t1),
{
}

/// Failure isolation: when an entry exists and the next fetch for its key
/// fails upstream, the error is surfaced and the entry - validator,
/// payload and insertion time - is exactly what it was.
pub proof fn lemma_cache_failure_isolation(
    m: Map<Seq<char>, EntryModel>,
    key: Seq<char>,
    status: u16,
    body: Seq<u8>,
    now: int,
)
    requires
        m.contains_key(key),
        status != STATUS_NOT_MODIFIED,
        !(200 <= status < 300),
    ensures
        spec_resolve_map(m, key, status, body, now) == m,
        spec_resolve_map(m, key, status, body, now)[key] == m[key],
        spec_resolve_result(m, key, status, body, now) == Err::<(Seq<char>, Seq<u8>), Error>(
            Error::UpstreamFailure { status: Some(status) },
        ),
{
}

/// A key never falls out of the cache: whatever one response does, every
/// key that was cached before is cached afterwards.
pub proof fn lemma_cache_read_through(
    m: Map<Seq<char>, EntryModel>,
    key: Seq<char>,
    status: u16,
    body: Seq<u8>,
    now: int,
    k: Seq<char>,
)
    requires
        m.contains_key(k),
    ensures
        spec_resolve_map(m, key, status, body, now).contains_key(k),
{
}

/// A fresh, empty cache store.
pub fn new_etag_cache() -> (r: EtagCache)
    ensures
        r.wf(),
        r@ == Map::<Seq<char>, EntryModel>::empty(),
{
    EtagCache::new()
}

/// The configuration of the caching stage: the store it begins with.
pub struct CacheMiddlewareLayer {
    pub cache: EtagCache,
}

impl CacheMiddlewareLayer {
    pub fn new(cache: EtagCache) -> (r: Self)
        ensures
            r.cache == cache,
    {
        CacheMiddlewareLayer { cache }
    }

    /// Wraps an inner service with the caching stage.
    pub fn layer<S: HttpService>(self, inner: S) -> (r: CacheMiddleware<S>)
        ensures
            r.inner == inner,
            r.cache == self.cache,
    {
        CacheMiddleware { inner, cache: self.cache }
    }
}

/// The caching stage around an inner service.  It sits outermost in the
/// chain, so cache keys are derived from the logical request before any
/// rewriting.
pub struct CacheMiddleware<S> {
    pub inner: S,
    pub cache: EtagCache,
}

impl<S> CacheMiddleware<S> {
    pub fn new(inner: S, cache: EtagCache) -> (r: Self)
        ensures
            r.inner == inner,
            r.cache == cache,
    {
        CacheMiddleware { inner, cache }
    }
}

impl<S: HttpService> CacheMiddleware<S> {
    /// Handles one logical request: derives the key, attaches the stored
    /// validator if any, forwards downstream, and resolves the response
    /// against the cache.  Whatever the downstream answers, the new cache
    /// state and the result are exactly the resolution of that answer;
    /// a downstream error leaves the cache untouched.
    pub fn call_cached(&mut self, req: Request) -> (r: Result<DataWrapper, Error>)
        requires
            old(self).cache.wf(),
        ensures
            final(self).cache.wf(),
            forall|k: Seq<char>|
                old(self).cache@.contains_key(k) ==> #[trigger] final(self).cache@.contains_key(k),
            ({
                let key = crate::service::spec_cache_key(req@.path, req@.query);
                let pre = old(self).cache@;
                let post = final(self).cache@;
                match r {
                    Ok(w) => exists|status: u16, body: Seq<u8>, now: int|
                        post == #[trigger] spec_resolve_map(pre, key, status, body, now)
                            && spec_resolve_result(pre, key, status, body, now) == Ok::<
                            (Seq<char>, Seq<u8>),
                            Error,
                        >((w.etag@, w.body@)),
                    Err(e) => post == pre || exists|status: u16, body: Seq<u8>, now: int|
                        post == #[trigger] spec_resolve_map(pre, key, status, body, now)
                            && spec_resolve_result(pre, key, status, body, now) == Err::<
                            (Seq<char>, Seq<u8>),
                            Error,
                        >(e),
                }
            }),
    {
        let key = cache_key(&req);
        let annotated = self.cache.prepare(&key, req);
        let response = match self.inner.call(annotated) {
            Ok(resp) => resp,
            Err(e) => {
                return Err(e);
            },
        };
        let now = now_millis();
        self.cache.resolve(&key, response.status, response.body, now)
    }
}

/// The capability the composed client exposes: a logical request in, a
/// decoded envelope out.  An implementation names its own well-formedness
/// condition, which `call` preserves.
pub trait WebClient {
    spec fn inv(&self) -> bool;

    fn call(&mut self, req: Request) -> (r: Result<DataWrapper, Error>)
        requires
            old(self).inv(),
        ensures
            final(self).inv(),
    ;
}

impl<S: HttpService> WebClient for CacheMiddleware<S> {
    open spec fn inv(&self) -> bool {
        self.cache.wf()
    }

    fn call(&mut self, req: Request) -> (r: Result<DataWrapper, Error>) {
        self.call_cached(req)
    }
}

} // verus!
