use comicshelf::errors::Error;
use comicshelf::marvel::etag::{new_etag_cache, CacheEntry, EtagCache};
use comicshelf::service::Request;

fn body_with_etag(tag: &str) -> Vec<u8> {
    let mut json = String::from("{\"etag\":\"");
    json.push_str(tag);
    json.push_str("\",\"data\":{\"results\":[1,2,3]}}");
    json.into_bytes()
}

#[test]
fn store_and_get_round_trip() {
    let mut cache = EtagCache::new();
    let key = "k".to_owned();
    assert!(cache.get(&key).is_none());
    cache.store(
        key.clone(),
        CacheEntry { validator: "v1".to_owned(), payload: vec![1, 2], inserted_at: 5 },
    );
    let entry = cache.get(&key).unwrap();
    assert_eq!(entry.validator, "v1");
    assert_eq!(entry.payload, vec![1, 2]);
    assert_eq!(entry.inserted_at, 5);
}

#[test]
fn store_overwrites_in_place() {
    let mut cache = new_etag_cache();
    let key = "k".to_owned();
    cache.store(
        key.clone(),
        CacheEntry { validator: "v1".to_owned(), payload: vec![1], inserted_at: 5 },
    );
    cache.store(
        key.clone(),
        CacheEntry { validator: "v2".to_owned(), payload: vec![2], inserted_at: 9 },
    );
    let entry = cache.get(&key).unwrap();
    assert_eq!(entry.validator, "v2");
    assert_eq!(entry.payload, vec![2]);
    assert_eq!(entry.inserted_at, 9);
}

#[test]
fn cold_fetch_stores_validator_and_payload_together() {
    let mut cache = EtagCache::new();
    let key = "/comics?x=1".to_owned();
    let body = body_with_etag("V1");
    let wrapper = cache.resolve(&key, 200, body.clone(), 100).unwrap();
    assert_eq!(wrapper.etag, "V1");
    assert_eq!(wrapper.body, body);
    let entry = cache.get(&key).unwrap();
    assert_eq!(entry.validator, "V1");
    assert_eq!(entry.payload, body);
    assert_eq!(entry.inserted_at, 100);
}

#[test]
fn not_modified_serves_the_stored_payload_untouched() {
    // The round trip: a cold fetch, then a "not modified" answer.  The
    // second call returns the first payload by value and the insertion
    // time stays what it was.
    let mut cache = EtagCache::new();
    let key = "/comics?x=1".to_owned();
    let body = body_with_etag("V1");
    let first = cache.resolve(&key, 200, body.clone(), 100).unwrap();
    let second = cache.resolve(&key, 304, Vec::new(), 999).unwrap();
    assert_eq!(second.etag, first.etag);
    assert_eq!(second.body, first.body);
    assert_eq!(cache.get(&key).unwrap().inserted_at, 100);
}

#[test]
fn not_modified_without_an_entry_is_an_inconsistency() {
    let mut cache = EtagCache::new();
    let key = "/comics?x=1".to_owned();
    match cache.resolve(&key, 304, Vec::new(), 1) {
        Err(e) => assert_eq!(e, Error::CacheInconsistency),
        Ok(_) => panic!("a cold key cannot answer a not-modified response"),
    }
}

#[test]
fn upstream_failure_leaves_the_entry_exactly_as_it_was() {
    let mut cache = EtagCache::new();
    let key = "/comics?x=1".to_owned();
    let body = body_with_etag("V1");
    cache.resolve(&key, 200, body.clone(), 100).unwrap();
    match cache.resolve(&key, 503, b"oops".to_vec(), 200) {
        Err(e) => assert_eq!(e, Error::UpstreamFailure { status: Some(503) }),
        Ok(_) => panic!("a server error must surface"),
    }
    let entry = cache.get(&key).unwrap();
    assert_eq!(entry.validator, "V1");
    assert_eq!(entry.payload, body);
    assert_eq!(entry.inserted_at, 100);
}

#[test]
fn an_unreadable_envelope_is_a_decode_failure() {
    let mut cache = EtagCache::new();
    let key = "k".to_owned();
    match cache.resolve(&key, 200, b"not json".to_vec(), 1) {
        Err(e) => assert_eq!(e, Error::DecodeFailure),
        Ok(_) => panic!("a body without an envelope must be refused"),
    }
    assert!(cache.get(&key).is_none());
    match cache.resolve(&key, 200, b"{\"data\":1}".to_vec(), 1) {
        Err(e) => assert_eq!(e, Error::DecodeFailure),
        Ok(_) => panic!("a body without a validator must be refused"),
    }
}

#[test]
fn prepare_attaches_the_stored_validator() {
    let mut cache = EtagCache::new();
    let key = "/comics?x=1".to_owned();
    let req = Request::new("/comics".to_owned(), "x=1".to_owned());
    let untouched = cache.prepare(&key, req);
    assert_eq!(untouched.if_none_match, None);
    cache.store(
        key.clone(),
        CacheEntry { validator: "V1".to_owned(), payload: vec![], inserted_at: 0 },
    );
    let annotated = cache.prepare(&key, untouched);
    assert_eq!(annotated.if_none_match.as_deref(), Some("V1"));
    assert_eq!(annotated.path, "/comics");
    assert_eq!(annotated.query, "x=1");
}
