use comicshelf::errors::Error;
use comicshelf::marvel::auth::{Middleware, MiddlewareLayer};
use comicshelf::service::{HttpResponse, HttpService, Request};

struct NoService;

impl HttpService for NoService {
    fn call(&mut self, _req: Request) -> Result<HttpResponse, Error> {
        Err(Error::UpstreamFailure { status: None })
    }
}

fn signer(pub_key: &str, priv_key: &str) -> Middleware<NoService> {
    MiddlewareLayer::new(pub_key.to_owned(), priv_key.to_owned()).layer(NoService)
}

#[test]
fn signature_uses_the_prescribed_hash() {
    // The hash input for timestamp 1, private key "2" and public key "3"
    // is "123"; its lowercase-hex MD5 digest is well known.
    let m = signer("3", "2");
    let req = Request::new("/comics".to_owned(), String::new());
    let signed = m.sign(req, 1).unwrap();
    assert_eq!(signed.query, "apikey=3&ts=1&hash=202cb962ac59075b964b07152d234b70");
    assert_eq!(signed.path, "/comics");
}

#[test]
fn signature_appends_to_an_existing_query() {
    let m = signer("3", "2");
    let req = Request::new("/comics".to_owned(), "limit=100".to_owned());
    let signed = m.sign(req, 1).unwrap();
    assert_eq!(signed.query, "limit=100&apikey=3&ts=1&hash=202cb962ac59075b964b07152d234b70");
}

#[test]
fn signature_concatenates_timestamp_private_then_public() {
    // With an empty credential the hash input is the timestamp alone.
    let m = signer("", "");
    let req = Request::new("/x".to_owned(), String::new());
    let signed = m.sign(req, 1).unwrap();
    assert_eq!(signed.query, "apikey=&ts=1&hash=c4ca4238a0b923820dcc509a6f75849b");
}

#[test]
fn signatures_differ_across_timestamps() {
    let m = signer("3", "2");
    let one = m.sign(Request::new("/x".to_owned(), String::new()), 1).unwrap();
    let two = m.sign(Request::new("/x".to_owned(), String::new()), 2).unwrap();
    assert_ne!(one.query, two.query);
}

#[test]
fn invalid_characters_in_the_signed_query_are_refused() {
    let m = signer("a key", "2");
    let req = Request::new("/x".to_owned(), String::new());
    match m.sign(req, 1) {
        Err(e) => assert_eq!(e, Error::InvalidQueryEncoding),
        Ok(_) => panic!("a space must not survive into the signed query"),
    }
}

#[test]
fn signing_leaves_everything_but_the_query_alone() {
    let m = signer("3", "2");
    let req = Request {
        scheme: Some("https".to_owned()),
        host: Some("example.test".to_owned()),
        path: "/comics".to_owned(),
        query: String::new(),
        if_none_match: Some("tag".to_owned()),
    };
    let signed = m.sign(req, 7).unwrap();
    assert_eq!(signed.scheme.as_deref(), Some("https"));
    assert_eq!(signed.host.as_deref(), Some("example.test"));
    assert_eq!(signed.path, "/comics");
    assert_eq!(signed.if_none_match.as_deref(), Some("tag"));
}
