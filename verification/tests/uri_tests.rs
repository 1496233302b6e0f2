use comicshelf::errors::Error;
use comicshelf::middleware::uri::{UriMiddleware, UriMiddlewareLayer};
use comicshelf::service::{HttpResponse, HttpService, Request};

struct NoService;

impl HttpService for NoService {
    fn call(&mut self, _req: Request) -> Result<HttpResponse, Error> {
        Err(Error::UpstreamFailure { status: None })
    }
}

fn normalizer() -> UriMiddleware<NoService> {
    UriMiddlewareLayer::new(
        "gateway.marvel.com".to_owned(),
        "https".to_owned(),
        "/v1/public".to_owned(),
    )
    .layer(NoService)
}

#[test]
fn rewrite_sets_host_scheme_and_prefix() {
    let m = normalizer();
    let req = Request::new("/comics".to_owned(), "limit=100".to_owned());
    let out = m.rewrite(req).unwrap();
    assert_eq!(out.scheme.as_deref(), Some("https"));
    assert_eq!(out.host.as_deref(), Some("gateway.marvel.com"));
    assert_eq!(out.path, "/v1/public/comics");
    assert_eq!(out.query, "limit=100");
    assert_eq!(out.if_none_match, None);
}

#[test]
fn rewrite_is_idempotent_on_the_prefix() {
    let m = normalizer();
    let once = m.rewrite(Request::new("/comics".to_owned(), String::new())).unwrap();
    let twice = m.rewrite(Request::new(once.path.clone(), String::new())).unwrap();
    assert_eq!(twice.path, once.path);
}

#[test]
fn rewrite_preserves_the_validator_header() {
    let m = normalizer();
    let req = Request {
        scheme: None,
        host: None,
        path: "/comics".to_owned(),
        query: String::new(),
        if_none_match: Some("tag".to_owned()),
    };
    let out = m.rewrite(req).unwrap();
    assert_eq!(out.if_none_match.as_deref(), Some("tag"));
}

#[test]
fn rewrite_refuses_invalid_path_characters() {
    let m = normalizer();
    match m.rewrite(Request::new("/a comic".to_owned(), String::new())) {
        Err(e) => assert_eq!(e, Error::MalformedUri),
        Ok(_) => panic!("a space must not survive into the path"),
    }
}
