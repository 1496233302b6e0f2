use std::cell::RefCell;
use std::rc::Rc;

use comicshelf::date::Date;
use comicshelf::errors::Error;
use comicshelf::marvel::new_marvel_service;
use comicshelf::service::{HttpResponse, HttpService, Request};

/// What the stub transport saw of one request.
struct Seen {
    scheme: Option<String>,
    host: Option<String>,
    path: String,
    query: String,
    if_none_match: Option<String>,
}

struct Script {
    seen: Vec<Seen>,
    answers: Vec<Result<(u16, Vec<u8>), Error>>,
}

/// A scripted transport: it records every request and hands back the next
/// prepared answer.
#[derive(Clone)]
struct StubTransport {
    script: Rc<RefCell<Script>>,
}

impl HttpService for StubTransport {
    fn call(&mut self, req: Request) -> Result<HttpResponse, Error> {
        let mut script = self.script.borrow_mut();
        script.seen.push(Seen {
            scheme: req.scheme,
            host: req.host,
            path: req.path,
            query: req.query,
            if_none_match: req.if_none_match,
        });
        match script.answers.remove(0) {
            Ok((status, body)) => Ok(HttpResponse { status, body }),
            Err(e) => Err(e),
        }
    }
}

fn scripted(answers: Vec<Result<(u16, Vec<u8>), Error>>) -> (StubTransport, Rc<RefCell<Script>>) {
    let script = Rc::new(RefCell::new(Script { seen: Vec::new(), answers }));
    (StubTransport { script: script.clone() }, script)
}

fn envelope_body(tag: &str) -> Vec<u8> {
    let mut json = String::from("{\"etag\":\"");
    json.push_str(tag);
    json.push_str("\",\"data\":{\"results\":[\"a\",\"b\"]}}");
    json.into_bytes()
}

#[test]
fn the_chain_normalizes_and_signs_the_weekly_request() {
    let (stub, script) = scripted(vec![Ok((200, envelope_body("V1")))]);
    let mut marvel = new_marvel_service(stub, "3".to_owned(), "2".to_owned());
    let wrapper = marvel.weekly_comics(&Date { year: 2024, month: 5, day: 15 }).unwrap();
    assert_eq!(wrapper.etag, "V1");

    let script = script.borrow();
    assert_eq!(script.seen.len(), 1);
    let seen = &script.seen[0];
    assert_eq!(seen.scheme.as_deref(), Some("https"));
    assert_eq!(seen.host.as_deref(), Some("gateway.marvel.com"));
    assert_eq!(seen.path, "/v1/public/comics");
    assert!(seen.query.starts_with(
        "format=comic&formatType=comic&noVariants=true&dateRange=2024-02-04,2024-02-10\
         &hasDigitalIssue=true&orderBy=issueNumber&limit=100&apikey=3&ts="
    ));
    assert!(seen.query.contains("&hash="));
    assert_eq!(seen.if_none_match, None);
}

#[test]
fn a_not_modified_answer_returns_the_first_payload_by_value() {
    // Two sequential calls for the same key: the second downstream answer
    // is a bodiless "not modified", and the caller still receives a
    // payload equal to the first one.
    let (stub, script) = scripted(vec![
        Ok((200, envelope_body("V1"))),
        Ok((304, Vec::new())),
    ]);
    let mut marvel = new_marvel_service(stub, "3".to_owned(), "2".to_owned());
    let date = Date { year: 2024, month: 5, day: 15 };
    let first = marvel.weekly_comics(&date).unwrap();
    let second = marvel.weekly_comics(&date).unwrap();
    assert_eq!(second.etag, first.etag);
    assert_eq!(second.body, first.body);

    let script = script.borrow();
    assert_eq!(script.seen.len(), 2);
    assert_eq!(script.seen[0].if_none_match, None);
    assert_eq!(script.seen[1].if_none_match.as_deref(), Some("V1"));
}

#[test]
fn an_upstream_failure_does_not_evict_the_entry() {
    let (stub, _script) = scripted(vec![
        Ok((200, envelope_body("V1"))),
        Ok((500, Vec::new())),
        Ok((304, Vec::new())),
    ]);
    let mut marvel = new_marvel_service(stub, "3".to_owned(), "2".to_owned());
    let date = Date { year: 2024, month: 5, day: 15 };
    let first = marvel.weekly_comics(&date).unwrap();
    match marvel.weekly_comics(&date) {
        Err(e) => assert_eq!(e, Error::UpstreamFailure { status: Some(500) }),
        Ok(_) => panic!("a server error must surface"),
    }
    let third = marvel.weekly_comics(&date).unwrap();
    assert_eq!(third.body, first.body);
}

#[test]
fn a_transport_error_passes_through_untouched() {
    let (stub, _script) = scripted(vec![Err(Error::UpstreamFailure { status: None })]);
    let mut marvel = new_marvel_service(stub, "3".to_owned(), "2".to_owned());
    match marvel.weekly_comics(&Date { year: 2024, month: 5, day: 15 }) {
        Err(e) => assert_eq!(e, Error::UpstreamFailure { status: None }),
        Ok(_) => panic!("the transport error must surface"),
    }
}

#[test]
fn an_impossible_window_fails_before_the_transport_is_reached() {
    let (stub, script) = scripted(vec![]);
    let mut marvel = new_marvel_service(stub, "3".to_owned(), "2".to_owned());
    match marvel.weekly_comics(&Date { year: 1, month: 2, day: 1 }) {
        Err(e) => assert_eq!(e, Error::DateArithmetic),
        Ok(_) => panic!("no window exists at the edge of the calendar"),
    }
    assert_eq!(script.borrow().seen.len(), 0);
}
