use iron::headers::names_match;
use iron::{
    Cause, Error, FnHandler, Handler, Header, Headers, IronError, IronResult, Method, Modifier,
    NotFound, Request, Response, Status,
};

fn header(name: &str, value: &str) -> Header {
    Header { name: String::from(name), value: String::from(value) }
}

#[test]
fn every_status_has_its_code() {
    assert_eq!(Status::Okay.code(), 200);
    assert_eq!(Status::Created.code(), 201);
    assert_eq!(Status::Accepted.code(), 202);
    assert_eq!(Status::NoContent.code(), 204);
    assert_eq!(Status::MovedPermanently.code(), 301);
    assert_eq!(Status::Found.code(), 302);
    assert_eq!(Status::NotModified.code(), 304);
    assert_eq!(Status::BadRequest.code(), 400);
    assert_eq!(Status::Unauthorized.code(), 401);
    assert_eq!(Status::Forbidden.code(), 403);
    assert_eq!(Status::NotFound.code(), 404);
    assert_eq!(Status::MethodNotAllowed.code(), 405);
    assert_eq!(Status::InternalServerError.code(), 500);
    assert_eq!(Status::NotImplemented.code(), 501);
    assert_eq!(Status::BadGateway.code(), 502);
    assert_eq!(Status::ServiceUnavailable.code(), 503);
}

#[test]
fn a_code_read_back_gives_its_status() {
    let mut known = 0;
    for code in 0..=u16::MAX {
        if let Some(status) = Status::from_code(code) {
            assert_eq!(status.code(), code);
            known += 1;
        }
    }
    assert_eq!(known, 16);
    assert_eq!(Status::from_code(503), Some(Status::ServiceUnavailable));
    assert_eq!(Status::from_code(200), Some(Status::Okay));
}

#[test]
fn an_unknown_code_is_no_status() {
    assert_eq!(Status::from_code(0), None);
    assert_eq!(Status::from_code(203), None);
    assert_eq!(Status::from_code(418), None);
    assert_eq!(Status::from_code(600), None);
    assert_eq!(Status::from_code(u16::MAX), None);
}

#[test]
fn new_headers_hold_nothing() {
    let headers = Headers::new();
    assert_eq!(headers.len(), 0);
    assert_eq!(headers.get("Host"), None);
}

#[test]
fn a_header_set_is_read_back() {
    let mut headers = Headers::new();
    headers.set(String::from("Host"), String::from("example.org"));
    headers.set(String::from("Accept"), String::from("*/*"));
    assert_eq!(headers.len(), 2);
    assert_eq!(headers.get("Host"), Some(&String::from("example.org")));
    assert_eq!(headers.get("Accept"), Some(&String::from("*/*")));
    assert_eq!(headers.get("Hos"), None);
    assert_eq!(headers.get("Host "), None);
    assert_eq!(headers.get(""), None);
}

#[test]
fn a_header_is_found_whatever_its_case() {
    let mut headers = Headers::new();
    headers.set(String::from("Content-Type"), String::from("text/plain"));
    assert_eq!(headers.get("content-type"), Some(&String::from("text/plain")));
    assert_eq!(headers.get("CONTENT-TYPE"), Some(&String::from("text/plain")));
    assert_eq!(headers.get("Content_Type"), None);
    headers.set(String::from("content-type"), String::from("text/html"));
    assert_eq!(headers.len(), 1);
    assert_eq!(headers.entries[0].name, "content-type");
    assert_eq!(headers.get("Content-Type"), Some(&String::from("text/html")));
}

#[test]
fn names_match_but_for_the_case_of_ascii_letters() {
    assert!(names_match("", ""));
    assert!(names_match("Host", "hOST"));
    assert!(names_match("x-1", "X-1"));
    assert!(!names_match("Host", "Hosts"));
    assert!(!names_match("a", ""));
    assert!(!names_match("@", "`"));
    assert!(!names_match("[", "{"));
    assert!(names_match("AZ", "az"));
    assert!(!names_match("É", "é"));
    assert!(names_match("É", "É"));
}

#[test]
fn a_header_set_again_is_replaced_in_its_place() {
    let mut headers = Headers::new();
    headers.set(String::from("a"), String::from("1"));
    headers.set(String::from("b"), String::from("2"));
    headers.set(String::from("a"), String::from("3"));
    assert_eq!(headers.len(), 2);
    assert_eq!(headers.get("a"), Some(&String::from("3")));
    assert_eq!(headers.get("b"), Some(&String::from("2")));
    assert_eq!(headers.entries[0].name, "a");
    assert_eq!(headers.entries[0].value, "3");
    assert_eq!(headers.entries[1].name, "b");
}

#[test]
fn among_lines_of_one_name_the_first_counts() {
    let mut headers = Headers { entries: vec![header("a", "1"), header("b", "2"), header("a", "3")] };
    assert_eq!(headers.get("a"), Some(&String::from("1")));
    headers.set(String::from("a"), String::from("4"));
    assert_eq!(headers.len(), 3);
    assert_eq!(headers.entries[0].value, "4");
    assert_eq!(headers.entries[2].value, "3");
}

#[test]
fn a_new_request_is_bare() {
    let req = Request::new(Method::Post, String::from("/things"));
    assert_eq!(req.method, Method::Post);
    let odd = Request::new(Method::Extension(String::from("PURGE")), String::from("/"));
    assert_eq!(odd.method, Method::Extension(String::from("PURGE")));
    assert_eq!(req.url, "/things");
    assert_eq!(req.headers.len(), 0);
    assert!(req.body.is_empty());
}

#[test]
fn a_new_response_is_blank() {
    let res = Response::new();
    assert_eq!(res.status, Status::Okay);
    assert_eq!(res.headers.len(), 0);
    assert!(res.body.is_empty());
}

#[test]
fn a_status_modifies_the_status_only() {
    let res = Response::with("body").set(Status::Forbidden);
    assert_eq!(res.status, Status::Forbidden);
    assert_eq!(res.body, b"body".to_vec());
    assert_eq!(res.headers.len(), 0);
}

#[test]
fn a_body_modifies_the_body_only() {
    let res = Response::with(Status::Created).set(vec![1u8, 2, 3]);
    assert_eq!(res.status, Status::Created);
    assert_eq!(res.body, vec![1u8, 2, 3]);
    let res = res.set(String::from("né"));
    assert_eq!(res.status, Status::Created);
    assert_eq!(res.body, vec![0x6e, 0xc3, 0xa9]);
    let res = res.set("");
    assert!(res.body.is_empty());
}

#[test]
fn a_header_modifies_the_headers_only() {
    let res = Response::with((Status::Found, header("Location", "/a"), header("Location", "/b")));
    assert_eq!(res.status, Status::Found);
    assert!(res.body.is_empty());
    assert_eq!(res.headers.len(), 1);
    assert_eq!(res.headers.get("Location"), Some(&String::from("/b")));
}

#[test]
fn modifiers_in_a_tuple_apply_from_left_to_right() {
    let res = Response::with((Status::Okay, Status::NotFound));
    assert_eq!(res.status, Status::NotFound);
    let res = Response::with(("first", "second", "third"));
    assert_eq!(res.body, b"third".to_vec());
    let res = Response::with(((Status::BadGateway, "inner"), Status::Accepted));
    assert_eq!(res.status, Status::Accepted);
    assert_eq!(res.body, b"inner".to_vec());
}

#[test]
fn set_mut_modifies_in_place() {
    let mut res = Response::new();
    res.set_mut((Status::NoContent, header("a", "b")));
    assert_eq!(res.status, Status::NoContent);
    assert_eq!(res.headers.get("a"), Some(&String::from("b")));
    Status::NotModified.modify(&mut res);
    assert_eq!(res.status, Status::NotModified);
}

#[test]
fn error_response_round_trip() {
    let err = IronError::new(NotFound(None), (Status::Okay, "x"));
    assert_eq!(err.response.status, Status::Okay);
    assert_eq!(err.response.body, b"x".to_vec());
    assert_eq!(err.response.headers.len(), 0);
    assert_eq!(err.error.description, "Not Found");
    assert!(err.error.cause.is_none());
}

#[test]
fn not_found_describes_itself() {
    assert_eq!(NotFound(None).description(), "Not Found");
    assert!(NotFound(None).cause().is_none());
    assert!(NotFound::default().0.is_none());
}

#[test]
fn not_found_rests_on_the_cause_it_holds() {
    let deep = Cause::new(String::from("disk"), None);
    let held = Cause::new(String::from("lookup"), Some(deep));
    let e = NotFound(Some(held));
    assert_eq!(e.description(), "Not Found");
    assert_eq!(e.cause().unwrap().description(), "lookup");
    assert_eq!(e.cause().unwrap().cause().unwrap().description(), "disk");
    assert!(e.cause().unwrap().cause().unwrap().cause().is_none());
    let alone = NotFound(Some(Cause::new(String::from("lookup"), None)));
    assert_eq!(alone.cause().unwrap().description(), "lookup");
    assert!(alone.cause().unwrap().cause().is_none());
}

#[test]
fn an_error_made_of_not_found_keeps_the_cause_held() {
    let err = IronError::new(NotFound(Some(Cause::new(String::from("lookup"), None))), Status::NotFound);
    assert_eq!(err.description(), "Not Found");
    assert_eq!(err.cause().unwrap().description(), "lookup");
    assert!(err.cause().unwrap().cause().is_none());
}

#[test]
fn a_cause_rests_on_the_cause_beneath() {
    let c = Cause::new(String::from("top"), Some(Cause::new(String::from("mid"), Some(Cause::new(String::from("low"), None)))));
    assert_eq!(c.description(), "top");
    let mid = c.cause().unwrap();
    assert_eq!(mid.description(), "mid");
    let low = mid.cause().unwrap();
    assert_eq!(low.description(), "low");
    assert!(low.cause().is_none());
}

#[test]
fn a_duplicate_says_the_same_all_the_way_down() {
    let c = Cause::new(String::from("top"), Some(Cause::new(String::from("low"), None)));
    let d = c.duplicate();
    assert_eq!(d.description, "top");
    assert_eq!(d.cause.as_ref().unwrap().description, "low");
    assert!(d.cause.as_ref().unwrap().cause.is_none());
    assert_eq!(c.description, "top");
}

#[test]
fn any_error_is_written_down_as_a_cause() {
    let e = NotFound(Some(Cause::new(String::from("a"), Some(Cause::new(String::from("b"), Some(Cause::new(String::from("c"), None)))))));
    let c = Cause::of(&e);
    assert_eq!(c.description, "Not Found");
    let below = c.cause.unwrap();
    assert_eq!(below.description, "a");
    let deeper = below.cause.unwrap();
    assert_eq!(deeper.description, "b");
    assert_eq!(deeper.cause.unwrap().description, "c");
    let plain = Cause::of(&Cause::new(String::from("alone"), None));
    assert_eq!(plain.description, "alone");
    assert!(plain.cause.is_none());
}

#[test]
fn an_iron_error_is_described_by_its_cause() {
    let err = IronError::new(Cause::new(String::from("top"), Some(Cause::new(String::from("low"), None))), Status::BadRequest);
    assert_eq!(err.description(), "top");
    assert_eq!(err.cause().unwrap().description(), "low");
    assert_eq!(err.response.status, Status::BadRequest);
    let wrapped = IronError::new(err, Status::BadGateway);
    assert_eq!(wrapped.description(), "top");
    assert_eq!(wrapped.cause().unwrap().description(), "low");
    assert_eq!(wrapped.response.status, Status::BadGateway);
}

fn echo(req: &mut Request) -> IronResult<Response> {
    req.headers.set(String::from("seen"), String::from("yes"));
    if req.url == "/missing" {
        Err(IronError::new(NotFound(None), Status::NotFound))
    } else {
        Ok(Response::with((Status::Okay, req.url.clone())))
    }
}

#[test]
fn a_function_is_a_handler() {
    let handler = FnHandler::new(echo);
    let mut req = Request::new(Method::Get, String::from("/here"));
    let res = handler.handle(&mut req).ok().unwrap();
    assert_eq!(res.body, b"/here".to_vec());
    assert_eq!(req.headers.get("seen"), Some(&String::from("yes")));
    let mut req = Request::new(Method::Get, String::from("/missing"));
    let err = handler.handle(&mut req).err().unwrap();
    assert_eq!(err.response.status, Status::NotFound);
}

#[test]
fn a_closure_is_a_handler() {
    let greeting = String::from("Hello world!");
    let handler = FnHandler::new(move |_: &mut Request| -> IronResult<Response> {
        Ok(Response::with((Status::Okay, greeting.clone())))
    });
    let mut req = Request::new(Method::Get, String::from("/"));
    let res = handler.handle(&mut req).ok().unwrap();
    assert_eq!(res.status, Status::Okay);
    assert_eq!(res.body, b"Hello world!".to_vec());
}
