use rack::response::{bad_request, created, ok, server_error, teapot};
use rack::sdk::private::{response_line, run_route, run_route_empty};
use rack::sdk::request::RawRequest;
use rack::sorted_map::SortedMap;
use rack::{Error, Response};

#[test]
fn responses_carry_status_headers_and_body() {
    let response = Response::new().text("hello".to_string());
    assert_eq!(response.status_code(), 200);
    assert_eq!(response.body(), "hello");
    assert!(response
        .header_entries()
        .iter()
        .any(|(name, value)| name == "content-type" && value.starts_with("text/plain")));
    assert_eq!(created().status_code(), 201);
    assert_eq!(ok().status_code(), 200);
    assert_eq!(bad_request().status_code(), 400);
    assert_eq!(teapot().status_code(), 418);
    assert_eq!(server_error().status_code(), 500);
}

#[test]
fn invalid_status_codes_are_refused() {
    let error = Response::new().status(42).err().unwrap();
    assert_eq!(error.message(), "invalid HTTP status 42");
    assert_eq!(Response::new().status(204).unwrap().status_code(), 204);
}

#[test]
fn errors_keep_their_message() {
    assert_eq!(Error::new("boom").message(), "boom");
    let error: Error = String::from("x").into();
    assert_eq!(error.to_message(), "x");
}

#[test]
fn route_handlers_run_or_fail_with_a_server_error() {
    let response = run_route_empty(Err(Error::new("bad input")), || Ok(ok()));
    assert_eq!(response.status_code(), 500);
    assert_eq!(response.body(), "bad input");
    let response = run_route_empty(Ok(String::new()), || Ok(created()));
    assert_eq!(response.status_code(), 201);
    let line = response_line(&ok().text("hi".to_string()));
    assert!(line.contains("\"status\":200"));
}

fn raw_request() -> RawRequest {
    RawRequest {
        method: "GET".to_string(),
        path: "/hello".to_string(),
        uri: "/hello?x=1".to_string(),
        headers: SortedMap::new(),
        body: "".to_string(),
        route: None,
    }
}

#[test]
fn raw_requests_carry_metadata_and_body_errors() {
    let request = raw_request().into_request::<()>().ok().unwrap();
    assert_eq!(request.method(), "GET");
    assert_eq!(request.uri(), "/hello?x=1");
    let refused = raw_request().with_body::<()>(Err(Error::new("bad body")));
    assert_eq!(refused.err().unwrap().to_message(), "bad body");
}

#[test]
fn route_runs_answer_unreadable_requests_with_400() {
    let answered = run_route::<(), _>(Ok(raw_request()), |request| {
        assert_eq!(request.path(), "/hello");
        Ok(ok().text("done".to_string()))
    });
    assert_eq!(answered.status_code(), 200);
    assert_eq!(answered.body(), "done");
    let unreadable = run_route::<(), _>(Err(Error::new("bad json")), |_| Ok(ok()));
    assert_eq!(unreadable.status_code(), 400);
    assert_eq!(unreadable.body(), "bad json");
    let failed = run_route::<(), _>(Ok(raw_request()), |_| Err(Error::new("boom")));
    assert_eq!(failed.status_code(), 500);
    assert_eq!(failed.body(), "boom");
}
