//! The glue that runs a handler on one invocation: what response comes of
//! the input and the handler's outcome, and the JSON line the host reads.
use crate::json::{json_string, spec_json_string};
use crate::sdk::error::Error;
use crate::sdk::http_response::{with_body_view, Response, ResponseView};
use crate::sdk::payload::Payload;
use crate::sdk::request::{parsed_as, CronEvent, RawRequest, Request};
use vstd::utf8::encode_utf8;
use crate::sdk::response::{bad_request, empty_with_status, server_error};
use crate::text::{append, decimal, decimal_string};
use vstd::prelude::*;

verus! {

/// The response for a handler failure: `500` with the message as text.
pub open spec fn server_error_view(message: Seq<char>) -> ResponseView {
    with_body_view(empty_with_status(500), "text/plain; charset=utf-8"@, message)
}

/// The response for a request that could not be read: `400` with the message
/// as text.
pub open spec fn bad_request_view(message: Seq<char>) -> ResponseView {
    with_body_view(empty_with_status(400), "text/plain; charset=utf-8"@, message)
}

/// The response that a handler's outcome gives.
pub open spec fn outcome_view(outcome: Result<Response, Error>) -> ResponseView {
    match outcome {
        Ok(response) => response@,
        Err(error) => server_error_view(error@),
    }
}

fn outcome_response(outcome: Result<Response, Error>) -> (r: Response)
    ensures
        r@ == outcome_view(outcome),
{
    match outcome {
        Ok(response) => response,
        Err(error) => server_error().text(error.to_message()),
    }
}

/// Runs a route handler that takes no request: a failure to read the input
/// or of the handler becomes a `500` response with the message as text.
pub fn run_route_empty<F: FnOnce() -> Result<Response, Error>>(
    input: Result<String, Error>,
    handler: F,
) -> (r: Response)
    requires
        input is Ok ==> call_requires(handler, ()),
    ensures
        input matches Err(e) ==> r@ == server_error_view(e@),
        input is Ok ==> exists|outcome: Result<Response, Error>|
            call_ensures(handler, (), outcome) && r@ == outcome_view(outcome),
{
    match input {
        Ok(_) => {
            let outcome = handler();
            outcome_response(outcome)
        },
        Err(error) => server_error().text(error.to_message()),
    }
}

/// Runs a cron handler that takes no event; the same rules as
/// `run_route_empty`.
pub fn run_cron_empty<F: FnOnce() -> Result<Response, Error>>(
    input: Result<String, Error>,
    handler: F,
) -> (r: Response)
    requires
        input is Ok ==> call_requires(handler, ()),
    ensures
        input matches Err(e) ==> r@ == server_error_view(e@),
        input is Ok ==> exists|outcome: Result<Response, Error>|
            call_ensures(handler, (), outcome) && r@ == outcome_view(outcome),
{
    run_route_empty(input, handler)
}

/// Runs a route handler on a request read from the host: a request that
/// cannot be read or whose body `T` refuses becomes a `400` response, a
/// handler failure a `500` response, each with the message as text.
pub fn run_route<T: Payload, F: FnOnce(Request<T>) -> Result<Response, Error>>(
    input: Result<RawRequest, Error>,
    handler: F,
) -> (r: Response)
    requires
        forall|request: Request<T>| call_requires(handler, (request,)),
    ensures
        input matches Err(e) ==> r@ == bad_request_view(e@),
        input matches Ok(raw) ==> exists|bytes: &[u8], body: Result<T, Error>|
            bytes@ == encode_utf8(raw.body@) && call_ensures(T::from_body, (bytes,), body)
                && route_answer(raw, body, handler, r@),
{
    match input {
        Err(error) => bad_request().text(error.to_message()),
        Ok(raw) => {
            let ghost raw_in = raw;
            let parsed = raw.into_request::<T>();
            let ghost (bytes, body) = choose|bytes: &[u8], body: Result<T, Error>|
                bytes@ == encode_utf8(raw_in.body@) && call_ensures(T::from_body, (bytes,), body)
                    && parsed == raw_in.with_body_spec(body) && parsed_as(raw_in, body, parsed);
            match parsed {
                Err(error) => {
                    let r = bad_request().text(error.to_message());
                    assert(route_answer(raw_in, body, handler, r@));
                    r
                },
                Ok(request) => {
                    let ghost req = request;
                    let outcome = handler(request);
                    let r = outcome_response(outcome);
                    assert(route_answer(raw_in, body, handler, r@));
                    r
                },
            }
        },
    }
}

/// The response a route handler run gives for a request read from the
/// host, once its body was handed to `T::from_body` and `body` came back:
/// the body's error as a `400`, else the handler's outcome on the request
/// that carries the parsed value and the host's metadata.
pub open spec fn route_answer<T, F: FnOnce(Request<T>) -> Result<Response, Error>>(
    raw: RawRequest,
    body: Result<T, Error>,
    handler: F,
    r: ResponseView,
) -> bool {
    match body {
        Err(e) => r == bad_request_view(e@),
        Ok(b) => exists|request: Request<T>, outcome: Result<Response, Error>|
            request.body_value() == b && request.meta_view() == raw.meta_view()
                && call_ensures(handler, (request,), outcome) && r == outcome_view(outcome),
    }
}

/// Runs a cron handler on an event read from the host: an event that cannot
/// be read, or a handler failure, becomes a `500` response with the message
/// as text.
pub fn run_cron<F: FnOnce(CronEvent) -> Result<Response, Error>>(
    input: Result<CronEvent, Error>,
    handler: F,
) -> (r: Response)
    requires
        input matches Ok(event) ==> call_requires(handler, (event,)),
    ensures
        input matches Err(e) ==> r@ == server_error_view(e@),
        input matches Ok(event) ==> exists|outcome: Result<Response, Error>|
            call_ensures(handler, (event,), outcome) && r@ == outcome_view(outcome),
{
    match input {
        Err(error) => server_error().text(error.to_message()),
        Ok(event) => {
            let outcome = handler(event);
            outcome_response(outcome)
        },
    }
}

/// The JSON members for headers, in order: `"name":"value"` pairs joined by
/// commas.
pub open spec fn headers_json(entries: Seq<(String, String)>) -> Seq<char>
    decreases entries.len(),
{
    if entries.len() == 0 {
        seq![]
    } else {
        let last = entries.last();
        let member = spec_json_string(last.0@) + ":"@ + spec_json_string(last.1@);
        if entries.len() == 1 {
            member
        } else {
            headers_json(entries.drop_last()) + ","@ + member
        }
    }
}

/// The line the host reads for a response: a JSON object with the body,
/// the headers and the status, keys in sorted order as `serde_json` writes
/// them.
pub open spec fn response_json(body: Seq<char>, headers: Seq<(String, String)>, status: u16) -> Seq<char> {
    "{\"body\":"@ + spec_json_string(body) + ",\"headers\":{"@ + headers_json(headers) + "},\"status\":"@
        + decimal(status as nat) + "}"@
}

/// The line to write for a response.
pub fn response_line(response: &Response) -> (r: String)
    ensures
        r@ == response_json(
            response@.body,
            response.header_entries_spec(),
            response@.status,
        ),
{
    let entries = response.header_entries();
    let mut members = String::new();
    let mut i: usize = 0;
    while i < entries.len()
        invariant
            i <= entries@.len(),
            members@ == headers_json(entries@.take(i as int)),
        decreases entries.len() - i,
    {
        if i > 0 {
            append(&mut members, ",");
        }
        append(&mut members, json_string(entries[i].0.as_str()).as_str());
        append(&mut members, ":");
        append(&mut members, json_string(entries[i].1.as_str()).as_str());
        i = i + 1;
        proof {
            let t = entries@.take(i as int);
            assert(t.drop_last() =~= entries@.take(i - 1));
        }
    }
    assert(entries@.take(entries@.len() as int) =~= entries@);
    let mut line = String::new();
    append(&mut line, "{\"body\":");
    append(&mut line, json_string(response.body()).as_str());
    append(&mut line, ",\"headers\":{");
    append(&mut line, members.as_str());
    append(&mut line, "},\"status\":");
    append(&mut line, decimal_string(response.status_code() as u64).as_str());
    append(&mut line, "}");
    line
}

} // verus!
