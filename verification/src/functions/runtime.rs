//! What a function run answers: the HTTP response a function prints, the
//! answer when no route serves a request, and the answer for each way a run
//! can end.
use crate::functions::manifest::FunctionCron;
use crate::functions::routing::has_str_member;
use crate::json::{
    as_str, as_u64, get, parse_json, set_member, spec_as_str, spec_as_u64, spec_get, spec_json_parse,
    Json,
};
use crate::sorted_map::SortedMap;
use crate::text::{
    append, ascii_lower, ascii_lowercase, concat, has_prefix, owned, starts_with, str_eq, trim,
    trim_str,
};
use vstd::prelude::*;

verus! {

/// An HTTP answer: status, headers by lowercase name, body.
pub struct FunctionHttpResponse {
    pub status: u64,
    pub headers: SortedMap<String>,
    pub body: String,
}

/// The headers of a response that says nothing of them.
pub open spec fn plain_text_headers() -> Map<Seq<char>, Seq<char>> {
    map!["content-type"@ => "text/plain"@]
}

fn plain_text_header_map() -> (r: SortedMap<String>)
    ensures
        r@ == plain_text_headers(),
{
    let mut headers: SortedMap<String> = SortedMap::new();
    headers.insert("content-type".to_string(), "text/plain".to_string());
    assert(headers@ =~= plain_text_headers());
    headers
}

/// A plain-text answer.
pub fn plain_text_response(status: u64, body: String) -> (r: FunctionHttpResponse)
    ensures
        r.status == status,
        r.headers@ == plain_text_headers(),
        r.body@ == body@,
{
    FunctionHttpResponse { status, headers: plain_text_header_map(), body }
}

/// The string members of a JSON object as headers: names in lower case, a
/// later member replacing an earlier one of the same lowercase name.
pub open spec fn header_members(members: Seq<(String, Json)>) -> Map<Seq<char>, Seq<char>>
    decreases members.len(),
{
    if members.len() == 0 {
        Map::empty()
    } else {
        let rest = header_members(members.drop_last());
        match members.last().1 {
            Json::Str(v) => rest.insert(ascii_lower(members.last().0@), v@),
            _ => rest,
        }
    }
}

/// The status, headers and body a function's standard output stands for,
/// when it is a JSON document: a status outside 100..=599 or missing is
/// 200, headers that are not an object are plain text, a body that is not a
/// string is empty.
pub open spec fn response_of(stdout: Seq<char>) -> Option<(u64, Map<Seq<char>, Seq<char>>, Seq<char>)> {
    match spec_json_parse(trim(stdout)) {
        None => None,
        Some(value) => {
            let status = match spec_as_u64(spec_get(value, "status"@)) {
                Some(s) => if 100 <= s <= 599 {
                    s
                } else {
                    200
                },
                None => 200,
            };
            let headers = match spec_get(value, "headers"@) {
                Some(Json::Object(members)) => header_members(members@),
                _ => plain_text_headers(),
            };
            let body = match spec_as_str(spec_get(value, "body"@)) {
                Some(b) => b,
                None => seq![],
            };
            Some((status, headers, body))
        },
    }
}

/// The headers that the string members of an object give.
fn headers_from_members(members: &Vec<(String, Json)>) -> (r: SortedMap<String>)
    ensures
        r@ == header_members(members@),
{
    let mut headers: SortedMap<String> = SortedMap::new();
    let mut i: usize = 0;
    assert(members@.take(0) =~= Seq::<(String, Json)>::empty());
    while i < members.len()
        invariant
            i <= members@.len(),
            headers@ == header_members(members@.take(i as int)),
        decreases members.len() - i,
    {
        proof {
            assert(members@.take(i + 1).drop_last() =~= members@.take(i as int));
            assert(members@.take(i + 1).last() == members@[i as int]);
        }
        match &members[i].1 {
            Json::Str(v) => {
                headers.insert(ascii_lowercase(members[i].0.as_str()), v.clone());
            },
            _ => {},
        }
        i = i + 1;
    }
    assert(members@.take(members@.len() as int) =~= members@);
    headers
}

/// Reads the HTTP response a function printed.
pub fn parse_function_response(stdout: &str) -> (r: Option<FunctionHttpResponse>)
    ensures
        match response_of(stdout@) {
            None => r is None,
            Some((status, headers, body)) => r matches Some(x) && x.status == status && x.headers@
                == headers && x.body@ == body,
        },
{
    let trimmed = trim_str(stdout);
    let value = match parse_json(trimmed.as_str()) {
        Some(v) => v,
        None => {
            return None;
        },
    };
    let status = match as_u64(get(&value, "status")) {
        Some(s) => if 100 <= s && s <= 599 {
            s
        } else {
            200
        },
        None => 200,
    };
    let headers = match get(&value, "headers") {
        Some(Json::Object(members)) => headers_from_members(members),
        _ => plain_text_header_map(),
    };
    let body = match as_str(get(&value, "body")) {
        Some(b) => owned(b),
        None => String::new(),
    };
    Some(FunctionHttpResponse { status, headers, body })
}

/// The answer to a request that no route serves: 404 when no route matches,
/// 409 for a conflict, a reserved path or a broken route.
pub fn route_error_response(message: &str) -> (r: FunctionHttpResponse)
    ensures
        r.status == (if starts_with(message@, "no function route"@) {
            404u64
        } else {
            409u64
        }),
        r.headers@ == plain_text_headers(),
        r.body@ == "rack: "@ + message@,
{
    let status: u64 = if has_prefix(message, "no function route") {
        404
    } else {
        409
    };
    plain_text_response(status, concat("rack: ", message))
}

/// How running a function's wasm ended.
pub enum RunOutcome {
    /// No `wasmtime` was found.
    RuntimeMissing,
    /// `wasmtime` could not be started.
    LaunchFailed(String),
    /// Waiting for the run failed, or it took too long.
    RuntimeFailed(String),
    /// The run exited unsuccessfully, with this on its standard error.
    Failed(String),
    /// The run succeeded, with this on its standard output.
    Succeeded(String),
}

/// The answer to a run, with the status and error its `finished` log entry
/// records.
pub struct FunctionResult {
    pub response: FunctionHttpResponse,
    pub log_status: u64,
    pub log_error: Option<String>,
}

/// The answer a run gives, by how it ended. A successful HTTP run whose
/// output is a JSON response answers with that response; any other
/// successful run answers its output as plain text.
pub open spec fn result_of(function: Seq<char>, response_type: Seq<char>, outcome: RunOutcome) -> (
    u64,
    Map<Seq<char>, Seq<char>>,
    Seq<char>,
    Option<Seq<char>>,
) {
    match outcome {
        RunOutcome::RuntimeMissing => (
            500,
            plain_text_headers(),
            "rack: wasmtime is required to run functions.wasm"@,
            None,
        ),
        RunOutcome::LaunchFailed(e) => (
            500,
            plain_text_headers(),
            "rack: failed to launch wasmtime: "@ + e@,
            Some(e@),
        ),
        RunOutcome::RuntimeFailed(e) => (
            500,
            plain_text_headers(),
            "rack: function runtime failed: "@ + e@,
            Some(e@),
        ),
        RunOutcome::Failed(stderr) => (
            500,
            plain_text_headers(),
            "rack: function '"@ + function + "' failed\n"@ + trim(stderr@),
            None,
        ),
        RunOutcome::Succeeded(stdout) => {
            let parsed = if response_type == "function.response"@ {
                response_of(stdout@)
            } else {
                None
            };
            match parsed {
                Some((status, headers, body)) => (status, headers, body, None),
                None => (200, plain_text_headers(), stdout@, None),
            }
        },
    }
}

/// The answer a run gives, by how it ended.
pub fn function_result(function: &str, response_type: &str, outcome: RunOutcome) -> (r: FunctionResult)
    ensures
        ({
            let (status, headers, body, error) = result_of(function@, response_type@, outcome);
            &&& r.response.status == status
            &&& r.log_status == status
            &&& r.response.headers@ == headers
            &&& r.response.body@ == body
            &&& match error {
                Some(e) => r.log_error matches Some(x) && x@ == e,
                None => r.log_error is None,
            }
        }),
{
    match outcome {
        RunOutcome::RuntimeMissing => FunctionResult {
            response: plain_text_response(
                500,
                "rack: wasmtime is required to run functions.wasm".to_string(),
            ),
            log_status: 500,
            log_error: None,
        },
        RunOutcome::LaunchFailed(e) => FunctionResult {
            response: plain_text_response(500, concat("rack: failed to launch wasmtime: ", e.as_str())),
            log_status: 500,
            log_error: Some(e),
        },
        RunOutcome::RuntimeFailed(e) => FunctionResult {
            response: plain_text_response(500, concat("rack: function runtime failed: ", e.as_str())),
            log_status: 500,
            log_error: Some(e),
        },
        RunOutcome::Failed(stderr) => {
            let mut body = concat("rack: function '", function);
            append(&mut body, "' failed\n");
            append(&mut body, trim_str(stderr.as_str()).as_str());
            FunctionResult { response: plain_text_response(500, body), log_status: 500, log_error: None }
        },
        RunOutcome::Succeeded(stdout) => {
            if str_eq(response_type, "function.response") {
                match parse_function_response(stdout.as_str()) {
                    Some(response) => {
                        let status = response.status;
                        return FunctionResult { response, log_status: status, log_error: None };
                    },
                    None => {},
                }
            }
            FunctionResult { response: plain_text_response(200, stdout), log_status: 200, log_error: None }
        },
    }
}

/// The method and path of an HTTP function request: `GET` and `/` where the
/// payload has none.
pub fn http_request_target(payload: &Json) -> (r: (String, String))
    ensures
        r.0@ == match spec_as_str(spec_get(*payload, "method"@)) {
            Some(m) => m,
            None => "GET"@,
        },
        r.1@ == match spec_as_str(spec_get(*payload, "path"@)) {
            Some(p) => p,
            None => "/"@,
        },
{
    let method = match as_str(get(payload, "method")) {
        Some(m) => owned(m),
        None => "GET".to_string(),
    };
    let path = match as_str(get(payload, "path")) {
        Some(p) => owned(p),
        None => "/".to_string(),
    };
    (method, path)
}

/// The request a cron run is handed: its type `schedule`, the cron's
/// package, id and schedule, and when it was due.
pub fn cron_request(cron: &FunctionCron, scheduled_at: &str) -> (r: Json)
    ensures
        r is Object,
        has_str_member(r, "type"@, "schedule"@),
        has_str_member(r, "package"@, cron.package@),
        has_str_member(r, "id"@, cron.id@),
        has_str_member(r, "schedule"@, cron.schedule@),
        has_str_member(r, "scheduled_at"@, scheduled_at@),
{
    proof {
        reveal_strlit("type");
        reveal_strlit("package");
        reveal_strlit("id");
        reveal_strlit("schedule");
        reveal_strlit("scheduled_at");
    }
    let v0 = Json::Object(Vec::new());
    let v1 = set_member(v0, "type".to_string(), Json::Str("schedule".to_string()));
    let v2 = set_member(v1, "package".to_string(), Json::Str(cron.package.clone()));
    proof {
        assert("package"@.len() != "type"@.len());
        assert(has_str_member(v2, "type"@, "schedule"@));
    }
    let v3 = set_member(v2, "id".to_string(), Json::Str(cron.id.clone()));
    proof {
        assert("id"@.len() != "type"@.len());
        assert("id"@.len() != "package"@.len());
        assert(has_str_member(v3, "type"@, "schedule"@));
        assert(has_str_member(v3, "package"@, cron.package@));
    }
    let v4 = set_member(v3, "schedule".to_string(), Json::Str(cron.schedule.clone()));
    proof {
        assert("schedule"@.len() != "type"@.len());
        assert("schedule"@[0] != "package"@[0]);
        assert("schedule"@.len() != "id"@.len());
        assert(has_str_member(v4, "type"@, "schedule"@));
        assert(has_str_member(v4, "package"@, cron.package@));
        assert(has_str_member(v4, "id"@, cron.id@));
    }
    let v5 = set_member(v4, "scheduled_at".to_string(), Json::Str(owned(scheduled_at)));
    proof {
        assert("scheduled_at"@.len() != "type"@.len());
        assert("scheduled_at"@.len() != "package"@.len());
        assert("scheduled_at"@.len() != "id"@.len());
        assert("scheduled_at"@.len() != "schedule"@.len());
    }
    v5
}

} // verus!
