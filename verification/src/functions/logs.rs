//! Where the log of a function run goes, and the entries that its standard
//! error gives.
use crate::functions::manifest::{join_path, path_join};
use crate::json::{as_bool, as_str, get, parse_json, spec_as_bool, spec_as_str, spec_get, spec_json_parse, Json};
use crate::text::{
    append, chars_of, concat, is_ascii_alnum, lines, owned, split_lines, str_eq, string_of, trim,
    trim_str,
};
use vstd::prelude::*;

verus! {

/// The log a run writes to: its package, whether it is a route or a cron,
/// and the route's or cron's id.
pub struct FunctionLogTarget {
    pub package: String,
    pub kind: String,
    pub id: String,
}

/// The text of a string member, or `unknown`.
pub open spec fn str_or_unknown(value: Option<Json>, key: Seq<char>) -> Seq<char> {
    match value {
        Some(v) => match spec_as_str(spec_get(v, key)) {
            Some(s) => s,
            None => "unknown"@,
        },
        None => "unknown"@,
    }
}

fn member_or_unknown(value: Option<&Json>, key: &str) -> (r: String)
    ensures
        r@ == str_or_unknown(
            match value {
                Some(v) => Some(*v),
                None => None,
            },
            key@,
        ),
{
    match value {
        Some(v) => match as_str(get(v, key)) {
            Some(s) => owned(s),
            None => "unknown".to_string(),
        },
        None => "unknown".to_string(),
    }
}

/// The log of a run: for an HTTP run, the package and id of the request's
/// `route`; for a cron run, the request's own `package` and `id`.
pub fn function_log_target(request: &Json, response_type: &str) -> (r: FunctionLogTarget)
    ensures
        response_type@ == "function.response"@ ==> {
            &&& r.package@ == str_or_unknown(spec_get(*request, "route"@), "package"@)
            &&& r.kind@ == "routes"@
            &&& r.id@ == str_or_unknown(spec_get(*request, "route"@), "id"@)
        },
        response_type@ != "function.response"@ ==> {
            &&& r.package@ == str_or_unknown(Some(*request), "package"@)
            &&& r.kind@ == "crons"@
            &&& r.id@ == str_or_unknown(Some(*request), "id"@)
        },
{
    if str_eq(response_type, "function.response") {
        let route = get(request, "route");
        return FunctionLogTarget {
            package: member_or_unknown(route, "package"),
            kind: "routes".to_string(),
            id: member_or_unknown(route, "id"),
        };
    }
    FunctionLogTarget {
        package: member_or_unknown(Some(request), "package"),
        kind: "crons".to_string(),
        id: member_or_unknown(Some(request), "id"),
    }
}

/// A character kept in a log path component; every other becomes `-`.
pub open spec fn safe_char(c: char) -> char {
    if is_ascii_alnum(c) || c == '-' || c == '_' {
        c
    } else {
        '-'
    }
}

/// `s` without its leading and trailing `-`.
pub open spec fn trim_dashes(s: Seq<char>) -> Seq<char> {
    crate::text::trim_end_char(crate::text::trim_start_char(s, '-'), '-')
}

/// A name made safe to be a directory name: letters, digits, `-` and `_`
/// kept, every other character a `-`, no `-` at either end, and `unknown`
/// for what is left empty.
pub open spec fn safe_component(value: Seq<char>) -> Seq<char> {
    let c = trim_dashes(value.map_values(|ch: char| safe_char(ch)));
    if c.len() == 0 {
        "unknown"@
    } else {
        c
    }
}

/// The safe directory name of a package or id.
pub fn safe_log_component(value: &str) -> (r: String)
    ensures
        r@ == safe_component(value@),
{
    let v = chars_of(value);
    let mut mapped: Vec<char> = Vec::new();
    let mut i: usize = 0;
    while i < v.len()
        invariant
            i <= v.len(),
            v@ == value@,
            mapped@ == value@.take(i as int).map_values(|ch: char| safe_char(ch)),
        decreases v.len() - i,
    {
        let c = v[i];
        let keep = ('a' <= c && c <= 'z') || ('A' <= c && c <= 'Z') || ('0' <= c && c <= '9') || c
            == '-' || c == '_';
        mapped.push(if keep { c } else { '-' });
        i = i + 1;
        assert(mapped@ =~= value@.take(i as int).map_values(|ch: char| safe_char(ch)));
    }
    assert(value@.take(v@.len() as int) =~= value@);
    let text = string_of(&mapped);
    let trimmed = crate::text::trim_end_char_str(
        crate::text::trim_start_char_str(text.as_str(), '-').as_str(),
        '-',
    );
    if chars_of(trimmed.as_str()).len() == 0 {
        "unknown".to_string()
    } else {
        trimmed
    }
}

/// The file a run logs to on a day: under the home directory,
/// `.rack/logs/functions/<package>/<kind>/<id>/<date>.jsonl`, with package
/// and id made safe.
pub open spec fn log_file_path(home: Seq<char>, target_package: Seq<char>, kind: Seq<char>, id: Seq<char>, date: Seq<char>) -> Seq<char> {
    join_path(
        join_path(
            join_path(
                join_path(
                    join_path(join_path(join_path(home, ".rack"@), "logs"@), "functions"@),
                    safe_component(target_package),
                ),
                kind,
            ),
            safe_component(id),
        ),
        date + ".jsonl"@,
    )
}

/// The file a run logs to on a day.
pub fn function_log_path(home: &str, target: &FunctionLogTarget, date: &str) -> (r: String)
    ensures
        r@ == log_file_path(home@, target.package@, target.kind@, target.id@, date@),
{
    let mut p = path_join(home, ".rack");
    p = path_join(p.as_str(), "logs");
    p = path_join(p.as_str(), "functions");
    p = path_join(p.as_str(), safe_log_component(target.package.as_str()).as_str());
    p = path_join(p.as_str(), target.kind.as_str());
    p = path_join(p.as_str(), safe_log_component(target.id.as_str()).as_str());
    let file = concat(date, ".jsonl");
    path_join(p.as_str(), file.as_str())
}

/// One log entry read from a run's standard error.
pub struct LogLine {
    pub level: String,
    pub message: String,
}

/// The entry that one stderr line gives: a JSON object with `rack_log: true`
/// is a structured entry (level `info` and message empty when missing);
/// anything else is logged as it is, at level `stderr`.
pub open spec fn log_line_of(line: Seq<char>) -> (Seq<char>, Seq<char>) {
    match spec_json_parse(line) {
        Some(v) if spec_as_bool(spec_get(v, "rack_log"@)) == Some(true) => (
            match spec_as_str(spec_get(v, "level"@)) {
                Some(l) => l,
                None => "info"@,
            },
            match spec_as_str(spec_get(v, "message"@)) {
                Some(m) => m,
                None => seq![],
            },
        ),
        _ => ("stderr"@, line),
    }
}

/// The trimmed non-empty lines of a text, in order.
pub open spec fn nonempty_trimmed(ls: Seq<Seq<char>>) -> Seq<Seq<char>>
    decreases ls.len(),
{
    if ls.len() == 0 {
        seq![]
    } else {
        nonempty_trimmed(ls.drop_last()) + if trim(ls.last()).len() == 0 {
            seq![]
        } else {
            seq![trim(ls.last())]
        }
    }
}

fn log_line(line: &str) -> (r: LogLine)
    ensures
        (r.level@, r.message@) == log_line_of(line@),
{
    if let Some(v) = parse_json(line) {
        if let Some(true) = as_bool(get(&v, "rack_log")) {
            let level = match as_str(get(&v, "level")) {
                Some(l) => owned(l),
                None => "info".to_string(),
            };
            let message = match as_str(get(&v, "message")) {
                Some(m) => owned(m),
                None => String::new(),
            };
            return LogLine { level, message };
        }
    }
    LogLine { level: "stderr".to_string(), message: owned(line) }
}

/// The log entries that a run's standard error gives, one per non-empty
/// line, each line trimmed.
pub fn stderr_log_lines(stderr: &str) -> (r: Vec<LogLine>)
    ensures
        r@.len() == nonempty_trimmed(lines(stderr@)).len(),
        forall|i: int|
            0 <= i < r@.len() ==> ((#[trigger] r@[i]).level@, r@[i].message@) == log_line_of(
                nonempty_trimmed(lines(stderr@))[i],
            ),
{
    let all = split_lines(stderr);
    let ghost ls = lines(stderr@);
    let mut out: Vec<LogLine> = Vec::new();
    let mut i: usize = 0;
    while i < all.len()
        invariant
            i <= all@.len(),
            all@.map_values(|l: String| l@) == ls,
            out@.len() == nonempty_trimmed(ls.take(i as int)).len(),
            forall|k: int|
                0 <= k < out@.len() ==> ((#[trigger] out@[k]).level@, out@[k].message@)
                    == log_line_of(nonempty_trimmed(ls.take(i as int))[k]),
        decreases all.len() - i,
    {
        proof {
            assert(ls.take(i + 1).drop_last() =~= ls.take(i as int));
            assert(ls.take(i + 1).last() == all@[i as int]@);
        }
        let trimmed = trim_str(all[i].as_str());
        if chars_of(trimmed.as_str()).len() > 0 {
            out.push(log_line(trimmed.as_str()));
        }
        i = i + 1;
    }
    assert(ls.take(all@.len() as int) =~= ls);
    out
}

} // verus!
