//! The command lines: what `rack` and `rack-bridge` are asked to do, the
//! names and requests the command line makes, and the listings it prints.
use crate::functions::manifest::{Manifest, ManifestCron, ManifestRoute};
use crate::functions::routing::{normalize_route_path, normalized_route_path};
use crate::json::{as_str, get, parse_json_text, spec_as_str, spec_get, spec_json_result, Json};
use crate::text::{
    after_last, after_last_char, append, chars_of, concat, is_ascii_alnum, owned, parse_unsigned,
    parse_unsigned_str, lowercase, uppercase, str_eq, string_of, to_lowercase,
    to_uppercase, trim_end_char, trim_end_matches_str, trim_end_str, trim_start_char,
};
use vstd::prelude::*;

verus! {

pub open spec fn strs(v: Seq<String>) -> Seq<Seq<char>> {
    v.map_values(|s: String| s@)
}

// ---------------------------------------------------------------------------
// rack-bridge's arguments.
/// What `rack-bridge` is asked to run: the socket to serve, the port of the
/// backend, and the command with its arguments.
pub struct BridgeArgs {
    pub socket_path: String,
    pub port: u16,
    pub command: String,
    pub command_args: Vec<String>,
}

pub open spec fn usage_text() -> Seq<char> {
    "usage: rack-bridge --socket <path> --port <n> -- <command> [args...]"@
}

/// Reading the arguments from position `i` on, with the socket and port
/// read so far.
pub open spec fn bridge_parse(raw: Seq<Seq<char>>, i: int, socket: Option<Seq<char>>, port: Option<u16>) -> Result<
    (Seq<char>, u16, Seq<char>, Seq<Seq<char>>),
    Seq<char>,
>
    decreases raw.len() - i,
{
    if i < 0 || i >= raw.len() {
        Err(usage_text())
    } else if raw[i] == "--socket"@ {
        if i + 1 >= raw.len() {
            Err("--socket needs a value"@)
        } else {
            bridge_parse(raw, i + 2, Some(raw[i + 1]), port)
        }
    } else if raw[i] == "--port"@ {
        if i + 1 >= raw.len() {
            Err("--port needs a value"@)
        } else {
            match parse_unsigned(raw[i + 1], 65535) {
                None => Err("--port must be a number"@),
                Some(p) => bridge_parse(raw, i + 2, socket, Some(p as u16)),
            }
        }
    } else if raw[i] == "--"@ {
        let rest = raw.skip(i + 1);
        match socket {
            None => Err("--socket is required"@),
            Some(s) => match port {
                None => Err("--port is required"@),
                Some(p) => if rest.len() == 0 {
                    Err("command is required after --"@)
                } else {
                    Ok((s, p, rest[0], rest.skip(1)))
                },
            },
        }
    } else {
        Err("unknown argument: "@ + raw[i])
    }
}

/// Reads `rack-bridge`'s arguments (without the program name).
pub fn parse_bridge_args(raw: &Vec<String>) -> (r: Result<BridgeArgs, String>)
    ensures
        match bridge_parse(strs(raw@), 0, None, None) {
            Ok((s, p, c, a)) => r matches Ok(x) && x.socket_path@ == s && x.port == p && x.command@
                == c && strs(x.command_args@) == a,
            Err(e) => r matches Err(m) && m@ == e,
        },
{
    let ghost rs = strs(raw@);
    let mut socket: Option<String> = None;
    let mut port: Option<u16> = None;
    let mut i: usize = 0;
    while i < raw.len()
        invariant
            i <= raw@.len(),
            rs == strs(raw@),
            bridge_parse(rs, 0, None, None) == bridge_parse(
                rs,
                i as int,
                match socket {
                    Some(s) => Some(s@),
                    None => None,
                },
                port,
            ),
        decreases raw.len() - i,
    {
        let arg = raw[i].as_str();
        assert(rs[i as int] == arg@);
        if str_eq(arg, "--socket") {
            if i + 1 >= raw.len() {
                return Err("--socket needs a value".to_string());
            }
            assert(rs[i + 1] == raw@[i + 1]@);
            socket = Some(raw[i + 1].clone());
            i = i + 2;
        } else if str_eq(arg, "--port") {
            if i + 1 >= raw.len() {
                return Err("--port needs a value".to_string());
            }
            assert(rs[i + 1] == raw@[i + 1]@);
            match parse_unsigned_str(raw[i + 1].as_str(), 65535) {
                Some(p) => {
                    port = Some(p as u16);
                },
                None => {
                    return Err("--port must be a number".to_string());
                },
            }
            i = i + 2;
        } else if str_eq(arg, "--") {
            let s = match socket {
                Some(s) => s,
                None => {
                    return Err("--socket is required".to_string());
                },
            };
            let p = match port {
                Some(p) => p,
                None => {
                    return Err("--port is required".to_string());
                },
            };
            if i + 1 >= raw.len() {
                return Err("command is required after --".to_string());
            }
            let command = raw[i + 1].clone();
            let mut command_args: Vec<String> = Vec::new();
            let mut k: usize = i + 2;
            while k < raw.len()
                invariant
                    i + 2 <= k <= raw@.len(),
                    rs == strs(raw@),
                    strs(command_args@) == rs.subrange(i + 2, k as int),
                decreases raw.len() - k,
            {
                let ghost before = command_args@;
                let c = raw[k].clone();
                assert(c@ == rs[k as int]);
                command_args.push(c);
                assert(strs(command_args@) =~= strs(before).push(c@));
                assert(strs(command_args@) =~= rs.subrange(i + 2, k + 1));
                k = k + 1;
            }
            proof {
                assert(rs.skip(i + 1)[0] == command@);
                assert(rs.skip(i + 1).skip(1) =~= rs.subrange(i + 2, raw@.len() as int));
            }
            return Ok(BridgeArgs { socket_path: s, port: p, command, command_args });
        } else {
            return Err(concat("unknown argument: ", arg));
        }
    }
    Err(usage_text_string())
}

fn usage_text_string() -> (r: String)
    ensures
        r@ == usage_text(),
{
    "usage: rack-bridge --socket <path> --port <n> -- <command> [args...]".to_string()
}

// ---------------------------------------------------------------------------
// rack's commands.
/// What `rack` is asked to do.
pub enum CliCommand {
    Dev,
    List,
    Start(String),
    Stop(String),
    Remove(String),
    /// A `fn` subcommand, with the arguments after `fn`.
    Function(Vec<String>),
    Usage,
    /// A command that lacks its argument; the text says how to use it.
    Misused(String),
}

pub open spec fn cli_command_of(args: Seq<Seq<char>>) -> CliCommandView {
    if args.len() == 0 {
        CliCommandView::Usage
    } else if args[0] == "dev"@ {
        CliCommandView::Dev
    } else if args[0] == "ls"@ || args[0] == "list"@ {
        CliCommandView::List
    } else if args[0] == "start"@ {
        if args.len() > 1 {
            CliCommandView::Start(args[1])
        } else {
            CliCommandView::Misused("Usage: rack start <name>"@)
        }
    } else if args[0] == "stop"@ {
        if args.len() > 1 {
            CliCommandView::Stop(args[1])
        } else {
            CliCommandView::Misused("Usage: rack stop <name>"@)
        }
    } else if args[0] == "rm"@ || args[0] == "remove"@ {
        if args.len() > 1 {
            CliCommandView::Remove(args[1])
        } else {
            CliCommandView::Misused("Usage: rack rm <name>"@)
        }
    } else if args[0] == "fn"@ {
        CliCommandView::Function(args.skip(1))
    } else {
        CliCommandView::Usage
    }
}

pub enum CliCommandView {
    Dev,
    List,
    Start(Seq<char>),
    Stop(Seq<char>),
    Remove(Seq<char>),
    Function(Seq<Seq<char>>),
    Usage,
    Misused(Seq<char>),
}

impl View for CliCommand {
    type V = CliCommandView;

    open spec fn view(&self) -> CliCommandView {
        match self {
            CliCommand::Dev => CliCommandView::Dev,
            CliCommand::List => CliCommandView::List,
            CliCommand::Start(n) => CliCommandView::Start(n@),
            CliCommand::Stop(n) => CliCommandView::Stop(n@),
            CliCommand::Remove(n) => CliCommandView::Remove(n@),
            CliCommand::Function(a) => CliCommandView::Function(strs(a@)),
            CliCommand::Usage => CliCommandView::Usage,
            CliCommand::Misused(m) => CliCommandView::Misused(m@),
        }
    }
}

fn tail(args: &Vec<String>, from: usize) -> (r: Vec<String>)
    requires
        from <= args@.len(),
    ensures
        strs(r@) == strs(args@).skip(from as int),
{
    let mut out: Vec<String> = Vec::new();
    let mut k = from;
    while k < args.len()
        invariant
            from <= k <= args@.len(),
            strs(out@) == strs(args@).subrange(from as int, k as int),
        decreases args.len() - k,
    {
        let ghost before = out@;
        let c = args[k].clone();
        assert(c@ == strs(args@)[k as int]);
        out.push(c);
        assert(strs(out@) =~= strs(before).push(c@));
        assert(strs(out@) =~= strs(args@).subrange(from as int, k + 1));
        k = k + 1;
    }
    assert(strs(args@).subrange(from as int, args@.len() as int) =~= strs(args@).skip(from as int));
    out
}

/// Reads `rack`'s arguments (without the program name).
pub fn cli_command(args: &Vec<String>) -> (r: CliCommand)
    ensures
        r@ == cli_command_of(strs(args@)),
{
    let ghost a = strs(args@);
    if args.len() == 0 {
        return CliCommand::Usage;
    }
    let first = args[0].as_str();
    assert(a[0] == first@);
    if args.len() > 1 {
        assert(a[1] == args@[1]@);
    }
    if str_eq(first, "dev") {
        CliCommand::Dev
    } else if str_eq(first, "ls") || str_eq(first, "list") {
        CliCommand::List
    } else if str_eq(first, "start") {
        if args.len() > 1 {
            CliCommand::Start(args[1].clone())
        } else {
            CliCommand::Misused("Usage: rack start <name>".to_string())
        }
    } else if str_eq(first, "stop") {
        if args.len() > 1 {
            CliCommand::Stop(args[1].clone())
        } else {
            CliCommand::Misused("Usage: rack stop <name>".to_string())
        }
    } else if str_eq(first, "rm") || str_eq(first, "remove") {
        if args.len() > 1 {
            CliCommand::Remove(args[1].clone())
        } else {
            CliCommand::Misused("Usage: rack rm <name>".to_string())
        }
    } else if str_eq(first, "fn") {
        CliCommand::Function(tail(args, 1))
    } else {
        CliCommand::Usage
    }
}

// ---------------------------------------------------------------------------
// `rack fn`'s subcommands.
/// What `rack fn` is asked to do.
pub enum FunctionCommand {
    Add(Option<String>),
    Build(Option<String>),
    Init(Option<String>),
    Test(Vec<String>),
    Install { path: Option<String>, replace: bool, link: bool },
    List,
    Remove(String),
    Misused(String),
}

/// The first argument after the first that is none of the given flags.
pub open spec fn first_path(args: Seq<Seq<char>>, flags: Seq<Seq<char>>) -> Option<Seq<char>> {
    if exists|i: int| 1 <= i < args.len() && !flags.contains(#[trigger] args[i]) {
        Some(
            args[choose|i: int|
                1 <= i < args.len() && !flags.contains(#[trigger] args[i]) && forall|j: int|
                    1 <= j < i ==> flags.contains(args[j])],
        )
    } else {
        None
    }
}

fn is_flag(arg: &str, flags: &Vec<&str>) -> (r: bool)
    ensures
        r == flags@.map_values(|f: &str| f@).contains(arg@),
{
    let ghost fs = flags@.map_values(|f: &str| f@);
    let mut k: usize = 0;
    while k < flags.len()
        invariant
            k <= flags@.len(),
            fs == flags@.map_values(|f: &str| f@),
            forall|j: int| 0 <= j < k ==> fs[j] != arg@,
        decreases flags.len() - k,
    {
        if str_eq(arg, flags[k]) {
            assert(fs[k as int] == arg@);
            return true;
        }
        k = k + 1;
    }
    false
}

fn find_path(args: &Vec<String>, flags: &Vec<&str>) -> (r: Option<String>)
    ensures
        crate::proxy::opt_seq(r) == first_path(strs(args@), flags@.map_values(|f: &str| f@)),
{
    let ghost a = strs(args@);
    let ghost fs = flags@.map_values(|f: &str| f@);
    let mut i: usize = 1;
    while i < args.len()
        invariant
            1 <= i,
            a == strs(args@),
            fs == flags@.map_values(|f: &str| f@),
            forall|j: int| 1 <= j < i && j < a.len() ==> fs.contains(a[j]),
        decreases args.len() - i,
    {
        assert(a[i as int] == args@[i as int]@);
        if !is_flag(args[i].as_str(), flags) {
            proof {
                let k = choose|k: int|
                    1 <= k < a.len() && !fs.contains(#[trigger] a[k]) && forall|j: int|
                        1 <= j < k ==> fs.contains(a[j]);
                if k < i {
                } else if k > i {
                }
                assert(k == i);
            }
            return Some(args[i].clone());
        }
        i = i + 1;
    }
    None
}

/// Whether any argument is `flag`.
pub fn has_arg(args: &Vec<String>, flag: &str) -> (r: bool)
    ensures
        r == strs(args@).contains(flag@),
{
    let mut i: usize = 0;
    while i < args.len()
        invariant
            i <= args@.len(),
            forall|j: int| 0 <= j < i ==> strs(args@)[j] != flag@,
        decreases args.len() - i,
    {
        if str_eq(args[i].as_str(), flag) {
            assert(strs(args@)[i as int] == flag@);
            return true;
        }
        i = i + 1;
    }
    false
}

fn second(args: &Vec<String>) -> (r: Option<String>)
    ensures
        crate::proxy::opt_seq(r) == (if args@.len() > 1 {
            Some(args@[1]@)
        } else {
            None
        }),
{
    if args.len() > 1 {
        Some(args[1].clone())
    } else {
        None
    }
}

/// Reads the arguments of `rack fn`: `add`, `build`/`compile`, `init`,
/// `test`, `install` (with `--replace` and `--link`), `ls`/`list`,
/// `rm`/`remove`/`uninstall`; anything else installs the package at the
/// path given first.
pub fn function_command(args: &Vec<String>) -> (r: FunctionCommand)
    ensures
        ({
            let a = strs(args@);
            let first = if a.len() > 0 {
                Some(a[0])
            } else {
                None
            };
            let second = if a.len() > 1 {
                Some(a[1])
            } else {
                None
            };
            if first == Some("add"@) {
                r matches FunctionCommand::Add(p) && crate::proxy::opt_seq(p) == first_path(
                    a,
                    seq!["--replace"@],
                )
            } else if first == Some("build"@) || first == Some("compile"@) {
                r matches FunctionCommand::Build(p) && crate::proxy::opt_seq(p) == second
            } else if first == Some("init"@) {
                r matches FunctionCommand::Init(p) && crate::proxy::opt_seq(p) == second
            } else if first == Some("test"@) {
                r matches FunctionCommand::Test(rest) && strs(rest@) == a.skip(1)
            } else if first == Some("install"@) {
                r matches FunctionCommand::Install { path, replace, link } && crate::proxy::opt_seq(
                    path,
                ) == first_path(a, seq!["--replace"@, "--link"@]) && replace == a.contains(
                    "--replace"@,
                ) && link == a.contains("--link"@)
            } else if first == Some("ls"@) || first == Some("list"@) {
                r is List
            } else if first == Some("rm"@) || first == Some("remove"@) || first == Some(
                "uninstall"@,
            ) {
                match second {
                    Some(n) => r matches FunctionCommand::Remove(x) && x@ == n,
                    None => r matches FunctionCommand::Misused(m) && m@ == "Usage: rack fn rm <name>"@,
                }
            } else {
                r matches FunctionCommand::Install { path, replace, link } && crate::proxy::opt_seq(
                    path,
                ) == first && !replace && !link
            }
        }),
{
    let ghost a = strs(args@);
    if args.len() == 0 {
        return FunctionCommand::Install { path: None, replace: false, link: false };
    }
    let first = args[0].as_str();
    assert(a[0] == first@);
    if str_eq(first, "add") {
        let flags = vec!["--replace"];
        assert(flags@.map_values(|f: &str| f@) =~= seq!["--replace"@]);
        FunctionCommand::Add(find_path(args, &flags))
    } else if str_eq(first, "build") || str_eq(first, "compile") {
        FunctionCommand::Build(second(args))
    } else if str_eq(first, "init") {
        FunctionCommand::Init(second(args))
    } else if str_eq(first, "test") {
        FunctionCommand::Test(tail(args, 1))
    } else if str_eq(first, "install") {
        let flags = vec!["--replace", "--link"];
        assert(flags@.map_values(|f: &str| f@) =~= seq!["--replace"@, "--link"@]);
        FunctionCommand::Install {
            path: find_path(args, &flags),
            replace: has_arg(args, "--replace"),
            link: has_arg(args, "--link"),
        }
    } else if str_eq(first, "ls") || str_eq(first, "list") {
        FunctionCommand::List
    } else if str_eq(first, "rm") || str_eq(first, "remove") || str_eq(first, "uninstall") {
        match second(args) {
            Some(n) => FunctionCommand::Remove(n),
            None => FunctionCommand::Misused("Usage: rack fn rm <name>".to_string()),
        }
    } else {
        FunctionCommand::Install { path: Some(args[0].clone()), replace: false, link: false }
    }
}

/// The path and function of `rack fn test`: none, a directory, a function
/// name, or a path and a function name (further arguments ignored).
pub fn parse_function_test_args(args: &Vec<String>, first_is_dir: bool) -> (r: (Option<String>, Option<String>))
    ensures
        args@.len() == 0 ==> r.0 is None && r.1 is None,
        args@.len() == 1 && first_is_dir ==> crate::proxy::opt_seq(r.0) == Some(args@[0]@) && r.1 is None,
        args@.len() == 1 && !first_is_dir ==> r.0 is None && crate::proxy::opt_seq(r.1) == Some(args@[0]@),
        args@.len() >= 2 ==> crate::proxy::opt_seq(r.0) == Some(args@[0]@) && crate::proxy::opt_seq(r.1)
            == Some(args@[1]@),
{
    if args.len() == 0 {
        (None, None)
    } else if args.len() == 1 {
        if first_is_dir {
            (Some(args[0].clone()), None)
        } else {
            (None, Some(args[0].clone()))
        }
    } else {
        (Some(args[0].clone()), Some(args[1].clone()))
    }
}

/// The request `rack fn test` sends to a function.
pub enum TestRequest {
    /// An HTTP request with this method and path (also its URI), no headers
    /// and an empty body.
    Http { method: String, path: String },
    /// A scheduled run of a cron, as if due at the epoch.
    Cron { package: String, id: String, schedule: String, scheduled_at: String },
}

/// What `rack fn test` runs: a named function with a `GET /` request, else
/// the package's first route, else its first cron.
pub fn function_test_request(manifest: &Manifest, function_override: Option<&str>) -> (r: Result<
    (String, TestRequest),
    String,
>)
    ensures
        function_override matches Some(f) ==> (r matches Ok((fun, TestRequest::Http { method, path }))
            && fun@ == f@ && method@ == "GET"@ && path@ == "/"@),
        function_override is None && manifest.routes@.len() > 0 ==> (r matches Ok(
            (fun, TestRequest::Http { method, path }),
        ) && fun@ == manifest.routes@[0].1.function@ && method@ == uppercase(
            manifest.routes@[0].1.method@,
        ) && path@ == normalized_route_path(manifest.routes@[0].1.path@)),
        function_override is None && manifest.routes@.len() == 0 && manifest.crons@.len() > 0 ==> (
        r matches Ok((fun, TestRequest::Cron { package, id, schedule, scheduled_at })) && fun@
            == manifest.crons@[0].1.function@ && package@ == manifest.name@ && id@
            == manifest.crons@[0].0@ && schedule@ == manifest.crons@[0].1.schedule@ && scheduled_at@
            == "1970-01-01T00:00:00+00:00"@),
        function_override is None && manifest.routes@.len() == 0 && manifest.crons@.len() == 0 ==> (
        r matches Err(m) && m@ == "manifest has no routes or crons to test"@),
{
    if let Some(f) = function_override {
        return Ok((owned(f), TestRequest::Http { method: "GET".to_string(), path: "/".to_string() }));
    }
    if manifest.routes.len() > 0 {
        let route = &manifest.routes[0].1;
        return Ok(
            (
                route.function.clone(),
                TestRequest::Http {
                    method: to_uppercase(route.method.as_str()),
                    path: normalize_route_path(route.path.as_str()),
                },
            ),
        );
    }
    if manifest.crons.len() > 0 {
        let (id, cron) = &manifest.crons[0];
        return Ok(
            (
                cron.function.clone(),
                TestRequest::Cron {
                    package: manifest.name.clone(),
                    id: id.clone(),
                    schedule: cron.schedule.clone(),
                    scheduled_at: "1970-01-01T00:00:00+00:00".to_string(),
                },
            ),
        );
    }
    Err("manifest has no routes or crons to test".to_string())
}

// ---------------------------------------------------------------------------
// Names.
/// One step of making a function name: an ASCII letter or digit is kept,
/// a run of anything else becomes one `-`.
pub open spec fn dashed(s: Seq<char>) -> (Seq<char>, bool)
    decreases s.len(),
{
    if s.len() == 0 {
        (seq![], false)
    } else {
        let (out, previous_dash) = dashed(s.drop_last());
        if is_ascii_alnum(s.last()) {
            (out.push(s.last()), false)
        } else if !previous_dash {
            (out.push('-'), true)
        } else {
            (out, true)
        }
    }
}

/// A name fit for a function package: lower case, letters and digits kept,
/// each run of other characters one `-`, no `-` at either end, and
/// `rack-function` when nothing is left.
pub open spec fn cli_sanitized(value: Seq<char>) -> Seq<char> {
    let t = trim_end_char(trim_start_char(dashed(lowercase(value)).0, '-'), '-');
    if t.len() == 0 {
        "rack-function"@
    } else {
        t
    }
}

/// Makes a name fit for a function package. Lower case is taken of the
/// whole text; where that differs from lowering each character apart (a
/// final capital sigma), both give a character that becomes `-`.
pub fn sanitize_name(value: &str) -> (r: String)
    ensures
        r@ == cli_sanitized(value@),
{
    let lower = to_lowercase(value);
    let v = chars_of(lower.as_str());
    let mut out: Vec<char> = Vec::new();
    let mut previous_dash = false;
    let mut i: usize = 0;
    assert(v@.take(0) =~= Seq::<char>::empty());
    while i < v.len()
        invariant
            i <= v@.len(),
            (out@, previous_dash) == dashed(v@.take(i as int)),
        decreases v.len() - i,
    {
        let c = v[i];
        proof {
            assert(v@.take(i + 1).drop_last() =~= v@.take(i as int));
            assert(v@.take(i + 1).last() == c);
        }
        if ('a' <= c && c <= 'z') || ('A' <= c && c <= 'Z') || ('0' <= c && c <= '9') {
            out.push(c);
            previous_dash = false;
        } else if !previous_dash {
            out.push('-');
            previous_dash = true;
        }
        i = i + 1;
    }
    assert(v@.take(v@.len() as int) =~= v@);
    let text = string_of(&out);
    let trimmed = crate::text::trim_end_char_str(crate::text::trim_start_char_str(text.as_str(), '-').as_str(), '-');
    if chars_of(trimmed.as_str()).len() == 0 {
        "rack-function".to_string()
    } else {
        trimmed
    }
}

/// The name `rack dev` registers a project under: from the git remote when
/// `git remote get-url origin` succeeded (its last segment, without any
/// `.git` ending, when not empty), else from the `name` of `package.json`
/// (after any scope), else the directory's name, else `project`.
pub open spec fn cli_name_of(dir_name: Option<Seq<char>>, remote: Option<Seq<char>>, package_json: Option<Seq<char>>) -> Seq<char> {
    let from_dir = match dir_name {
        Some(n) => n,
        None => "project"@,
    };
    let base = match remote {
        Some(r) => if after_last(r, '/').len() > 0 {
            trim_end_str(after_last(r, '/'), ".git"@)
        } else {
            from_dir
        },
        None => match package_json {
            Some(source) => match spec_json_result(source) {
                Ok(json) => match spec_as_str(spec_get(json, "name"@)) {
                    Some(name) => after_last(name, '/'),
                    None => from_dir,
                },
                Err(_) => from_dir,
            },
            None => from_dir,
        },
    };
    cli_sanitized(base)
}

/// The name `rack dev` registers a project under, from the directory's
/// name, the trimmed output of `git remote get-url origin` when it
/// succeeded, and the text of `package.json` when it could be read.
pub fn infer_cli_name(dir_name: Option<&str>, remote: Option<&str>, package_json: Option<&str>) -> (r: String)
    ensures
        r@ == cli_name_of(
            match dir_name {
                Some(x) => Some(x@),
                None => None,
            },
            match remote {
                Some(x) => Some(x@),
                None => None,
            },
            match package_json {
                Some(x) => Some(x@),
                None => None,
            },
        ),
{
    let from_dir = match dir_name {
        Some(n) => owned(n),
        None => "project".to_string(),
    };
    let base = match remote {
        Some(r) => {
            let last = after_last_char(r, '/');
            if chars_of(last.as_str()).len() > 0 {
                trim_end_matches_str(last.as_str(), ".git")
            } else {
                from_dir
            }
        },
        None => match package_json {
            Some(source) => match parse_json_text(source) {
                Ok(json) => match as_str(get(&json, "name")) {
                    Some(name) => after_last_char(name, '/'),
                    None => from_dir,
                },
                Err(_) => from_dir,
            },
            None => from_dir,
        },
    };
    sanitize_name(base.as_str())
}

// ---------------------------------------------------------------------------
// Cargo metadata.
/// Whether a JSON value is the string `text`.
pub open spec fn is_text(v: Json, text: Seq<char>) -> bool {
    v matches Json::Str(s) && s@ == text
}

/// Whether a JSON array holds the string `text`.
pub open spec fn array_has_text(value: Option<Json>, text: Seq<char>) -> bool {
    value matches Some(Json::Array(items)) && exists|i: int|
        0 <= i < items@.len() && is_text(#[trigger] items@[i], text)
}

/// Whether a cargo target builds a `cdylib`.
pub open spec fn is_cdylib(target: Json) -> bool {
    array_has_text(spec_get(target, "crate_types"@), "cdylib"@) || array_has_text(
        spec_get(target, "kind"@),
        "cdylib"@,
    )
}

fn has_text(value: Option<&Json>, text: &str) -> (r: bool)
    ensures
        r == array_has_text(crate::json::opt_json(value), text@),
{
    match value {
        Some(Json::Array(items)) => {
            let mut i: usize = 0;
            while i < items.len()
                invariant
                    i <= items@.len(),
                    crate::json::opt_json(value) == Some(Json::Array(*items)),
                    forall|j: int| 0 <= j < i ==> !is_text(#[trigger] items@[j], text@),
                decreases items.len() - i,
            {
                match &items[i] {
                    Json::Str(s) => {
                        if str_eq(s.as_str(), text) {
                            assert(is_text(items@[i as int], text@));
                            assert(crate::json::opt_json(value) matches Some(Json::Array(its)) && its@ == items@);
                            assert(array_has_text(crate::json::opt_json(value), text@));
                            return true;
                        }
                    },
                    _ => {},
                }
                i = i + 1;
            }
            false
        },
        _ => false,
    }
}

/// The first `cdylib` target with a string name, as an index.
pub open spec fn first_cdylib(targets: Seq<Json>) -> Option<int> {
    if exists|i: int| 0 <= i < targets.len() && named_cdylib(#[trigger] targets[i]) {
        Some(
            choose|i: int|
                0 <= i < targets.len() && named_cdylib(#[trigger] targets[i]) && forall|j: int|
                    0 <= j < i ==> !named_cdylib(targets[j]),
        )
    } else {
        None
    }
}

/// The name of the wasm library a function package builds, from `cargo
/// metadata` output: its first package's first `cdylib` target, else the
/// package's name.
pub open spec fn cdylib_name_of(metadata: Seq<char>) -> Result<Seq<char>, Seq<char>> {
    match spec_json_result(metadata) {
        Err(e) => Err(e),
        Ok(json) => match spec_get(json, "packages"@) {
            Some(Json::Array(packages)) if packages@.len() > 0 => {
                let package = packages@[0];
                let from_targets = match spec_get(package, "targets"@) {
                    Some(Json::Array(targets)) => match first_cdylib(targets@) {
                        Some(i) => spec_as_str(spec_get(targets@[i], "name"@)),
                        None => None,
                    },
                    _ => None,
                };
                match from_targets {
                    Some(n) => Ok(n),
                    None => match spec_as_str(spec_get(package, "name"@)) {
                        Some(n) => Ok(n),
                        None => Err("Cargo.toml must include a package name"@),
                    },
                }
            },
            _ => Err("could not read cargo metadata"@),
        },
    }
}

/// A target that builds a `cdylib` and has a string name.
pub open spec fn named_cdylib(target: Json) -> bool {
    is_cdylib(target) && spec_as_str(spec_get(target, "name"@)) is Some
}

fn cdylib_target_name(target: &Json) -> (r: Option<String>)
    ensures
        r is Some <==> named_cdylib(*target),
        r matches Some(n) ==> spec_as_str(spec_get(*target, "name"@)) == Some(n@),
{
    let cdylib = has_text(get(target, "crate_types"), "cdylib") || has_text(get(target, "kind"), "cdylib");
    if cdylib {
        match as_str(get(target, "name")) {
            Some(name) => Some(owned(name)),
            None => None,
        }
    } else {
        None
    }
}

#[verifier::spinoff_prover]
proof fn lemma_first_cdylib(targets: Seq<Json>, i: int)
    requires
        0 <= i < targets.len(),
        named_cdylib(targets[i]),
        forall|j: int| 0 <= j < i ==> !named_cdylib(#[trigger] targets[j]),
    ensures
        first_cdylib(targets) == Some(i),
{
    let k = choose|k: int|
        0 <= k < targets.len() && named_cdylib(#[trigger] targets[k]) && forall|j: int|
            0 <= j < k ==> !named_cdylib(targets[j]);
    if k > i {
        assert(!named_cdylib(targets[i]));
    } else if k < i {
        assert(!named_cdylib(targets[k]));
    }
}

fn target_name(targets: &Vec<Json>) -> (r: Option<String>)
    ensures
        crate::proxy::opt_seq(r) == match first_cdylib(targets@) {
            Some(i) => spec_as_str(spec_get(targets@[i], "name"@)),
            None => None,
        },
{
    let mut i: usize = 0;
    while i < targets.len()
        invariant
            i <= targets@.len(),
            forall|j: int| 0 <= j < i ==> !named_cdylib(#[trigger] targets@[j]),
        decreases targets.len() - i,
    {
        if let Some(name) = cdylib_target_name(&targets[i]) {
            proof {
                lemma_first_cdylib(targets@, i as int);
            }
            return Some(name);
        }
        i = i + 1;
    }
    proof {
        if first_cdylib(targets@) is Some {
            let k = choose|k: int| 0 <= k < targets@.len() && named_cdylib(#[trigger] targets@[k]);
            assert(!named_cdylib(targets@[k]));
        }
    }
    None
}

/// The name of the wasm library a function package builds.
pub fn cargo_cdylib_target_name(metadata: &str) -> (r: Result<String, String>)
    ensures
        match cdylib_name_of(metadata@) {
            Ok(n) => r matches Ok(x) && x@ == n,
            Err(e) => r matches Err(x) && x@ == e,
        },
{
    let json = match parse_json_text(metadata) {
        Ok(j) => j,
        Err(e) => {
            return Err(e);
        },
    };
    let package = match get(&json, "packages") {
        Some(Json::Array(packages)) => {
            if packages.len() == 0 {
                return Err("could not read cargo metadata".to_string());
            }
            &packages[0]
        },
        _ => {
            return Err("could not read cargo metadata".to_string());
        },
    };
    let from_targets = match get(package, "targets") {
        Some(Json::Array(targets)) => target_name(targets),
        _ => None,
    };
    match from_targets {
        Some(n) => Ok(n),
        None => match as_str(get(package, "name")) {
            Some(n) => Ok(owned(n)),
            None => Err("Cargo.toml must include a package name".to_string()),
        },
    }
}

// ---------------------------------------------------------------------------
// Listings.
/// The number of bytes of a character in UTF-8.
pub open spec fn utf8_len(c: char) -> nat {
    if (c as u32) < 0x80 {
        1
    } else if (c as u32) < 0x800 {
        2
    } else if (c as u32) < 0x10000 {
        3
    } else {
        4
    }
}

/// The number of bytes of a text in UTF-8; `str::len`.
pub open spec fn byte_len(s: Seq<char>) -> nat
    decreases s.len(),
{
    if s.len() == 0 {
        0
    } else {
        byte_len(s.drop_last()) + utf8_len(s.last())
    }
}

proof fn lemma_byte_len_bound(s: Seq<char>)
    ensures
        byte_len(s) <= 4 * s.len(),
    decreases s.len(),
{
    if s.len() > 0 {
        lemma_byte_len_bound(s.drop_last());
    }
}

/// The length in bytes of a text.
pub fn text_byte_len(s: &str) -> (r: usize)
    requires
        4 * s@.len() <= usize::MAX,
    ensures
        r == byte_len(s@),
{
    let v = chars_of(s);
    let mut n: usize = 0;
    let mut i: usize = 0;
    assert(s@.take(0) =~= Seq::<char>::empty());
    while i < v.len()
        invariant
            i <= v@.len(),
            v@ == s@,
            4 * s@.len() <= usize::MAX,
            n == byte_len(s@.take(i as int)),
        decreases v.len() - i,
    {
        proof {
            assert(s@.take(i + 1).drop_last() =~= s@.take(i as int));
            lemma_byte_len_bound(s@.take(i as int));
        }
        let u = v[i] as u32;
        let w: usize = if u < 0x80 {
            1
        } else if u < 0x800 {
            2
        } else if u < 0x10000 {
            3
        } else {
            4
        };
        n = n + w;
        i = i + 1;
    }
    assert(s@.take(v@.len() as int) =~= s@);
    n
}

/// `format!("{:<width$}", s)`: the text followed by spaces up to `width`
/// characters.
pub open spec fn padded(s: Seq<char>, width: nat) -> Seq<char> {
    if s.len() < width {
        s + Seq::new((width - s.len()) as nat, |i: int| ' ')
    } else {
        s
    }
}

pub fn pad_to(s: &str, width: usize) -> (r: String)
    ensures
        r@ == padded(s@, width as nat),
{
    let mut r = owned(s);
    let n = chars_of(s).len();
    let mut k = n;
    assert(r@ =~= s@ + Seq::new((k - n) as nat, |i: int| ' '));
    while k < width
        invariant
            n == s@.len(),
            n <= k,
            n < width ==> k <= width,
            n >= width ==> k == n,
            r@ == s@ + Seq::new((k - n) as nat, |i: int| ' '),
        decreases width - k,
    {
        crate::text::push_char(&mut r, ' ');
        assert(r@ =~= s@ + Seq::new((k + 1 - n) as nat, |i: int| ' '));
        k = k + 1;
    }
    proof {
        if n >= width {
            assert(r@ =~= s@);
        }
    }
    r
}

/// `s` repeated `n` times.
pub open spec fn repeated(s: Seq<char>, n: nat) -> Seq<char>
    decreases n,
{
    if n == 0 {
        seq![]
    } else {
        repeated(s, (n - 1) as nat) + s
    }
}

fn repeat_text(s: &str, n: usize) -> (r: String)
    ensures
        r@ == repeated(s@, n as nat),
{
    let mut r = String::new();
    let mut k: usize = 0;
    while k < n
        invariant
            k <= n,
            r@ == repeated(s@, k as nat),
        decreases n - k,
    {
        append(&mut r, s);
        k = k + 1;
    }
    r
}

/// The text of a string member of a listed server, or empty.
pub open spec fn member_text(server: Json, key: Seq<char>) -> Seq<char> {
    match spec_as_str(spec_get(server, key)) {
        Some(t) => t,
        None => seq![],
    }
}

/// The widest server name, in bytes, or 4 when no server has a name.
pub open spec fn name_width(items: Seq<Json>) -> nat
    decreases items.len(),
{
    if items.len() == 0 {
        4
    } else {
        let rest = name_width(items.drop_last());
        let named_before = exists|k: int|
            0 <= k < items.len() - 1 && spec_as_str(spec_get(#[trigger] items[k], "name"@)) is Some;
        match spec_as_str(spec_get(items.last(), "name"@)) {
            Some(n) => if !named_before || byte_len(n) > rest {
                byte_len(n)
            } else {
                rest
            },
            None => rest,
        }
    }
}

/// One row of `rack ls`: a filled dot for a running server, its name
/// padded to the width, and its URL.
pub open spec fn server_row(server: Json, width: nat) -> Seq<char> {
    (if spec_get(server, "running"@) == Some(Json::Bool(true)) {
        "●"@
    } else {
        "○"@
    }) + "  "@ + padded(member_text(server, "name"@), width) + "  "@ + member_text(server, "url"@)
}

/// Every server name is short enough that its width fits in memory.
pub open spec fn names_fit(items: Seq<Json>) -> bool {
    forall|k: int|
        0 <= k < items.len() ==> match spec_as_str(spec_get(#[trigger] items[k], "name"@)) {
            Some(n) => 4 * n.len() + 40 <= usize::MAX,
            None => true,
        }
}

proof fn lemma_name_width_bound(items: Seq<Json>)
    requires
        names_fit(items),
    ensures
        name_width(items) + 40 <= usize::MAX,
    decreases items.len(),
{
    if items.len() > 0 {
        assert(names_fit(items.drop_last())) by {
            assert forall|k: int| 0 <= k < items.len() - 1 implies match spec_as_str(
                spec_get(#[trigger] items.drop_last()[k], "name"@),
            ) {
                Some(n) => 4 * n.len() + 40 <= usize::MAX,
                None => true,
            } by {
                assert(items.drop_last()[k] == items[k]);
            }
        }
        lemma_name_width_bound(items.drop_last());
        if let Some(n) = spec_as_str(spec_get(items.last(), "name"@)) {
            lemma_byte_len_bound(n);
            assert(items[items.len() - 1] == items.last());
        }
    }
}

fn server_row_text(server: &Json, width: usize) -> (r: String)
    ensures
        r@ == server_row(*server, width as nat),
{
    let name = match as_str(get(server, "name")) {
        Some(n) => owned(n),
        None => String::new(),
    };
    let url = match as_str(get(server, "url")) {
        Some(u) => owned(u),
        None => String::new(),
    };
    let running = match get(server, "running") {
        Some(Json::Bool(b)) => *b,
        _ => false,
    };
    let mut line = if running {
        "●".to_string()
    } else {
        "○".to_string()
    };
    append(&mut line, "  ");
    append(&mut line, pad_to(name.as_str(), width).as_str());
    append(&mut line, "  ");
    append(&mut line, url.as_str());
    line
}

/// What `rack ls` prints for the reply to a `list` request: a table of the
/// servers between two rules, or a hint when there are none.
pub fn server_list_lines(reply: &Json) -> (r: Vec<String>)
    requires
        spec_get(*reply, "payload"@) matches Some(Json::Array(items)) ==> names_fit(items@),
    ensures
        match spec_get(*reply, "payload"@) {
            Some(Json::Array(items)) if items@.len() > 0 => {
                let w = name_width(items@);
                &&& r@.len() == items@.len() + 2
                &&& r@[0]@ == repeated("─"@, w + 40)
                &&& r@[r@.len() - 1]@ == repeated("─"@, w + 40)
                &&& forall|k: int|
                    0 <= k < items@.len() ==> #[trigger] r@[k + 1]@ == server_row(items@[k], w)
            },
            _ => r@.len() == 1 && r@[0]@ == "No servers registered. Run 'rack dev' in a project directory."@,
        },
{
    let items = match get(reply, "payload") {
        Some(Json::Array(items)) => items,
        _ => {
            return vec!["No servers registered. Run 'rack dev' in a project directory.".to_string()];
        },
    };
    if items.len() == 0 {
        return vec!["No servers registered. Run 'rack dev' in a project directory.".to_string()];
    }
    proof {
        lemma_name_width_bound(items@);
    }
    let mut width: usize = 4;
    let mut any = false;
    let mut i: usize = 0;
    assert(items@.take(0) =~= Seq::<Json>::empty());
    while i < items.len()
        invariant
            i <= items@.len(),
            names_fit(items@),
            width == name_width(items@.take(i as int)),
            any == exists|k: int| 0 <= k < i && spec_as_str(spec_get(#[trigger] items@[k], "name"@)) is Some,
        decreases items.len() - i,
    {
        proof {
            let t = items@.take(i + 1);
            assert(t.drop_last() =~= items@.take(i as int));
            assert(t.last() == items@[i as int]);
            assert forall|k: int| 0 <= k < t.len() - 1 implies #[trigger] t[k] == items@[k] by {}
            assert((exists|k: int|
                0 <= k < t.len() - 1 && spec_as_str(spec_get(#[trigger] t[k], "name"@)) is Some) == any) by {
                if any {
                    let k = choose|k: int| 0 <= k < i && spec_as_str(spec_get(#[trigger] items@[k], "name"@)) is Some;
                    assert(t[k] == items@[k]);
                }
                if exists|k: int| 0 <= k < t.len() - 1 && spec_as_str(spec_get(#[trigger] t[k], "name"@)) is Some {
                    let k = choose|k: int| 0 <= k < t.len() - 1 && spec_as_str(spec_get(#[trigger] t[k], "name"@)) is Some;
                    assert(t[k] == items@[k]);
                }
            }
        }
        if let Some(name) = as_str(get(&items[i], "name")) {
            proof {
                assert(spec_as_str(spec_get(items@[i as int], "name"@)) == Some(name@));
            }
            let b = text_byte_len(name);
            if !any || b > width {
                width = b;
            }
            any = true;
        }
        i = i + 1;
    }
    assert(items@.take(items@.len() as int) =~= items@);
    let rule = repeat_text("─", width + 40);
    let mut lines: Vec<String> = Vec::new();
    lines.push(rule.clone());
    let mut j: usize = 0;
    while j < items.len()
        invariant
            j <= items@.len(),
            lines@.len() == j + 1,
            lines@[0]@ == rule@,
            forall|k: int| 0 <= k < j ==> #[trigger] lines@[k + 1]@ == server_row(items@[k], width as nat),
        decreases items.len() - j,
    {
        let line = server_row_text(&items[j], width);
        lines.push(line);
        j = j + 1;
    }
    lines.push(rule);
    lines
}

// ---------------------------------------------------------------------------
// `rack fn ls`.
/// An installed package as `rack fn ls` shows it: its manifest's name,
/// version, routes and crons, its directory, and the error of a manifest
/// that could not be read (its name is then the directory's, its version
/// `?`).
pub struct FunctionListing {
    pub name: String,
    pub version: String,
    pub path: String,
    pub error: Option<String>,
    pub routes: Vec<(String, ManifestRoute)>,
    pub crons: Vec<(String, ManifestCron)>,
}

/// Keys in non-decreasing order.
pub open spec fn keys_sorted<T>(items: Seq<(String, T)>) -> bool {
    forall|i: int, j: int|
        0 <= i < j < items.len() ==> !crate::sorted_map::lex_lt(#[trigger] items[j].0@, #[trigger] items[i].0@)
}

pub open spec fn keyed<T>(items: Seq<(String, T)>) -> Seq<(Seq<char>, T)> {
    items.map_values(|e: (String, T)| (e.0@, e.1))
}

/// Sorts items by their keys, keeping the order of items with equal keys.
pub fn sort_by_key<T>(items: Vec<(String, T)>) -> (r: Vec<(String, T)>)
    ensures
        keys_sorted(r@),
        keyed(r@).to_multiset() == keyed(items@).to_multiset(),
{
    let ghost input = keyed(items@);
    let mut rest = items;
    let n: usize = rest.len();
    let mut out: Vec<(String, T)> = Vec::new();
    let mut i: usize = 0;
    assert(input.take(0) =~= Seq::<(Seq<char>, T)>::empty());
    assert(keyed(out@) =~= Seq::<(Seq<char>, T)>::empty());
    while rest.len() > 0
        invariant
            i <= input.len(),
            input.len() == n,
            keyed(rest@) == input.skip(i as int),
            keys_sorted(out@),
            keyed(out@).to_multiset() == input.take(i as int).to_multiset(),
        decreases rest.len(),
    {
        let ghost before = out@;
        let ghost old_rest = rest@;
        let item = rest.remove(0);
        proof {
            assert(input.skip(i as int).len() == old_rest.len());
            assert(keyed(old_rest)[0] == input.skip(i as int)[0]);
            assert forall|k: int| 0 <= k < rest@.len() implies keyed(rest@)[k] == input.skip(i + 1)[k] by {
                assert(rest@[k] == old_rest[k + 1]);
                assert(keyed(old_rest)[k + 1] == input.skip(i as int)[k + 1]);
            }
            assert(keyed(rest@) =~= input.skip(i + 1));
        }
        let mut k: usize = 0;
        while k < out.len() && !crate::sorted_map::str_lt(item.0.as_str(), out[k].0.as_str())
            invariant
                k <= out@.len(),
                out@ == before,
                forall|m: int| 0 <= m < k ==> !crate::sorted_map::lex_lt(item.0@, #[trigger] before[m].0@),
            decreases out.len() - k,
        {
            k = k + 1;
        }
        let ghost kv = (item.0@, item.1);
        let ghost key = item.0@;
        out.insert(k, item);
        proof {
            let after = out@;
            assert(after =~= before.insert(k as int, after[k as int]));
            assert forall|a: int, b: int| 0 <= a < b < after.len() implies !crate::sorted_map::lex_lt(
                #[trigger] after[b].0@,
                #[trigger] after[a].0@,
            ) by {
                if a < k && b == k {
                } else if a == k && b > k {
                    assert(after[b] == before[b - 1]);
                    assert(crate::sorted_map::lex_lt(key, before[k as int].0@));
                    if crate::sorted_map::lex_lt(before[b - 1].0@, key) {
                        crate::sorted_map::lemma_lex_transitive(before[b - 1].0@, key, before[k as int].0@);
                        if b - 1 == k {
                            crate::sorted_map::lemma_lex_asymmetric(key, before[k as int].0@);
                        }
                    }
                } else if a < k && b < k {
                } else if a < k && b > k {
                    assert(after[a] == before[a] && after[b] == before[b - 1]);
                } else {
                    assert(after[a] == before[a - 1] && after[b] == before[b - 1]);
                }
            }
            assert(keyed(after) =~= keyed(before).insert(k as int, kv));
            vstd::seq_lib::to_multiset_insert(keyed(before), k as int, kv);
            assert(input[i as int] == kv);
            assert(input.take(i + 1) =~= input.take(i as int).push(kv));
            vstd::seq_lib::to_multiset_build(input.take(i as int), kv);
        }
        i = i + 1;
    }
    proof {
        assert(input.take(i as int) =~= input);
    }
    out
}

/// The lines `rack fn ls` prints for one package: its name padded to the
/// width, version and directory; then its manifest's error, or one line
/// for each route and each cron.
pub open spec fn listing_lines(l: FunctionListing, width: nat) -> Seq<Seq<char>> {
    seq![padded(l.name@, width) + "  "@ + l.version@ + "  "@ + l.path@] + match l.error {
        Some(e) => seq!["  ! "@ + e@],
        None => l.routes@.map_values(
            |r: (String, ManifestRoute)|
                "  route "@ + r.0@ + ": "@ + uppercase(r.1.method@) + " "@
                    + normalized_route_path(r.1.path@) + " -> "@ + r.1.function@,
        ) + l.crons@.map_values(
            |c: (String, ManifestCron)| "  cron  "@ + c.0@ + ": "@ + c.1.schedule@ + " -> "@ + c.1.function@,
        ),
    }
}

/// The lines of all packages, in order.
pub open spec fn all_listing_lines(rows: Seq<(String, FunctionListing)>, width: nat) -> Seq<Seq<char>>
    decreases rows.len(),
{
    if rows.len() == 0 {
        seq![]
    } else {
        all_listing_lines(rows.drop_last(), width) + listing_lines(rows.last().1, width)
    }
}

/// The widest name, in bytes.
pub open spec fn widest(rows: Seq<(String, FunctionListing)>) -> nat
    decreases rows.len(),
{
    if rows.len() == 0 {
        0
    } else {
        let w = widest(rows.drop_last());
        if byte_len(rows.last().0@) > w {
            byte_len(rows.last().0@)
        } else {
            w
        }
    }
}

fn package_lines(l: &FunctionListing, width: usize) -> (r: Vec<String>)
    ensures
        strs(r@) == listing_lines(*l, width as nat),
{
    let mut head = pad_to(l.name.as_str(), width);
    append(&mut head, "  ");
    append(&mut head, l.version.as_str());
    append(&mut head, "  ");
    append(&mut head, l.path.as_str());
    let mut out: Vec<String> = vec![head];
    let ghost first = strs(out@);
    match &l.error {
        Some(e) => {
            out.push(concat("  ! ", e.as_str()));
            assert(strs(out@) =~= first + seq!["  ! "@ + e@]);
        },
        None => {
            let ghost route_lines = l.routes@.map_values(
                |r: (String, ManifestRoute)|
                    "  route "@ + r.0@ + ": "@ + uppercase(r.1.method@) + " "@
                        + normalized_route_path(r.1.path@) + " -> "@ + r.1.function@,
            );
            let ghost cron_lines = l.crons@.map_values(
                |c: (String, ManifestCron)| "  cron  "@ + c.0@ + ": "@ + c.1.schedule@ + " -> "@ + c.1.function@,
            );
            let mut i: usize = 0;
            while i < l.routes.len()
                invariant
                    i <= l.routes@.len(),
                    route_lines.len() == l.routes@.len(),
                    forall|k: int| 0 <= k < l.routes@.len() ==> #[trigger] route_lines[k] == "  route "@ + l.routes@[k].0@ + ": "@ + uppercase(l.routes@[k].1.method@) + " "@
                        + normalized_route_path(l.routes@[k].1.path@) + " -> "@ + l.routes@[k].1.function@,
                    strs(out@) == first + route_lines.take(i as int),
                decreases l.routes.len() - i,
            {
                let (id, route) = &l.routes[i];
                let mut line = concat("  route ", id.as_str());
                append(&mut line, ": ");
                append(&mut line, to_uppercase(route.method.as_str()).as_str());
                append(&mut line, " ");
                append(&mut line, normalize_route_path(route.path.as_str()).as_str());
                append(&mut line, " -> ");
                append(&mut line, route.function.as_str());
                let ghost before = strs(out@);
                out.push(line);
                assert(strs(out@) =~= before.push(route_lines[i as int]));
                assert(route_lines.take(i + 1) =~= route_lines.take(i as int).push(route_lines[i as int]));
                i = i + 1;
            }
            assert(route_lines.take(l.routes@.len() as int) =~= route_lines);
            let mut j: usize = 0;
            while j < l.crons.len()
                invariant
                    j <= l.crons@.len(),
                    cron_lines.len() == l.crons@.len(),
                    forall|k: int| 0 <= k < l.crons@.len() ==> #[trigger] cron_lines[k] == "  cron  "@ + l.crons@[k].0@ + ": "@ + l.crons@[k].1.schedule@ + " -> "@ + l.crons@[k].1.function@,
                    strs(out@) == first + route_lines + cron_lines.take(j as int),
                decreases l.crons.len() - j,
            {
                let (id, cron) = &l.crons[j];
                let mut line = concat("  cron  ", id.as_str());
                append(&mut line, ": ");
                append(&mut line, cron.schedule.as_str());
                append(&mut line, " -> ");
                append(&mut line, cron.function.as_str());
                let ghost before = strs(out@);
                out.push(line);
                assert(strs(out@) =~= before.push(cron_lines[j as int]));
                assert(cron_lines.take(j + 1) =~= cron_lines.take(j as int).push(cron_lines[j as int]));
                j = j + 1;
            }
            assert(cron_lines.take(l.crons@.len() as int) =~= cron_lines);
            assert(strs(out@) =~= first + (route_lines + cron_lines));
        },
    }
    out
}

/// What `rack fn ls` prints for the installed packages, each keyed by its
/// name: the packages in name order, the names padded to the widest, or a
/// note when there are none.
pub fn function_listing_lines(rows: Vec<(String, FunctionListing)>) -> (r: Vec<String>)
    requires
        forall|k: int| 0 <= k < rows@.len() ==> 4 * (#[trigger] rows@[k]).0@.len() <= usize::MAX,
    ensures
        rows@.len() == 0 ==> strs(r@) == seq!["No functions installed."@],
        rows@.len() > 0 ==> exists|sorted: Seq<(String, FunctionListing)>|
            keys_sorted(sorted) && keyed(sorted).to_multiset() == keyed(rows@).to_multiset() && strs(r@)
                == all_listing_lines(sorted, widest(sorted)),
{
    if rows.len() == 0 {
        let r = vec!["No functions installed.".to_string()];
        assert(strs(r@) =~= seq!["No functions installed."@]);
        return r;
    }
    let ghost unsorted = rows@;
    let sorted = sort_by_key(rows);
    proof {
        vstd::seq_lib::to_multiset_len(keyed(sorted@));
        vstd::seq_lib::to_multiset_len(keyed(unsorted));
        assert forall|k: int| 0 <= k < sorted@.len() implies 4 * (#[trigger] sorted@[k]).0@.len() <= usize::MAX by {
            let e = keyed(sorted@)[k];
            assert(keyed(sorted@).to_multiset().count(e) > 0) by {
                vstd::seq_lib::to_multiset_contains(keyed(sorted@), e);
            }
            vstd::seq_lib::to_multiset_contains(keyed(unsorted), e);
            let m = choose|m: int| 0 <= m < keyed(unsorted).len() && keyed(unsorted)[m] == e;
            assert(unsorted[m].0@ == e.0);
        }
    }
    let mut width: usize = 0;
    let mut i: usize = 0;
    assert(sorted@.take(0) =~= Seq::<(String, FunctionListing)>::empty());
    while i < sorted.len()
        invariant
            i <= sorted@.len(),
            forall|k: int| 0 <= k < sorted@.len() ==> 4 * (#[trigger] sorted@[k]).0@.len() <= usize::MAX,
            width == widest(sorted@.take(i as int)),
        decreases sorted.len() - i,
    {
        proof {
            assert(sorted@.take(i + 1).drop_last() =~= sorted@.take(i as int));
            assert(sorted@.take(i + 1).last() == sorted@[i as int]);
        }
        let b = text_byte_len(sorted[i].0.as_str());
        if b > width {
            width = b;
        }
        i = i + 1;
    }
    assert(sorted@.take(sorted@.len() as int) =~= sorted@);
    let mut out: Vec<String> = Vec::new();
    let mut j: usize = 0;
    assert(sorted@.take(0) =~= Seq::<(String, FunctionListing)>::empty());
    while j < sorted.len()
        invariant
            j <= sorted@.len(),
            strs(out@) == all_listing_lines(sorted@.take(j as int), width as nat),
        decreases sorted.len() - j,
    {
        proof {
            assert(sorted@.take(j + 1).drop_last() =~= sorted@.take(j as int));
            assert(sorted@.take(j + 1).last() == sorted@[j as int]);
        }
        let mut lines = package_lines(&sorted[j].1, width);
        let ghost before = strs(out@);
        let ghost added = strs(lines@);
        out.append(&mut lines);
        assert(strs(out@) =~= before + added);
        j = j + 1;
    }
    assert(sorted@.take(sorted@.len() as int) =~= sorted@);
    out
}


/// The `Cargo.toml` that `rack fn init` writes for package `name`, with
/// the SDK at `sdk_path`.
pub open spec fn init_cargo_toml(name: Seq<char>, sdk_path: Seq<char>) -> Seq<char> {
    "[package]\nname = \"rack-"@ + name
        + "\"\nversion = \"0.1.0\"\nedition = \"2021\"\npublish = false\n\n[lib]\ncrate-type = [\"cdylib\"]\n\n[dependencies]\nrack = { path = \""@
        + sdk_path
        + "\" }\n\n[profile.release]\nlto = true\nopt-level = \"z\"\nstrip = true\n\n[workspace]\n"@
}

/// The `manifest.toml` that `rack fn init` writes for package `name`: one
/// `hello` route and one `heartbeat` cron.
pub open spec fn init_manifest_toml(name: Seq<char>) -> Seq<char> {
    "name = \""@ + name
        + "\"\nversion = \"0.1.0\"\n\n[route.hello]\npath = \"/hello\"\nmethod = \"GET\"\nfunction = \"hello\"\n\n[cron.heartbeat]\nschedule = \"every 5 minutes\"\nfunction = \"heartbeat\"\n"@
}

/// The files `rack fn init` writes for package `name`, with the SDK at
/// `sdk_path`: `Cargo.toml`, `manifest.toml` and `src/lib.rs`, in that
/// order.
pub fn init_package_files(name: &str, sdk_path: &str) -> (r: (String, String, String))
    ensures
        r.0@ == init_cargo_toml(name@, sdk_path@),
        r.1@ == init_manifest_toml(name@),
        r.2@ == "#[rack::route]\nfn hello(_: rack::Request) -> rack::Response {\n    rack::response::ok().text(\"hello from Rack wasm\")\n}\n\n#[rack::cron]\nfn heartbeat(event: rack::CronEvent) -> rack::Response {\n    rack::log::info(format!(\"heartbeat scheduled at {}\", event.scheduled_at));\n    rack::response::ok().text(\"heartbeat\")\n}\n"@,
{
    let mut cargo = concat("[package]\nname = \"rack-", name);
    append(
        &mut cargo,
        "\"\nversion = \"0.1.0\"\nedition = \"2021\"\npublish = false\n\n[lib]\ncrate-type = [\"cdylib\"]\n\n[dependencies]\nrack = { path = \"",
    );
    append(&mut cargo, sdk_path);
    append(&mut cargo, "\" }\n\n[profile.release]\nlto = true\nopt-level = \"z\"\nstrip = true\n\n[workspace]\n");
    let mut manifest = concat("name = \"", name);
    append(
        &mut manifest,
        "\"\nversion = \"0.1.0\"\n\n[route.hello]\npath = \"/hello\"\nmethod = \"GET\"\nfunction = \"hello\"\n\n[cron.heartbeat]\nschedule = \"every 5 minutes\"\nfunction = \"heartbeat\"\n",
    );
    let lib = "#[rack::route]\nfn hello(_: rack::Request) -> rack::Response {\n    rack::response::ok().text(\"hello from Rack wasm\")\n}\n\n#[rack::cron]\nfn heartbeat(event: rack::CronEvent) -> rack::Response {\n    rack::log::info(format!(\"heartbeat scheduled at {}\", event.scheduled_at));\n    rack::response::ok().text(\"heartbeat\")\n}\n".to_string();
    (cargo, manifest, lib)
}

} // verus!
