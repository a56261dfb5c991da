//! How a configured server is launched: its command line, its environment,
//! and whether it runs behind the socket bridge.
use crate::config::{
    env_view, route_subdomain, route_subdomain_of, EnvironmentVariable, EnvironmentVariableView,
    ServerConfiguration,
};
use crate::functions::manifest::{join_path, path_join};
use crate::sorted_map::SortedMap;
use crate::text::{
    append, chars_of, concat, decimal, decimal_string, has_prefix, joined, join_strings, owned,
    replace_char, replace_char_str, split_words, starts_with, strip_prefix, trim, trim_str, words,
};
use vstd::prelude::*;

verus! {

/// The socket a bridged server is reached through.
pub open spec fn socket_path_of(subdomain: Seq<char>) -> Seq<char> {
    "/tmp/rack/"@ + subdomain + ".sock"@
}

pub fn socket_path(subdomain: &str) -> (r: String)
    ensures
        r@ == socket_path_of(subdomain@),
{
    let mut r = concat("/tmp/rack/", subdomain);
    append(&mut r, ".sock");
    r
}

/// A word quoted for a POSIX shell: in single quotes, each single quote
/// written `'\''`; the empty word is `''`.
pub open spec fn shell_escaped(value: Seq<char>) -> Seq<char> {
    if value.len() == 0 {
        "''"@
    } else {
        "'"@ + replace_char(value, '\'', "'\\''"@) + "'"@
    }
}

pub fn shell_escape(value: &str) -> (r: String)
    ensures
        r@ == shell_escaped(value@),
{
    if chars_of(value).len() == 0 {
        return "''".to_string();
    }
    let mut r = concat("'", replace_char_str(value, '\'', "'\\''").as_str());
    append(&mut r, "'");
    r
}

/// The words of the server's command line: its command, its arguments,
/// and its port flag with the port when it has a non-empty one.
pub open spec fn inner_tokens_of(command: Seq<char>, arguments: Seq<char>, port_flag: Option<Seq<char>>, port: u16) -> Seq<Seq<char>> {
    words(command) + words(arguments) + match port_flag {
        Some(f) => if f.len() > 0 {
            seq![f, decimal(port as nat)]
        } else {
            seq![]
        },
        None => seq![],
    }
}

pub open spec fn strings(v: Seq<String>) -> Seq<Seq<char>> {
    v.map_values(|s: String| s@)
}

pub fn inner_command_tokens(config: &ServerConfiguration, port: u16) -> (r: Vec<String>)
    ensures
        strings(r@) == inner_tokens_of(config.command@, config.arguments@, config@.port_flag, port),
{
    let mut tokens = split_words(config.command.as_str());
    let mut rest = split_words(config.arguments.as_str());
    let ghost a = strings(tokens@);
    let ghost b = strings(rest@);
    tokens.append(&mut rest);
    assert(strings(tokens@) =~= a + b);
    let ghost ab = strings(tokens@);
    match &config.port_flag {
        Some(flag) => {
            if chars_of(flag.as_str()).len() > 0 {
                tokens.push(flag.clone());
                tokens.push(decimal_string(port as u64));
                assert(strings(tokens@) =~= ab + seq![flag@, decimal(port as nat)]);
            } else {
                assert(strings(tokens@) =~= ab + Seq::<Seq<char>>::empty());
            }
        },
        None => {
            assert(strings(tokens@) =~= ab + Seq::<Seq<char>>::empty());
        },
    }
    tokens
}

/// The arguments of the bridge: its socket and port, then the server's
/// command line after `--`.
pub open spec fn bridge_arguments_of(socket_path: Seq<char>, port: u16, inner: Seq<Seq<char>>) -> Seq<Seq<char>> {
    seq!["--socket"@, socket_path, "--port"@, decimal(port as nat), "--"@] + inner
}

pub fn bridge_arguments(socket_path: &str, port: u16, inner_tokens: &Vec<String>) -> (r: Vec<String>)
    ensures
        strings(r@) == bridge_arguments_of(socket_path@, port, strings(inner_tokens@)),
{
    let mut arguments = vec![
        "--socket".to_string(),
        owned(socket_path),
        "--port".to_string(),
        decimal_string(port as u64),
        "--".to_string(),
    ];
    let ghost start = strings(arguments@);
    assert(start =~= seq!["--socket"@, socket_path@, "--port"@, decimal(port as nat), "--"@]);
    let mut i: usize = 0;
    while i < inner_tokens.len()
        invariant
            i <= inner_tokens@.len(),
            strings(arguments@) == start + strings(inner_tokens@).take(i as int),
        decreases inner_tokens.len() - i,
    {
        let ghost before = strings(arguments@);
        arguments.push(inner_tokens[i].clone());
        assert(strings(arguments@) =~= before.push(inner_tokens@[i as int]@));
        assert(strings(inner_tokens@).take(i + 1) =~= strings(inner_tokens@).take(i as int).push(
            inner_tokens@[i as int]@,
        ));
        i = i + 1;
    }
    assert(strings(inner_tokens@).take(inner_tokens@.len() as int) =~= strings(inner_tokens@));
    arguments
}

/// A working directory with a leading `~/` resolved against the home
/// directory (when there is one), trimmed.
pub open spec fn normalized_path(path: Seq<char>, home: Option<Seq<char>>) -> Seq<char> {
    let trimmed = trim(path);
    if starts_with(trimmed, "~/"@) && home is Some {
        join_path(home->0, trimmed.skip(2))
    } else {
        trimmed
    }
}

pub fn normalize_path(path: &str, home: Option<&str>) -> (r: String)
    ensures
        r@ == normalized_path(
            path@,
            match home {
                Some(h) => Some(h@),
                None => None,
            },
        ),
{
    let trimmed = trim_str(path);
    if let Some(rest) = strip_prefix(trimmed.as_str(), "~/") {
        if let Some(h) = home {
            proof {
                reveal_strlit("~/");
            }
            return path_join(h, rest.as_str());
        }
    }
    trimmed
}

// ---------------------------------------------------------------------------
// The environment of a launched server.
/// Entries collected into a map, a later entry replacing an earlier one of
/// the same key.
pub open spec fn collected(entries: Seq<(String, String)>) -> Map<Seq<char>, Seq<char>>
    decreases entries.len(),
{
    if entries.len() == 0 {
        Map::empty()
    } else {
        collected(entries.drop_last()).insert(entries.last().0@, entries.last().1@)
    }
}

/// `base` with every entry of `entries` whose key it lacks added; among
/// entries of one key the first wins.
pub open spec fn filled(base: Map<Seq<char>, Seq<char>>, entries: Seq<(String, String)>) -> Map<Seq<char>, Seq<char>>
    decreases entries.len(),
{
    if entries.len() == 0 {
        base
    } else {
        let m = filled(base, entries.drop_last());
        if m.contains_key(entries.last().0@) {
            m
        } else {
            m.insert(entries.last().0@, entries.last().1@)
        }
    }
}

/// `base` with the server's variables set, those with an empty key left
/// out.
pub open spec fn with_variables(base: Map<Seq<char>, Seq<char>>, vars: Seq<EnvironmentVariableView>) -> Map<Seq<char>, Seq<char>>
    decreases vars.len(),
{
    if vars.len() == 0 {
        base
    } else {
        let m = with_variables(base, vars.drop_last());
        if vars.last().key.len() == 0 {
            m
        } else {
            m.insert(vars.last().key, vars.last().value)
        }
    }
}

/// The environment a server is launched with: the login shell's
/// environment, then what this process has that it lacks, then the
/// terminal settings, then the server's own variables.
pub open spec fn launch_environment(
    login: Seq<(String, String)>,
    inherited: Seq<(String, String)>,
    vars: Seq<EnvironmentVariableView>,
) -> Map<Seq<char>, Seq<char>> {
    with_variables(
        filled(collected(login), inherited).insert("TERM"@, "xterm-256color"@).insert(
            "COLORTERM"@,
            "truecolor"@,
        ).insert("FORCE_COLOR"@, "1"@).insert("CLICOLOR_FORCE"@, "1"@),
        vars,
    )
}

fn build_environment(
    login: &Vec<(String, String)>,
    inherited: &Vec<(String, String)>,
    vars: &Vec<EnvironmentVariable>,
) -> (r: SortedMap<String>)
    ensures
        r@ == launch_environment(login@, inherited@, env_view(vars@)),
{
    let mut env: SortedMap<String> = SortedMap::new();
    let mut i: usize = 0;
    assert(login@.take(0) =~= Seq::<(String, String)>::empty());
    while i < login.len()
        invariant
            i <= login@.len(),
            env@ == collected(login@.take(i as int)),
        decreases login.len() - i,
    {
        proof {
            assert(login@.take(i + 1).drop_last() =~= login@.take(i as int));
        }
        env.insert(login[i].0.clone(), login[i].1.clone());
        i = i + 1;
    }
    assert(login@.take(login@.len() as int) =~= login@);
    let ghost base = env@;
    let mut j: usize = 0;
    assert(inherited@.take(0) =~= Seq::<(String, String)>::empty());
    while j < inherited.len()
        invariant
            j <= inherited@.len(),
            base == collected(login@),
            env@ == filled(base, inherited@.take(j as int)),
        decreases inherited.len() - j,
    {
        proof {
            assert(inherited@.take(j + 1).drop_last() =~= inherited@.take(j as int));
        }
        if !env.contains_key(inherited[j].0.as_str()) {
            env.insert(inherited[j].0.clone(), inherited[j].1.clone());
        }
        j = j + 1;
    }
    assert(inherited@.take(inherited@.len() as int) =~= inherited@);
    env.insert("TERM".to_string(), "xterm-256color".to_string());
    env.insert("COLORTERM".to_string(), "truecolor".to_string());
    env.insert("FORCE_COLOR".to_string(), "1".to_string());
    env.insert("CLICOLOR_FORCE".to_string(), "1".to_string());
    let ghost with_terminal = env@;
    let ghost vv = env_view(vars@);
    let mut k: usize = 0;
    assert(vv.take(0) =~= Seq::<EnvironmentVariableView>::empty());
    while k < vars.len()
        invariant
            k <= vars@.len(),
            vv == env_view(vars@),
            env@ == with_variables(with_terminal, vv.take(k as int)),
        decreases vars.len() - k,
    {
        proof {
            assert(vv.take(k + 1).drop_last() =~= vv.take(k as int));
            assert(vv.take(k + 1).last() == vars@[k as int]@);
        }
        if chars_of(vars[k].key.as_str()).len() > 0 {
            env.insert(vars[k].key.clone(), vars[k].value.clone());
        }
        k = k + 1;
    }
    assert(vv.take(vars@.len() as int) =~= vv);
    env
}

/// How a server is launched.
pub struct LaunchPlan {
    pub subdomain: String,
    pub socket_path: String,
    pub port: u16,
    pub use_bridge: bool,
    pub executable: String,
    pub arguments: Vec<String>,
    pub working_directory: String,
    pub environment: SortedMap<String>,
    pub launch_description: String,
}

/// A bridge path, where one is given and it is not empty.
pub open spec fn bridge_of(bridge_path: Option<Seq<char>>) -> Option<Seq<char>> {
    match bridge_path {
        Some(p) => if p.len() > 0 {
            Some(p)
        } else {
            None
        },
        None => None,
    }
}

/// What launching a server is: a missing command is an error; otherwise
/// the server runs under the bridge when a bridge is given, else through an
/// interactive login `zsh` with `PORT` and `HOST` set. `fallback_port` is
/// the port to use when the server has none of its own.
pub open spec fn plan_ok(
    p: LaunchPlan,
    config: ServerConfiguration,
    bridge_path: Option<Seq<char>>,
    fallback_port: u16,
    login: Seq<(String, String)>,
    inherited: Seq<(String, String)>,
    home: Option<Seq<char>>,
) -> bool {
    let subdomain = route_subdomain_of(config.name@, config.custom_domain@);
    let port = match config.port {
        Some(p) => p,
        None => fallback_port,
    };
    let socket = socket_path_of(subdomain);
    let inner = inner_tokens_of(config.command@, config.arguments@, config@.port_flag, port);
    let env = launch_environment(login, inherited, config@.environment);
    &&& p.subdomain@ == subdomain
    &&& p.socket_path@ == socket
    &&& p.port == port
    &&& p.working_directory@ == normalized_path(config.working_directory@, home)
    &&& match bridge_of(bridge_path) {
        Some(bridge) => {
            &&& p.use_bridge
            &&& p.executable@ == bridge
            &&& strings(p.arguments@) == bridge_arguments_of(socket, port, inner)
            &&& p.environment@ == env
            &&& p.launch_description@ == "rack-bridge --socket "@ + socket + " --port "@ + decimal(
                port as nat,
            ) + " -- "@ + joined(inner, " "@)
        },
        None => {
            &&& !p.use_bridge
            &&& p.executable@ == "/bin/zsh"@
            &&& strings(p.arguments@) == seq![
                "-i"@,
                "-l"@,
                "-c"@,
                "clear; exec "@ + joined(inner.map_values(|t: Seq<char>| shell_escaped(t)), " "@),
            ]
            &&& p.environment@ == env.insert("PORT"@, decimal(port as nat)).insert(
                "HOST"@,
                "127.0.0.1"@,
            )
            &&& p.launch_description@ == joined(inner, " "@)
        },
    }
}

/// Plans the launch of a server, from its configuration, the bridge given
/// (if any), the port to use when it has none, the login shell's
/// environment, this process's environment and the home directory.
pub fn launch_plan(
    config: &ServerConfiguration,
    bridge_path: Option<&str>,
    fallback_port: u16,
    login: &Vec<(String, String)>,
    inherited: &Vec<(String, String)>,
    home: Option<&str>,
) -> (r: Result<LaunchPlan, String>)
    ensures
        trim(config.command@).len() == 0 ==> (r matches Err(m) && m@ == "Missing command"@),
        trim(config.command@).len() > 0 ==> (r matches Ok(p) && plan_ok(
            p,
            *config,
            match bridge_path {
                Some(b) => Some(b@),
                None => None,
            },
            fallback_port,
            login@,
            inherited@,
            match home {
                Some(h) => Some(h@),
                None => None,
            },
        )),
{
    if chars_of(trim_str(config.command.as_str()).as_str()).len() == 0 {
        return Err("Missing command".to_string());
    }
    let subdomain = route_subdomain(config);
    let port = match config.port {
        Some(p) => p,
        None => fallback_port,
    };
    let socket = socket_path(subdomain.as_str());
    let inner = inner_command_tokens(config, port);
    let mut environment = build_environment(login, inherited, &config.environment);
    let working_directory = normalize_path(config.working_directory.as_str(), home);
    let bridge = match bridge_path {
        Some(b) => if chars_of(b).len() > 0 {
            Some(b)
        } else {
            None
        },
        None => None,
    };
    match bridge {
        Some(b) => {
            let arguments = bridge_arguments(socket.as_str(), port, &inner);
            let mut description = concat("rack-bridge --socket ", socket.as_str());
            append(&mut description, " --port ");
            append(&mut description, decimal_string(port as u64).as_str());
            append(&mut description, " -- ");
            append(&mut description, join_strings(&inner, " ").as_str());
            Ok(
                LaunchPlan {
                    subdomain,
                    socket_path: socket,
                    port,
                    use_bridge: true,
                    executable: owned(b),
                    arguments,
                    working_directory,
                    environment,
                    launch_description: description,
                },
            )
        },
        None => {
            environment.insert("PORT".to_string(), decimal_string(port as u64));
            environment.insert("HOST".to_string(), "127.0.0.1".to_string());
            let mut escaped: Vec<String> = Vec::new();
            let mut i: usize = 0;
            while i < inner.len()
                invariant
                    i <= inner@.len(),
                    escaped@.len() == i,
                    forall|k: int|
                        0 <= k < i ==> (#[trigger] escaped@[k])@ == shell_escaped(inner@[k]@),
                decreases inner.len() - i,
            {
                escaped.push(shell_escape(inner[i].as_str()));
                i = i + 1;
            }
            assert(strings(escaped@) =~= strings(inner@).map_values(|t: Seq<char>| shell_escaped(t)));
            let command_line = concat("clear; exec ", join_strings(&escaped, " ").as_str());
            let arguments = vec!["-i".to_string(), "-l".to_string(), "-c".to_string(), command_line];
            let ghost cl = arguments@[3]@;
            assert(strings(arguments@) =~= seq!["-i"@, "-l"@, "-c"@, cl]);
            Ok(
                LaunchPlan {
                    subdomain,
                    socket_path: socket,
                    port,
                    use_bridge: false,
                    executable: "/bin/zsh".to_string(),
                    arguments,
                    working_directory,
                    environment,
                    launch_description: join_strings(&inner, " "),
                },
            )
        },
    }
}

} // verus!
