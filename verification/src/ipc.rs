//! The requests that the command line sends over the IPC socket, and what
//! each does to the configuration, answers, and asks the host to do.
use crate::config::{
    context_port, context_standard_ports, env_view, find_by_name, first_with_name, local_url,
    local_url_of, route_subdomain_of, servers_view, EnvironmentVariable, EnvironmentVariableView,
    PersistedConfiguration, ServerConfiguration, ServerConfigurationView,
};
use crate::json::{as_bool, as_i64, as_str, get, spec_as_bool, spec_as_i64, spec_as_str, spec_get, Json};
use crate::text::{append, concat, owned, str_eq};
use vstd::prelude::*;

verus! {

/// An IPC request, by the `type` of its message.
pub enum IpcRequest {
    Register,
    Start(Option<String>),
    Stop(Option<String>),
    Remove(Option<String>),
    List,
    Unknown,
}

pub open spec fn payload_text(message: Json) -> Option<Seq<char>> {
    spec_as_str(spec_get(message, "payload"@))
}

pub open spec fn opt_string_view(s: Option<String>) -> Option<Seq<char>> {
    match s {
        Some(t) => Some(t@),
        None => None,
    }
}

/// Reads the request of a message: its `type`, and for `start`, `stop` and
/// `remove` the server name in its `payload`.
pub fn ipc_request(message: &Json) -> (r: IpcRequest)
    ensures
        ({
            let t = spec_as_str(spec_get(*message, "type"@));
            if t == Some("register"@) {
                r is Register
            } else if t == Some("start"@) {
                r matches IpcRequest::Start(n) && opt_string_view(n) == payload_text(*message)
            } else if t == Some("stop"@) {
                r matches IpcRequest::Stop(n) && opt_string_view(n) == payload_text(*message)
            } else if t == Some("remove"@) {
                r matches IpcRequest::Remove(n) && opt_string_view(n) == payload_text(*message)
            } else if t == Some("list"@) {
                r is List
            } else {
                r is Unknown
            }
        }),
{
    let t = match as_str(get(message, "type")) {
        Some(t) => t,
        None => {
            return IpcRequest::Unknown;
        },
    };
    let name = match as_str(get(message, "payload")) {
        Some(n) => Some(owned(n)),
        None => None,
    };
    if str_eq(t, "register") {
        IpcRequest::Register
    } else if str_eq(t, "start") {
        IpcRequest::Start(name)
    } else if str_eq(t, "stop") {
        IpcRequest::Stop(name)
    } else if str_eq(t, "remove") {
        IpcRequest::Remove(name)
    } else if str_eq(t, "list") {
        IpcRequest::List
    } else {
        IpcRequest::Unknown
    }
}

/// What `rack dev` registers: a server's name, command, directory, its
/// environment (in increasing key order) and its port flag.
pub struct RegisterPayload {
    pub name: String,
    pub command: String,
    pub working_directory: String,
    pub environment: Vec<(String, String)>,
    pub port_flag: Option<String>,
}

/// A server as `rack ls` lists it.
pub struct ServerListing {
    pub name: String,
    pub url: String,
    pub running: bool,
    pub pid: Option<i32>,
}

/// What an IPC request answers.
pub enum IpcReply {
    Registered { name: String, url: String },
    Done,
    Servers(Vec<ServerListing>),
    Error(String),
}

/// What the host is asked to do with a server: `start`, `stop` or
/// `remove` it.
pub struct IpcAction {
    pub kind: String,
    pub id: String,
}

/// The outcome of a request: the reply, the action for the host, and
/// whether the configuration changed and is to be saved.
pub struct IpcOutcome {
    pub reply: IpcReply,
    pub action: Option<IpcAction>,
    pub save: bool,
}

/// The outcome of a request that failed: an error reply and nothing to do.
pub fn ipc_failure(message: String) -> (r: IpcOutcome)
    ensures
        r.reply matches IpcReply::Error(m) && m@ == message@,
        r.action is None,
        !r.save,
{
    IpcOutcome { reply: IpcReply::Error(message), action: None, save: false }
}

/// The outcome of a message of an unknown type.
pub fn ipc_unknown() -> (r: IpcOutcome)
    ensures
        r.reply matches IpcReply::Error(m) && m@ == "unknown message"@,
        r.action is None,
        !r.save,
{
    ipc_failure("unknown message".to_string())
}

/// The server that `rack dev` registers: a new id, started automatically,
/// with no arguments, custom domain or fixed port, and a new id for each
/// environment variable.
pub open spec fn registered_server(
    payload: RegisterPayload,
    id: Seq<char>,
    env_ids: Seq<String>,
) -> ServerConfigurationView {
    ServerConfigurationView {
        id,
        name: payload.name@,
        command: payload.command@,
        arguments: seq![],
        working_directory: payload.working_directory@,
        auto_start: true,
        custom_domain: seq![],
        environment: Seq::new(
            payload.environment@.len(),
            |i: int|
                EnvironmentVariableView {
                    id: env_ids[i]@,
                    key: payload.environment@[i].0@,
                    value: payload.environment@[i].1@,
                },
        ),
        port: None,
        port_flag: opt_string_view(payload.port_flag),
    }
}

/// The URL of a server under an IPC context.
pub open spec fn url_in(name: Seq<char>, custom_domain: Seq<char>, context: Json) -> Seq<char> {
    local_url_of(
        route_subdomain_of(name, custom_domain),
        context_standard_ports(context),
        context_port(context),
    )
}

/// Registers a server: it is appended to the configuration, the reply
/// gives its name and URL, and the host is asked to start it.
pub fn ipc_register(
    configuration: &mut PersistedConfiguration,
    payload: RegisterPayload,
    id: String,
    env_ids: Vec<String>,
    context: &Json,
) -> (r: IpcOutcome)
    requires
        env_ids@.len() == payload.environment@.len(),
    ensures
        final(configuration)@ == old(configuration)@.push(registered_server(payload, id@, env_ids@)),
        r.reply matches IpcReply::Registered { name, url } && name@ == payload.name@ && url@
            == url_in(payload.name@, seq![], *context),
        r.action matches Some(a) && a.kind@ == "start"@ && a.id@ == id@,
        r.save,
{
    let ghost p = payload;
    let ghost ids = env_ids@;
    let RegisterPayload { name, command, working_directory, environment, port_flag } = payload;
    let mut variables: Vec<EnvironmentVariable> = Vec::new();
    let mut i: usize = 0;
    while i < environment.len()
        invariant
            i <= environment@.len(),
            environment@ == p.environment@,
            env_ids@ == ids,
            ids.len() == environment@.len(),
            variables@.len() == i,
            forall|k: int|
                0 <= k < i ==> (#[trigger] variables@[k])@ == (EnvironmentVariableView {
                    id: ids[k]@,
                    key: environment@[k].0@,
                    value: environment@[k].1@,
                }),
        decreases environment.len() - i,
    {
        variables.push(
            EnvironmentVariable {
                id: env_ids[i].clone(),
                key: environment[i].0.clone(),
                value: environment[i].1.clone(),
            },
        );
        i = i + 1;
    }
    let server = ServerConfiguration {
        id: id.clone(),
        name,
        command,
        arguments: String::new(),
        working_directory,
        auto_start: true,
        custom_domain: String::new(),
        environment: variables,
        port: None,
        port_flag,
    };
    assert(server@.environment =~= registered_server(p, id@, ids).environment);
    assert(server@ == registered_server(p, id@, ids));
    let url = local_url(&server, context);
    let reply_name = server.name.clone();
    crate::config::add_server(configuration, server);
    IpcOutcome {
        reply: IpcReply::Registered { name: reply_name, url },
        action: Some(IpcAction { kind: "start".to_string(), id }),
        save: true,
    }
}

/// The outcome of a request that names a server that is not there.
pub open spec fn no_server_message(name: Seq<char>) -> Seq<char> {
    "no server named '"@ + name + "'"@
}

/// Asks the host to start or stop (`kind`) the first server of the given
/// name. A missing name and an unknown one are errors.
pub fn ipc_start_or_stop(configuration: &PersistedConfiguration, name: Option<String>, kind: &str) -> (r:
    IpcOutcome)
    ensures
        !r.save,
        name is None ==> (r.reply matches IpcReply::Error(m) && m@ == "missing server name"@)
            && r.action is None,
        name matches Some(n) ==> match first_with_name(configuration@, n@) {
            Some(i) => r.reply is Done && (r.action matches Some(a) && a.kind@ == kind@ && a.id@
                == configuration@[i].id),
            None => (r.reply matches IpcReply::Error(m) && m@ == no_server_message(n@))
                && r.action is None,
        },
{
    let name = match name {
        Some(n) => n,
        None => {
            return ipc_failure("missing server name".to_string());
        },
    };
    match find_by_name(configuration, name.as_str()) {
        Some(i) => {
            let id = configuration.servers[i].id.clone();
            assert(id@ == configuration@[i as int].id);
            IpcOutcome { reply: IpcReply::Done, action: Some(IpcAction { kind: owned(kind), id }), save: false }
        },
        None => {
            let mut m = concat("no server named '", name.as_str());
            append(&mut m, "'");
            ipc_failure(m)
        },
    }
}

/// Removes the first server of the given name and asks the host to remove
/// it. A missing name and an unknown one are errors that change nothing.
pub fn ipc_remove(configuration: &mut PersistedConfiguration, name: Option<String>) -> (r: IpcOutcome)
    ensures
        name is None ==> (r.reply matches IpcReply::Error(m) && m@ == "missing server name"@)
            && r.action is None && !r.save && final(configuration)@ == old(configuration)@,
        name matches Some(n) ==> match first_with_name(old(configuration)@, n@) {
            Some(i) => r.reply is Done && (r.action matches Some(a) && a.kind@ == "remove"@ && a.id@
                == old(configuration)@[i].id) && r.save && final(configuration)@ == old(
                configuration,
            )@.remove(i),
            None => (r.reply matches IpcReply::Error(m) && m@ == no_server_message(n@))
                && r.action is None && !r.save && final(configuration)@ == old(configuration)@,
        },
{
    let name = match name {
        Some(n) => n,
        None => {
            return ipc_failure("missing server name".to_string());
        },
    };
    match find_by_name(configuration, name.as_str()) {
        Some(i) => {
            let server = configuration.servers.remove(i);
            assert(servers_view(configuration.servers@) =~= servers_view(
                old(configuration).servers@,
            ).remove(i as int));
            IpcOutcome {
                reply: IpcReply::Done,
                action: Some(IpcAction { kind: "remove".to_string(), id: server.id }),
                save: true,
            }
        },
        None => {
            let mut m = concat("no server named '", name.as_str());
            append(&mut m, "'");
            ipc_failure(m)
        },
    }
}

// ---------------------------------------------------------------------------
// Listing the servers.
/// The index of the first status entry for a server id, if any.
pub open spec fn status_index(statuses: Seq<Json>, id: Seq<char>) -> Option<int> {
    if exists|i: int| 0 <= i < statuses.len() && spec_as_str(spec_get(#[trigger] statuses[i], "id"@)) == Some(id) {
        Some(
            choose|i: int|
                0 <= i < statuses.len() && spec_as_str(spec_get(#[trigger] statuses[i], "id"@))
                    == Some(id) && forall|j: int|
                    0 <= j < i ==> spec_as_str(spec_get(statuses[j], "id"@)) != Some(id),
        )
    } else {
        None
    }
}

/// Whether a server runs, and under which pid, as the host's context says:
/// the first entry of `statuses` with its id (`running` false and no pid
/// when missing), the pid cut to 32 bits.
pub open spec fn status_of(context: Json, id: Seq<char>) -> (bool, Option<i32>) {
    match spec_get(context, "statuses"@) {
        Some(Json::Array(statuses)) => match status_index(statuses@, id) {
            Some(i) => (
                match spec_as_bool(spec_get(statuses@[i], "running"@)) {
                    Some(b) => b,
                    None => false,
                },
                match spec_as_i64(spec_get(statuses@[i], "pid"@)) {
                    Some(p) => Some(p as i32),
                    None => None,
                },
            ),
            None => (false, None),
        },
        _ => (false, None),
    }
}

proof fn lemma_first_status(statuses: Seq<Json>, id: Seq<char>, i: int)
    requires
        0 <= i < statuses.len(),
        spec_as_str(spec_get(statuses[i], "id"@)) == Some(id),
        forall|j: int| 0 <= j < i ==> spec_as_str(spec_get(statuses[j], "id"@)) != Some(id),
    ensures
        status_index(statuses, id) == Some(i),
{
    let k = choose|k: int|
        0 <= k < statuses.len() && spec_as_str(spec_get(#[trigger] statuses[k], "id"@)) == Some(id)
            && forall|j: int| 0 <= j < k ==> spec_as_str(spec_get(statuses[j], "id"@)) != Some(id);
    assert(0 <= k < statuses.len() && spec_as_str(spec_get(statuses[k], "id"@)) == Some(id)
        && forall|j: int| 0 <= j < k ==> spec_as_str(spec_get(statuses[j], "id"@)) != Some(id));
    if k > i {
        assert(spec_as_str(spec_get(statuses[i], "id"@)) != Some(id));
    }
}

fn status_is_for(status: &Json, id: &str) -> (r: bool)
    ensures
        r == (spec_as_str(spec_get(*status, "id"@)) == Some(id@)),
{
    match as_str(get(status, "id")) {
        Some(s) => str_eq(s, id),
        None => false,
    }
}

fn status_values(status: &Json) -> (r: (bool, Option<i32>))
    ensures
        r.0 == match spec_as_bool(spec_get(*status, "running"@)) {
            Some(b) => b,
            None => false,
        },
        r.1 == match spec_as_i64(spec_get(*status, "pid"@)) {
            Some(p) => Some(p as i32),
            None => None::<i32>,
        },
{
    let running = match as_bool(get(status, "running")) {
        Some(b) => b,
        None => false,
    };
    let pid = match as_i64(get(status, "pid")) {
        Some(p) => Some(p as i32),
        None => None,
    };
    (running, pid)
}

pub fn status_for(context: &Json, id: &str) -> (r: (bool, Option<i32>))
    ensures
        r == status_of(*context, id@),
{
    let statuses = match get(context, "statuses") {
        Some(Json::Array(s)) => s,
        _ => {
            return (false, None);
        },
    };
    let mut i: usize = 0;
    while i < statuses.len()
        invariant
            i <= statuses@.len(),
            spec_get(*context, "statuses"@) == Some(Json::Array(*statuses)),
            forall|j: int| 0 <= j < i ==> spec_as_str(spec_get(#[trigger] statuses@[j], "id"@)) != Some(id@),
        decreases statuses.len() - i,
    {
        if status_is_for(&statuses[i], id) {
            proof {
                lemma_first_status(statuses@, id@, i as int);
            }
            return status_values(&statuses[i]);
        }
        i = i + 1;
    }
    (false, None)
}

/// What `rack ls` shows of a server.
pub open spec fn listing_of(server: ServerConfigurationView, context: Json) -> (Seq<char>, Seq<char>, bool, Option<i32>) {
    let (running, pid) = status_of(context, server.id);
    (server.name, url_in(server.name, server.custom_domain, context), running, pid)
}

/// Lists the servers, each with its URL and run status.
pub fn ipc_list(configuration: &PersistedConfiguration, context: &Json) -> (r: IpcOutcome)
    ensures
        !r.save,
        r.action is None,
        r.reply matches IpcReply::Servers(v) && v@.len() == configuration@.len() && forall|i: int|
            0 <= i < v@.len() ==> ((#[trigger] v@[i]).name@, v@[i].url@, v@[i].running, v@[i].pid)
                == listing_of(configuration@[i], *context),
{
    let mut out: Vec<ServerListing> = Vec::new();
    let mut i: usize = 0;
    while i < configuration.servers.len()
        invariant
            i <= configuration@.len(),
            configuration@ == servers_view(configuration.servers@),
            out@.len() == i,
            forall|k: int|
                0 <= k < i ==> ((#[trigger] out@[k]).name@, out@[k].url@, out@[k].running, out@[k].pid)
                    == listing_of(configuration@[k], *context),
        decreases configuration.servers.len() - i,
    {
        let server = &configuration.servers[i];
        let (running, pid) = status_for(context, server.id.as_str());
        out.push(
            ServerListing { name: server.name.clone(), url: local_url(server, context), running, pid },
        );
        i = i + 1;
    }
    IpcOutcome { reply: IpcReply::Servers(out), action: None, save: false }
}

/// What a registration reports is what a listing shows. The server that
/// `rack dev` registers is listed last: under its name, at the URL for its
/// name in the listing's context, with the run status and pid that the
/// listing's context gives for its id; the servers before it are listed as
/// before. When the two contexts agree on the proxy port and on standard
/// ports, that URL is the one the registration replied with.
pub proof fn law_registered_server_is_listed(
    servers: Seq<ServerConfigurationView>,
    payload: RegisterPayload,
    id: Seq<char>,
    env_ids: Seq<String>,
    registering: Json,
    listing: Json,
)
    ensures
        ({
            let after = servers.push(registered_server(payload, id, env_ids));
            &&& after.len() == servers.len() + 1
            &&& listing_of(after[after.len() - 1], listing) == (
                payload.name@,
                url_in(payload.name@, seq![], listing),
                status_of(listing, id).0,
                status_of(listing, id).1,
            )
            &&& forall|i: int| 0 <= i < servers.len() ==> #[trigger] listing_of(after[i], listing)
                == listing_of(servers[i], listing)
        }),
        context_standard_ports(registering) == context_standard_ports(listing) && context_port(registering)
            == context_port(listing) ==> url_in(payload.name@, seq![], listing) == url_in(
            payload.name@,
            seq![],
            registering,
        ),
{
}

} // verus!
