//! Which handler of the core answers a command, and the answers the core
//! writes itself.
use crate::proxy::{proxy_command_kind, proxy_command_of, ProxyCommand};
use crate::routes::{route_command_kind, route_command_of, RouteCommand};
use crate::text::{append, concat, decimal, decimal_string, str_eq};
use vstd::prelude::*;

verus! {

/// The readiness probes of the core.
pub enum ReadinessCommand {
    ProbeUnixSocket,
    ProbePort,
    LoopbackListeningPorts,
}

/// The handler of a command, by its type.
pub enum CoreCommand {
    ServersSnapshot,
    ServersSave,
    ServersAdd,
    ServersDelete,
    ServersDuplicate,
    RouteInfo,
    IpcHandle,
    IpcContext,
    ServerStart,
    ServerStop,
    LaunchPlan,
    Readiness(ReadinessCommand),
    Route(RouteCommand),
    Proxy(ProxyCommand),
    DevDetect,
    ProjectInfer,
    /// A command that needs the core to be running, while it is not.
    NotRunning,
    StateSnapshot,
    FunctionHttp,
    /// Any other command is acknowledged.
    Ack,
}

/// The handler of a command type, in the order the core tries them; the
/// commands after project inference need the core to be running.
pub open spec fn core_command_of(t: Seq<char>, running: bool) -> CoreCommand {
    if t == "servers.snapshot"@ {
        CoreCommand::ServersSnapshot
    } else if t == "servers.save"@ {
        CoreCommand::ServersSave
    } else if t == "servers.add"@ {
        CoreCommand::ServersAdd
    } else if t == "servers.delete"@ {
        CoreCommand::ServersDelete
    } else if t == "servers.duplicate"@ {
        CoreCommand::ServersDuplicate
    } else if t == "server.routeInfo"@ {
        CoreCommand::RouteInfo
    } else if t == "ipc.handle"@ {
        CoreCommand::IpcHandle
    } else if t == "ipc.context"@ {
        CoreCommand::IpcContext
    } else if t == "server.start"@ {
        CoreCommand::ServerStart
    } else if t == "server.stop"@ {
        CoreCommand::ServerStop
    } else if t == "server.launchPlan"@ {
        CoreCommand::LaunchPlan
    } else if t == "server.probeUnixSocket"@ {
        CoreCommand::Readiness(ReadinessCommand::ProbeUnixSocket)
    } else if t == "server.probePort"@ {
        CoreCommand::Readiness(ReadinessCommand::ProbePort)
    } else if t == "server.loopbackListeningPorts"@ {
        CoreCommand::Readiness(ReadinessCommand::LoopbackListeningPorts)
    } else if route_command_of(t) is Some {
        CoreCommand::Route(route_command_of(t)->0)
    } else if proxy_command_of(t) is Some {
        CoreCommand::Proxy(proxy_command_of(t)->0)
    } else if t == "dev.detect"@ {
        CoreCommand::DevDetect
    } else if t == "project.infer"@ {
        CoreCommand::ProjectInfer
    } else if !running {
        CoreCommand::NotRunning
    } else if t == "state.snapshot"@ {
        CoreCommand::StateSnapshot
    } else if t == "function.http"@ {
        CoreCommand::FunctionHttp
    } else {
        CoreCommand::Ack
    }
}

/// The handler of a command type.
pub fn core_command(command_type: &str, running: bool) -> (r: CoreCommand)
    ensures
        r == core_command_of(command_type@, running),
{
    let t = command_type;
    if str_eq(t, "servers.snapshot") {
        CoreCommand::ServersSnapshot
    } else if str_eq(t, "servers.save") {
        CoreCommand::ServersSave
    } else if str_eq(t, "servers.add") {
        CoreCommand::ServersAdd
    } else if str_eq(t, "servers.delete") {
        CoreCommand::ServersDelete
    } else if str_eq(t, "servers.duplicate") {
        CoreCommand::ServersDuplicate
    } else if str_eq(t, "server.routeInfo") {
        CoreCommand::RouteInfo
    } else if str_eq(t, "ipc.handle") {
        CoreCommand::IpcHandle
    } else if str_eq(t, "ipc.context") {
        CoreCommand::IpcContext
    } else if str_eq(t, "server.start") {
        CoreCommand::ServerStart
    } else if str_eq(t, "server.stop") {
        CoreCommand::ServerStop
    } else if str_eq(t, "server.launchPlan") {
        CoreCommand::LaunchPlan
    } else if str_eq(t, "server.probeUnixSocket") {
        CoreCommand::Readiness(ReadinessCommand::ProbeUnixSocket)
    } else if str_eq(t, "server.probePort") {
        CoreCommand::Readiness(ReadinessCommand::ProbePort)
    } else if str_eq(t, "server.loopbackListeningPorts") {
        CoreCommand::Readiness(ReadinessCommand::LoopbackListeningPorts)
    } else if let Some(route) = route_command_kind(t) {
        CoreCommand::Route(route)
    } else if let Some(proxy) = proxy_command_kind(t) {
        CoreCommand::Proxy(proxy)
    } else if str_eq(t, "dev.detect") {
        CoreCommand::DevDetect
    } else if str_eq(t, "project.infer") {
        CoreCommand::ProjectInfer
    } else if !running {
        CoreCommand::NotRunning
    } else if str_eq(t, "state.snapshot") {
        CoreCommand::StateSnapshot
    } else if str_eq(t, "function.http") {
        CoreCommand::FunctionHttp
    } else {
        CoreCommand::Ack
    }
}

/// The answer to a command that needs the core running while it is not.
pub open spec fn not_running_text() -> Seq<char> {
    "{\"type\":\"error\",\"message\":\"rack core is not running\"}"@
}

pub fn not_running_response() -> (r: String)
    ensures
        r@ == not_running_text(),
{
    "{\"type\":\"error\",\"message\":\"rack core is not running\"}".to_string()
}

/// The acknowledgement of a command no handler takes: the command's own
/// text is echoed as JSON, or `null` when it is empty.
pub open spec fn ack_text(command: Seq<char>) -> Seq<char> {
    "{\"type\":\"ack\",\"payload\":{\"backend\":\"rust\",\"command\":"@ + (if command.len() == 0 {
        "null"@
    } else {
        command
    }) + "}}"@
}

pub fn ack_response(command: &str) -> (r: String)
    ensures
        r@ == ack_text(command@),
{
    let mut r = "{\"type\":\"ack\",\"payload\":{\"backend\":\"rust\",\"command\":".to_string();
    if crate::text::chars_of(command).len() == 0 {
        append(&mut r, "null");
    } else {
        append(&mut r, command);
    }
    append(&mut r, "}}");
    r
}

/// The state snapshot: when the core started, and the servers and
/// functions as JSON texts.
pub open spec fn state_snapshot_text(started_at_ms: u64, servers: Seq<char>, functions: Seq<char>) -> Seq<char> {
    "{\"type\":\"state.snapshot\",\"payload\":{\"backend\":\"rust\",\"started_at_ms\":"@ + decimal(
        started_at_ms as nat,
    ) + ",\"servers\":"@ + servers + ",\"functions\":"@ + functions + "}}"@
}

pub fn state_snapshot_response(started_at_ms: u64, servers: &str, functions: &str) -> (r: String)
    ensures
        r@ == state_snapshot_text(started_at_ms, servers@, functions@),
{
    let mut r = "{\"type\":\"state.snapshot\",\"payload\":{\"backend\":\"rust\",\"started_at_ms\":".to_string();
    append(&mut r, decimal_string(started_at_ms).as_str());
    append(&mut r, ",\"servers\":");
    append(&mut r, servers);
    append(&mut r, ",\"functions\":");
    append(&mut r, functions);
    append(&mut r, "}}");
    r
}

} // verus!
