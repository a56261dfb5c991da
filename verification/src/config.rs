//! The persisted server configuration, the route rules that derive a
//! server's subdomain and local URL from it, and the edits that the server
//! commands make to it.
use crate::functions::manifest::{join_path, path_join};
use crate::json::{as_bool, as_u64, get, spec_as_bool, spec_as_u64, spec_get, Json};
use crate::text::{
    append, concat, decimal, decimal_string, ends_with, owned, replace_char, replace_char_str,
    lowercase, str_eq, strip_suffix, to_lowercase, trim, trim_str,
};
use vstd::prelude::*;

verus! {

/// One environment variable of a server.
pub struct EnvironmentVariable {
    pub id: String,
    pub key: String,
    pub value: String,
}

pub struct EnvironmentVariableView {
    pub id: Seq<char>,
    pub key: Seq<char>,
    pub value: Seq<char>,
}

impl View for EnvironmentVariable {
    type V = EnvironmentVariableView;

    open spec fn view(&self) -> EnvironmentVariableView {
        EnvironmentVariableView { id: self.id@, key: self.key@, value: self.value@ }
    }
}

impl EnvironmentVariable {
    /// A copy of this variable.
    pub fn copy(&self) -> (r: Self)
        ensures
            r@ == self@,
    {
        EnvironmentVariable { id: self.id.clone(), key: self.key.clone(), value: self.value.clone() }
    }
}

/// One configured server.
pub struct ServerConfiguration {
    pub id: String,
    pub name: String,
    pub command: String,
    pub arguments: String,
    pub working_directory: String,
    pub auto_start: bool,
    pub custom_domain: String,
    pub environment: Vec<EnvironmentVariable>,
    pub port: Option<u16>,
    pub port_flag: Option<String>,
}

pub struct ServerConfigurationView {
    pub id: Seq<char>,
    pub name: Seq<char>,
    pub command: Seq<char>,
    pub arguments: Seq<char>,
    pub working_directory: Seq<char>,
    pub auto_start: bool,
    pub custom_domain: Seq<char>,
    pub environment: Seq<EnvironmentVariableView>,
    pub port: Option<u16>,
    pub port_flag: Option<Seq<char>>,
}

pub open spec fn opt_view(s: Option<String>) -> Option<Seq<char>> {
    match s {
        Some(t) => Some(t@),
        None => None,
    }
}

pub open spec fn env_view(v: Seq<EnvironmentVariable>) -> Seq<EnvironmentVariableView> {
    v.map_values(|e: EnvironmentVariable| e@)
}

impl View for ServerConfiguration {
    type V = ServerConfigurationView;

    open spec fn view(&self) -> ServerConfigurationView {
        ServerConfigurationView {
            id: self.id@,
            name: self.name@,
            command: self.command@,
            arguments: self.arguments@,
            working_directory: self.working_directory@,
            auto_start: self.auto_start,
            custom_domain: self.custom_domain@,
            environment: env_view(self.environment@),
            port: self.port,
            port_flag: opt_view(self.port_flag),
        }
    }
}

pub fn copy_opt_string(s: &Option<String>) -> (r: Option<String>)
    ensures
        opt_view(r) == opt_view(*s),
{
    match s {
        Some(t) => Some(t.clone()),
        None => None,
    }
}

pub fn copy_environment(v: &Vec<EnvironmentVariable>) -> (r: Vec<EnvironmentVariable>)
    ensures
        env_view(r@) == env_view(v@),
{
    let mut r: Vec<EnvironmentVariable> = Vec::new();
    let mut i: usize = 0;
    while i < v.len()
        invariant
            i <= v@.len(),
            r@.len() == i,
            forall|j: int| 0 <= j < i ==> (#[trigger] r@[j])@ == v@[j]@,
        decreases v.len() - i,
    {
        r.push(v[i].copy());
        i = i + 1;
    }
    assert(env_view(r@) =~= env_view(v@));
    r
}

impl ServerConfiguration {
    /// A copy of this server.
    pub fn copy(&self) -> (r: Self)
        ensures
            r@ == self@,
    {
        ServerConfiguration {
            id: self.id.clone(),
            name: self.name.clone(),
            command: self.command.clone(),
            arguments: self.arguments.clone(),
            working_directory: self.working_directory.clone(),
            auto_start: self.auto_start,
            custom_domain: self.custom_domain.clone(),
            environment: copy_environment(&self.environment),
            port: self.port,
            port_flag: copy_opt_string(&self.port_flag),
        }
    }

    /// A new server with the given id and every other field at its default:
    /// named `New Server`, no command, not started automatically.
    pub fn with_defaults(id: String) -> (r: Self)
        ensures
            r@ == default_server_view(id@),
    {
        let r = ServerConfiguration {
            id,
            name: default_server_name(),
            command: String::new(),
            arguments: String::new(),
            working_directory: String::new(),
            auto_start: false,
            custom_domain: String::new(),
            environment: Vec::new(),
            port: None,
            port_flag: None,
        };
        assert(env_view(r.environment@) =~= Seq::<EnvironmentVariableView>::empty());
        r
    }

    /// The copy that duplicating this server appends.
    pub fn duplicate(&self, new_id: String) -> (r: Self)
        ensures
            r@ == duplicate_view(self@, new_id@),
    {
        let mut copy = self.copy();
        copy.id = new_id;
        append(&mut copy.name, " Copy");
        copy
    }
}

/// The name a server gets when none is given.
pub open spec fn default_name() -> Seq<char> {
    "New Server"@
}

/// The name a server gets when none is given.
pub fn default_server_name() -> (r: String)
    ensures
        r@ == default_name(),
{
    "New Server".to_string()
}

pub open spec fn default_server_view(id: Seq<char>) -> ServerConfigurationView {
    ServerConfigurationView {
        id,
        name: default_name(),
        command: seq![],
        arguments: seq![],
        working_directory: seq![],
        auto_start: false,
        custom_domain: seq![],
        environment: seq![],
        port: None,
        port_flag: None,
    }
}

/// The persisted list of servers.
pub struct PersistedConfiguration {
    pub servers: Vec<ServerConfiguration>,
}

pub open spec fn servers_view(v: Seq<ServerConfiguration>) -> Seq<ServerConfigurationView> {
    v.map_values(|s: ServerConfiguration| s@)
}

impl View for PersistedConfiguration {
    type V = Seq<ServerConfigurationView>;

    open spec fn view(&self) -> Seq<ServerConfigurationView> {
        servers_view(self.servers@)
    }
}

impl PersistedConfiguration {
    /// A copy of this configuration.
    pub fn copy(&self) -> (r: Self)
        ensures
            r@ == self@,
    {
        let mut servers: Vec<ServerConfiguration> = Vec::new();
        let mut i: usize = 0;
        while i < self.servers.len()
            invariant
                i <= self.servers@.len(),
                servers@.len() == i,
                forall|j: int| 0 <= j < i ==> (#[trigger] servers@[j])@ == self.servers@[j]@,
            decreases self.servers.len() - i,
        {
            servers.push(self.servers[i].copy());
            i = i + 1;
        }
        let r = PersistedConfiguration { servers };
        assert(r@ =~= self@);
        r
    }
}

// ---------------------------------------------------------------------------
// Route rules.
/// The subdomain a server is routed under: its custom domain, or its name
/// when the custom domain is empty, trimmed, lowercased, with spaces made
/// dashes, and without a trailing `.localhost`.
pub open spec fn route_subdomain_of(name: Seq<char>, custom_domain: Seq<char>) -> Seq<char> {
    let raw = if custom_domain.len() == 0 {
        name
    } else {
        custom_domain
    };
    let t = replace_char(lowercase(trim(raw)), ' ', "-"@);
    if ends_with(t, ".localhost"@) {
        t.take(t.len() - ".localhost"@.len())
    } else {
        t
    }
}

/// The subdomain a server is routed under.
pub fn route_subdomain(server: &ServerConfiguration) -> (r: String)
    ensures
        r@ == route_subdomain_of(server.name@, server.custom_domain@),
{
    let raw = if server.custom_domain.as_str().is_empty() {
        server.name.as_str()
    } else {
        server.custom_domain.as_str()
    };
    proof {
        if server.custom_domain@.len() == 0 {
        }
    }
    let trimmed = replace_char_str(to_lowercase(trim_str(raw).as_str()).as_str(), ' ', "-");
    match strip_suffix(trimmed.as_str(), ".localhost") {
        Some(stripped) => stripped,
        None => trimmed,
    }
}

/// Whether the host serves on standard ports, read from an IPC context
/// (`standardPortsEnabled`, false when absent).
pub open spec fn context_standard_ports(context: Json) -> bool {
    match spec_as_bool(spec_get(context, "standardPortsEnabled"@)) {
        Some(b) => b,
        None => false,
    }
}

/// The port the proxy listens on, read from an IPC context (`boundPort`,
/// 1355 when absent).
pub open spec fn context_port(context: Json) -> u64 {
    match spec_as_u64(spec_get(context, "boundPort"@)) {
        Some(p) => p,
        None => 1355,
    }
}

/// The URL a server is reached at: `http://<subdomain>.localhost`, with the
/// proxy port unless standard ports are enabled.
pub open spec fn local_url_of(subdomain: Seq<char>, standard_ports: bool, port: u64) -> Seq<char> {
    if standard_ports {
        "http://"@ + subdomain + ".localhost"@
    } else {
        "http://"@ + subdomain + ".localhost:"@ + decimal(port as nat)
    }
}

/// The URL of a server under an IPC context.
pub fn local_url(server: &ServerConfiguration, context: &Json) -> (r: String)
    ensures
        r@ == local_url_of(
            route_subdomain_of(server.name@, server.custom_domain@),
            context_standard_ports(*context),
            context_port(*context),
        ),
{
    let subdomain = route_subdomain(server);
    let standard = match as_bool(get(context, "standardPortsEnabled")) {
        Some(b) => b,
        None => false,
    };
    let mut url = concat("http://", subdomain.as_str());
    if standard {
        append(&mut url, ".localhost");
        return url;
    }
    let port = match as_u64(get(context, "boundPort")) {
        Some(p) => p,
        None => 1355,
    };
    append(&mut url, ".localhost:");
    append(&mut url, decimal_string(port).as_str());
    url
}

/// A server's subdomain and URL, as the route-info command reports them.
pub struct ServerRouteInfo {
    pub route_subdomain: String,
    pub local_url: String,
}

/// The route information of a server under a context.
pub fn route_info(server: &ServerConfiguration, context: &Json) -> (r: ServerRouteInfo)
    ensures
        r.route_subdomain@ == route_subdomain_of(server.name@, server.custom_domain@),
        r.local_url@ == local_url_of(
            route_subdomain_of(server.name@, server.custom_domain@),
            context_standard_ports(*context),
            context_port(*context),
        ),
{
    ServerRouteInfo { route_subdomain: route_subdomain(server), local_url: local_url(server, context) }
}

// ---------------------------------------------------------------------------
// Edits to the configuration.
/// Appends a server.
pub fn add_server(configuration: &mut PersistedConfiguration, server: ServerConfiguration)
    ensures
        final(configuration)@ == old(configuration)@.push(server@),
{
    configuration.servers.push(server);
    assert(servers_view(configuration.servers@) =~= servers_view(old(configuration).servers@).push(
        server@,
    ));
}

/// The index of the first server with the given id, if any.
pub open spec fn first_with_id(servers: Seq<ServerConfigurationView>, id: Seq<char>) -> Option<int> {
    if exists|i: int| 0 <= i < servers.len() && #[trigger] servers[i].id == id {
        Some(
            choose|i: int|
                0 <= i < servers.len() && #[trigger] servers[i].id == id && forall|j: int|
                    0 <= j < i ==> servers[j].id != id,
        )
    } else {
        None
    }
}

/// The index of the first server with the given name, if any.
pub open spec fn first_with_name(servers: Seq<ServerConfigurationView>, name: Seq<char>) -> Option<int> {
    if exists|i: int| 0 <= i < servers.len() && #[trigger] servers[i].name == name {
        Some(
            choose|i: int|
                0 <= i < servers.len() && #[trigger] servers[i].name == name && forall|j: int|
                    0 <= j < i ==> servers[j].name != name,
        )
    } else {
        None
    }
}

pub proof fn lemma_first_with_id(servers: Seq<ServerConfigurationView>, id: Seq<char>, i: int)
    requires
        0 <= i < servers.len(),
        servers[i].id == id,
        forall|j: int| 0 <= j < i ==> servers[j].id != id,
    ensures
        first_with_id(servers, id) == Some(i),
{
    let k = choose|k: int|
        0 <= k < servers.len() && #[trigger] servers[k].id == id && forall|j: int|
            0 <= j < k ==> servers[j].id != id;
    assert(0 <= k < servers.len() && servers[k].id == id && forall|j: int|
        0 <= j < k ==> servers[j].id != id);
    if k > i {
        assert(servers[i].id != id);
    }
}

pub proof fn lemma_first_with_name(servers: Seq<ServerConfigurationView>, name: Seq<char>, i: int)
    requires
        0 <= i < servers.len(),
        servers[i].name == name,
        forall|j: int| 0 <= j < i ==> servers[j].name != name,
    ensures
        first_with_name(servers, name) == Some(i),
{
    let k = choose|k: int|
        0 <= k < servers.len() && #[trigger] servers[k].name == name && forall|j: int|
            0 <= j < k ==> servers[j].name != name;
    assert(0 <= k < servers.len() && servers[k].name == name && forall|j: int|
        0 <= j < k ==> servers[j].name != name);
    if k > i {
        assert(servers[i].name != name);
    }
}

/// Finds the first server with the given id.
pub fn find_by_id(configuration: &PersistedConfiguration, id: &str) -> (r: Option<usize>)
    ensures
        r matches Some(i) ==> i < configuration.servers@.len() && first_with_id(configuration@, id@)
            == Some(i as int),
        r is None ==> first_with_id(configuration@, id@) is None,
{
    let mut i: usize = 0;
    while i < configuration.servers.len()
        invariant
            i <= configuration.servers@.len(),
            forall|j: int| 0 <= j < i ==> configuration@[j].id != id@,
        decreases configuration.servers.len() - i,
    {
        if str_eq(configuration.servers[i].id.as_str(), id) {
            proof {
                lemma_first_with_id(configuration@, id@, i as int);
            }
            return Some(i);
        }
        i = i + 1;
    }
    None
}

/// Finds the first server with the given name.
pub fn find_by_name(configuration: &PersistedConfiguration, name: &str) -> (r: Option<usize>)
    ensures
        r matches Some(i) ==> i < configuration.servers@.len() && first_with_name(
            configuration@,
            name@,
        ) == Some(i as int),
        r is None ==> first_with_name(configuration@, name@) is None,
{
    let mut i: usize = 0;
    while i < configuration.servers.len()
        invariant
            i <= configuration.servers@.len(),
            forall|j: int| 0 <= j < i ==> configuration@[j].name != name@,
        decreases configuration.servers.len() - i,
    {
        if str_eq(configuration.servers[i].name.as_str(), name) {
            proof {
                lemma_first_with_name(configuration@, name@, i as int);
            }
            return Some(i);
        }
        i = i + 1;
    }
    None
}

/// The copy that duplicating a server appends: a new id, and ` Copy` after
/// the name.
pub open spec fn duplicate_view(server: ServerConfigurationView, id: Seq<char>) -> ServerConfigurationView {
    ServerConfigurationView { id, name: server.name + " Copy"@, ..server }
}

/// Appends a copy of the first server with `id`, under `new_id` and with
/// ` Copy` after its name. A missing id and an unknown id are errors.
pub fn duplicate_server(
    configuration: &mut PersistedConfiguration,
    id: Option<&str>,
    new_id: String,
) -> (r: Result<(), String>)
    ensures
        id is None ==> (r matches Err(m) && m@ == "missing server id"@) && final(configuration)@
            == old(configuration)@,
        id matches Some(id) ==> match first_with_id(old(configuration)@, id@) {
            Some(i) => r is Ok && final(configuration)@ == old(configuration)@.push(
                duplicate_view(old(configuration)@[i], new_id@),
            ),
            None => r matches Err(m) && m@ == "server not found: "@ + id@ && final(configuration)@
                == old(configuration)@,
        },
{
    let id = match id {
        Some(id) => id,
        None => {
            return Err("missing server id".to_string());
        },
    };
    match find_by_id(configuration, id) {
        Some(i) => {
            let copy = configuration.servers[i].duplicate(new_id);
            assert(copy@ == duplicate_view(old(configuration)@[i as int], new_id@));
            add_server(configuration, copy);
            Ok(())
        },
        None => Err(concat("server not found: ", id)),
    }
}

/// Whether `id` is one of `ids`.
pub fn id_listed(ids: &Vec<String>, id: &str) -> (r: bool)
    ensures
        r == exists|j: int| 0 <= j < ids@.len() && #[trigger] ids@[j]@ == id@,
{
    let mut j: usize = 0;
    while j < ids.len()
        invariant
            j <= ids@.len(),
            forall|k: int| 0 <= k < j ==> ids@[k]@ != id@,
        decreases ids.len() - j,
    {
        if str_eq(ids[j].as_str(), id) {
            return true;
        }
        j = j + 1;
    }
    false
}

/// The servers whose ids are not listed, in their order.
pub open spec fn without_ids(servers: Seq<ServerConfigurationView>, ids: Seq<Seq<char>>) -> Seq<ServerConfigurationView> {
    servers.filter(|s: ServerConfigurationView| !ids.contains(s.id))
}

/// Removes every server whose id is listed; a missing list is an error.
pub fn delete_servers(configuration: &mut PersistedConfiguration, ids: Option<Vec<String>>) -> (r:
    Result<(), String>)
    ensures
        ids is None ==> (r matches Err(m) && m@ == "missing server ids"@) && final(configuration)@
            == old(configuration)@,
        ids matches Some(ids) ==> r is Ok && final(configuration)@ == without_ids(
            old(configuration)@,
            ids@.map_values(|s: String| s@),
        ),
{
    let ids = match ids {
        Some(ids) => ids,
        None => {
            return Err("missing server ids".to_string());
        },
    };
    let ghost idv = ids@.map_values(|s: String| s@);
    let ghost pred = |s: ServerConfigurationView| !idv.contains(s.id);
    let mut kept: Vec<ServerConfiguration> = Vec::new();
    let mut old_servers: Vec<ServerConfiguration> = Vec::new();
    std::mem::swap(&mut old_servers, &mut configuration.servers);
    let ghost start = servers_view(old_servers@);
    let mut i: usize = 0;
    while i < old_servers.len()
        invariant
            i <= old_servers@.len(),
            start == servers_view(old_servers@),
            idv == ids@.map_values(|s: String| s@),
            pred == (|s: ServerConfigurationView| !idv.contains(s.id)),
            servers_view(kept@) == start.take(i as int).filter(pred),
        decreases old_servers.len() - i,
    {
        let listed = id_listed(&ids, old_servers[i].id.as_str());
        proof {
            assert(start.take(i + 1).drop_last() =~= start.take(i as int));
            reveal_with_fuel(Seq::<_>::filter, 1);
            if listed {
                let j = choose|j: int| 0 <= j < ids@.len() && #[trigger] ids@[j]@ == old_servers@[i as int].id@;
                assert(idv[j] == start[i as int].id);
            } else {
                if idv.contains(start[i as int].id) {
                    let j = choose|j: int| 0 <= j < idv.len() && idv[j] == start[i as int].id;
                    assert(ids@[j]@ == old_servers@[i as int].id@);
                }
            }
        }
        if !listed {
            let s = old_servers[i].copy();
            kept.push(s);
        }
        i = i + 1;
        assert(servers_view(kept@) =~= start.take(i as int).filter(pred));
    }
    assert(start.take(start.len() as int) =~= start);
    configuration.servers = kept;
    Ok(())
}

// ---------------------------------------------------------------------------
// Reading the server commands' payloads.
/// The ids of a delete command: the string members of its `ids` array (none
/// when there is no such array).
pub open spec fn delete_ids_of(payload: Json) -> Option<Seq<Seq<char>>> {
    match spec_get(payload, "ids"@) {
        Some(Json::Array(items)) => Some(string_items(items@)),
        _ => None,
    }
}

/// The strings among JSON values, in order.
pub open spec fn string_items(items: Seq<Json>) -> Seq<Seq<char>>
    decreases items.len(),
{
    if items.len() == 0 {
        seq![]
    } else {
        string_items(items.drop_last()) + match items.last() {
            Json::Str(s) => seq![s@],
            _ => seq![],
        }
    }
}

pub fn delete_ids(payload: &Json) -> (r: Option<Vec<String>>)
    ensures
        match delete_ids_of(*payload) {
            Some(ids) => r matches Some(v) && v@.map_values(|s: String| s@) == ids,
            None => r is None,
        },
{
    let items = match get(payload, "ids") {
        Some(Json::Array(items)) => items,
        _ => {
            return None;
        },
    };
    let mut out: Vec<String> = Vec::new();
    let mut i: usize = 0;
    assert(items@.take(0) =~= Seq::<Json>::empty());
    while i < items.len()
        invariant
            i <= items@.len(),
            out@.map_values(|s: String| s@) == string_items(items@.take(i as int)),
        decreases items.len() - i,
    {
        proof {
            assert(items@.take(i + 1).drop_last() =~= items@.take(i as int));
            assert(items@.take(i + 1).last() == items@[i as int]);
        }
        let ghost before = out@.map_values(|s: String| s@);
        match &items[i] {
            Json::Str(s) => {
                out.push(s.clone());
                assert(out@.map_values(|s: String| s@) =~= before + seq![s@]);
            },
            _ => {
                assert(out@.map_values(|s: String| s@) =~= before + Seq::<Seq<char>>::empty());
            },
        }
        i = i + 1;
    }
    assert(items@.take(items@.len() as int) =~= items@);
    Some(out)
}

/// The id of a duplicate command: its `id` member, when it is a string.
pub fn duplicate_id(payload: &Json) -> (r: Option<String>)
    ensures
        opt_view(r) == crate::json::spec_as_str(spec_get(*payload, "id"@)),
{
    match crate::json::as_str(get(payload, "id")) {
        Some(id) => Some(crate::text::owned(id)),
        None => None,
    }
}

/// Adding a server and then duplicating it by its id, with an id that no
/// server had, appends the server and then its copy: the copy differs from
/// it only in its id, the new one, and in its name, which has ` Copy`
/// after it. The servers before are untouched. A copy of the default
/// server is named `New Server Copy`.
pub proof fn law_add_then_duplicate(
    servers: Seq<ServerConfigurationView>,
    server: ServerConfigurationView,
    new_id: Seq<char>,
)
    requires
        forall|i: int| 0 <= i < servers.len() ==> #[trigger] servers[i].id != server.id,
    ensures
        ({
            let added = servers.push(server);
            &&& first_with_id(added, server.id) == Some(servers.len() as int)
            &&& added.push(duplicate_view(added[servers.len() as int], new_id)) == servers.push(server).push(
                ServerConfigurationView { id: new_id, name: server.name + " Copy"@, ..server },
            )
        }),
        server == default_server_view(server.id) ==> duplicate_view(server, new_id).name == "New Server Copy"@,
{
    reveal_strlit("New Server");
    reveal_strlit(" Copy");
    reveal_strlit("New Server Copy");
    let added = servers.push(server);
    let n = servers.len() as int;
    assert(added[n].id == server.id);
    let i = first_with_id(added, server.id)->0;
    assert(first_with_id(added, server.id) is Some);
    if i != n {
        assert(added[i] == servers[i]);
    }
}

// ---------------------------------------------------------------------------
// Where the configuration lives.
/// The directory that holds the route table and the IPC socket:
/// `.config/rack` under the home directory.
pub fn config_dir(home: &str) -> (r: String)
    ensures
        r@ == join_path(join_path(home@, ".config"@), "rack"@),
{
    path_join(path_join(home, ".config").as_str(), "rack")
}

/// Where the TOML configuration file is: `rack/config.toml` under
/// `$XDG_CONFIG_HOME` when that is set, else under `.config` in the home
/// directory.
pub open spec fn config_file_of(home: Seq<char>, xdg_config_home: Option<Seq<char>>) -> Seq<char> {
    match xdg_config_home {
        Some(xdg) => join_path(join_path(xdg, "rack"@), "config.toml"@),
        None => join_path(join_path(join_path(home, ".config"@), "rack"@), "config.toml"@),
    }
}

/// The TOML configuration file, given the home directory and the value of
/// `XDG_CONFIG_HOME` when it is set. There is no other place: an older JSON
/// configuration is not read.
pub fn config_path(home: &str, xdg_config_home: Option<&str>) -> (r: String)
    ensures
        r@ == config_file_of(home@, opt_str_view(xdg_config_home)),
{
    match xdg_config_home {
        Some(xdg) => path_join(path_join(xdg, "rack").as_str(), "config.toml"),
        None => path_join(config_dir(home).as_str(), "config.toml"),
    }
}

/// The view of an optional string slice.
pub open spec fn opt_str_view(s: Option<&str>) -> Option<Seq<char>> {
    match s {
        Some(t) => Some(t@),
        None => None,
    }
}

/// The route table's file: `routes.json` in the configuration directory.
pub fn routes_path(home: &str) -> (r: String)
    ensures
        r@ == join_path(join_path(join_path(home@, ".config"@), "rack"@), "routes.json"@),
{
    path_join(config_dir(home).as_str(), "routes.json")
}

/// The IPC socket: `rack.sock` in the configuration directory.
pub fn ipc_socket_path(home: &str) -> (r: String)
    ensures
        r@ == join_path(join_path(join_path(home@, ".config"@), "rack"@), "rack.sock"@),
{
    path_join(config_dir(home).as_str(), "rack.sock")
}

} // verus!
