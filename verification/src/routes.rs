//! The route table of the local proxy: for each route name, the socket or
//! port that serves it, and how a host name is resolved to a route.
use crate::json::{as_str, as_u64, get, spec_as_str, spec_as_u64, spec_get, Json};
use crate::sorted_map::{entries_map, lex_lt, sorted_keys, SortedMap};
use crate::text::{owned, split_once, split_once_char, str_eq};
use vstd::prelude::*;

verus! {

/// One route: the subdomain it serves, where its backend listens, and when
/// it was added (kept as the JSON text it was given in).
pub struct Route {
    pub name: String,
    pub socket_path: String,
    pub tcp_port: u16,
    pub working_directory: String,
    pub added_at: String,
}

pub struct RouteView {
    pub name: Seq<char>,
    pub socket_path: Seq<char>,
    pub tcp_port: u16,
    pub working_directory: Seq<char>,
    pub added_at: Seq<char>,
}

impl View for Route {
    type V = RouteView;

    open spec fn view(&self) -> RouteView {
        RouteView {
            name: self.name@,
            socket_path: self.socket_path@,
            tcp_port: self.tcp_port,
            working_directory: self.working_directory@,
            added_at: self.added_at@,
        }
    }
}

impl Route {
    /// A copy of this route.
    pub fn copy(&self) -> (r: Self)
        ensures
            r@ == self@,
    {
        Route {
            name: self.name.clone(),
            socket_path: self.socket_path.clone(),
            tcp_port: self.tcp_port,
            working_directory: self.working_directory.clone(),
            added_at: self.added_at.clone(),
        }
    }

    /// A route whose backend is not known yet: no socket, port 0.
    pub fn pending(name: &str, working_directory: &str, added_at: String) -> (r: Self)
        ensures
            r@ == (RouteView {
                name: name@,
                socket_path: seq![],
                tcp_port: 0,
                working_directory: working_directory@,
                added_at: added_at@,
            }),
    {
        Route {
            name: owned(name),
            socket_path: String::new(),
            tcp_port: 0,
            working_directory: owned(working_directory),
            added_at,
        }
    }
}

/// The route a name resolves to: the route of that exact name, or else, when
/// the name has a dot, the route of what follows its first dot (so
/// `feature.app` falls back to `app`).
pub open spec fn resolve_in(routes: Map<Seq<char>, RouteView>, name: Seq<char>) -> Option<RouteView> {
    if routes.contains_key(name) {
        Some(routes[name])
    } else {
        match split_once(name, '.') {
            Some((_, base)) => if routes.contains_key(base) {
                Some(routes[base])
            } else {
                None
            },
            None => None,
        }
    }
}

pub open spec fn opt_route_view(r: Option<Route>) -> Option<RouteView> {
    match r {
        Some(route) => Some(route@),
        None => None,
    }
}

/// The routes by name, kept in increasing name order.
pub struct RouteTable {
    routes: SortedMap<Route>,
}

impl View for RouteTable {
    type V = Map<Seq<char>, RouteView>;

    closed spec fn view(&self) -> Map<Seq<char>, RouteView> {
        self.routes@
    }
}

impl RouteTable {
    /// The names in increasing order.
    pub closed spec fn names(&self) -> Seq<Seq<char>> {
        self.routes.entry_seq().map_values(|e: (String, Route)| e.0@)
    }

    /// An empty table.
    pub fn new() -> (t: Self)
        ensures
            t@ == Map::<Seq<char>, RouteView>::empty(),
    {
        RouteTable { routes: SortedMap::new() }
    }

    /// Adds or replaces the route stored under `name`.
    pub fn insert(&mut self, name: String, route: Route)
        ensures
            final(self)@ == old(self)@.insert(name@, route@),
    {
        self.routes.insert(name, route);
    }

    /// Registers a route under its own name, replacing any route of that name.
    pub fn register(&mut self, route: Route)
        ensures
            final(self)@ == old(self)@.insert(route.name@, route@),
    {
        let name = route.name.clone();
        self.routes.insert(name, route);
    }

    /// Sets the port of the route stored under `name`; a name that is not
    /// there leaves the table unchanged. The updated route is returned.
    pub fn update_port(&mut self, name: &str, tcp_port: u16) -> (r: Option<Route>)
        ensures
            old(self)@.contains_key(name@) ==> r is Some && final(self)@ == old(self)@.insert(
                name@,
                RouteView { tcp_port, ..old(self)@[name@] },
            ) && r.unwrap()@ == (RouteView { tcp_port, ..old(self)@[name@] }),
            !old(self)@.contains_key(name@) ==> r is None && final(self)@ == old(self)@,
    {
        let updated = match self.routes.get(name) {
            Some(route) => {
                let mut copy = route.copy();
                copy.tcp_port = tcp_port;
                copy
            },
            None => {
                return None;
            },
        };
        let result = updated.copy();
        self.routes.insert(owned(name), updated);
        Some(result)
    }

    /// Sets the socket path of the route stored under `name`; a name that is
    /// not there leaves the table unchanged. The updated route is returned.
    pub fn update_socket_path(&mut self, name: &str, socket_path: &str) -> (r: Option<Route>)
        ensures
            old(self)@.contains_key(name@) ==> r is Some && final(self)@ == old(self)@.insert(
                name@,
                RouteView { socket_path: socket_path@, ..old(self)@[name@] },
            ) && r.unwrap()@ == (RouteView { socket_path: socket_path@, ..old(self)@[name@] }),
            !old(self)@.contains_key(name@) ==> r is None && final(self)@ == old(self)@,
    {
        let updated = match self.routes.get(name) {
            Some(route) => {
                let mut copy = route.copy();
                copy.socket_path = owned(socket_path);
                copy
            },
            None => {
                return None;
            },
        };
        let result = updated.copy();
        self.routes.insert(owned(name), updated);
        Some(result)
    }

    /// Removes the route stored under `name`, if any.
    pub fn unregister(&mut self, name: &str)
        ensures
            final(self)@ == old(self)@.remove(name@),
    {
        self.routes.remove(name);
    }

    /// Removes every route.
    pub fn clear(&mut self)
        ensures
            final(self)@ == Map::<Seq<char>, RouteView>::empty(),
    {
        self.routes.clear();
    }

    /// The route `name` resolves to, falling back from a subdomain to its base.
    pub fn resolve(&self, name: &str) -> (r: Option<Route>)
        ensures
            opt_route_view(r) == resolve_in(self@, name@),
    {
        if let Some(route) = self.routes.get(name) {
            return Some(route.copy());
        }
        match split_once_char(name, '.') {
            Some((_, base)) => match self.routes.get(base.as_str()) {
                Some(route) => Some(route.copy()),
                None => None,
            },
            None => None,
        }
    }

    /// The stored names with their routes, in increasing name order.
    pub fn entries(&self) -> (r: &Vec<(String, Route)>)
        ensures
            sorted_keys(r@),
            entries_map(r@) == self@,
            r@.map_values(|e: (String, Route)| e.0@) == self.names(),
    {
        let r = self.routes.entries();
        assert(r@.map_values(|e: (String, Route)| e.0@) =~= self.names());
        r
    }

    /// The routes, in increasing name order.
    pub fn list(&self) -> (r: Vec<Route>)
        ensures
            r@.len() == self@.len(),
            self.names().len() == r@.len(),
            forall|i: int, j: int|
                0 <= i < j < r@.len() ==> lex_lt(#[trigger] self.names()[i], #[trigger] self.names()[j]),
            forall|i: int|
                0 <= i < r@.len() ==> self@.contains_key(#[trigger] self.names()[i]) && r@[i]@
                    == self@[self.names()[i]],
            forall|k: Seq<char>| #[trigger] self@.contains_key(k) ==> self.names().contains(k),
    {
        let entries = self.routes.entries();
        proof {
            crate::sorted_map::lemma_entries_map_facts(entries@);
        }
        let mut out: Vec<Route> = Vec::new();
        let mut i: usize = 0;
        while i < entries.len()
            invariant
                i <= entries@.len(),
                entries@ == self.routes.entry_seq(),
                sorted_keys(entries@),
                entries_map(entries@) == self@,
                out@.len() == i,
                forall|j: int| 0 <= j < i ==> (#[trigger] out@[j])@ == entries@[j].1@,
            decreases entries.len() - i,
        {
            out.push(entries[i].1.copy());
            i = i + 1;
        }
        proof {
            crate::sorted_map::lemma_entries_map_facts(entries@);
            assert forall|k: Seq<char>| #[trigger] self@.contains_key(k) implies self.names().contains(
                k,
            ) by {
                let j = crate::sorted_map::key_index(entries@, k);
                assert(self.names()[j] == k);
            }
            assert forall|i: int|
                0 <= i < out@.len() implies self@.contains_key(#[trigger] self.names()[i])
                && out@[i]@ == self@[self.names()[i]] by {
                assert(self.names()[i] == entries@[i].0@);
            }
            assert forall|i: int, j: int|
                0 <= i < j < out@.len() implies lex_lt(
                #[trigger] self.names()[i],
                #[trigger] self.names()[j],
            ) by {
                assert(self.names()[i] == entries@[i].0@);
                assert(self.names()[j] == entries@[j].0@);
            }
        }
        out
    }
}

// ---------------------------------------------------------------------------
// Route commands.
/// The route commands of the core, by their command type.
pub enum RouteCommand {
    Register,
    UpdatePort,
    UpdateSocketPath,
    Unregister,
    Resolve,
    List,
    Clear,
}

pub open spec fn route_command_of(command_type: Seq<char>) -> Option<RouteCommand> {
    if command_type == "routes.register"@ {
        Some(RouteCommand::Register)
    } else if command_type == "routes.updatePort"@ {
        Some(RouteCommand::UpdatePort)
    } else if command_type == "routes.updateSocketPath"@ {
        Some(RouteCommand::UpdateSocketPath)
    } else if command_type == "routes.unregister"@ {
        Some(RouteCommand::Unregister)
    } else if command_type == "routes.resolve"@ {
        Some(RouteCommand::Resolve)
    } else if command_type == "routes.list"@ {
        Some(RouteCommand::List)
    } else if command_type == "routes.clear"@ {
        Some(RouteCommand::Clear)
    } else {
        None
    }
}

/// The route command a command type names, if any.
pub fn route_command_kind(command_type: &str) -> (r: Option<RouteCommand>)
    ensures
        r == route_command_of(command_type@),
{
    if str_eq(command_type, "routes.register") {
        Some(RouteCommand::Register)
    } else if str_eq(command_type, "routes.updatePort") {
        Some(RouteCommand::UpdatePort)
    } else if str_eq(command_type, "routes.updateSocketPath") {
        Some(RouteCommand::UpdateSocketPath)
    } else if str_eq(command_type, "routes.unregister") {
        Some(RouteCommand::Unregister)
    } else if str_eq(command_type, "routes.resolve") {
        Some(RouteCommand::Resolve)
    } else if str_eq(command_type, "routes.list") {
        Some(RouteCommand::List)
    } else if str_eq(command_type, "routes.clear") {
        Some(RouteCommand::Clear)
    } else {
        None
    }
}

/// A route command with its arguments.
pub enum RouteRequest {
    Register(Route),
    UpdatePort { name: String, tcp_port: u16 },
    UpdateSocketPath { name: String, socket_path: String },
    Unregister(String),
    Resolve(String),
    List,
    Clear,
}

/// What a route command answers.
pub enum RouteReply {
    Registered(Route),
    Updated(Option<Route>),
    Unregistered(String),
    Resolved(Option<Route>),
    Listed(Vec<Route>),
    Cleared,
}

/// The `name` member of a payload, required by every command that names a
/// route.
pub open spec fn payload_name(payload: Json) -> Result<Seq<char>, Seq<char>> {
    match spec_as_str(spec_get(payload, "name"@)) {
        Some(n) => Ok(n),
        None => Err("missing route name"@),
    }
}

pub fn request_name(payload: &Json) -> (r: Result<String, String>)
    ensures
        match payload_name(*payload) {
            Ok(n) => r matches Ok(s) && s@ == n,
            Err(e) => r matches Err(s) && s@ == e,
        },
{
    match as_str(get(payload, "name")) {
        Some(n) => Ok(owned(n)),
        None => Err("missing route name".to_string()),
    }
}

/// Reads the arguments of a route command other than `routes.register`
/// (whose route the caller decodes) from its payload. A port is taken
/// modulo 2^16, as a cast to `u16` does.
pub fn route_request(kind: RouteCommand, payload: &Json) -> (r: Result<RouteRequest, String>)
    requires
        !(kind is Register),
    ensures
        kind is UpdatePort ==> match payload_name(*payload) {
            Err(e) => r matches Err(m) && m@ == e,
            Ok(n) => match spec_as_u64(spec_get(*payload, "tcpPort"@)) {
                None => r matches Err(m) && m@ == "missing tcpPort"@,
                Some(p) => r matches Ok(RouteRequest::UpdatePort { name, tcp_port }) && name@ == n
                    && tcp_port == p % 65536,
            },
        },
        kind is UpdateSocketPath ==> match payload_name(*payload) {
            Err(e) => r matches Err(m) && m@ == e,
            Ok(n) => match spec_as_str(spec_get(*payload, "socketPath"@)) {
                None => r matches Err(m) && m@ == "missing socketPath"@,
                Some(s) => r matches Ok(RouteRequest::UpdateSocketPath { name, socket_path })
                    && name@ == n && socket_path@ == s,
            },
        },
        kind is Unregister ==> match payload_name(*payload) {
            Err(e) => r matches Err(m) && m@ == e,
            Ok(n) => r matches Ok(RouteRequest::Unregister(name)) && name@ == n,
        },
        kind is Resolve ==> match payload_name(*payload) {
            Err(e) => r matches Err(m) && m@ == e,
            Ok(n) => r matches Ok(RouteRequest::Resolve(name)) && name@ == n,
        },
        kind is List ==> r matches Ok(RouteRequest::List),
        kind is Clear ==> r matches Ok(RouteRequest::Clear),
{
    match kind {
        RouteCommand::UpdatePort => {
            let name = request_name(payload)?;
            match as_u64(get(payload, "tcpPort")) {
                Some(p) => Ok(RouteRequest::UpdatePort { name, tcp_port: (p % 65536) as u16 }),
                None => Err("missing tcpPort".to_string()),
            }
        },
        RouteCommand::UpdateSocketPath => {
            let name = request_name(payload)?;
            match as_str(get(payload, "socketPath")) {
                Some(s) => Ok(RouteRequest::UpdateSocketPath { name, socket_path: owned(s) }),
                None => Err("missing socketPath".to_string()),
            }
        },
        RouteCommand::Unregister => {
            let name = request_name(payload)?;
            Ok(RouteRequest::Unregister(name))
        },
        RouteCommand::Resolve => {
            let name = request_name(payload)?;
            Ok(RouteRequest::Resolve(name))
        },
        RouteCommand::List => Ok(RouteRequest::List),
        RouteCommand::Clear => Ok(RouteRequest::Clear),
        RouteCommand::Register => Ok(RouteRequest::List),
    }
}

impl RouteReply {
    /// Whether the command changed the table, so that it is to be persisted:
    /// every registration, removal and clearing, and an update that found
    /// its route.
    pub fn changed_table(&self) -> (r: bool)
        ensures
            r == match self {
                RouteReply::Registered(_) => true,
                RouteReply::Updated(u) => u is Some,
                RouteReply::Unregistered(_) => true,
                RouteReply::Cleared => true,
                _ => false,
            },
    {
        match self {
            RouteReply::Registered(_) => true,
            RouteReply::Updated(u) => u.is_some(),
            RouteReply::Unregistered(_) => true,
            RouteReply::Cleared => true,
            _ => false,
        }
    }
}

impl RouteTable {
    /// Carries out a route command on the table and says what it answers.
    pub fn apply(&mut self, request: RouteRequest) -> (r: RouteReply)
        ensures
            match request {
                RouteRequest::Register(route) => {
                    &&& final(self)@ == old(self)@.insert(route.name@, route@)
                    &&& r matches RouteReply::Registered(x) && x@ == route@
                },
                RouteRequest::UpdatePort { name, tcp_port } => if old(self)@.contains_key(name@) {
                    &&& final(self)@ == old(self)@.insert(
                        name@,
                        RouteView { tcp_port, ..old(self)@[name@] },
                    )
                    &&& r matches RouteReply::Updated(Some(x)) && x@ == (RouteView {
                        tcp_port,
                        ..old(self)@[name@]
                    })
                } else {
                    &&& final(self)@ == old(self)@
                    &&& r matches RouteReply::Updated(None)
                },
                RouteRequest::UpdateSocketPath { name, socket_path } => if old(self)@.contains_key(
                    name@,
                ) {
                    &&& final(self)@ == old(self)@.insert(
                        name@,
                        RouteView { socket_path: socket_path@, ..old(self)@[name@] },
                    )
                    &&& r matches RouteReply::Updated(Some(x)) && x@ == (RouteView {
                        socket_path: socket_path@,
                        ..old(self)@[name@]
                    })
                } else {
                    &&& final(self)@ == old(self)@
                    &&& r matches RouteReply::Updated(None)
                },
                RouteRequest::Unregister(name) => {
                    &&& final(self)@ == old(self)@.remove(name@)
                    &&& r matches RouteReply::Unregistered(n) && n@ == name@
                },
                RouteRequest::Resolve(name) => {
                    &&& final(self)@ == old(self)@
                    &&& r matches RouteReply::Resolved(x) && opt_route_view(x) == resolve_in(
                        old(self)@,
                        name@,
                    )
                },
                RouteRequest::List => {
                    &&& final(self)@ == old(self)@
                    &&& r matches RouteReply::Listed(v) && v@.len() == old(self)@.len() && forall|
                        i: int,
                    |
                        0 <= i < v@.len() ==> old(self)@.contains_key(
                            #[trigger] old(self).names()[i],
                        ) && v@[i]@ == old(self)@[old(self).names()[i]]
                },
                RouteRequest::Clear => {
                    &&& final(self)@ == Map::<Seq<char>, RouteView>::empty()
                    &&& r matches RouteReply::Cleared
                },
            },
    {
        match request {
            RouteRequest::Register(route) => {
                let reply = route.copy();
                self.register(route);
                RouteReply::Registered(reply)
            },
            RouteRequest::UpdatePort { name, tcp_port } => RouteReply::Updated(
                self.update_port(name.as_str(), tcp_port),
            ),
            RouteRequest::UpdateSocketPath { name, socket_path } => RouteReply::Updated(
                self.update_socket_path(name.as_str(), socket_path.as_str()),
            ),
            RouteRequest::Unregister(name) => {
                self.unregister(name.as_str());
                RouteReply::Unregistered(name)
            },
            RouteRequest::Resolve(name) => RouteReply::Resolved(self.resolve(name.as_str())),
            RouteRequest::List => RouteReply::Listed(self.list()),
            RouteRequest::Clear => {
                self.clear();
                RouteReply::Cleared
            },
        }
    }
}

// ---------------------------------------------------------------------------
// Laws of the route table.
/// A registered route is what its own name resolves to.
pub proof fn law_resolve_after_register(routes: Map<Seq<char>, RouteView>, route: RouteView)
    ensures
        resolve_in(routes.insert(route.name, route), route.name) == Some(route),
{
}

/// A name that has no route of its own resolves to the route of what follows
/// its first dot: `label.base` falls back to `base`.
pub proof fn law_resolve_falls_back_to_base(
    routes: Map<Seq<char>, RouteView>,
    label: Seq<char>,
    base: Seq<char>,
)
    requires
        !label.contains('.'),
        !routes.contains_key(label + "."@ + base),
    ensures
        resolve_in(routes, label + "."@ + base) == (if routes.contains_key(base) {
            Some(routes[base])
        } else {
            None
        }),
{
    reveal_strlit(".");
    let name = label + "."@ + base;
    assert(name[label.len() as int] == '.');
    assert(name.contains('.'));
    let i = crate::text::first_index(name, '.');
    if i < label.len() {
        assert(label[i] == name[i]);
    }
    assert(i == label.len());
    assert(name.take(i) =~= label);
    assert(name.skip(i + 1) =~= base);
}

/// After a name is unregistered it has no route of its own, and, when it has
/// no dot, resolves to nothing.
pub proof fn law_unregister_forgets(routes: Map<Seq<char>, RouteView>, name: Seq<char>)
    ensures
        !routes.remove(name).contains_key(name),
        !name.contains('.') ==> resolve_in(routes.remove(name), name) is None,
{
}

/// Registering the same route twice leaves the table as registering it once.
pub proof fn law_register_idempotent(routes: Map<Seq<char>, RouteView>, route: RouteView)
    ensures
        routes.insert(route.name, route).insert(route.name, route) == routes.insert(
            route.name,
            route,
        ),
{
    assert(routes.insert(route.name, route).insert(route.name, route) =~= routes.insert(
        route.name,
        route,
    ));
}

/// Updating the port of a route changes nothing but that port: every other
/// route, and every other field of that route, stays.
pub proof fn law_update_port_changes_only_the_port(
    routes: Map<Seq<char>, RouteView>,
    name: Seq<char>,
    tcp_port: u16,
    other: Seq<char>,
)
    requires
        routes.contains_key(name),
        other != name,
    ensures
        ({
            let after = routes.insert(name, RouteView { tcp_port, ..routes[name] });
            &&& after[name].name == routes[name].name
            &&& after[name].socket_path == routes[name].socket_path
            &&& after[name].working_directory == routes[name].working_directory
            &&& after[name].tcp_port == tcp_port
            &&& after.contains_key(other) == routes.contains_key(other)
            &&& routes.contains_key(other) ==> after[other] == routes[other]
        }),
{
}

} // verus!
