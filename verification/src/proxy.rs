//! What the local proxy decides about a request: which route a `Host`
//! header names, and what a request to `rack.local` asks for.
use crate::sorted_map::SortedMap;
use crate::text::{
    append, ascii_lower, ascii_lowercase, chars_of, concat, ends_with, has_prefix, has_suffix,
    split_once, split_once_char, starts_with, str_eq, string_of_range, strip_suffix, trim_end_char,
    trim_end_char_str, trim_start_char, trim_start_char_str,
};
use vstd::prelude::*;

verus! {

/// A host name as routes compare it: without trailing dots, in ASCII lower
/// case.
pub open spec fn normalized_hostname(value: Seq<char>) -> Seq<char> {
    ascii_lower(trim_end_char(value, '.'))
}

pub fn normalize_hostname(value: &str) -> (r: String)
    ensures
        r@ == normalized_hostname(value@),
{
    ascii_lowercase(trim_end_char_str(value, '.').as_str())
}

/// The host name of a `Host` header: what stands inside `[...]` for an
/// IPv6 address, else what stands before the port; none for an empty
/// header or an unclosed bracket.
pub open spec fn hostname_of(host: Seq<char>) -> Option<Seq<char>> {
    if host.len() == 0 {
        None
    } else if starts_with(host, "["@) {
        match split_once(trim_start_char(host, '['), ']') {
            Some((value, _)) => Some(normalized_hostname(value)),
            None => None,
        }
    } else {
        match split_once(host, ':') {
            Some((value, _)) => Some(normalized_hostname(value)),
            None => Some(normalized_hostname(host)),
        }
    }
}

pub fn rack_hostname(host: &str) -> (r: Option<String>)
    ensures
        match hostname_of(host@) {
            Some(h) => r matches Some(x) && x@ == h,
            None => r is None,
        },
{
    if chars_of(host).len() == 0 {
        return None;
    }
    if has_prefix(host, "[") {
        let inner = trim_start_char_str(host, '[');
        return match split_once_char(inner.as_str(), ']') {
            Some((value, _)) => Some(normalize_hostname(value.as_str())),
            None => None,
        };
    }
    match split_once_char(host, ':') {
        Some((value, _)) => Some(normalize_hostname(value.as_str())),
        None => Some(normalize_hostname(host)),
    }
}

/// The route a host name names: what precedes `.localhost`, when there is
/// something.
pub open spec fn route_name_of(hostname: Seq<char>) -> Option<Seq<char>> {
    if ends_with(hostname, ".localhost"@) && hostname.len() > ".localhost"@.len() {
        Some(hostname.take(hostname.len() - ".localhost"@.len()))
    } else {
        None
    }
}

pub fn rack_route_name(hostname: &str) -> (r: Option<String>)
    ensures
        match route_name_of(hostname@) {
            Some(n) => r matches Some(x) && x@ == n,
            None => r is None,
        },
{
    match strip_suffix(hostname, ".localhost") {
        Some(name) => if chars_of(name.as_str()).len() > 0 {
            Some(name)
        } else {
            None
        },
        None => None,
    }
}

/// What the proxy makes of a `Host` header.
pub struct HostInfo {
    pub hostname: Option<String>,
    pub route_name: Option<String>,
    pub is_rack_local_host: bool,
    pub is_loopback_candidate: bool,
}

pub open spec fn opt_seq(s: Option<String>) -> Option<Seq<char>> {
    match s {
        Some(t) => Some(t@),
        None => None,
    }
}

/// The host names that mean the host itself.
pub open spec fn is_local_name(h: Seq<char>) -> bool {
    h == "rack.local"@ || h == "localhost"@ || h == "127.0.0.1"@ || h == "::1"@
}

/// Reads a `Host` header: its host name, the route it names, whether it is
/// the host itself, and whether it is a `.localhost` name with a route.
pub fn host_info(host: Option<&str>) -> (r: HostInfo)
    ensures
        opt_seq(r.hostname) == match host {
            Some(h) => hostname_of(h@),
            None => None,
        },
        opt_seq(r.route_name) == match opt_seq(r.hostname) {
            Some(h) => route_name_of(h),
            None => None,
        },
        r.is_rack_local_host == (opt_seq(r.hostname) matches Some(h) && is_local_name(h)),
        r.is_loopback_candidate == (opt_seq(r.hostname) matches Some(h) && ends_with(
            h,
            ".localhost"@,
        ) && r.route_name is Some),
{
    let hostname = match host {
        Some(h) => rack_hostname(h),
        None => None,
    };
    let route_name = match &hostname {
        Some(h) => rack_route_name(h.as_str()),
        None => None,
    };
    let is_rack_local_host = match &hostname {
        Some(h) => str_eq(h.as_str(), "rack.local") || str_eq(h.as_str(), "localhost") || str_eq(
            h.as_str(),
            "127.0.0.1",
        ) || str_eq(h.as_str(), "::1"),
        None => false,
    };
    let is_loopback_candidate = match &hostname {
        Some(h) => has_suffix(h.as_str(), ".localhost") && route_name.is_some(),
        None => false,
    };
    HostInfo { hostname, route_name, is_rack_local_host, is_loopback_candidate }
}

/// A path without its trailing slashes, but never shorter than one
/// character.
pub open spec fn pop_slashes(s: Seq<char>) -> Seq<char>
    decreases s.len(),
{
    if s.len() > 1 && s.last() == '/' {
        pop_slashes(s.drop_last())
    } else {
        s
    }
}

/// The path of a `rack.local` URI: before any `?`, with a leading `/`, and
/// without trailing slashes.
pub open spec fn rack_local_path(uri: Seq<char>) -> Seq<char> {
    let raw = match split_once(uri, '?') {
        Some((path, _)) => path,
        None => uri,
    };
    pop_slashes(
        if starts_with(raw, "/"@) {
            raw
        } else {
            "/"@ + raw
        },
    )
}

pub fn normalize_rack_local_path(uri: &str) -> (r: String)
    ensures
        r@ == rack_local_path(uri@),
{
    let raw = match split_once_char(uri, '?') {
        Some((path, _)) => path,
        None => crate::text::owned(uri),
    };
    let with_leading = if has_prefix(raw.as_str(), "/") {
        raw
    } else {
        concat("/", raw.as_str())
    };
    let v = chars_of(with_leading.as_str());
    let mut n: usize = v.len();
    assert(v@.take(n as int) =~= v@);
    while n > 1 && v[n - 1] == '/'
        invariant
            n <= v@.len(),
            v@ == with_leading@,
            pop_slashes(with_leading@) == pop_slashes(v@.take(n as int)),
        decreases n,
    {
        assert(v@.take(n as int).drop_last() =~= v@.take(n - 1));
        n = n - 1;
    }
    string_of_range(&v, 0, n)
}

/// Request headers by lowercase name, the values of a repeated name joined
/// with `, ` in the order they came.
pub open spec fn joined_headers(headers: Seq<(String, String)>) -> Map<Seq<char>, Seq<char>>
    decreases headers.len(),
{
    if headers.len() == 0 {
        Map::empty()
    } else {
        let m = joined_headers(headers.drop_last());
        let name = ascii_lower(headers.last().0@);
        let value = headers.last().1@;
        if m.contains_key(name) {
            m.insert(name, m[name] + ", "@ + value)
        } else {
            m.insert(name, value)
        }
    }
}

pub fn request_headers(headers: &Vec<(String, String)>) -> (r: SortedMap<String>)
    ensures
        r@ == joined_headers(headers@),
{
    let mut result: SortedMap<String> = SortedMap::new();
    let mut i: usize = 0;
    assert(headers@.take(0) =~= Seq::<(String, String)>::empty());
    while i < headers.len()
        invariant
            i <= headers@.len(),
            result@ == joined_headers(headers@.take(i as int)),
        decreases headers.len() - i,
    {
        proof {
            assert(headers@.take(i + 1).drop_last() =~= headers@.take(i as int));
            assert(headers@.take(i + 1).last() == headers@[i as int]);
        }
        let name = ascii_lowercase(headers[i].0.as_str());
        let joined = match result.get(name.as_str()) {
            Some(existing) => {
                let mut j = concat(existing.as_str(), ", ");
                append(&mut j, headers[i].1.as_str());
                j
            },
            None => headers[i].1.clone(),
        };
        result.insert(name, joined);
        i = i + 1;
    }
    assert(headers@.take(headers@.len() as int) =~= headers@);
    result
}

/// What a request to `rack.local` asks for.
pub enum RackLocalRequest {
    /// The root page.
    Root,
    /// A path under `/_`, kept for the host.
    Reserved,
    /// A function: the HTTP request to route, with its normalized path and
    /// joined headers.
    Function { method: String, path: String, uri: String, headers: SortedMap<String>, body: String },
}

/// Classifies a request to `rack.local` by its path.
pub fn rack_local_request(method: String, uri: String, headers: &Vec<(String, String)>, body: String) -> (r:
    RackLocalRequest)
    ensures
        rack_local_path(uri@) == "/"@ ==> r is Root,
        rack_local_path(uri@) != "/"@ && starts_with(rack_local_path(uri@), "/_"@) ==> r is Reserved,
        rack_local_path(uri@) != "/"@ && !starts_with(rack_local_path(uri@), "/_"@) ==> (
        r matches RackLocalRequest::Function { method: m, path: p, uri: u, headers: h, body: b }
            && m@ == method@ && p@ == rack_local_path(uri@) && u@ == uri@ && h@ == joined_headers(
            headers@,
        ) && b@ == body@),
{
    let path = normalize_rack_local_path(uri.as_str());
    if str_eq(path.as_str(), "/") {
        return RackLocalRequest::Root;
    }
    if has_prefix(path.as_str(), "/_") {
        return RackLocalRequest::Reserved;
    }
    RackLocalRequest::Function { method, path, uri, headers: request_headers(headers), body }
}

/// The proxy commands of the core, by their command type.
pub enum ProxyCommand {
    Host,
    RackLocalRequest,
}

pub open spec fn proxy_command_of(command_type: Seq<char>) -> Option<ProxyCommand> {
    if command_type == "proxy.host"@ {
        Some(ProxyCommand::Host)
    } else if command_type == "proxy.rackLocalRequest"@ {
        Some(ProxyCommand::RackLocalRequest)
    } else {
        None
    }
}

/// The proxy command a command type names, if any.
pub fn proxy_command_kind(command_type: &str) -> (r: Option<ProxyCommand>)
    ensures
        r == proxy_command_of(command_type@),
{
    if str_eq(command_type, "proxy.host") {
        Some(ProxyCommand::Host)
    } else if str_eq(command_type, "proxy.rackLocalRequest") {
        Some(ProxyCommand::RackLocalRequest)
    } else {
        None
    }
}

} // verus!
