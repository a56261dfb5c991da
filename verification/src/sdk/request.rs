//! The request that a route handler receives, and the event a cron handler
//! receives.
use crate::sdk::error::Error;
use crate::sdk::payload::{utf8_bytes, Payload};
use vstd::utf8::encode_utf8;
use crate::sorted_map::SortedMap;
use crate::text::{ascii_lower, ascii_lowercase};
use vstd::prelude::*;

verus! {

/// The manifest route that matched a request, as the host describes it.
pub struct RouteMeta {
    pub package: String,
    pub id: String,
    pub path: String,
    pub pattern: String,
    pub method: String,
    pub function: String,
    pub is_glob: bool,
    pub matched_path: String,
}

/// Host-provided route request metadata.
pub struct RequestMeta {
    method: String,
    path: String,
    uri: String,
    headers: SortedMap<String>,
    route: Option<RouteMeta>,
}

/// What a request's metadata is.
pub struct RequestMetaView {
    pub method: Seq<char>,
    pub path: Seq<char>,
    pub uri: Seq<char>,
    pub headers: Map<Seq<char>, Seq<char>>,
    pub route: Option<RouteMetaView>,
}

/// What a matched route is.
pub struct RouteMetaView {
    pub package: Seq<char>,
    pub id: Seq<char>,
    pub path: Seq<char>,
    pub pattern: Seq<char>,
    pub method: Seq<char>,
    pub function: Seq<char>,
    pub is_glob: bool,
    pub matched_path: Seq<char>,
}

impl View for RouteMeta {
    type V = RouteMetaView;

    open spec fn view(&self) -> RouteMetaView {
        RouteMetaView {
            package: self.package@,
            id: self.id@,
            path: self.path@,
            pattern: self.pattern@,
            method: self.method@,
            function: self.function@,
            is_glob: self.is_glob,
            matched_path: self.matched_path@,
        }
    }
}

pub open spec fn route_view(route: Option<RouteMeta>) -> Option<RouteMetaView> {
    match route {
        Some(r) => Some(r@),
        None => None,
    }
}

impl View for RequestMeta {
    type V = RequestMetaView;

    closed spec fn view(&self) -> RequestMetaView {
        RequestMetaView {
            method: self.method@,
            path: self.path@,
            uri: self.uri@,
            headers: self.headers@,
            route: route_view(self.route),
        }
    }
}

/// A parsed HTTP request delivered to a route handler; `T` is the parsed
/// body.
pub struct Request<T> {
    body: T,
    meta: RequestMeta,
}

impl<T> Request<T> {
    pub closed spec fn body_value(&self) -> T {
        self.body
    }

    pub closed spec fn meta_view(&self) -> RequestMetaView {
        self.meta@
    }

    /// The parsed request body.
    pub fn body(&self) -> (b: &T)
        ensures
            *b == self.body_value(),
    {
        &self.body
    }

    /// Consumes the request and returns the parsed body.
    pub fn into_body(self) -> (b: T)
        ensures
            b == self.body_value(),
    {
        self.body
    }

    /// The HTTP method the host matched for this request.
    pub fn method(&self) -> (m: &str)
        ensures
            m@ == self.meta_view().method,
    {
        self.meta.method.as_str()
    }

    /// The normalized request path.
    pub fn path(&self) -> (p: &str)
        ensures
            p@ == self.meta_view().path,
    {
        self.meta.path.as_str()
    }

    /// The full request URI, query string included.
    pub fn uri(&self) -> (u: &str)
        ensures
            u@ == self.meta_view().uri,
    {
        self.meta.uri.as_str()
    }

    /// All request headers, by lowercase name.
    pub fn headers(&self) -> (h: &SortedMap<String>)
        ensures
            h@ == self.meta_view().headers,
    {
        &self.meta.headers
    }

    /// One request header; the name is lowercased before the lookup, so the
    /// lookup ignores ASCII case.
    pub fn header(&self, name: &str) -> (h: Option<&str>)
        ensures
            h is Some <==> self.meta_view().headers.contains_key(ascii_lower(name@)),
            h matches Some(v) ==> v@ == self.meta_view().headers[ascii_lower(name@)],
    {
        let key = ascii_lowercase(name);
        match self.meta.headers.get(key.as_str()) {
            Some(value) => Some(value.as_str()),
            None => None,
        }
    }

    /// The manifest package name of the matched route.
    pub fn package(&self) -> (p: Option<&str>)
        ensures
            p is Some <==> self.meta_view().route is Some,
            p matches Some(v) ==> v@ == self.meta_view().route->0.package,
    {
        match &self.meta.route {
            Some(route) => Some(route.package.as_str()),
            None => None,
        }
    }

    /// The manifest route id that matched this request.
    pub fn route_id(&self) -> (p: Option<&str>)
        ensures
            p is Some <==> self.meta_view().route is Some,
            p matches Some(v) ==> v@ == self.meta_view().route->0.id,
    {
        match &self.meta.route {
            Some(route) => Some(route.id.as_str()),
            None => None,
        }
    }

    /// The manifest route pattern, glob syntax included.
    pub fn route_pattern(&self) -> (p: Option<&str>)
        ensures
            p is Some <==> self.meta_view().route is Some,
            p matches Some(v) ==> v@ == self.meta_view().route->0.pattern,
    {
        match &self.meta.route {
            Some(route) => Some(route.pattern.as_str()),
            None => None,
        }
    }

    /// The normalized path that matched the route pattern.
    pub fn matched_path(&self) -> (p: Option<&str>)
        ensures
            p is Some <==> self.meta_view().route is Some,
            p matches Some(v) ==> v@ == self.meta_view().route->0.matched_path,
    {
        match &self.meta.route {
            Some(route) => Some(route.matched_path.as_str()),
            None => None,
        }
    }
}

/// A request as the host sends it, with the body still raw text.
pub struct RawRequest {
    pub method: String,
    pub path: String,
    pub uri: String,
    pub headers: SortedMap<String>,
    pub body: String,
    pub route: Option<RouteMeta>,
}

/// What a request made from `raw` with the parsed body `body` is, in the
/// terms a caller sees: the parsed value with the metadata carried over
/// when the body parsed, else the body's own error.
pub open spec fn parsed_as<T>(raw: RawRequest, body: Result<T, Error>, r: Result<Request<T>, Error>) -> bool {
    match body {
        Ok(b) => r matches Ok(request) && request.body_value() == b && request.meta_view() == raw.meta_view(),
        Err(e) => r == Err::<Request<T>, Error>(e),
    }
}

impl RawRequest {
    /// The metadata of the request, as a `Request` made from it carries it.
    pub open spec fn meta_view(&self) -> RequestMetaView {
        RequestMetaView {
            method: self.method@,
            path: self.path@,
            uri: self.uri@,
            headers: self.headers@,
            route: route_view(self.route),
        }
    }

    /// What a request made from this one with a parsed body is: the body
    /// when it parsed, with the metadata carried over unchanged, or the
    /// error of the body that did not.
    pub closed spec fn with_body_spec<T>(self, body: Result<T, Error>) -> Result<Request<T>, Error> {
        match body {
            Ok(b) => Ok(
                Request {
                    body: b,
                    meta: RequestMeta {
                        method: self.method,
                        path: self.path,
                        uri: self.uri,
                        headers: self.headers,
                        route: self.route,
                    },
                },
            ),
            Err(e) => Err(e),
        }
    }

    /// The request with an already parsed body: the parsed value with the
    /// metadata carried over unchanged, or the error of a body that did not
    /// parse.
    pub fn with_body<T>(self, body: Result<T, Error>) -> (r: Result<Request<T>, Error>)
        ensures
            r == self.with_body_spec(body),
            body matches Ok(b) ==> r matches Ok(request) && request.body_value() == b
                && request.meta_view() == self.meta_view(),
            body matches Err(e) ==> r == Err::<Request<T>, Error>(e),
    {
        match body {
            Ok(b) => Ok(
                Request {
                    body: b,
                    meta: RequestMeta {
                        method: self.method,
                        path: self.path,
                        uri: self.uri,
                        headers: self.headers,
                        route: self.route,
                    },
                },
            ),
            Err(e) => Err(e),
        }
    }

    /// The request with its body parsed as `T`: `T::from_body` is handed
    /// the UTF-8 bytes of the body, and what it gives back decides, as
    /// `with_body` says.
    pub fn into_request<T: Payload>(self) -> (r: Result<Request<T>, Error>)
        ensures
            r matches Ok(request) ==> request.meta_view() == self.meta_view(),
            exists|bytes: &[u8], body: Result<T, Error>|
                bytes@ == encode_utf8(self.body@) && call_ensures(T::from_body, (bytes,), body)
                    && r == self.with_body_spec(body) && parsed_as(self, body, r),
    {
        let bytes = utf8_bytes(self.body.as_str());
        let from_body = T::from_body;
        let body = from_body(bytes.as_slice());
        self.with_body(body)
    }
}

/// Scheduled invocation metadata delivered to a cron handler.
pub struct CronEvent {
    /// Manifest package name.
    pub package: String,
    /// Manifest cron id.
    pub id: String,
    /// Manifest schedule string.
    pub schedule: String,
    /// Timestamp for the scheduled run in RFC 3339 format.
    pub scheduled_at: String,
}

} // verus!
