//! Matching a request path against the routes of the installed function
//! packages: exact routes, glob routes, and which of several matches wins.
use crate::config::opt_view;
use crate::functions::manifest::{
    FunctionPackage, FunctionPackageView, FunctionRoute, FunctionRouteView,
};
use crate::json::{set_member, spec_get, Json};
use crate::text::{
    chars_of, concat, filter_chars, has_prefix, owned, uppercase, starts_with, str_eq,
    to_uppercase, trim, trim_end_char, trim_end_char_str, trim_str,
};
use globset::{GlobBuilder, GlobSetBuilder};
use vstd::prelude::*;

verus! {

/// `str::trim`, a leading `/` added when missing, and trailing slashes
/// removed from anything longer than `/`.
pub open spec fn normalized_route_path(path: Seq<char>) -> Seq<char> {
    let trimmed = trim(path);
    let with_leading = if starts_with(trimmed, "/"@) {
        trimmed
    } else {
        "/"@ + trimmed
    };
    if with_leading.len() > 1 {
        trim_end_char(with_leading, '/')
    } else {
        with_leading
    }
}

/// The normal form of a route path.
pub fn normalize_route_path(path: &str) -> (r: String)
    ensures
        r@ == normalized_route_path(path@),
{
    let trimmed = trim_str(path);
    let with_leading = if has_prefix(trimmed.as_str(), "/") {
        trimmed
    } else {
        concat("/", trimmed.as_str())
    };
    let v = chars_of(with_leading.as_str());
    if v.len() > 1 {
        trim_end_char_str(with_leading.as_str(), '/')
    } else {
        with_leading
    }
}

/// The characters that make a route path a glob.
pub open spec fn is_glob_char(c: char) -> bool {
    c == '*' || c == '?' || c == '[' || c == ']' || c == '{' || c == '}'
}

/// The characters that do not count toward a route's specificity.
pub open spec fn is_pattern_char(c: char) -> bool {
    is_glob_char(c) || c == ',' || c == '!'
}

pub open spec fn has_glob(path: Seq<char>) -> bool {
    exists|i: int| 0 <= i < path.len() && is_glob_char(#[trigger] path[i])
}

/// Whether a route path is a glob pattern.
pub fn route_has_glob(path: &str) -> (r: bool)
    ensures
        r == has_glob(path@),
{
    let v = chars_of(path);
    let mut i: usize = 0;
    while i < v.len()
        invariant
            i <= v.len(),
            v@ == path@,
            forall|j: int| 0 <= j < i ==> !is_glob_char(#[trigger] path@[j]),
        decreases v.len() - i,
    {
        let c = v[i];
        if c == '*' || c == '?' || c == '[' || c == ']' || c == '{' || c == '}' {
            assert(is_glob_char(path@[i as int]));
            return true;
        }
        i = i + 1;
    }
    false
}

/// How specific a route is: the number of its literal characters, with
/// every exact route above every glob route.
pub open spec fn specificity(path: Seq<char>) -> nat {
    let literals = filter_chars(path, |c: char| !is_pattern_char(c)).len();
    if has_glob(path) {
        literals
    } else {
        literals + 10000
    }
}

/// The specificity of a route path.
pub fn route_specificity(path: &str) -> (r: usize)
    requires
        path@.len() + 10000 <= usize::MAX,
    ensures
        r == specificity(path@),
{
    let v = chars_of(path);
    let ghost keep = |c: char| !is_pattern_char(c);
    let mut count: usize = 0;
    let mut i: usize = 0;
    while i < v.len()
        invariant
            i <= v.len(),
            v@ == path@,
            keep == (|c: char| !is_pattern_char(c)),
            count == filter_chars(path@.take(i as int), keep).len(),
            count <= i,
        decreases v.len() - i,
    {
        let c = v[i];
        proof {
            assert(path@.take(i + 1).drop_last() =~= path@.take(i as int));
        }
        if !(c == '*' || c == '?' || c == '[' || c == ']' || c == '{' || c == '}' || c == ','
            || c == '!') {
            count = count + 1;
        }
        i = i + 1;
    }
    assert(path@.take(v@.len() as int) =~= path@);
    if route_has_glob(path) {
        count
    } else {
        count + 10000
    }
}

// ---------------------------------------------------------------------------
// Globs.
/// The error `globset` reports for a route glob built with literal
/// separators and backslash escapes, as text: the error of parsing it, or
/// else of compiling it into a glob set; `None` when both succeed.
pub uninterp spec fn spec_glob_error(pattern: Seq<char>) -> Option<Seq<char>>;

/// Whether the glob set of a route glob that builds matches `path`.
pub uninterp spec fn spec_glob_match(pattern: Seq<char>, path: Seq<char>) -> bool;

/// `GlobBuilder::new(pattern).literal_separator(true).backslash_escape(true).build()`,
/// and then `GlobSetBuilder::build` of a set holding that glob, which
/// compiles its regular expression and can fail (a glob nested deeper than
/// the regex parser allows, or one too large to compile). Claims only that
/// the outcome, as an error text or none, is a function of the pattern,
/// named `spec_glob_error`. Such a glob is therefore an error for routing,
/// where compiling it with `compile_matcher` would panic.
#[verifier::external_body]
fn glob_build_error(pattern: &str) -> (r: Option<String>)
    ensures
        opt_view(r) == spec_glob_error(pattern@),
{
    match GlobBuilder::new(pattern).literal_separator(true).backslash_escape(true).build() {
        Err(error) => Some(error.to_string()),
        Ok(glob) => match GlobSetBuilder::new().add(glob).build() {
            Ok(_) => None,
            Err(error) => Some(error.to_string()),
        },
    }
}

/// `GlobSet::is_match` of the glob set that `glob_build_error` builds for
/// the pattern, which cannot fail when that one built: claims only that the
/// answer is a function of pattern and path, named `spec_glob_match`.
#[verifier::external_body]
fn glob_is_match(pattern: &str, path: &str) -> (r: bool)
    requires
        spec_glob_error(pattern@) is None,
    ensures
        r == spec_glob_match(pattern@, path@),
{
    match GlobBuilder::new(pattern).literal_separator(true).backslash_escape(true).build() {
        Ok(glob) => match GlobSetBuilder::new().add(glob).build() {
            Ok(set) => set.is_match(path),
            Err(_) => false,
        },
        Err(_) => false,
    }
}

/// Whether a route path matches a request path: equality for an exact
/// route, the glob otherwise, and an error for a glob that does not build.
pub open spec fn route_match_result(route_path: Seq<char>, request_path: Seq<char>) -> Result<
    bool,
    Seq<char>,
> {
    if !has_glob(route_path) {
        Ok(route_path == request_path)
    } else {
        match spec_glob_error(route_path) {
            Some(e) => Err("invalid route glob '"@ + route_path + "': "@ + e),
            None => Ok(spec_glob_match(route_path, request_path)),
        }
    }
}

pub open spec fn result_view<T>(r: Result<T, String>) -> Result<T, Seq<char>> {
    match r {
        Ok(t) => Ok(t),
        Err(e) => Err(e@),
    }
}

/// Whether a route path matches a request path.
pub fn route_matches(route_path: &str, request_path: &str) -> (r: Result<bool, String>)
    ensures
        result_view(r) == route_match_result(route_path@, request_path@),
{
    if !route_has_glob(route_path) {
        return Ok(str_eq(route_path, request_path));
    }
    match glob_build_error(route_path) {
        Some(e) => {
            let mut message = concat("invalid route glob '", route_path);
            crate::text::append(&mut message, "': ");
            crate::text::append(&mut message, e.as_str());
            Err(message)
        },
        None => Ok(glob_is_match(route_path, request_path)),
    }
}

/// Whether a route path can be installed: every glob must build.
pub open spec fn route_path_check(route_path: Seq<char>) -> Result<(), Seq<char>> {
    if has_glob(route_path) {
        match spec_glob_error(route_path) {
            Some(e) => Err("uses invalid glob '"@ + route_path + "': "@ + e),
            None => Ok(()),
        }
    } else {
        Ok(())
    }
}

/// Checks that a route path can be installed.
pub fn validate_route_path(route_path: &str) -> (r: Result<(), String>)
    ensures
        result_view(r) == route_path_check(route_path@),
{
    if route_has_glob(route_path) {
        match glob_build_error(route_path) {
            Some(e) => {
                let mut message = concat("uses invalid glob '", route_path);
                crate::text::append(&mut message, "': ");
                crate::text::append(&mut message, e.as_str());
                Err(message)
            },
            None => Ok(()),
        }
    } else {
        Ok(())
    }
}

// ---------------------------------------------------------------------------
// Choosing the route of a request.
/// The paths that no function route can claim: `/` and everything under `/_`.
pub open spec fn reserved_path(path: Seq<char>) -> bool {
    path == "/"@ || starts_with(path, "/_"@)
}

/// The routes of the packages that loaded without errors, in order.
pub open spec fn eligible_routes(packages: Seq<FunctionPackageView>) -> Seq<FunctionRouteView>
    decreases packages.len(),
{
    if packages.len() == 0 {
        seq![]
    } else {
        eligible_routes(packages.drop_last()) + (if packages.last().errors.len() == 0 {
            packages.last().routes
        } else {
            seq![]
        })
    }
}

pub open spec fn best_score(best: Option<(FunctionRouteView, nat)>) -> nat {
    match best {
        Some((_, s)) => s,
        None => 0,
    }
}

/// Walks the routes in order, keeping the most specific match so far: a
/// match whose specificity ties the best match so far is a conflict, a
/// route that cannot be matched is an error.
pub open spec fn scan_routes(
    routes: Seq<FunctionRouteView>,
    method: Seq<char>,
    path: Seq<char>,
    best: Option<(FunctionRouteView, nat)>,
) -> Result<Option<(FunctionRouteView, nat)>, Seq<char>>
    decreases routes.len(),
{
    if routes.len() == 0 {
        Ok(best)
    } else {
        let route = routes[0];
        let rest = routes.drop_first();
        if route.method != method {
            scan_routes(rest, method, path, best)
        } else {
            match route_match_result(route.path, path) {
                Err(e) => Err(e),
                Ok(false) => scan_routes(rest, method, path, best),
                Ok(true) => {
                    let score = specificity(route.path);
                    if best is Some && score == best_score(best) {
                        Err("route conflict for "@ + method + " "@ + path)
                    } else if score > best_score(best) {
                        scan_routes(rest, method, path, Some((route, score)))
                    } else {
                        scan_routes(rest, method, path, best)
                    }
                },
            }
        }
    }
}

/// The route of a request, or why there is none.
pub open spec fn route_for(packages: Seq<FunctionPackageView>, method: Seq<char>, path: Seq<char>) -> Result<
    (FunctionRouteView, Seq<char>),
    Seq<char>,
> {
    let normalized = normalized_route_path(path);
    let upper = uppercase(method);
    if reserved_path(normalized) {
        Err("reserved rack.local path"@)
    } else {
        match scan_routes(eligible_routes(packages), upper, normalized, None) {
            Err(e) => Err(e),
            Ok(Some((route, _))) => Ok((route, normalized)),
            Ok(None) => Err("no function route for "@ + upper + " "@ + normalized),
        }
    }
}

/// A route that `scan_routes` ends on is the best route it started with or
/// one of the routes it walked that is declared for the method and
/// matches the path.
proof fn lemma_scan_result(
    routes: Seq<FunctionRouteView>,
    method: Seq<char>,
    path: Seq<char>,
    best: Option<(FunctionRouteView, nat)>,
)
    ensures
        scan_routes(routes, method, path, best) matches Ok(Some((r, _))) ==> (best matches Some((b, _))
            && b == r) || exists|k: int|
            0 <= k < routes.len() && #[trigger] routes[k] == r && r.method == method
                && route_match_result(r.path, path) == Ok::<bool, Seq<char>>(true),
    decreases routes.len(),
{
    if routes.len() > 0 {
        let route = routes[0];
        let rest = routes.drop_first();
        lemma_scan_result(rest, method, path, best);
        if route.method == method && route_match_result(route.path, path) == Ok::<bool, Seq<char>>(true) {
            lemma_scan_result(rest, method, path, Some((route, specificity(route.path))));
        }
        if let Ok(Some((r, _))) = scan_routes(routes, method, path, best) {
            if exists|k: int|
                0 <= k < rest.len() && #[trigger] rest[k] == r && r.method == method
                    && route_match_result(r.path, path) == Ok::<bool, Seq<char>>(true) {
                let k = choose|k: int|
                    0 <= k < rest.len() && #[trigger] rest[k] == r && r.method == method
                        && route_match_result(r.path, path) == Ok::<bool, Seq<char>>(true);
                assert(routes[k + 1] == r);
            } else if r == route {
                assert(routes[0] == r);
            }
        }
    }
}

/// Every route offered for routing is a route of a package that loaded
/// without errors.
proof fn lemma_eligible_from_clean_package(packages: Seq<FunctionPackageView>, k: int)
    requires
        0 <= k < eligible_routes(packages).len(),
    ensures
        exists|i: int, j: int|
            0 <= i < packages.len() && packages[i].errors.len() == 0 && 0 <= j < packages[i].routes.len()
                && #[trigger] packages[i].routes[j] == eligible_routes(packages)[k],
    decreases packages.len(),
{
    let front = packages.drop_last();
    let n = eligible_routes(front).len();
    if k < n {
        lemma_eligible_from_clean_package(front, k);
        let (i, j) = choose|i: int, j: int|
            0 <= i < front.len() && front[i].errors.len() == 0 && 0 <= j < front[i].routes.len()
                && #[trigger] front[i].routes[j] == eligible_routes(front)[k];
        assert(packages[i] == front[i]);
        assert(packages[i].routes[j] == eligible_routes(packages)[k]);
    } else {
        let i = packages.len() - 1;
        assert(packages.last().errors.len() == 0);
        assert(packages[i].routes[k - n] == eligible_routes(packages)[k]);
    }
}

/// A request is only ever routed to a route of a package that loaded
/// without errors: a package whose errors list is not empty is skipped. The
/// route is declared for the request's method, upper-cased, and matches
/// the request's normalized path.
pub proof fn law_routes_come_from_error_free_packages(
    packages: Seq<FunctionPackageView>,
    method: Seq<char>,
    path: Seq<char>,
)
    ensures
        route_for(packages, method, path) matches Ok((route, normalized)) ==> {
            &&& exists|i: int, j: int|
                0 <= i < packages.len() && packages[i].errors.len() == 0 && 0 <= j < packages[i].routes.len()
                    && #[trigger] packages[i].routes[j] == route
            &&& route.method == uppercase(method)
            &&& normalized == normalized_route_path(path)
            &&& route_match_result(route.path, normalized) == Ok::<bool, Seq<char>>(true)
        },
{
    let normalized = normalized_route_path(path);
    let upper = uppercase(method);
    let all = eligible_routes(packages);
    lemma_scan_result(all, upper, normalized, None);
    if let Ok((route, _)) = route_for(packages, method, path) {
        let k = choose|k: int|
            0 <= k < all.len() && #[trigger] all[k] == route && route.method == upper
                && route_match_result(route.path, normalized) == Ok::<bool, Seq<char>>(true);
        lemma_eligible_from_clean_package(packages, k);
    }
}

pub open spec fn best_view(matched: Option<FunctionRoute>, score: usize) -> Option<(FunctionRouteView, nat)> {
    match matched {
        Some(m) => Some((m@, score as nat)),
        None => None,
    }
}

/// A route chosen for a request, with the request's normalized path.
pub struct FunctionRouteMatch {
    pub route: FunctionRoute,
    pub request_path: String,
}

pub open spec fn packages_view(packages: Seq<FunctionPackage>) -> Seq<FunctionPackageView> {
    packages.map_values(|p: FunctionPackage| p@)
}

/// The routes of the packages that loaded without errors, copied in order.
fn collect_eligible(packages: &Vec<FunctionPackage>) -> (r: Vec<FunctionRoute>)
    ensures
        r@.map_values(|x: FunctionRoute| x@) == eligible_routes(packages_view(packages@)),
{
    let mut out: Vec<FunctionRoute> = Vec::new();
    let mut i: usize = 0;
    while i < packages.len()
        invariant
            i <= packages@.len(),
            out@.map_values(|x: FunctionRoute| x@) == eligible_routes(
                packages_view(packages@).take(i as int),
            ),
        decreases packages.len() - i,
    {
        let package = &packages[i];
        let ghost before = out@;
        proof {
            assert(packages_view(packages@).take(i + 1).drop_last() =~= packages_view(
                packages@,
            ).take(i as int));
        }
        if package.errors.len() == 0 {
            let mut j: usize = 0;
            while j < package.routes.len()
                invariant
                    j <= package.routes@.len(),
                    out@.len() == before.len() + j,
                    forall|k: int| 0 <= k < before.len() ==> #[trigger] out@[k] == before[k],
                    forall|k: int|
                        0 <= k < j ==> (#[trigger] out@[before.len() + k])@
                            == package.routes@[k]@,
                decreases package.routes.len() - j,
            {
                out.push(package.routes[j].copy());
                j = j + 1;
            }
            proof {
                let pr = packages_view(packages@)[i as int].routes;
                assert(pr == package.routes@.map_values(|x: FunctionRoute| x@));
                let lhs = out@.map_values(|x: FunctionRoute| x@);
                let rhs = before.map_values(|x: FunctionRoute| x@) + pr;
                assert(lhs.len() == rhs.len());
                assert forall|k: int| 0 <= k < lhs.len() implies lhs[k] == rhs[k] by {
                    if k < before.len() {
                        assert(out@[k] == before[k]);
                    } else {
                        assert((out@[before.len() + (k - before.len())])@ == package.routes@[k
                            - before.len()]@);
                    }
                }
                assert(lhs =~= rhs);
            }
        } else {
            assert(out@.map_values(|x: FunctionRoute| x@) =~= before.map_values(
                |x: FunctionRoute| x@,
            ) + Seq::<FunctionRouteView>::empty());
        }
        i = i + 1;
    }
    assert(packages_view(packages@).take(packages@.len() as int) =~= packages_view(packages@));
    out
}

proof fn lemma_scan_step(
    routes: Seq<FunctionRouteView>,
    i: int,
    method: Seq<char>,
    path: Seq<char>,
    best: Option<(FunctionRouteView, nat)>,
)
    requires
        0 <= i < routes.len(),
    ensures
        scan_routes(routes.skip(i), method, path, best) == ({
            let route = routes[i];
            let rest = routes.skip(i + 1);
            if route.method != method {
                scan_routes(rest, method, path, best)
            } else {
                match route_match_result(route.path, path) {
                    Err(e) => Err(e),
                    Ok(false) => scan_routes(rest, method, path, best),
                    Ok(true) => {
                        let score = specificity(route.path);
                        if best is Some && score == best_score(best) {
                            Err("route conflict for "@ + method + " "@ + path)
                        } else if score > best_score(best) {
                            scan_routes(rest, method, path, Some((route, score)))
                        } else {
                            scan_routes(rest, method, path, best)
                        }
                    },
                }
            }
        }),
{
    assert(routes.skip(i).drop_first() =~= routes.skip(i + 1));
    assert(routes.skip(i)[0] == routes[i]);
}

/// Chooses the route of the installed packages that serves a request:
/// among the routes of packages without errors whose method is the
/// request's method in upper case, the most specific one that matches the
/// normalized path.
pub fn find_route(packages: &Vec<FunctionPackage>, method: &str, path: &str) -> (r: Result<
    FunctionRouteMatch,
    String,
>)
    requires
        forall|i: int, j: int|
            0 <= i < packages@.len() && 0 <= j < packages@[i].routes@.len() ==> (
            #[trigger] packages@[i].routes@[j]).path@.len() + 10000 <= usize::MAX,
    ensures
        match route_for(packages_view(packages@), method@, path@) {
            Ok((route, normalized)) => r matches Ok(m) && m.route@ == route && m.request_path@
                == normalized,
            Err(e) => r matches Err(m) && m@ == e,
        },
{
    let normalized = normalize_route_path(path);
    if str_eq(normalized.as_str(), "/") || has_prefix(normalized.as_str(), "/_") {
        return Err("reserved rack.local path".to_string());
    }
    let upper = to_uppercase(method);
    let routes = collect_eligible(packages);
    let ghost all = routes@.map_values(|x: FunctionRoute| x@);
    proof {
        assert forall|k: int| 0 <= k < routes@.len() implies (#[trigger] routes@[k]).path@.len()
            + 10000 <= usize::MAX by {
            lemma_eligible_bounded(packages@, routes@, k);
        }
    }
    let mut matched: Option<FunctionRoute> = None;
    let mut matched_score: usize = 0;
    let mut i: usize = 0;
    assert(all.skip(0) =~= all);
    while i < routes.len()
        invariant
            i <= routes@.len(),
            all == routes@.map_values(|x: FunctionRoute| x@),
            all == eligible_routes(packages_view(packages@)),
            forall|k: int| 0 <= k < routes@.len() ==> (#[trigger] routes@[k]).path@.len() + 10000
                <= usize::MAX,
            scan_routes(all, upper@, normalized@, None) == scan_routes(
                all.skip(i as int),
                upper@,
                normalized@,
                best_view(matched, matched_score),
            ),
            matched is None ==> matched_score == 0,
            normalized@ == normalized_route_path(path@),
            upper@ == uppercase(method@),
            !reserved_path(normalized@),
        decreases routes.len() - i,
    {
        let ghost best = best_view(matched, matched_score);
        proof {
            lemma_scan_step(all, i as int, upper@, normalized@, best);
        }
        let route = &routes[i];
        assert(all[i as int] == routes@[i as int]@);
        if str_eq(route.method.as_str(), upper.as_str()) {
            let is_match = match route_matches(route.path.as_str(), normalized.as_str()) {
                Ok(b) => b,
                Err(e) => {
                    return Err(e);
                },
            };
            if is_match {
                let score = route_specificity(route.path.as_str());
                if matched.is_some() && score == matched_score {
                    let mut message = concat("route conflict for ", upper.as_str());
                    crate::text::append(&mut message, " ");
                    crate::text::append(&mut message, normalized.as_str());
                    return Err(message);
                }
                if score > matched_score {
                    matched = Some(route.copy());
                    matched_score = score;
                }
            }
        }
        i = i + 1;
    }
    assert(all.skip(routes@.len() as int) =~= Seq::<FunctionRouteView>::empty());
    match matched {
        Some(route) => Ok(FunctionRouteMatch { route, request_path: normalized }),
        None => {
            let mut message = concat("no function route for ", upper.as_str());
            crate::text::append(&mut message, " ");
            crate::text::append(&mut message, normalized.as_str());
            Err(message)
        },
    }
}

proof fn lemma_eligible_bounded(packages: Seq<FunctionPackage>, routes: Seq<FunctionRoute>, k: int)
    requires
        forall|i: int, j: int|
            0 <= i < packages.len() && 0 <= j < packages[i].routes@.len() ==> (
            #[trigger] packages[i].routes@[j]).path@.len() + 10000 <= usize::MAX,
        routes.map_values(|x: FunctionRoute| x@) == eligible_routes(packages_view(packages)),
        0 <= k < routes.len(),
    ensures
        routes[k].path@.len() + 10000 <= usize::MAX,
{
    assert(routes.map_values(|x: FunctionRoute| x@)[k] == routes[k]@);
    lemma_eligible_member(packages, k);
}

proof fn lemma_eligible_member(packages: Seq<FunctionPackage>, k: int)
    requires
        forall|i: int, j: int|
            0 <= i < packages.len() && 0 <= j < packages[i].routes@.len() ==> (
            #[trigger] packages[i].routes@[j]).path@.len() + 10000 <= usize::MAX,
        0 <= k < eligible_routes(packages_view(packages)).len(),
    ensures
        eligible_routes(packages_view(packages))[k].path.len() + 10000 <= usize::MAX,
    decreases packages.len(),
{
    let pv = packages_view(packages);
    if packages.len() > 0 {
        let front = packages.drop_last();
        assert(packages_view(front) =~= pv.drop_last());
        let n = eligible_routes(pv.drop_last()).len();
        if k < n {
            lemma_eligible_member(front, k);
        } else {
            let last = packages.len() - 1;
            assert(pv.last() == packages[last]@);
            assert(packages[last]@.routes[k - n] == packages[last].routes@[k - n]@);
        }
    }
}

// ---------------------------------------------------------------------------
// The request handed to a route's function.
/// `value` has a string member `key` whose text is `text`.
pub open spec fn has_str_member(value: Json, key: Seq<char>, text: Seq<char>) -> bool {
    spec_get(value, key) matches Some(Json::Str(x)) && x@ == text
}

/// What the `route` member of a routed request says: the package, id,
/// path (also as `pattern`), method and function of the route, whether it
/// is a glob, and the path it matched.
pub open spec fn describes_route(value: Json, m: FunctionRouteMatch) -> bool {
    &&& value is Object
    &&& has_str_member(value, "package"@, m.route.package@)
    &&& has_str_member(value, "id"@, m.route.id@)
    &&& has_str_member(value, "path"@, m.route.path@)
    &&& has_str_member(value, "pattern"@, m.route.path@)
    &&& has_str_member(value, "method"@, m.route.method@)
    &&& has_str_member(value, "function"@, m.route.function@)
    &&& spec_get(value, "is_glob"@) == Some(Json::Bool(has_glob(m.route.path@)))
    &&& has_str_member(value, "matched_path"@, m.request_path@)
}

/// The `route` member of a routed request.
pub fn route_metadata(m: &FunctionRouteMatch) -> (r: Json)
    ensures
        describes_route(r, *m),
{
    proof {
        reveal_strlit("package");
        reveal_strlit("id");
        reveal_strlit("path");
        reveal_strlit("pattern");
        reveal_strlit("method");
        reveal_strlit("function");
        reveal_strlit("is_glob");
        reveal_strlit("matched_path");
    }
    let is_glob = route_has_glob(m.route.path.as_str());
    let v0 = Json::Object(Vec::new());
    let v1 = set_member(v0, "package".to_string(), Json::Str(m.route.package.clone()));
    proof {
        assert(has_str_member(v1, "package"@, m.route.package@));
    }
    let v2 = set_member(v1, "id".to_string(), Json::Str(m.route.id.clone()));
    proof {
        assert("id"@.len() != "package"@.len());
        assert(has_str_member(v2, "package"@, m.route.package@));
        assert(has_str_member(v2, "id"@, m.route.id@));
    }
    let v3 = set_member(v2, "path".to_string(), Json::Str(m.route.path.clone()));
    proof {
        assert("path"@.len() != "package"@.len());
        assert("path"@.len() != "id"@.len());
        assert(has_str_member(v3, "package"@, m.route.package@));
        assert(has_str_member(v3, "id"@, m.route.id@));
        assert(has_str_member(v3, "path"@, m.route.path@));
    }
    let v4 = set_member(v3, "pattern".to_string(), Json::Str(m.route.path.clone()));
    proof {
        assert("pattern"@[2] != "package"@[2]);
        assert("pattern"@.len() != "id"@.len());
        assert("pattern"@.len() != "path"@.len());
        assert(has_str_member(v4, "package"@, m.route.package@));
        assert(has_str_member(v4, "id"@, m.route.id@));
        assert(has_str_member(v4, "path"@, m.route.path@));
        assert(has_str_member(v4, "pattern"@, m.route.path@));
    }
    let v5 = set_member(v4, "method".to_string(), Json::Str(m.route.method.clone()));
    proof {
        assert("method"@.len() != "package"@.len());
        assert("method"@.len() != "id"@.len());
        assert("method"@.len() != "path"@.len());
        assert("method"@.len() != "pattern"@.len());
        assert(has_str_member(v5, "package"@, m.route.package@));
        assert(has_str_member(v5, "id"@, m.route.id@));
        assert(has_str_member(v5, "path"@, m.route.path@));
        assert(has_str_member(v5, "pattern"@, m.route.path@));
        assert(has_str_member(v5, "method"@, m.route.method@));
    }
    let v6 = set_member(v5, "function".to_string(), Json::Str(m.route.function.clone()));
    proof {
        assert("function"@.len() != "package"@.len());
        assert("function"@.len() != "id"@.len());
        assert("function"@.len() != "path"@.len());
        assert("function"@.len() != "pattern"@.len());
        assert("function"@.len() != "method"@.len());
        assert(has_str_member(v6, "package"@, m.route.package@));
        assert(has_str_member(v6, "id"@, m.route.id@));
        assert(has_str_member(v6, "path"@, m.route.path@));
        assert(has_str_member(v6, "pattern"@, m.route.path@));
        assert(has_str_member(v6, "method"@, m.route.method@));
        assert(has_str_member(v6, "function"@, m.route.function@));
    }
    let v7 = set_member(v6, "is_glob".to_string(), Json::Bool(is_glob));
    proof {
        assert("is_glob"@[0] != "package"@[0]);
        assert("is_glob"@.len() != "id"@.len());
        assert("is_glob"@.len() != "path"@.len());
        assert("is_glob"@[0] != "pattern"@[0]);
        assert("is_glob"@.len() != "method"@.len());
        assert("is_glob"@.len() != "function"@.len());
        assert(has_str_member(v7, "package"@, m.route.package@));
        assert(has_str_member(v7, "id"@, m.route.id@));
        assert(has_str_member(v7, "path"@, m.route.path@));
        assert(has_str_member(v7, "pattern"@, m.route.path@));
        assert(has_str_member(v7, "method"@, m.route.method@));
        assert(has_str_member(v7, "function"@, m.route.function@));
        assert(spec_get(v7, "is_glob"@) == Some(Json::Bool(has_glob(m.route.path@))));
    }
    let v8 = set_member(v7, "matched_path".to_string(), Json::Str(m.request_path.clone()));
    proof {
        assert("matched_path"@.len() != "package"@.len());
        assert("matched_path"@.len() != "id"@.len());
        assert("matched_path"@.len() != "path"@.len());
        assert("matched_path"@.len() != "pattern"@.len());
        assert("matched_path"@.len() != "method"@.len());
        assert("matched_path"@.len() != "function"@.len());
        assert("matched_path"@.len() != "is_glob"@.len());
        assert(has_str_member(v8, "package"@, m.route.package@));
        assert(has_str_member(v8, "id"@, m.route.id@));
        assert(has_str_member(v8, "path"@, m.route.path@));
        assert(has_str_member(v8, "pattern"@, m.route.path@));
        assert(has_str_member(v8, "method"@, m.route.method@));
        assert(has_str_member(v8, "function"@, m.route.function@));
        assert(spec_get(v8, "is_glob"@) == Some(Json::Bool(has_glob(m.route.path@))));
        assert(has_str_member(v8, "matched_path"@, m.request_path@));
    }
    v8
}

/// The request handed to a route's function: the incoming request with a
/// `route` member that describes the route; a request that is not an object
/// is handed on as it is.
pub fn route_match_request(m: &FunctionRouteMatch, request: Json) -> (r: Json)
    ensures
        request is Object ==> r is Object && (spec_get(r, "route"@) matches Some(route)
            && describes_route(route, *m)) && forall|k: Seq<char>|
            k != "route"@ ==> #[trigger] spec_get(r, k) == spec_get(request, k),
        !(request is Object) ==> r == request,
{
    let route = route_metadata(m);
    set_member(request, "route".to_string(), route)
}

} // verus!
