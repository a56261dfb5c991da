//! Function packages: what a package's manifest declares, and the routes,
//! crons and errors that loading it yields.
use crate::functions::routing::{
    normalize_route_path, normalized_route_path, reserved_path, route_path_check, validate_route_path,
};
use crate::sorted_map::{lemma_lex_asymmetric, lemma_lex_transitive, lex_lt, str_lt};
use crate::text::{append, concat, has_prefix, owned, uppercase, str_eq, to_uppercase};
use vstd::prelude::*;

verus! {

/// A route that an installed package serves.
pub struct FunctionRoute {
    pub package: String,
    pub id: String,
    pub path: String,
    pub method: String,
    pub function: String,
    pub wasm_path: String,
}

pub struct FunctionRouteView {
    pub package: Seq<char>,
    pub id: Seq<char>,
    pub path: Seq<char>,
    pub method: Seq<char>,
    pub function: Seq<char>,
    pub wasm_path: Seq<char>,
}

impl View for FunctionRoute {
    type V = FunctionRouteView;

    open spec fn view(&self) -> FunctionRouteView {
        FunctionRouteView {
            package: self.package@,
            id: self.id@,
            path: self.path@,
            method: self.method@,
            function: self.function@,
            wasm_path: self.wasm_path@,
        }
    }
}

impl FunctionRoute {
    pub fn copy(&self) -> (r: Self)
        ensures
            r@ == self@,
    {
        FunctionRoute {
            package: self.package.clone(),
            id: self.id.clone(),
            path: self.path.clone(),
            method: self.method.clone(),
            function: self.function.clone(),
            wasm_path: self.wasm_path.clone(),
        }
    }
}

/// A scheduled function of an installed package.
pub struct FunctionCron {
    pub package: String,
    pub id: String,
    pub schedule: String,
    pub function: String,
    pub wasm_path: String,
}

pub struct FunctionCronView {
    pub package: Seq<char>,
    pub id: Seq<char>,
    pub schedule: Seq<char>,
    pub function: Seq<char>,
    pub wasm_path: Seq<char>,
}

impl View for FunctionCron {
    type V = FunctionCronView;

    open spec fn view(&self) -> FunctionCronView {
        FunctionCronView {
            package: self.package@,
            id: self.id@,
            schedule: self.schedule@,
            function: self.function@,
            wasm_path: self.wasm_path@,
        }
    }
}

/// An installed package as loaded: its routes and crons, and what was wrong
/// with it.
pub struct FunctionPackage {
    pub name: String,
    pub version: String,
    pub root: String,
    pub routes: Vec<FunctionRoute>,
    pub crons: Vec<FunctionCron>,
    pub errors: Vec<String>,
}

pub struct FunctionPackageView {
    pub name: Seq<char>,
    pub version: Seq<char>,
    pub root: Seq<char>,
    pub routes: Seq<FunctionRouteView>,
    pub crons: Seq<FunctionCronView>,
    pub errors: Seq<Seq<char>>,
}

impl View for FunctionPackage {
    type V = FunctionPackageView;

    open spec fn view(&self) -> FunctionPackageView {
        FunctionPackageView {
            name: self.name@,
            version: self.version@,
            root: self.root@,
            routes: self.routes@.map_values(|r: FunctionRoute| r@),
            crons: self.crons@.map_values(|c: FunctionCron| c@),
            errors: self.errors@.map_values(|e: String| e@),
        }
    }
}

/// A route as a manifest declares it.
pub struct ManifestRoute {
    pub path: String,
    pub method: String,
    pub function: String,
}

/// A cron as a manifest declares it.
pub struct ManifestCron {
    pub schedule: String,
    pub function: String,
}

/// A package manifest: its routes and crons by id, in increasing id order.
pub struct Manifest {
    pub name: String,
    pub version: String,
    pub routes: Vec<(String, ManifestRoute)>,
    pub crons: Vec<(String, ManifestCron)>,
}

/// What reading a package's `manifest.toml` gave.
pub enum ManifestSource {
    Missing,
    Invalid(String),
    Parsed(Manifest),
}

/// `Path::join` on Unix: an absolute name replaces the base; otherwise a
/// `/` goes between unless the base is empty or already ends with one.
pub open spec fn join_path(base: Seq<char>, name: Seq<char>) -> Seq<char> {
    if name.len() > 0 && name[0] == '/' {
        name
    } else if base.len() == 0 || base.last() == '/' {
        base + name
    } else {
        base + "/"@ + name
    }
}

/// Joins a relative name to a path.
pub fn path_join(base: &str, name: &str) -> (r: String)
    ensures
        r@ == join_path(base@, name@),
{
    let n = crate::text::chars_of(name);
    if n.len() > 0 && n[0] == '/' {
        return owned(name);
    }
    let v = crate::text::chars_of(base);
    if v.len() == 0 || v[v.len() - 1] == '/' {
        concat(base, name)
    } else {
        let mut r = concat(base, "/");
        append(&mut r, name);
        r
    }
}

/// What becomes of one declared route: the route served, or the error it
/// is reported with.
pub open spec fn route_outcome(
    package: Seq<char>,
    wasm_path: Seq<char>,
    id: Seq<char>,
    path: Seq<char>,
    method: Seq<char>,
    function: Seq<char>,
) -> Result<FunctionRouteView, Seq<char>> {
    let normalized = normalized_route_path(path);
    if reserved_path(normalized) {
        Err("route '"@ + id + "' uses reserved path '"@ + normalized + "'"@)
    } else {
        match route_path_check(normalized) {
            Err(message) => Err("route '"@ + id + "' "@ + message),
            Ok(_) => Ok(
                FunctionRouteView {
                    package,
                    id,
                    path: normalized,
                    method: uppercase(method),
                    function,
                    wasm_path,
                },
            ),
        }
    }
}

pub open spec fn outcome_of(package: Seq<char>, wasm_path: Seq<char>, entry: (String, ManifestRoute)) -> Result<
    FunctionRouteView,
    Seq<char>,
> {
    route_outcome(
        package,
        wasm_path,
        entry.0@,
        entry.1.path@,
        entry.1.method@,
        entry.1.function@,
    )
}

/// The routes served, in declaration order.
pub open spec fn accepted_routes(
    package: Seq<char>,
    wasm_path: Seq<char>,
    entries: Seq<(String, ManifestRoute)>,
) -> Seq<FunctionRouteView>
    decreases entries.len(),
{
    if entries.len() == 0 {
        seq![]
    } else {
        accepted_routes(package, wasm_path, entries.drop_last()) + match outcome_of(
            package,
            wasm_path,
            entries.last(),
        ) {
            Ok(route) => seq![route],
            Err(_) => seq![],
        }
    }
}

/// The errors of the declared routes, in declaration order.
pub open spec fn route_errors(
    package: Seq<char>,
    wasm_path: Seq<char>,
    entries: Seq<(String, ManifestRoute)>,
) -> Seq<Seq<char>>
    decreases entries.len(),
{
    if entries.len() == 0 {
        seq![]
    } else {
        route_errors(package, wasm_path, entries.drop_last()) + match outcome_of(
            package,
            wasm_path,
            entries.last(),
        ) {
            Ok(_) => seq![],
            Err(e) => seq![e],
        }
    }
}

pub open spec fn cron_of(package: Seq<char>, wasm_path: Seq<char>, entry: (String, ManifestCron)) -> FunctionCronView {
    FunctionCronView {
        package,
        id: entry.0@,
        schedule: entry.1.schedule@,
        function: entry.1.function@,
        wasm_path,
    }
}

/// The package that loading a package directory yields, from its root, the
/// name of its directory (`None` when it is not text), whether its
/// `functions.wasm` is there, and what reading its manifest gave.
pub open spec fn package_of(
    root: Seq<char>,
    dir_name: Option<Seq<char>>,
    wasm_present: bool,
    source: ManifestSource,
) -> FunctionPackageView {
    let wasm_path = join_path(root, "functions.wasm"@);
    let wasm_errors = if wasm_present {
        seq![]
    } else {
        seq!["missing functions.wasm"@]
    };
    let fallback = FunctionPackageView {
        name: match dir_name {
            Some(n) => n,
            None => "unknown"@,
        },
        version: "0.0.0"@,
        root,
        routes: seq![],
        crons: seq![],
        errors: wasm_errors,
    };
    match source {
        ManifestSource::Missing => FunctionPackageView {
            errors: wasm_errors + seq!["missing manifest.toml"@],
            ..fallback
        },
        ManifestSource::Invalid(e) => FunctionPackageView {
            errors: wasm_errors + seq!["invalid manifest.toml: "@ + e@],
            ..fallback
        },
        ManifestSource::Parsed(m) => {
            let routes = accepted_routes(m.name@, wasm_path, m.routes@);
            let crons = m.crons@.map_values(|c: (String, ManifestCron)| cron_of(m.name@, wasm_path, c));
            FunctionPackageView {
                name: m.name@,
                version: m.version@,
                root,
                routes,
                crons,
                errors: wasm_errors + route_errors(m.name@, wasm_path, m.routes@) + if routes.len()
                    == 0 && crons.len() == 0 {
                    seq!["manifest has no routes or crons"@]
                } else {
                    seq![]
                },
            }
        },
    }
}

fn route_outcome_of(package: &str, wasm_path: &str, id: &str, route: &ManifestRoute) -> (r: Result<
    FunctionRoute,
    String,
>)
    ensures
        match route_outcome(package@, wasm_path@, id@, route.path@, route.method@, route.function@) {
            Ok(v) => r matches Ok(x) && x@ == v,
            Err(e) => r matches Err(x) && x@ == e,
        },
{
    let normalized = normalize_route_path(route.path.as_str());
    if str_eq(normalized.as_str(), "/") || has_prefix(normalized.as_str(), "/_") {
        let mut message = concat("route '", id);
        append(&mut message, "' uses reserved path '");
        append(&mut message, normalized.as_str());
        append(&mut message, "'");
        return Err(message);
    }
    match validate_route_path(normalized.as_str()) {
        Err(e) => {
            let mut message = concat("route '", id);
            append(&mut message, "' ");
            append(&mut message, e.as_str());
            Err(message)
        },
        Ok(()) => Ok(
            FunctionRoute {
                package: owned(package),
                id: owned(id),
                path: normalized,
                method: to_uppercase(route.method.as_str()),
                function: route.function.clone(),
                wasm_path: owned(wasm_path),
            },
        ),
    }
}

/// Loads a package from its directory's facts: the manifest's name and
/// version, the routes it may serve and the crons it schedules, and an
/// error for each thing wrong with it.
pub fn parse_manifest(root: &str, dir_name: Option<&str>, wasm_present: bool, source: ManifestSource) -> (r:
    FunctionPackage)
    ensures
        r@ == package_of(
            root@,
            match dir_name {
                Some(n) => Some(n@),
                None => None,
            },
            wasm_present,
            source,
        ),
{
    let ghost src = source;
    let ghost dn = match dir_name {
        Some(n) => Some(n@),
        None => None::<Seq<char>>,
    };
    let wasm_path = path_join(root, "functions.wasm");
    let mut errors: Vec<String> = Vec::new();
    if !wasm_present {
        errors.push("missing functions.wasm".to_string());
    }
    let ghost wasm_errors = errors@.map_values(|e: String| e@);
    let fallback_name = match dir_name {
        Some(n) => owned(n),
        None => "unknown".to_string(),
    };
    match source {
        ManifestSource::Missing => {
            errors.push("missing manifest.toml".to_string());
            let r = FunctionPackage {
                name: fallback_name,
                version: "0.0.0".to_string(),
                root: owned(root),
                routes: Vec::new(),
                crons: Vec::new(),
                errors,
            };
            assert(r@.errors =~= wasm_errors + seq!["missing manifest.toml"@]);
            assert(r@.routes =~= Seq::<FunctionRouteView>::empty());
            assert(r@.crons =~= Seq::<FunctionCronView>::empty());
            assert(r@.name == package_of(root@, dn, wasm_present, src).name);
            assert(r@.version == package_of(root@, dn, wasm_present, src).version);
            assert(r@.errors == package_of(root@, dn, wasm_present, src).errors);
            assert(r@.root == package_of(root@, dn, wasm_present, src).root);
            assert(r@.routes == package_of(root@, dn, wasm_present, src).routes);
            assert(r@.crons == package_of(root@, dn, wasm_present, src).crons);
            assert(r@ == package_of(root@, dn, wasm_present, src));
            r
        },
        ManifestSource::Invalid(e) => {
            errors.push(concat("invalid manifest.toml: ", e.as_str()));
            let r = FunctionPackage {
                name: fallback_name,
                version: "0.0.0".to_string(),
                root: owned(root),
                routes: Vec::new(),
                crons: Vec::new(),
                errors,
            };
            assert(r@.errors =~= wasm_errors + seq!["invalid manifest.toml: "@ + e@]);
            assert(r@.routes =~= Seq::<FunctionRouteView>::empty());
            assert(r@.crons =~= Seq::<FunctionCronView>::empty());
            assert(r@.name == package_of(root@, dn, wasm_present, src).name);
            assert(r@.version == package_of(root@, dn, wasm_present, src).version);
            assert(r@.errors == package_of(root@, dn, wasm_present, src).errors);
            assert(r@.root == package_of(root@, dn, wasm_present, src).root);
            assert(r@.routes == package_of(root@, dn, wasm_present, src).routes);
            assert(r@.crons == package_of(root@, dn, wasm_present, src).crons);
            assert(r@ == package_of(root@, dn, wasm_present, src));
            r
        },
        ManifestSource::Parsed(m) => {
            let mut routes: Vec<FunctionRoute> = Vec::new();
            let mut i: usize = 0;
            while i < m.routes.len()
                invariant
                    i <= m.routes@.len(),
                    routes@.map_values(|x: FunctionRoute| x@) == accepted_routes(
                        m.name@,
                        wasm_path@,
                        m.routes@.take(i as int),
                    ),
                    errors@.map_values(|x: String| x@) == wasm_errors + route_errors(
                        m.name@,
                        wasm_path@,
                        m.routes@.take(i as int),
                    ),
                decreases m.routes.len() - i,
            {
                let entry = &m.routes[i];
                proof {
                    assert(m.routes@.take(i + 1).drop_last() =~= m.routes@.take(i as int));
                    assert(m.routes@.take(i + 1).last() == m.routes@[i as int]);
                }
                match route_outcome_of(m.name.as_str(), wasm_path.as_str(), entry.0.as_str(), &entry.1) {
                    Ok(route) => {
                        let ghost before = routes@.map_values(|x: FunctionRoute| x@);
                        routes.push(route);
                        assert(routes@.map_values(|x: FunctionRoute| x@) =~= before + seq![
                            routes@.last()@,
                        ]);
                        assert(errors@.map_values(|x: String| x@) =~= wasm_errors + route_errors(
                            m.name@,
                            wasm_path@,
                            m.routes@.take(i as int),
                        ) + Seq::<Seq<char>>::empty());
                    },
                    Err(e) => {
                        let ghost before = errors@.map_values(|x: String| x@);
                        errors.push(e);
                        assert(errors@.map_values(|x: String| x@) =~= before + seq![
                            errors@.last()@,
                        ]);
                        assert(routes@.map_values(|x: FunctionRoute| x@) =~= accepted_routes(
                            m.name@,
                            wasm_path@,
                            m.routes@.take(i as int),
                        ) + Seq::<FunctionRouteView>::empty());
                    },
                }
                i = i + 1;
            }
            assert(m.routes@.take(m.routes@.len() as int) =~= m.routes@);
            let mut crons: Vec<FunctionCron> = Vec::new();
            let mut j: usize = 0;
            while j < m.crons.len()
                invariant
                    j <= m.crons@.len(),
                    crons@.len() == j,
                    forall|k: int|
                        0 <= k < j ==> (#[trigger] crons@[k])@ == cron_of(
                            m.name@,
                            wasm_path@,
                            m.crons@[k],
                        ),
                decreases m.crons.len() - j,
            {
                let entry = &m.crons[j];
                crons.push(
                    FunctionCron {
                        package: m.name.clone(),
                        id: entry.0.clone(),
                        schedule: entry.1.schedule.clone(),
                        function: entry.1.function.clone(),
                        wasm_path: wasm_path.clone(),
                    },
                );
                j = j + 1;
            }
            let ghost cron_views = m.crons@.map_values(
                |c: (String, ManifestCron)| cron_of(m.name@, wasm_path@, c),
            );
            assert(crons@.map_values(|c: FunctionCron| c@) =~= cron_views);
            let ghost before = errors@.map_values(|x: String| x@);
            if routes.len() == 0 && crons.len() == 0 {
                errors.push("manifest has no routes or crons".to_string());
                assert(errors@.map_values(|x: String| x@) =~= before + seq![
                    "manifest has no routes or crons"@,
                ]);
            } else {
                assert(errors@.map_values(|x: String| x@) =~= before + Seq::<Seq<char>>::empty());
            }
            let ghost mv = m;
            let r = FunctionPackage {
                name: m.name,
                version: m.version,
                root: owned(root),
                routes,
                crons,
                errors,
            };
            assert(r@.routes == accepted_routes(mv.name@, wasm_path@, mv.routes@));
            assert(r@.crons == cron_views);
            assert(r@.errors == wasm_errors + route_errors(mv.name@, wasm_path@, mv.routes@) + if r@.routes.len() == 0 && r@.crons.len() == 0 {
                    seq!["manifest has no routes or crons"@]
                } else {
                    seq![]
                });
            assert(r@.name == package_of(root@, dn, wasm_present, src).name);
            assert(r@.version == package_of(root@, dn, wasm_present, src).version);
            assert(r@.errors == package_of(root@, dn, wasm_present, src).errors);
            assert(r@.root == package_of(root@, dn, wasm_present, src).root);
            assert(r@.routes == package_of(root@, dn, wasm_present, src).routes);
            assert(r@.crons == package_of(root@, dn, wasm_present, src).crons);
            assert(r@ == package_of(root@, dn, wasm_present, src));
            r
        },
    }
}

// ---------------------------------------------------------------------------
// The snapshot of the installed packages.
/// Names in non-decreasing order.
pub open spec fn sorted_by_name(ps: Seq<FunctionPackageView>) -> bool {
    forall|i: int, j: int| 0 <= i < j < ps.len() ==> !lex_lt(#[trigger] ps[j].name, #[trigger] ps[i].name)
}

pub open spec fn views(ps: Seq<FunctionPackage>) -> Seq<FunctionPackageView> {
    ps.map_values(|p: FunctionPackage| p@)
}

/// The packages named `name`, in their order.
pub open spec fn with_name(ps: Seq<FunctionPackageView>, name: Seq<char>) -> Seq<FunctionPackageView>
    decreases ps.len(),
{
    if ps.len() == 0 {
        seq![]
    } else if ps.last().name == name {
        with_name(ps.drop_last(), name).push(ps.last())
    } else {
        with_name(ps.drop_last(), name)
    }
}

proof fn lemma_with_name_concat(a: Seq<FunctionPackageView>, b: Seq<FunctionPackageView>, name: Seq<char>)
    ensures
        with_name(a + b, name) == with_name(a, name) + with_name(b, name),
    decreases b.len(),
{
    if b.len() == 0 {
        assert(a + b =~= a);
        assert(with_name(a, name) + with_name(b, name) =~= with_name(a, name));
    } else {
        lemma_with_name_concat(a, b.drop_last(), name);
        assert((a + b).drop_last() =~= a + b.drop_last());
        assert((a + b).last() == b.last());
        if b.last().name == name {
            assert(with_name(a, name) + with_name(b, name) =~= (with_name(a, name) + with_name(
                b.drop_last(),
                name,
            )).push(b.last()));
        }
    }
}

proof fn lemma_with_name_none(b: Seq<FunctionPackageView>, name: Seq<char>)
    requires
        forall|j: int| 0 <= j < b.len() ==> (#[trigger] b[j]).name != name,
    ensures
        with_name(b, name) == Seq::<FunctionPackageView>::empty(),
    decreases b.len(),
{
    if b.len() > 0 {
        lemma_with_name_none(b.drop_last(), name);
        assert(b[b.len() - 1].name != name);
    }
}

/// Inserting `x` at `k`, where no package from `k` on has the name of `x`,
/// puts `x` after every package of its name and changes no other name's
/// packages.
proof fn lemma_with_name_insert(s: Seq<FunctionPackageView>, k: int, x: FunctionPackageView, name: Seq<char>)
    requires
        0 <= k <= s.len(),
        forall|j: int| k <= j < s.len() ==> (#[trigger] s[j]).name != x.name,
    ensures
        with_name(s.insert(k, x), name) == if x.name == name {
            with_name(s, name).push(x)
        } else {
            with_name(s, name)
        },
{
    let head = s.take(k);
    let tail = s.skip(k);
    assert(s =~= head + tail);
    assert(s.insert(k, x) =~= head + seq![x] + tail);
    lemma_with_name_concat(head, tail, name);
    lemma_with_name_concat(head + seq![x], tail, name);
    lemma_with_name_concat(head, seq![x], name);
    assert(seq![x].drop_last() =~= Seq::<FunctionPackageView>::empty());
    assert(with_name(seq![x].drop_last(), name) =~= Seq::<FunctionPackageView>::empty());
    if x.name == name {
        assert forall|j: int| 0 <= j < tail.len() implies (#[trigger] tail[j]).name != name by {
            assert(tail[j] == s[k + j]);
        }
        lemma_with_name_none(tail, name);
        assert(with_name(s, name) =~= with_name(head, name));
        assert(with_name(head, name) + with_name(seq![x], name) =~= with_name(head, name).push(x));
    } else {
        assert(with_name(seq![x], name) =~= Seq::<FunctionPackageView>::empty());
        assert(with_name(head, name) + with_name(seq![x], name) =~= with_name(head, name));
    }
}

/// Sorts packages by name, keeping the order of packages with equal names.
pub fn sort_packages(packages: Vec<FunctionPackage>) -> (r: Vec<FunctionPackage>)
    ensures
        sorted_by_name(views(r@)),
        views(r@).to_multiset() == views(packages@).to_multiset(),
        forall|name: Seq<char>| #[trigger] with_name(views(r@), name) == with_name(views(packages@), name),
{
    let ghost input = views(packages@);
    let mut rest = packages;
    let mut out: Vec<FunctionPackage> = Vec::new();
    let mut i: usize = 0;
    let n: usize = rest.len();
    assert(input.len() == n);
    assert(input.take(0) =~= Seq::<FunctionPackageView>::empty());
    assert(views(out@) =~= Seq::<FunctionPackageView>::empty());
    while rest.len() > 0
        invariant
            i <= input.len(),
            input.len() <= usize::MAX,
            views(rest@) == input.skip(i as int),
            sorted_by_name(views(out@)),
            views(out@).to_multiset() == input.take(i as int).to_multiset(),
            forall|name: Seq<char>| #[trigger] with_name(views(out@), name) == with_name(input.take(i as int), name),
        decreases rest.len(),
    {
        let ghost before = views(out@);
        let ghost old_rest = rest@;
        let p = rest.remove(0);
        proof {
            assert(input.skip(i as int).len() == old_rest.len());
            assert(views(old_rest)[0] == input.skip(i as int)[0]);
            assert forall|k: int| 0 <= k < rest@.len() implies views(rest@)[k] == input.skip(
                i + 1,
            )[k] by {
                assert(rest@[k] == old_rest[k + 1]);
                assert(views(old_rest)[k + 1] == input.skip(i as int)[k + 1]);
            }
            assert(views(rest@) =~= input.skip(i + 1));
            assert(p@ == input[i as int]);
        }
        let mut k: usize = 0;
        while k < out.len() && !str_lt(p.name.as_str(), out[k].name.as_str())
            invariant
                k <= out@.len(),
                views(out@) == before,
                forall|m: int| 0 <= m < k ==> !lex_lt(p@.name, #[trigger] before[m].name),
            decreases out.len() - k,
        {
            k = k + 1;
        }
        let ghost pv = p@;
        out.insert(k, p);
        proof {
            let after = views(out@);
            assert(after =~= before.insert(k as int, pv));
            assert forall|a: int, b: int| 0 <= a < b < after.len() implies !lex_lt(
                #[trigger] after[b].name,
                #[trigger] after[a].name,
            ) by {
                if a < k && b == k {
                } else if a == k && b > k {
                    assert(after[b] == before[b - 1]);
                    assert(lex_lt(pv.name, before[k as int].name));
                    if lex_lt(before[b - 1].name, pv.name) {
                        if b - 1 > k {
                            assert(!lex_lt(before[b - 1].name, before[k as int].name));
                        }
                        lemma_lex_transitive(before[b - 1].name, pv.name, before[k as int].name);
                        if b - 1 == k {
                            lemma_lex_asymmetric(pv.name, before[k as int].name);
                        }
                    }
                } else if a < k && b < k {
                    assert(after[a] == before[a] && after[b] == before[b]);
                } else if a < k && b > k {
                    assert(after[a] == before[a] && after[b] == before[b - 1]);
                } else {
                    assert(after[a] == before[a - 1] && after[b] == before[b - 1]);
                }
            }
            vstd::seq_lib::to_multiset_insert(before, k as int, pv);
            assert(input.take(i + 1) =~= input.take(i as int).push(pv));
            assert forall|j: int| k <= j < before.len() implies (#[trigger] before[j]).name != pv.name by {
                assert(lex_lt(pv.name, before[k as int].name));
                crate::sorted_map::lemma_lex_irreflexive(pv.name);
                if j > k {
                    assert(!lex_lt(before[j].name, before[k as int].name));
                }
            }
            assert forall|name: Seq<char>| #[trigger] with_name(after, name) == with_name(input.take(i + 1), name) by {
                lemma_with_name_insert(before, k as int, pv, name);
                assert(input.take(i + 1).drop_last() =~= input.take(i as int));
                assert(input.take(i + 1).last() == pv);
            }
            vstd::seq_lib::to_multiset_build(input.take(i as int), pv);
        }
        i = i + 1;
    }
    proof {
        assert(input.skip(i as int).len() == 0);
        assert(input.take(i as int) =~= input);
    }
    out
}

/// Whether a route with `method` and `path` is declared before route `j` of
/// package `i`: in an earlier package, or earlier in package `i`.
pub open spec fn claimed_before(
    ps: Seq<FunctionPackageView>,
    i: int,
    j: int,
    method: Seq<char>,
    path: Seq<char>,
) -> bool {
    ||| exists|a: int, b: int|
        0 <= a < i && 0 <= b < ps[a].routes.len() && #[trigger] ps[a].routes[b].method == method
            && ps[a].routes[b].path == path
    ||| exists|b: int|
        0 <= b < j && #[trigger] ps[i].routes[b].method == method && ps[i].routes[b].path == path
}

/// The conflict errors of the first `n` routes of package `i`.
pub open spec fn conflict_errors(ps: Seq<FunctionPackageView>, i: int, n: int) -> Seq<Seq<char>>
    decreases n,
{
    if n <= 0 {
        seq![]
    } else {
        let r = ps[i].routes[n - 1];
        conflict_errors(ps, i, n - 1) + if claimed_before(ps, i, n - 1, r.method, r.path) {
            seq!["route conflict for "@ + r.method + " "@ + r.path]
        } else {
            seq![]
        }
    }
}

fn claimed_contains(claimed: &Vec<(String, String)>, method: &str, path: &str) -> (r: bool)
    ensures
        r == exists|k: int|
            0 <= k < claimed@.len() && (#[trigger] claimed@[k]).0@ == method@ && claimed@[k].1@
                == path@,
{
    let mut k: usize = 0;
    while k < claimed.len()
        invariant
            k <= claimed@.len(),
            forall|m: int|
                0 <= m < k ==> !((#[trigger] claimed@[m]).0@ == method@ && claimed@[m].1@ == path@),
        decreases claimed.len() - k,
    {
        if str_eq(claimed[k].0.as_str(), method) && str_eq(claimed[k].1.as_str(), path) {
            return true;
        }
        k = k + 1;
    }
    false
}

/// Marks the route conflicts of the packages: in order, a route whose
/// method and path an earlier route already claimed gives its package an
/// error `route conflict for <method> <path>`.
pub fn mark_route_conflicts(packages: Vec<FunctionPackage>) -> (r: Vec<FunctionPackage>)
    ensures
        r@.len() == packages@.len(),
        forall|i: int|
            0 <= i < r@.len() ==> (#[trigger] r@[i])@ == (FunctionPackageView {
                errors: packages@[i]@.errors + conflict_errors(views(packages@), i, packages@[i]@.routes.len() as int),
                ..packages@[i]@
            }),
{
    let ghost ps = views(packages@);
    let mut rest = packages;
    let mut out: Vec<FunctionPackage> = Vec::new();
    let mut claimed: Vec<(String, String)> = Vec::new();
    let mut i: usize = 0;
    let n: usize = rest.len();
    assert(ps.len() == n);
    while rest.len() > 0
        invariant
            i <= ps.len(),
            ps.len() <= usize::MAX,
            views(rest@) == ps.skip(i as int),
            out@.len() == i,
            forall|a: int|
                0 <= a < i ==> (#[trigger] out@[a])@ == (FunctionPackageView {
                    errors: ps[a].errors + conflict_errors(ps, a, ps[a].routes.len() as int),
                    ..ps[a]
                }),
            forall|m: Seq<char>, p: Seq<char>|
                #![trigger claimed_before(ps, i as int, 0, m, p)]
                (exists|k: int|
                    0 <= k < claimed@.len() && (#[trigger] claimed@[k]).0@ == m && claimed@[k].1@
                        == p) <==> claimed_before(ps, i as int, 0, m, p),
        decreases rest.len(),
    {
        let ghost old_rest = rest@;
        let mut package = rest.remove(0);
        proof {
            assert(ps.skip(i as int).len() == old_rest.len());
            assert(views(old_rest)[0] == ps.skip(i as int)[0]);
            assert forall|k: int| 0 <= k < rest@.len() implies views(rest@)[k] == ps.skip(i + 1)[k] by {
                assert(rest@[k] == old_rest[k + 1]);
                assert(views(old_rest)[k + 1] == ps.skip(i as int)[k + 1]);
            }
            assert(views(rest@) =~= ps.skip(i + 1));
            assert(package@ == ps[i as int]);
        }
        let ghost start_errors = package@.errors;
        let mut j: usize = 0;
        while j < package.routes.len()
            invariant
                i < ps.len(),
                package@.routes == ps[i as int].routes,
                package@.name == ps[i as int].name,
                package@.version == ps[i as int].version,
                package@.root == ps[i as int].root,
                package@.crons == ps[i as int].crons,
                start_errors == ps[i as int].errors,
                j <= package.routes@.len(),
                package@.errors == start_errors + conflict_errors(ps, i as int, j as int),
                forall|m: Seq<char>, p: Seq<char>|
                    #![trigger claimed_before(ps, i as int, j as int, m, p)]
                    (exists|k: int|
                        0 <= k < claimed@.len() && (#[trigger] claimed@[k]).0@ == m
                            && claimed@[k].1@ == p) <==> claimed_before(ps, i as int, j as int, m, p),
            decreases package.routes.len() - j,
        {
            let method = package.routes[j].method.clone();
            let path = package.routes[j].path.clone();
            proof {
                assert(ps[i as int].routes[j as int] == package.routes@[j as int]@);
            }
            let ghost before_errors = package@.errors;
            let ghost old_claimed = claimed@;
            let ghost rm = method@;
            let ghost rp = path@;
            assert(ps[i as int].routes[j as int].method == rm);
            assert(ps[i as int].routes[j as int].path == rp);
            let contained = claimed_contains(&claimed, method.as_str(), path.as_str());
            if contained {
                let mut message = concat("route conflict for ", method.as_str());
                append(&mut message, " ");
                append(&mut message, path.as_str());
                package.errors.push(message);
                assert(package@.errors =~= before_errors + seq![
                    "route conflict for "@ + rm + " "@ + rp,
                ]);
            } else {
                claimed.push((method, path));
                assert(package@.errors =~= before_errors + Seq::<Seq<char>>::empty());
            }
            proof {
                assert forall|m: Seq<char>, p: Seq<char>|
                    #![trigger claimed_before(ps, i as int, j + 1, m, p)]
                    (exists|k: int|
                        0 <= k < claimed@.len() && (#[trigger] claimed@[k]).0@ == m
                            && claimed@[k].1@ == p) <==> claimed_before(
                        ps,
                        i as int,
                        j + 1,
                        m,
                        p,
                    ) by {
                    let was = claimed_before(ps, i as int, j as int, m, p);
                    assert(was <==> exists|k: int|
                        0 <= k < old_claimed.len() && (#[trigger] old_claimed[k]).0@ == m
                            && old_claimed[k].1@ == p);
                    if m == rm && p == rp {
                        assert(claimed_before(ps, i as int, j + 1, m, p));
                        if !contained {
                            let last = claimed@.len() - 1;
                            assert(claimed@[last].0@ == m && claimed@[last].1@ == p);
                        }
                    } else {
                        if claimed_before(ps, i as int, j + 1, m, p) && !was {
                            let b = choose|b: int|
                                0 <= b < j + 1 && #[trigger] ps[i as int].routes[b].method == m
                                    && ps[i as int].routes[b].path == p;
                            assert(b == j);
                        }
                        if was {
                            let k = choose|k: int|
                                0 <= k < old_claimed.len() && (#[trigger] old_claimed[k]).0@ == m
                                    && old_claimed[k].1@ == p;
                            assert(claimed@[k] == old_claimed[k]);
                        }
                        if exists|k: int|
                            0 <= k < claimed@.len() && (#[trigger] claimed@[k]).0@ == m
                                && claimed@[k].1@ == p {
                            let k = choose|k: int|
                                0 <= k < claimed@.len() && (#[trigger] claimed@[k]).0@ == m
                                    && claimed@[k].1@ == p;
                            if k < old_claimed.len() {
                                assert(claimed@[k] == old_claimed[k]);
                            }
                        }
                    }
                }
            }
            j = j + 1;
        }
        proof {
            assert forall|m: Seq<char>, p: Seq<char>|
                #![trigger claimed_before(ps, i + 1, 0, m, p)]
                claimed_before(ps, i as int, package.routes@.len() as int, m, p) == claimed_before(
                    ps,
                    i + 1,
                    0,
                    m,
                    p,
                ) by {
                if claimed_before(ps, i + 1, 0, m, p) {
                    let (a, b) = choose|a: int, b: int|
                        0 <= a < i + 1 && 0 <= b < ps[a].routes.len() && #[trigger] ps[a].routes[b].method
                            == m && ps[a].routes[b].path == p;
                    if a == i {
                        assert(ps[i as int].routes[b].method == m);
                    }
                }
                if claimed_before(ps, i as int, package.routes@.len() as int, m, p) {
                    if exists|b: int|
                        0 <= b < package.routes@.len() && #[trigger] ps[i as int].routes[b].method
                            == m && ps[i as int].routes[b].path == p {
                        let b = choose|b: int|
                            0 <= b < package.routes@.len() && #[trigger] ps[i as int].routes[b].method
                                == m && ps[i as int].routes[b].path == p;
                        assert(ps[i as int].routes[b].method == m);
                    }
                }
            }
        }
        out.push(package);
        i = i + 1;
    }
    out
}

/// The directory the packages are installed in: `.rack/functions` under the
/// home directory.
pub fn functions_dir(home: &str) -> (r: String)
    ensures
        r@ == join_path(join_path(home@, ".rack"@), "functions"@),
{
    let rack = path_join(home, ".rack");
    path_join(rack.as_str(), "functions")
}

} // verus!
