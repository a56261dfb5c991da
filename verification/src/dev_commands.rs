//! Detecting the command that runs a project's development server, from
//! the files in its directory.
use crate::json::{get, parse_json, spec_get, spec_json_parse, Json};
use crate::sorted_map::SortedMap;
use crate::text::{append, concat, contains, contains_str, has_prefix, owned, starts_with, str_eq};
use vstd::prelude::*;

verus! {

/// The files whose text detection reads.
pub open spec fn key_file_names() -> Seq<Seq<char>> {
    seq![
        "package.json"@,
        "Cargo.toml"@,
        "go.mod"@,
        "Package.swift"@,
        "Gemfile"@,
        "pyproject.toml"@,
        "requirements.txt"@,
        "pnpm-lock.yaml"@,
        "yarn.lock"@,
        "bun.lockb"@,
        "Makefile"@,
        "vite.config.ts"@,
        "vite.config.js"@,
        "vite.config.mts"@,
        "astro.config.ts"@,
        "astro.config.js"@,
        "astro.config.mjs"@,
        "manage.py"@,
        "artisan"@,
    ]
}

/// The files whose text detection reads.
pub fn key_files() -> (r: Vec<String>)
    ensures
        r@.map_values(|s: String| s@) == key_file_names(),
{
    let r = vec![
        "package.json".to_string(),
        "Cargo.toml".to_string(),
        "go.mod".to_string(),
        "Package.swift".to_string(),
        "Gemfile".to_string(),
        "pyproject.toml".to_string(),
        "requirements.txt".to_string(),
        "pnpm-lock.yaml".to_string(),
        "yarn.lock".to_string(),
        "bun.lockb".to_string(),
        "Makefile".to_string(),
        "vite.config.ts".to_string(),
        "vite.config.js".to_string(),
        "vite.config.mts".to_string(),
        "astro.config.ts".to_string(),
        "astro.config.js".to_string(),
        "astro.config.mjs".to_string(),
        "manage.py".to_string(),
        "artisan".to_string(),
    ];
    assert(r@.map_values(|s: String| s@) =~= key_file_names());
    r
}

/// What a project directory holds: the names of its entries, and the text
/// of those key files that could be read.
pub struct ProjectManifest {
    pub files: Vec<String>,
    pub contents: SortedMap<String>,
}

pub open spec fn has_file(files: Seq<String>, name: Seq<char>) -> bool {
    exists|i: int| 0 <= i < files.len() && #[trigger] files[i]@ == name
}

pub open spec fn has_file_prefix(files: Seq<String>, prefix: Seq<char>) -> bool {
    exists|i: int| 0 <= i < files.len() && starts_with(#[trigger] files[i]@, prefix)
}

impl ProjectManifest {
    /// Whether the directory has an entry of this name.
    pub fn has(&self, file: &str) -> (r: bool)
        ensures
            r == has_file(self.files@, file@),
    {
        let mut i: usize = 0;
        while i < self.files.len()
            invariant
                i <= self.files@.len(),
                forall|j: int| 0 <= j < i ==> (#[trigger] self.files@[j])@ != file@,
            decreases self.files.len() - i,
        {
            if str_eq(self.files[i].as_str(), file) {
                return true;
            }
            i = i + 1;
        }
        false
    }

    /// Whether the directory has an entry whose name starts with `prefix`.
    pub fn has_prefix(&self, prefix: &str) -> (r: bool)
        ensures
            r == has_file_prefix(self.files@, prefix@),
    {
        let mut i: usize = 0;
        while i < self.files.len()
            invariant
                i <= self.files@.len(),
                forall|j: int| 0 <= j < i ==> !starts_with(#[trigger] self.files@[j]@, prefix@),
            decreases self.files.len() - i,
        {
            if has_prefix(self.files[i].as_str(), prefix) {
                return true;
            }
            i = i + 1;
        }
        false
    }

    /// The text of a key file, if it could be read.
    pub fn content(&self, file: &str) -> (r: Option<&String>)
        ensures
            r is Some <==> self.contents@.contains_key(file@),
            r matches Some(t) ==> t@ == self.contents@[file@],
    {
        self.contents.get(file)
    }
}

/// The package manager a Node project uses, by its lock file.
pub open spec fn package_manager_of(files: Seq<String>) -> Seq<char> {
    if has_file(files, "bun.lockb"@) {
        "bun"@
    } else if has_file(files, "pnpm-lock.yaml"@) {
        "pnpm"@
    } else if has_file(files, "yarn.lock"@) {
        "yarn"@
    } else {
        "npm"@
    }
}

pub fn package_manager(manifest: &ProjectManifest) -> (r: String)
    ensures
        r@ == package_manager_of(manifest.files@),
{
    if manifest.has("bun.lockb") {
        "bun".to_string()
    } else if manifest.has("pnpm-lock.yaml") {
        "pnpm".to_string()
    } else if manifest.has("yarn.lock") {
        "yarn".to_string()
    } else {
        "npm".to_string()
    }
}

/// A detected development command: what to run, and the flag that passes
/// it a port.
pub struct DevCommand {
    pub command: String,
    pub port_flag: Option<String>,
}

pub open spec fn opt_text(s: Option<String>) -> Option<Seq<char>> {
    match s {
        Some(t) => Some(t@),
        None => None,
    }
}

/// The scripts object of a `package.json` text, if it has one.
pub open spec fn scripts_of(package_json: Seq<char>) -> Option<Seq<(String, Json)>> {
    match spec_json_parse(package_json) {
        Some(json) => match spec_get(json, "scripts"@) {
            Some(Json::Object(members)) => Some(members@),
            _ => None,
        },
        None => None,
    }
}

pub open spec fn has_member(members: Seq<(String, Json)>, key: Seq<char>) -> bool {
    exists|i: int| 0 <= i < members.len() && #[trigger] members[i].0@ == key
}

/// The first of `dev`, `start` and `serve` that the scripts define.
pub open spec fn node_script(members: Seq<(String, Json)>) -> Option<Seq<char>> {
    if has_member(members, "dev"@) {
        Some("dev"@)
    } else if has_member(members, "start"@) {
        Some("start"@)
    } else if has_member(members, "serve"@) {
        Some("serve"@)
    } else {
        None
    }
}

fn members_have(members: &Vec<(String, Json)>, key: &str) -> (r: bool)
    ensures
        r == has_member(members@, key@),
{
    let mut i: usize = 0;
    while i < members.len()
        invariant
            i <= members@.len(),
            forall|j: int| 0 <= j < i ==> (#[trigger] members@[j]).0@ != key@,
        decreases members.len() - i,
    {
        if str_eq(members[i].0.as_str(), key) {
            return true;
        }
        i = i + 1;
    }
    false
}

fn first_script(members: &Vec<(String, Json)>) -> (r: Option<String>)
    ensures
        opt_text(r) == node_script(members@),
{
    if members_have(members, "dev") {
        Some("dev".to_string())
    } else if members_have(members, "start") {
        Some("start".to_string())
    } else if members_have(members, "serve") {
        Some("serve".to_string())
    } else {
        None
    }
}

/// The command of a Node project: `<package manager> run <script>` for the
/// first of its scripts `dev`, `start`, `serve`.
pub open spec fn node_command_of(files: Seq<String>, contents: Map<Seq<char>, Seq<char>>) -> Option<Seq<char>> {
    if contents.contains_key("package.json"@) {
        match scripts_of(contents["package.json"@]) {
            Some(members) => match node_script(members) {
                Some(script) => Some(package_manager_of(files) + " run "@ + script),
                None => None,
            },
            None => None,
        }
    } else {
        None
    }
}

/// The scripts of a `package.json`, borrowed from its parsed document.
fn scripts_in(json: &Json) -> (r: Option<&Vec<(String, Json)>>)
    ensures
        match spec_get(*json, "scripts"@) {
            Some(Json::Object(members)) => r matches Some(v) && v@ == members@,
            _ => r is None,
        },
{
    match get(json, "scripts") {
        Some(Json::Object(members)) => Some(members),
        _ => None,
    }
}

pub fn node_command(manifest: &ProjectManifest) -> (r: Option<DevCommand>)
    ensures
        match node_command_of(manifest.files@, manifest.contents@) {
            Some(c) => r matches Some(d) && d.command@ == c && d.port_flag is None,
            None => r is None,
        },
{
    let source = match manifest.content("package.json") {
        Some(s) => s,
        None => {
            return None;
        },
    };
    let json = match parse_json(source.as_str()) {
        Some(j) => j,
        None => {
            return None;
        },
    };
    let members = match scripts_in(&json) {
        Some(m) => m,
        None => {
            return None;
        },
    };
    match first_script(members) {
        Some(script) => {
            let mut command = package_manager(manifest);
            append(&mut command, " run ");
            append(&mut command, script.as_str());
            Some(DevCommand { command, port_flag: None })
        },
        None => None,
    }
}

/// Whether a key file was read and its text satisfies `pred`.
pub open spec fn content_has(contents: Map<Seq<char>, Seq<char>>, file: Seq<char>, text: Seq<char>) -> bool {
    contents.contains_key(file) && contains(contents[file], text)
}

/// Whether a Makefile defines a `dev` target at the start of a line.
pub open spec fn makefile_has_dev(contents: Map<Seq<char>, Seq<char>>) -> bool {
    contents.contains_key("Makefile"@) && (contains(contents["Makefile"@], "\ndev:"@) || starts_with(
        contents["Makefile"@],
        "dev:"@,
    ))
}

/// The development command of a project, with its port flag, checked in
/// this order: Vite, Astro, a Node script, Swift, Cargo, Go, Django, Rails
/// (a Gemfile that mentions `rails`), Laravel, a `dev` make target.
pub open spec fn detect_of(files: Seq<String>, contents: Map<Seq<char>, Seq<char>>) -> Option<(Seq<char>, Option<Seq<char>>)> {
    if has_file_prefix(files, "vite.config."@) {
        Some((package_manager_of(files) + " exec vite"@, Some("--port"@)))
    } else if has_file_prefix(files, "astro.config."@) {
        Some((package_manager_of(files) + " run dev"@, Some("--port"@)))
    } else if node_command_of(files, contents) is Some {
        Some((node_command_of(files, contents)->0, None))
    } else if has_file(files, "Package.swift"@) {
        Some(("swift run"@, None))
    } else if has_file(files, "Cargo.toml"@) {
        Some(("cargo run"@, None))
    } else if has_file(files, "go.mod"@) {
        Some(("go run ."@, None))
    } else if has_file(files, "manage.py"@) {
        Some(("python manage.py runserver"@, None))
    } else if content_has(contents, "Gemfile"@, "rails"@) {
        Some(("rails server"@, Some("-p"@)))
    } else if has_file(files, "artisan"@) {
        Some(("php artisan serve"@, Some("--port"@)))
    } else if makefile_has_dev(contents) {
        Some(("make dev"@, None))
    } else {
        None
    }
}

pub open spec fn dev_command_view(d: Option<DevCommand>) -> Option<(Seq<char>, Option<Seq<char>>)> {
    match d {
        Some(c) => Some((c.command@, opt_text(c.port_flag))),
        None => None,
    }
}

fn command(text: String, port_flag: Option<&str>) -> (r: DevCommand)
    ensures
        r.command@ == text@,
        opt_text(r.port_flag) == match port_flag {
            Some(f) => Some(f@),
            None => None,
        },
{
    DevCommand {
        command: text,
        port_flag: match port_flag {
            Some(f) => Some(owned(f)),
            None => None,
        },
    }
}

/// Detects the development command of a project.
pub fn detect(manifest: &ProjectManifest) -> (r: Option<DevCommand>)
    ensures
        dev_command_view(r) == detect_of(manifest.files@, manifest.contents@),
{
    if manifest.has_prefix("vite.config.") {
        return Some(command(concat(package_manager(manifest).as_str(), " exec vite"), Some("--port")));
    }
    if manifest.has_prefix("astro.config.") {
        return Some(command(concat(package_manager(manifest).as_str(), " run dev"), Some("--port")));
    }
    if let Some(c) = node_command(manifest) {
        return Some(c);
    }
    if manifest.has("Package.swift") {
        return Some(command("swift run".to_string(), None));
    }
    if manifest.has("Cargo.toml") {
        return Some(command("cargo run".to_string(), None));
    }
    if manifest.has("go.mod") {
        return Some(command("go run .".to_string(), None));
    }
    if manifest.has("manage.py") {
        return Some(command("python manage.py runserver".to_string(), None));
    }
    let rails = match manifest.content("Gemfile") {
        Some(g) => contains_str(g.as_str(), "rails"),
        None => false,
    };
    if rails {
        return Some(command("rails server".to_string(), Some("-p")));
    }
    if manifest.has("artisan") {
        return Some(command("php artisan serve".to_string(), Some("--port")));
    }
    let make_dev = match manifest.content("Makefile") {
        Some(m) => contains_str(m.as_str(), "\ndev:") || has_prefix(m.as_str(), "dev:"),
        None => false,
    };
    if make_dev {
        return Some(command("make dev".to_string(), None));
    }
    None
}

// ---------------------------------------------------------------------------
// The command line's own detection, which also knows Next.js.
/// Whether a `package.json` lists `next` among its dependencies or
/// development dependencies.
pub open spec fn uses_next(package_json: Seq<char>) -> bool {
    match spec_json_parse(package_json) {
        Some(json) => (spec_get(json, "dependencies"@) matches Some(Json::Object(d)) && has_member(
            d@,
            "next"@,
        )) || (spec_get(json, "devDependencies"@) matches Some(Json::Object(d)) && has_member(
            d@,
            "next"@,
        )),
        None => false,
    }
}

fn object_has(json: &Json, field: &str, key: &str) -> (r: bool)
    ensures
        r == (spec_get(*json, field@) matches Some(Json::Object(d)) && has_member(d@, key@)),
{
    match get(json, field) {
        Some(Json::Object(members)) => members_have(members, key),
        _ => false,
    }
}

/// The command line's detection: as `detect_of`, except that a Node
/// script of a Next.js project takes its port with `-p`.
pub open spec fn cli_detect_of(files: Seq<String>, contents: Map<Seq<char>, Seq<char>>) -> Option<(Seq<char>, Option<Seq<char>>)> {
    if !has_file_prefix(files, "vite.config."@) && !has_file_prefix(files, "astro.config."@)
        && node_command_of(files, contents) is Some {
        Some(
            (
                node_command_of(files, contents)->0,
                if uses_next(contents["package.json"@]) {
                    Some("-p"@)
                } else {
                    None
                },
            ),
        )
    } else {
        detect_of(files, contents)
    }
}

/// Detects the development command as the command line does.
pub fn detect_cli(manifest: &ProjectManifest) -> (r: Option<DevCommand>)
    ensures
        dev_command_view(r) == cli_detect_of(manifest.files@, manifest.contents@),
{
    if manifest.has_prefix("vite.config.") || manifest.has_prefix("astro.config.") {
        return detect(manifest);
    }
    match node_command(manifest) {
        Some(c) => {
            let source = manifest.content("package.json").unwrap();
            let next = match parse_json(source.as_str()) {
                Some(json) => object_has(&json, "dependencies", "next") || object_has(
                    &json,
                    "devDependencies",
                    "next",
                ),
                None => false,
            };
            Some(DevCommand { command: c.command, port_flag: if next { Some("-p".to_string()) } else { None } })
        },
        None => detect(manifest),
    }
}

/// The lockfile decides the package manager, in this order of precedence:
/// `bun.lockb` gives `bun`, then `pnpm-lock.yaml` gives `pnpm`, then
/// `yarn.lock` gives `yarn`; `npm` is used exactly when none of the three
/// is present. A Vite project runs `<manager> exec vite` with `--port`.
pub proof fn law_lockfile_picks_package_manager(files: Seq<String>, contents: Map<Seq<char>, Seq<char>>)
    ensures
        has_file(files, "bun.lockb"@) ==> package_manager_of(files) == "bun"@,
        !has_file(files, "bun.lockb"@) && has_file(files, "pnpm-lock.yaml"@) ==> package_manager_of(files)
            == "pnpm"@,
        !has_file(files, "bun.lockb"@) && !has_file(files, "pnpm-lock.yaml"@) && has_file(files, "yarn.lock"@)
            ==> package_manager_of(files) == "yarn"@,
        package_manager_of(files) == "npm"@ <==> (!has_file(files, "bun.lockb"@) && !has_file(
            files,
            "pnpm-lock.yaml"@,
        ) && !has_file(files, "yarn.lock"@)),
        has_file_prefix(files, "vite.config."@) ==> detect_of(files, contents) == Some(
            (package_manager_of(files) + " exec vite"@, Some("--port"@)),
        ),
{
    reveal_strlit("bun");
    reveal_strlit("pnpm");
    reveal_strlit("yarn");
    reveal_strlit("npm");
    assert("bun"@ != "npm"@) by {
        assert("bun"@[0] != "npm"@[0]);
    }
    assert("pnpm"@ != "npm"@) by {
        assert("pnpm"@.len() != "npm"@.len());
    }
    assert("yarn"@ != "npm"@) by {
        assert("yarn"@.len() != "npm"@.len());
    }
}

} // verus!