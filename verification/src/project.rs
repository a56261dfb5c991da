//! The name and URL a project directory gets: from its git remote, its
//! `package.json` or its directory name, and from the git worktree it is
//! checked out in.
use crate::json::{as_str, get, parse_json, spec_as_str, spec_get, spec_json_parse};
use crate::text::{
    after_last, after_last_char, append, ascii_lower, ascii_lowercase, chars_of, concat,
    decimal, decimal_string, filter_chars, has_prefix, lines, owned, replace_char, replace_char_str,
    split_lines, starts_with, string_of, strip_prefix, trim, trim_end_matches_str, trim_end_str,
    trim_start_matches_str, trim_start_str, trim_str,
};
use vstd::prelude::*;

verus! {

/// The characters that project names drop.
pub open spec fn dropped_char(c: char) -> bool {
    "^@#$%&*()[]{}|;:',.<>?/\\\""@.contains(c)
}

/// A project name fit for a host name: ASCII lower case, spaces made
/// dashes, punctuation dropped.
pub open spec fn sanitized(name: Seq<char>) -> Seq<char> {
    filter_chars(replace_char(ascii_lower(name), ' ', "-"@), |c: char| !dropped_char(c))
}

pub fn sanitize(name: &str) -> (r: String)
    ensures
        r@ == sanitized(name@),
{
    let dashed = replace_char_str(ascii_lowercase(name).as_str(), ' ', "-");
    let v = chars_of(dashed.as_str());
    let drop = chars_of("^@#$%&*()[]{}|;:',.<>?/\\\"");
    let ghost keep = |c: char| !dropped_char(c);
    let mut out: Vec<char> = Vec::new();
    let mut i: usize = 0;
    while i < v.len()
        invariant
            i <= v@.len(),
            v@ == dashed@,
            drop@ == "^@#$%&*()[]{}|;:',.<>?/\\\""@,
            keep == (|c: char| !dropped_char(c)),
            out@ == filter_chars(dashed@.take(i as int), keep),
        decreases v.len() - i,
    {
        let c = v[i];
        let mut dropped = false;
        let mut k: usize = 0;
        while k < drop.len()
            invariant
                k <= drop@.len(),
                dropped == exists|j: int| 0 <= j < k && drop@[j] == c,
            decreases drop.len() - k,
        {
            if drop[k] == c {
                dropped = true;
            }
            k = k + 1;
        }
        proof {
            assert(dashed@.take(i + 1).drop_last() =~= dashed@.take(i as int));
            assert(dashed@.take(i + 1).last() == c);
            assert(dropped == dropped_char(c));
        }
        if !dropped {
            out.push(c);
        }
        i = i + 1;
    }
    assert(dashed@.take(v@.len() as int) =~= dashed@);
    string_of(&out)
}

// ---------------------------------------------------------------------------
// Git worktrees.
/// A worktree of a repository, as `git worktree list --porcelain` lists it.
pub struct Worktree {
    pub path: String,
    pub branch: Option<String>,
}

pub struct WorktreeView {
    pub path: Seq<char>,
    pub branch: Option<Seq<char>>,
}

impl View for Worktree {
    type V = WorktreeView;

    open spec fn view(&self) -> WorktreeView {
        WorktreeView {
            path: self.path@,
            branch: match self.branch {
                Some(b) => Some(b@),
                None => None,
            },
        }
    }
}

/// Reading the listing line by line: the worktrees so far, and the path
/// and branch of the one being read.
pub struct WorktreeScan {
    pub done: Seq<WorktreeView>,
    pub path: Option<Seq<char>>,
    pub branch: Option<Seq<char>>,
}

/// One line of the listing: an empty line ends the worktree being read
/// (when it has a path), `worktree <path>` and `branch <ref>` set its path
/// and branch; other lines are ignored.
pub open spec fn worktree_step(s: WorktreeScan, line: Seq<char>) -> WorktreeScan {
    if line.len() == 0 {
        match s.path {
            Some(p) => WorktreeScan {
                done: s.done.push(WorktreeView { path: p, branch: s.branch }),
                path: None,
                branch: None,
            },
            None => s,
        }
    } else if starts_with(line, "worktree "@) {
        WorktreeScan { path: Some(line.skip(9)), ..s }
    } else if starts_with(line, "branch "@) {
        WorktreeScan { branch: Some(trim_start_str(line.skip(7), "refs/heads/"@)), ..s }
    } else {
        s
    }
}

pub open spec fn worktree_scan(ls: Seq<Seq<char>>) -> WorktreeScan
    decreases ls.len(),
{
    if ls.len() == 0 {
        WorktreeScan { done: seq![], path: None, branch: None }
    } else {
        worktree_step(worktree_scan(ls.drop_last()), ls.last())
    }
}

/// The worktrees of a porcelain listing, in order.
pub open spec fn worktrees_of(raw: Seq<char>) -> Seq<WorktreeView> {
    worktree_scan(lines(raw).push(seq![])).done
}

pub fn parse_worktrees(raw: &str) -> (r: Vec<Worktree>)
    ensures
        r@.map_values(|w: Worktree| w@) == worktrees_of(raw@),
{
    let ls = split_lines(raw);
    let ghost all = lines(raw@).push(seq![]);
    let mut out: Vec<Worktree> = Vec::new();
    let mut path: Option<String> = None;
    let mut branch: Option<String> = None;
    let mut i: usize = 0;
    while i < ls.len()
        invariant
            i <= ls@.len(),
            ls@.map_values(|l: String| l@) == lines(raw@),
            all == lines(raw@).push(seq![]),
            ({
                let s = worktree_scan(all.take(i as int));
                &&& out@.map_values(|w: Worktree| w@) == s.done
                &&& crate::proxy::opt_seq(path) == s.path
                &&& crate::proxy::opt_seq(branch) == s.branch
            }),
        decreases ls.len() - i,
    {
        let line = ls[i].clone();
        proof {
            assert(all.take(i + 1).drop_last() =~= all.take(i as int));
            assert(all[i as int] == ls@.map_values(|l: String| l@)[i as int]);
            assert(all.take(i + 1).last() == line@);
        }
        if chars_of(line.as_str()).len() == 0 {
            match path {
                Some(p) => {
                    let ghost before = out@.map_values(|w: Worktree| w@);
                    let w = Worktree { path: p, branch };
                    out.push(w);
                    assert(out@.map_values(|w: Worktree| w@) =~= before.push(out@.last()@));
                    path = None;
                    branch = None;
                },
                None => {},
            }
        } else {
            match strip_prefix(line.as_str(), "worktree ") {
                Some(value) => {
                    path = Some(value);
                    proof {
                        reveal_strlit("worktree ");
                    }
                },
                None => match strip_prefix(line.as_str(), "branch ") {
                    Some(value) => {
                        proof {
                            reveal_strlit("branch ");
                        }
                        branch = Some(trim_start_matches_str(value.as_str(), "refs/heads/"));
                    },
                    None => {},
                },
            }
        }
        i = i + 1;
    }
    proof {
        assert(all.take(i + 1).drop_last() =~= all.take(i as int));
        assert(all.take(i + 1).last() == Seq::<char>::empty());
        assert(all.take(i + 1) =~= all);
    }
    match path {
        Some(p) => {
            let ghost before = out@.map_values(|w: Worktree| w@);
            out.push(Worktree { path: p, branch });
            assert(out@.map_values(|w: Worktree| w@) =~= before.push(out@.last()@));
        },
        None => {},
    }
    out
}

/// Whether the path `a` is `b` or lies under it, component by component
/// (`Path::starts_with`).
pub uninterp spec fn spec_path_starts_with(a: Seq<char>, b: Seq<char>) -> bool;

/// Whether two paths have the same components (`Path` equality).
pub uninterp spec fn spec_paths_equal(a: Seq<char>, b: Seq<char>) -> bool;

/// `Path::starts_with`: claims only that the answer is a function of the
/// two paths, named `spec_path_starts_with`.
#[verifier::external_body]
fn path_starts_with(a: &str, b: &str) -> (r: bool)
    ensures
        r == spec_path_starts_with(a@, b@),
{
    std::path::Path::new(a).starts_with(std::path::Path::new(b))
}

/// `Path == Path`: claims only that the answer is a function of the two
/// paths, named `spec_paths_equal`.
#[verifier::external_body]
fn paths_equal(a: &str, b: &str) -> (r: bool)
    ensures
        r == spec_paths_equal(a@, b@),
{
    std::path::Path::new(a) == std::path::Path::new(b)
}

/// The index of the first worktree that the directory lies in, if any.
pub open spec fn first_containing(worktrees: Seq<WorktreeView>, current: Seq<char>) -> Option<int> {
    if exists|i: int| 0 <= i < worktrees.len() && spec_path_starts_with(current, #[trigger] worktrees[i].path) {
        Some(
            choose|i: int|
                0 <= i < worktrees.len() && spec_path_starts_with(current, #[trigger] worktrees[i].path)
                    && forall|j: int| 0 <= j < i ==> !spec_path_starts_with(current, worktrees[j].path),
        )
    } else {
        None
    }
}

/// The branch of the linked worktree a directory is in: none for the main
/// worktree (the first listed) or outside every worktree; the paths are
/// the resolved ones.
pub open spec fn branch_for(worktrees: Seq<WorktreeView>, current: Seq<char>) -> Option<Seq<char>> {
    if worktrees.len() == 0 || spec_paths_equal(current, worktrees[0].path) {
        None
    } else {
        match first_containing(worktrees, current) {
            Some(i) => worktrees[i].branch,
            None => None,
        }
    }
}

pub fn worktree_branch(worktrees: &Vec<Worktree>, current: &str) -> (r: Option<String>)
    ensures
        crate::proxy::opt_seq(r) == branch_for(worktrees@.map_values(|w: Worktree| w@), current@),
{
    let ghost ws = worktrees@.map_values(|w: Worktree| w@);
    if worktrees.len() == 0 || paths_equal(current, worktrees[0].path.as_str()) {
        return None;
    }
    assert(ws[0].path == worktrees@[0].path@);
    let mut i: usize = 0;
    while i < worktrees.len()
        invariant
            i <= worktrees@.len(),
            ws == worktrees@.map_values(|w: Worktree| w@),
            worktrees@.len() > 0,
            !spec_paths_equal(current@, ws[0].path),
            forall|j: int| 0 <= j < i ==> !spec_path_starts_with(current@, #[trigger] ws[j].path),
        decreases worktrees.len() - i,
    {
        if path_starts_with(current, worktrees[i].path.as_str()) {
            proof {
                assert(ws[i as int].path == worktrees@[i as int].path@);
                let k = choose|k: int|
                    0 <= k < ws.len() && spec_path_starts_with(current@, #[trigger] ws[k].path)
                        && forall|j: int| 0 <= j < k ==> !spec_path_starts_with(current@, ws[j].path);
                if k < i {
                } else if k > i {
                }
                assert(k == i);
            }
            return match &worktrees[i].branch {
                Some(b) => Some(b.clone()),
                None => None,
            };
        }
        i = i + 1;
    }
    None
}

// ---------------------------------------------------------------------------
// The project's name.
/// The last component of a path, as text (`Path::file_name` and
/// `OsStr::to_str`); `None` for a path that ends in `..` or is a root.
pub uninterp spec fn spec_file_name(path: Seq<char>) -> Option<Seq<char>>;

/// `Path::file_name` of a path, as text: claims only that it is a function
/// of the path, named `spec_file_name`.
#[verifier::external_body]
pub(crate) fn path_file_name(path: &str) -> (r: Option<String>)
    ensures
        crate::proxy::opt_seq(r) == spec_file_name(path@),
{
    std::path::Path::new(path).file_name().and_then(|name| name.to_str()).map(|name| name.to_string())
}

/// The name of a repository from its remote URL: the last path segment
/// without any `.git` ending.
pub open spec fn remote_base(remote: Seq<char>) -> Seq<char> {
    trim_end_str(after_last(trim(remote), '/'), ".git"@)
}

/// The base name of a project: from its git remote when that gives one,
/// else from the `name` of its `package.json` (after any scope), else its
/// directory's name, else `app`.
pub open spec fn base_name_of(directory: Seq<char>, remote: Option<Seq<char>>, package_json: Option<Seq<char>>) -> Seq<char> {
    let from_remote = match remote {
        Some(r) => if remote_base(r).len() > 0 {
            Some(remote_base(r))
        } else {
            None
        },
        None => None,
    };
    let from_package = match package_json {
        Some(source) => match spec_json_parse(source) {
            Some(json) => match spec_as_str(spec_get(json, "name"@)) {
                Some(name) => if name.len() > 0 {
                    Some(after_last(name, '/'))
                } else {
                    None
                },
                None => None,
            },
            None => None,
        },
        None => None,
    };
    match from_remote {
        Some(b) => b,
        None => match from_package {
            Some(b) => b,
            None => match spec_file_name(directory) {
                Some(n) => n,
                None => "app"@,
            },
        },
    }
}

/// The base name of a project, from the output of `git remote get-url
/// origin` (when it succeeded) and the text of its `package.json` (when it
/// could be read).
pub fn base_name(directory: &str, remote: Option<&str>, package_json: Option<&str>) -> (r: String)
    ensures
        r@ == base_name_of(
            directory@,
            match remote {
                Some(x) => Some(x@),
                None => None,
            },
            match package_json {
                Some(x) => Some(x@),
                None => None,
            },
        ),
{
    if let Some(remote) = remote {
        let stripped = trim_end_matches_str(after_last_char(trim_str(remote).as_str(), '/').as_str(), ".git");
        if chars_of(stripped.as_str()).len() > 0 {
            return stripped;
        }
    }
    if let Some(source) = package_json {
        if let Some(json) = parse_json(source) {
            if let Some(name) = as_str(get(&json, "name")) {
                if chars_of(name).len() > 0 {
                    return after_last_char(name, '/');
                }
            }
        }
    }
    match path_file_name(directory) {
        Some(name) => name,
        None => "app".to_string(),
    }
}

/// A project's name and URL.
pub struct InferredProject {
    pub name: String,
    pub sanitized_name: String,
    pub local_url: String,
}

/// The name of a project: its sanitized base name, under the last segment
/// of its worktree's branch when it is a linked worktree.
pub open spec fn project_name(base: Seq<char>, branch: Option<Seq<char>>) -> Seq<char> {
    match branch {
        Some(b) => sanitized(after_last(b, '/')) + "."@ + sanitized(base),
        None => sanitized(base),
    }
}

/// The URL a project is reached at: with the proxy port unless standard
/// ports are enabled.
pub open spec fn project_url(name: Seq<char>, standard_ports_enabled: bool, proxy_port: u16) -> Seq<char> {
    "http://"@ + name + ".localhost"@ + if standard_ports_enabled {
        seq![]
    } else {
        ":"@ + decimal(proxy_port as nat)
    }
}

/// The name and URL of a project from its base name and worktree branch.
pub fn infer(base: &str, branch: Option<&str>, standard_ports_enabled: bool, proxy_port: u16) -> (r:
    InferredProject)
    ensures
        r.name@ == project_name(
            base@,
            match branch {
                Some(b) => Some(b@),
                None => None,
            },
        ),
        r.sanitized_name@ == r.name@,
        r.local_url@ == project_url(r.name@, standard_ports_enabled, proxy_port),
{
    let name = match branch {
        Some(b) => {
            let segment = after_last_char(b, '/');
            let mut n = sanitize(segment.as_str());
            append(&mut n, ".");
            append(&mut n, sanitize(base).as_str());
            n
        },
        None => sanitize(base),
    };
    let mut url = concat("http://", name.as_str());
    append(&mut url, ".localhost");
    if !standard_ports_enabled {
        append(&mut url, ":");
        append(&mut url, decimal_string(proxy_port as u64).as_str());
    }
    proof {
        if standard_ports_enabled {
            assert(url@ =~= "http://"@ + name@ + ".localhost"@ + Seq::<char>::empty());
        } else {
            assert(url@ =~= "http://"@ + name@ + ".localhost"@ + (":"@ + decimal(proxy_port as nat)));
        }
    }
    InferredProject { name: name.clone(), sanitized_name: name, local_url: url }
}

/// Every character that `filter_chars` keeps satisfies `keep`.
proof fn lemma_filter_kept(s: Seq<char>, keep: spec_fn(char) -> bool)
    ensures
        forall|i: int| 0 <= i < filter_chars(s, keep).len() ==> keep(#[trigger] filter_chars(s, keep)[i]),
    decreases s.len(),
{
    if s.len() > 0 {
        lemma_filter_kept(s.drop_last(), keep);
        let front = filter_chars(s.drop_last(), keep);
        assert forall|i: int| 0 <= i < filter_chars(s, keep).len() implies keep(
            #[trigger] filter_chars(s, keep)[i],
        ) by {
            if i < front.len() {
                assert(filter_chars(s, keep)[i] == front[i]);
            }
        }
    }
}

/// A sanitized name holds no dot.
proof fn lemma_sanitized_has_no_dot(name: Seq<char>)
    ensures
        forall|i: int| 0 <= i < sanitized(name).len() ==> #[trigger] sanitized(name)[i] != '.',
{
    let keep = |c: char| !dropped_char(c);
    lemma_filter_kept(replace_char(ascii_lower(name), ' ', "-"@), keep);
    assert(dropped_char('.')) by {
        reveal_strlit("^@#$%&*()[]{}|;:',.<>?/\\\"");
        assert("^@#$%&*()[]{}|;:',.<>?/\\\""@[18] == '.');
    }
}

/// With a worktree branch, a project is named after the branch first and
/// the base second: the branch's last `/`-separated segment, sanitized,
/// then a dot, then the base name, sanitized. Neither part holds a dot, so
/// the name's only dot separates them. Without a branch the name is the
/// sanitized base name.
pub proof fn law_branch_name_comes_first(base: Seq<char>, branch: Seq<char>)
    ensures
        ({
            let segment = sanitized(after_last(branch, '/'));
            let name = project_name(base, Some(branch));
            &&& name.len() == segment.len() + 1 + sanitized(base).len()
            &&& name.take(segment.len() as int) == segment
            &&& name[segment.len() as int] == '.'
            &&& name.skip(segment.len() as int + 1) == sanitized(base)
            &&& forall|i: int| 0 <= i < name.len() && #[trigger] name[i] == '.' ==> i == segment.len()
        }),
        project_name(base, None) == sanitized(base),
{
    let segment = sanitized(after_last(branch, '/'));
    let b = sanitized(base);
    let name = project_name(base, Some(branch));
    reveal_strlit(".");
    assert(name =~= segment + seq!['.'] + b);
    assert(name.take(segment.len() as int) =~= segment);
    assert(name.skip(segment.len() as int + 1) =~= b);
    lemma_sanitized_has_no_dot(after_last(branch, '/'));
    lemma_sanitized_has_no_dot(base);
    assert forall|i: int| 0 <= i < name.len() && #[trigger] name[i] == '.' implies i == segment.len() by {
        if i < segment.len() {
            assert(name[i] == segment[i]);
        } else if i > segment.len() {
            assert(name[i] == b[i - segment.len() - 1]);
        }
    }
}

} // verus!
