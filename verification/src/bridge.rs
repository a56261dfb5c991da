//! What `rack-bridge` decides: where it looks for the command it runs, and
//! which processes belong to the command's process group.
use crate::functions::manifest::{join_path, path_join};
use crate::text::{
    all_digits, chars_of, digits_value, lines, parse_unsigned, parse_unsigned_str, split_lines,
    split_words, string_of_range, words,
};
use vstd::prelude::*;

verus! {

pub open spec fn strs(v: Seq<String>) -> Seq<Seq<char>> {
    v.map_values(|s: String| s@)
}

/// The directories searched for a command: those of `PATH`, then the
/// user's `.bun/bin`, `.local/bin` and `.cargo/bin` when the home directory
/// is known, then the usual system directories.
pub open spec fn search_paths_of(path_entries: Seq<Seq<char>>, home: Option<Seq<char>>) -> Seq<Seq<char>> {
    path_entries + match home {
        Some(h) => seq![
            join_path(h, ".bun/bin"@),
            join_path(h, ".local/bin"@),
            join_path(h, ".cargo/bin"@),
        ],
        None => seq![],
    } + seq![
        "/opt/homebrew/bin"@,
        "/opt/homebrew/sbin"@,
        "/usr/local/bin"@,
        "/usr/bin"@,
        "/bin"@,
        "/usr/sbin"@,
        "/sbin"@,
    ]
}

pub fn rack_search_paths(path_entries: &Vec<String>, home: Option<&str>) -> (r: Vec<String>)
    ensures
        strs(r@) == search_paths_of(
            strs(path_entries@),
            match home {
                Some(h) => Some(h@),
                None => None,
            },
        ),
{
    let mut out: Vec<String> = Vec::new();
    let mut i: usize = 0;
    while i < path_entries.len()
        invariant
            i <= path_entries@.len(),
            strs(out@) == strs(path_entries@).take(i as int),
        decreases path_entries.len() - i,
    {
        let ghost before = out@;
        let c = path_entries[i].clone();
        assert(c@ == strs(path_entries@)[i as int]);
        out.push(c);
        assert(strs(out@) =~= strs(before).push(c@));
        assert(strs(out@) =~= strs(path_entries@).take(i + 1));
        i = i + 1;
    }
    assert(strs(path_entries@).take(path_entries@.len() as int) =~= strs(path_entries@));
    let ghost base = strs(out@);
    if let Some(h) = home {
        out.push(path_join(h, ".bun/bin"));
        out.push(path_join(h, ".local/bin"));
        out.push(path_join(h, ".cargo/bin"));
    }
    let ghost with_home = strs(out@);
    assert(with_home =~= base + match home {
        Some(h) => seq![join_path(h@, ".bun/bin"@), join_path(h@, ".local/bin"@), join_path(h@, ".cargo/bin"@)],
        None => Seq::<Seq<char>>::empty(),
    });
    out.push("/opt/homebrew/bin".to_string());
    out.push("/opt/homebrew/sbin".to_string());
    out.push("/usr/local/bin".to_string());
    out.push("/usr/bin".to_string());
    out.push("/bin".to_string());
    out.push("/usr/sbin".to_string());
    out.push("/sbin".to_string());
    assert(strs(out@) =~= with_home + seq![
        "/opt/homebrew/bin"@,
        "/opt/homebrew/sbin"@,
        "/usr/local/bin"@,
        "/usr/bin"@,
        "/bin"@,
        "/usr/sbin"@,
        "/sbin"@,
    ]);
    out
}

/// The number of components of a path (`Path::components().count()`).
pub uninterp spec fn spec_component_count(path: Seq<char>) -> nat;

/// `Path::components().count()`: claims only that the count is a function
/// of the path, named `spec_component_count`.
#[verifier::external_body]
fn component_count(path: &str) -> (r: usize)
    ensures
        r == spec_component_count(path@),
{
    std::path::Path::new(path).components().count()
}

/// Where the bridge looks for a command: nowhere for a command with more
/// than one path component (it is run as given); else the command in each
/// search directory, in order. The first candidate that is a file is run,
/// or the command as given when none is.
pub fn command_candidates(command: &str, search_paths: &Vec<String>) -> (r: Option<Vec<String>>)
    ensures
        spec_component_count(command@) > 1 ==> r is None,
        spec_component_count(command@) <= 1 ==> (r matches Some(c) && strs(c@) == strs(search_paths@).map_values(
            |d: Seq<char>| join_path(d, command@),
        )),
{
    if component_count(command) > 1 {
        return None;
    }
    let mut out: Vec<String> = Vec::new();
    let mut i: usize = 0;
    while i < search_paths.len()
        invariant
            i <= search_paths@.len(),
            out@.len() == i,
            forall|k: int| 0 <= k < i ==> (#[trigger] out@[k])@ == join_path(search_paths@[k]@, command@),
        decreases search_paths.len() - i,
    {
        out.push(path_join(search_paths[i].as_str(), command));
        i = i + 1;
    }
    assert(strs(out@) =~= strs(search_paths@).map_values(|d: Seq<char>| join_path(d, command@)));
    Some(out)
}

/// What `str::parse::<i32>` accepts: an optional sign, then at least one
/// digit, with a value in range.
pub open spec fn parse_i32(s: Seq<char>) -> Option<i32> {
    if s.len() > 0 && s[0] == '-' {
        let body = s.drop_first();
        if body.len() > 0 && all_digits(body) && digits_value(body) <= 2147483648 {
            Some((0 - digits_value(body)) as i32)
        } else {
            None
        }
    } else {
        match parse_unsigned(s, 2147483647) {
            Some(v) => Some(v as i32),
            None => None,
        }
    }
}

pub fn parse_i32_str(s: &str) -> (r: Option<i32>)
    ensures
        r == parse_i32(s@),
{
    let v = chars_of(s);
    if v.len() > 0 && v[0] == '-' {
        let body = string_of_range(&v, 1, v.len());
        assert(body@ =~= s@.drop_first());
        proof {
            if body@.len() > 0 && all_digits(body@) && digits_value(body@) <= 2147483648 {
                assert(parse_unsigned(body@, 2147483648) == Some(digits_value(body@)));
            }
        }
        if chars_of(body.as_str()).len() > 0 && chars_of(body.as_str())[0] == '+' {
            proof {
                assert(!crate::text::is_digit(body@[0]));
            }
            return None;
        }
        match parse_unsigned_str(body.as_str(), 2147483648) {
            Some(n) => Some((0 - (n as i64)) as i32),
            None => None,
        }
    } else {
        match parse_unsigned_str(s, 2147483647) {
            Some(n) => Some(n as i32),
            None => None,
        }
    }
}

/// The pid of one line of `ps -axo pid=,pgid=` when its process group is
/// `pgid`.
pub open spec fn ps_line_pid(line: Seq<char>, pgid: i32) -> Option<i32> {
    let w = words(line);
    if w.len() >= 2 && parse_i32(w[0]) is Some && parse_i32(w[1]) == Some(pgid) {
        parse_i32(w[0])
    } else {
        None
    }
}

/// The pids that `ps` lists in a process group, in order.
pub open spec fn group_pids(ls: Seq<Seq<char>>, pgid: i32) -> Seq<i32>
    decreases ls.len(),
{
    if ls.len() == 0 {
        seq![]
    } else {
        group_pids(ls.drop_last(), pgid) + match ps_line_pid(ls.last(), pgid) {
            Some(p) => seq![p],
            None => seq![],
        }
    }
}

/// The processes of a process group, from the output of `ps -axo
/// pid=,pgid=`.
pub fn process_group_pids(ps_output: &str, pgid: i32) -> (r: Vec<i32>)
    ensures
        r@ == group_pids(lines(ps_output@), pgid),
{
    let ls = split_lines(ps_output);
    let ghost all = lines(ps_output@);
    let mut out: Vec<i32> = Vec::new();
    let mut i: usize = 0;
    assert(all.take(0) =~= Seq::<Seq<char>>::empty());
    while i < ls.len()
        invariant
            i <= ls@.len(),
            strs(ls@) == all,
            out@ == group_pids(all.take(i as int), pgid),
        decreases ls.len() - i,
    {
        proof {
            assert(all.take(i + 1).drop_last() =~= all.take(i as int));
            assert(all.take(i + 1).last() == ls@[i as int]@);
        }
        let w = split_words(ls[i].as_str());
        let ghost before = out@;
        if w.len() >= 2 {
            assert(strs(w@)[0] == w@[0]@ && strs(w@)[1] == w@[1]@);
            match (parse_i32_str(w[0].as_str()), parse_i32_str(w[1].as_str())) {
                (Some(pid), Some(group)) => {
                    if group == pgid {
                        out.push(pid);
                        assert(out@ =~= before + seq![pid]);
                    } else {
                        assert(out@ =~= before + Seq::<i32>::empty());
                    }
                },
                _ => {
                    assert(out@ =~= before + Seq::<i32>::empty());
                },
            }
        } else {
            assert(out@ =~= before + Seq::<i32>::empty());
        }
        i = i + 1;
    }
    assert(all.take(ls@.len() as int) =~= all);
    out
}

/// The answer a bridged connection gets when its backend cannot be
/// reached: a `502` response whose plain-text body names the error.
pub open spec fn bad_gateway_text(error: Seq<char>) -> Seq<char> {
    let body = "rack-bridge: backend not reachable: "@ + error;
    "HTTP/1.1 502 Bad Gateway\r\nContent-Length: "@ + crate::text::decimal(crate::cli::byte_len(body))
        + "\r\nContent-Type: text/plain\r\nConnection: close\r\n\r\n"@ + body
}

pub fn bad_gateway_response(error: &str) -> (r: String)
    requires
        4 * error@.len() + 200 <= usize::MAX,
    ensures
        r@ == bad_gateway_text(error@),
{
    proof {
        reveal_strlit("rack-bridge: backend not reachable: ");
    }
    let body = crate::text::concat("rack-bridge: backend not reachable: ", error);
    let n = crate::cli::text_byte_len(body.as_str());
    let mut r = "HTTP/1.1 502 Bad Gateway\r\nContent-Length: ".to_string();
    crate::text::append(&mut r, crate::text::decimal_string(n as u64).as_str());
    crate::text::append(&mut r, "\r\nContent-Type: text/plain\r\nConnection: close\r\n\r\n");
    crate::text::append(&mut r, body.as_str());
    r
}

} // verus!
