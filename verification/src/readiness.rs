//! Ports: which loopback ports `lsof` reports listening, which port a new
//! server is given, and how a started server is found ready.
use crate::text::{
    after_last, after_last_char, chars_of, has_prefix, lines, parse_unsigned, parse_unsigned_str,
    split_lines, starts_with, string_of_range, strip_prefix,
};
use crate::text::{all_digits, decimal, digits_value, is_digit, last_index, lemma_decimal_digits};
use vstd::prelude::*;

verus! {

/// The listening addresses that are reachable on loopback.
pub open spec fn loopback_address(addr: Seq<char>) -> bool {
    ||| starts_with(addr, "127.0.0.1:"@)
    ||| starts_with(addr, "*:"@)
    ||| starts_with(addr, "[::1]:"@)
    ||| starts_with(addr, "::1:"@)
    ||| starts_with(addr, "*."@)
}

pub open spec fn is_bracket(c: char) -> bool {
    c == '[' || c == ']'
}

/// `s` without leading and trailing brackets.
pub open spec fn trim_brackets(s: Seq<char>) -> Seq<char>
    decreases s.len(),
{
    if s.len() > 0 && is_bracket(s[0]) {
        trim_brackets(s.drop_first())
    } else if s.len() > 0 && is_bracket(s.last()) {
        trim_brackets(s.drop_last())
    } else {
        s
    }
}

/// The port of one line of `lsof -F n` output: a name line (`n...`) for a
/// loopback address whose port, after the last `:`, is above 1024.
pub open spec fn lsof_line_port(line: Seq<char>) -> Option<u16> {
    if starts_with(line, "n"@) && loopback_address(line.skip(1)) {
        match parse_unsigned(trim_brackets(after_last(line.skip(1), ':')), 65535) {
            Some(p) => if p > 1024 {
                Some(p as u16)
            } else {
                None
            },
            None => None,
        }
    } else {
        None
    }
}

/// The ports of an `lsof` listing.
pub open spec fn lsof_ports(text: Seq<char>) -> Set<u16> {
    Set::new(
        |p: u16|
            exists|i: int| 0 <= i < lines(text).len() && #[trigger] lsof_line_port(lines(text)[i]) == Some(p),
    )
}

/// What follows the last `:` of `prefix + d`, where `prefix` ends with `:`
/// and `d` is digits, is `d`.
proof fn lemma_after_last_colon(prefix: Seq<char>, d: Seq<char>)
    requires
        prefix.len() > 0,
        prefix.last() == ':',
        all_digits(d),
    ensures
        after_last(prefix + d, ':') == d,
{
    let s = prefix + d;
    let k = prefix.len() - 1;
    assert(s[k] == ':');
    assert(s.contains(':'));
    assert forall|j: int| k < j < s.len() implies s[j] != ':' by {
        assert(s[j] == d[j - prefix.len()]);
        assert(is_digit(d[j - prefix.len()]));
    }
    let i = last_index(s, ':');
    if i < k {
        assert(s[k] != ':');
    }
    if i > k {
        assert(s[i] != ':');
    }
    assert(s.skip(k + 1) =~= d);
}

/// Whether a line of the listing gives port `p`.
#[verifier::opaque]
spec fn line_gives_port(line: Seq<char>, p: u16) -> bool {
    lsof_line_port(line) == Some(p)
}

/// A name line for a loopback address ending in `:` followed by the
/// decimal port gives that port when it is above 1024.
proof fn lemma_name_line_port(prefix: Seq<char>, p: u16)
    requires
        prefix.len() > 0,
        prefix.last() == ':',
        loopback_address(prefix + decimal(p as nat)),
        p > 1024,
    ensures
        line_gives_port(seq!['n'] + prefix + decimal(p as nat), p),
{
    reveal(line_gives_port);
    let d = decimal(p as nat);
    lemma_decimal_digits(p as nat);
    let line = seq!['n'] + prefix + d;
    reveal_strlit("n");
    assert(line.skip(1) =~= prefix + d);
    assert(line.take(1) =~= "n"@);
    assert(starts_with(line, "n"@));
    lemma_after_last_colon(prefix, d);
    assert(!is_bracket(d[0])) by {
        assert(is_digit(d[0]));
    }
    assert(!is_bracket(d.last())) by {
        assert(is_digit(d[d.len() - 1]));
    }
    assert(trim_brackets(d) == d);
    assert(d[0] != '+') by {
        assert(is_digit(d[0]));
    }
    assert(parse_unsigned(d, 65535) == Some(p as nat));
}

#[verifier::spinoff_prover]
proof fn lemma_wildcard_line(p: u16)
    requires
        p > 1024,
    ensures
        line_gives_port("n*:"@ + decimal(p as nat), p),
{
    let d = decimal(p as nat);
    let a = seq!['*', ':'];
    assert("n*:"@ == seq!['n'] + a) by {
        reveal_strlit("n*:");
        assert("n*:"@ =~= seq!['n'] + a);
    }
    assert(starts_with(a + d, "*:"@)) by {
        reveal_strlit("*:");
        assert((a + d).take(2) =~= "*:"@);
    }
    lemma_name_line_port(a, p);
}

#[verifier::spinoff_prover]
proof fn lemma_ipv4_line(p: u16)
    requires
        p > 1024,
    ensures
        line_gives_port("n127.0.0.1:"@ + decimal(p as nat), p),
{
    let d = decimal(p as nat);
    let a = seq!['1', '2', '7', '.', '0', '.', '0', '.', '1', ':'];
    assert("n127.0.0.1:"@ == seq!['n'] + a) by {
        reveal_strlit("n127.0.0.1:");
        assert("n127.0.0.1:"@ =~= seq!['n'] + a);
    }
    assert(starts_with(a + d, "127.0.0.1:"@)) by {
        reveal_strlit("127.0.0.1:");
        assert((a + d).take(10) =~= "127.0.0.1:"@);
    }
    lemma_name_line_port(a, p);
}

#[verifier::spinoff_prover]
proof fn lemma_ipv6_line(p: u16)
    requires
        p > 1024,
    ensures
        line_gives_port("n[::1]:"@ + decimal(p as nat), p),
{
    let d = decimal(p as nat);
    let a = seq!['[', ':', ':', '1', ']', ':'];
    assert("n[::1]:"@ == seq!['n'] + a) by {
        reveal_strlit("n[::1]:");
        assert("n[::1]:"@ =~= seq!['n'] + a);
    }
    assert(starts_with(a + d, "[::1]:"@)) by {
        reveal_strlit("[::1]:");
        assert((a + d).take(6) =~= "[::1]:"@);
    }
    lemma_name_line_port(a, p);
}

/// A server listening on port `p` above 1024 is found whether it listens
/// on every address (`*:p`), on `127.0.0.1:p` or on `[::1]:p`: the name
/// line for it gives `p`, and a listing that holds such a line reports
/// `p`. No port at or below 1024 is ever reported.
pub proof fn law_loopback_listeners_are_found(p: u16, text: Seq<char>)
    ensures
        p > 1024 ==> lsof_line_port("n*:"@ + decimal(p as nat)) == Some(p),
        p > 1024 ==> lsof_line_port("n127.0.0.1:"@ + decimal(p as nat)) == Some(p),
        p > 1024 ==> lsof_line_port("n[::1]:"@ + decimal(p as nat)) == Some(p),
        p > 1024 && (exists|i: int| 0 <= i < lines(text).len() && #[trigger] lines(text)[i] == "n*:"@ + decimal(p as nat))
            ==> lsof_ports(text).contains(p),
        lsof_ports(text).contains(p) ==> p > 1024,
{
    reveal(line_gives_port);
    if p > 1024 {
        lemma_wildcard_line(p);
        lemma_ipv4_line(p);
        lemma_ipv6_line(p);
        if exists|i: int| 0 <= i < lines(text).len() && #[trigger] lines(text)[i] == "n*:"@ + decimal(p as nat) {
            let i = choose|i: int| 0 <= i < lines(text).len() && #[trigger] lines(text)[i] == "n*:"@ + decimal(p as nat);
            assert(lsof_line_port(lines(text)[i]) == Some(p));
        }
    }
    if lsof_ports(text).contains(p) {
        let i = choose|i: int| 0 <= i < lines(text).len() && #[trigger] lsof_line_port(lines(text)[i]) == Some(p);
    }
}

fn strip_brackets(s: &str) -> (r: String)
    ensures
        r@ == trim_brackets(s@),
{
    let v = chars_of(s);
    let mut i: usize = 0;
    let mut j: usize = v.len();
    assert(v@.subrange(0, v@.len() as int) =~= v@);
    while i < j && (v[i] == '[' || v[i] == ']' || v[j - 1] == '[' || v[j - 1] == ']')
        invariant
            i <= j <= v@.len(),
            v@ == s@,
            trim_brackets(s@) == trim_brackets(v@.subrange(i as int, j as int)),
        decreases j - i,
    {
        if v[i] == '[' || v[i] == ']' {
            assert(v@.subrange(i as int, j as int).drop_first() =~= v@.subrange(i + 1, j as int));
            i = i + 1;
        } else {
            assert(v@.subrange(i as int, j as int).drop_last() =~= v@.subrange(i as int, j - 1));
            j = j - 1;
        }
    }
    string_of_range(&v, i, j)
}

fn line_port(line: &str) -> (r: Option<u16>)
    ensures
        r == lsof_line_port(line@),
{
    proof {
        reveal_strlit("n");
    }
    let addr = match strip_prefix(line, "n") {
        Some(a) => a,
        None => {
            return None;
        },
    };
    let a = addr.as_str();
    if !(has_prefix(a, "127.0.0.1:") || has_prefix(a, "*:") || has_prefix(a, "[::1]:")
        || has_prefix(a, "::1:") || has_prefix(a, "*.")) {
        return None;
    }
    let port_text = strip_brackets(after_last_char(a, ':').as_str());
    match parse_unsigned_str(port_text.as_str(), 65535) {
        Some(p) => if p > 1024 {
            Some(p as u16)
        } else {
            None
        },
        None => None,
    }
}

/// The loopback ports above 1024 that an `lsof -F n` listing shows
/// listening, each once.
pub fn parse_lsof_ports(text: &str) -> (r: Vec<u16>)
    ensures
        r@.no_duplicates(),
        forall|p: u16| r@.contains(p) <==> lsof_ports(text@).contains(p),
{
    let ls = split_lines(text);
    let ghost all = lines(text@);
    let mut out: Vec<u16> = Vec::new();
    let mut i: usize = 0;
    while i < ls.len()
        invariant
            i <= ls@.len(),
            ls@.map_values(|l: String| l@) == all,
            out@.no_duplicates(),
            forall|p: u16|
                out@.contains(p) <==> exists|k: int|
                    0 <= k < i && #[trigger] lsof_line_port(all[k]) == Some(p),
        decreases ls.len() - i,
    {
        let found = line_port(ls[i].as_str());
        proof {
            assert(all[i as int] == ls@[i as int]@);
        }
        match found {
            Some(p) => {
                if !vec_contains(&out, p) {
                    let ghost before = out@;
                    out.push(p);
                    proof {
                        assert forall|a: int, b: int|
                            0 <= a < b < out@.len() implies out@[a] != out@[b] by {
                            if b == out@.len() - 1 {
                                assert(before.contains(out@[a]));
                            }
                        }
                        assert forall|q: u16| out@.contains(q) <==> exists|k: int|
                            0 <= k < i + 1 && #[trigger] lsof_line_port(all[k]) == Some(q) by {
                            if out@.contains(q) && q != p {
                                let m = choose|m: int| 0 <= m < out@.len() && out@[m] == q;
                                assert(before[m] == q);
                                assert(before.contains(q));
                            }
                            if q != p && exists|k: int|
                                0 <= k < i + 1 && #[trigger] lsof_line_port(all[k]) == Some(q) {
                                let k = choose|k: int|
                                    0 <= k < i + 1 && #[trigger] lsof_line_port(all[k]) == Some(q);
                                assert(k < i);
                                assert(before.contains(q));
                                let m = choose|m: int| 0 <= m < before.len() && before[m] == q;
                                assert(out@[m] == q);
                            }
                            if q == p {
                                assert(out@[out@.len() - 1] == p);
                                assert(lsof_line_port(all[i as int]) == Some(p));
                            }
                        }
                    }
                } else {
                    proof {
                        assert forall|q: u16| out@.contains(q) <==> exists|k: int|
                            0 <= k < i + 1 && #[trigger] lsof_line_port(all[k]) == Some(q) by {
                            if q == p {
                                assert(lsof_line_port(all[i as int]) == Some(p));
                            }
                            if exists|k: int| 0 <= k < i + 1 && #[trigger] lsof_line_port(all[k]) == Some(q) {
                                let k = choose|k: int|
                                    0 <= k < i + 1 && #[trigger] lsof_line_port(all[k]) == Some(q);
                                if k == i {
                                    assert(q == p);
                                }
                            }
                        }
                    }
                }
            },
            None => {
                proof {
                    assert forall|q: u16| out@.contains(q) <==> exists|k: int|
                        0 <= k < i + 1 && #[trigger] lsof_line_port(all[k]) == Some(q) by {
                        if exists|k: int| 0 <= k < i + 1 && #[trigger] lsof_line_port(all[k]) == Some(q) {
                            let k = choose|k: int|
                                0 <= k < i + 1 && #[trigger] lsof_line_port(all[k]) == Some(q);
                            assert(k != i);
                        }
                    }
                }
            },
        }
        i = i + 1;
    }
    proof {
        assert forall|p: u16| out@.contains(p) <==> lsof_ports(text@).contains(p) by {
            if out@.contains(p) {
                let k = choose|k: int| 0 <= k < ls@.len() && #[trigger] lsof_line_port(all[k]) == Some(p);
                assert(lsof_ports(text@).contains(p));
            }
        }
    }
    out
}

/// Whether `v` holds `x`.
pub fn vec_contains(v: &Vec<u16>, x: u16) -> (r: bool)
    ensures
        r == v@.contains(x),
{
    let mut i: usize = 0;
    while i < v.len()
        invariant
            i <= v@.len(),
            forall|k: int| 0 <= k < i ==> v@[k] != x,
        decreases v.len() - i,
    {
        if v[i] == x {
            assert(v@[i as int] == x);
            return true;
        }
        i = i + 1;
    }
    false
}

// ---------------------------------------------------------------------------
// Giving a server a port.
/// The first port from `from` on, within 4000..=4999, that is not in use.
pub open spec fn free_port_from(used: Seq<u16>, from: u16) -> Option<u16> {
    if exists|p: u16| from <= p && 4000 <= p <= 4999 && !used.contains(p) {
        Some(
            choose|p: u16|
                from <= p && 4000 <= p <= 4999 && !used.contains(p) && forall|q: u16|
                    from <= q < p && 4000 <= q ==> used.contains(q),
        )
    } else {
        None
    }
}

/// The next port to try for a new server: the first port from `from` on,
/// within 4000..=4999, that no listener uses. The caller probes it and asks
/// again from the next port when something answers there; when none is
/// left, a server gets port 4000.
pub fn next_port_candidate(used: &Vec<u16>, from: u16) -> (r: Option<u16>)
    ensures
        r == free_port_from(used@, from),
{
    if from > 4999 {
        return None;
    }
    let mut p: u16 = if from < 4000 {
        4000
    } else {
        from
    };
    while p <= 4999
        invariant
            4000 <= p <= 5000,
            from <= p,
            forall|q: u16| from <= q < p && 4000 <= q ==> used@.contains(q),
        decreases 5000 - p,
    {
        if !vec_contains(used, p) {
            proof {
                let c = choose|c: u16|
                    from <= c && 4000 <= c <= 4999 && !used@.contains(c) && forall|q: u16|
                        from <= q < c && 4000 <= q ==> used@.contains(q);
                assert(from <= p && 4000 <= p <= 4999 && !used@.contains(p) && forall|q: u16|
                    from <= q < p && 4000 <= q ==> used@.contains(q));
                if c < p {
                    assert(used@.contains(c));
                } else if c > p {
                    assert(used@.contains(p));
                }
            }
            return Some(p);
        }
        p = p + 1;
    }
    proof {
        assert forall|q: u16| !(from <= q && 4000 <= q <= 4999 && !used@.contains(q)) by {
            if from <= q && 4000 <= q <= 4999 {
                assert(q < p);
            }
        }
    }
    None
}

// ---------------------------------------------------------------------------
// Finding a started server ready.
/// What to probe to learn whether a started server is ready: its socket
/// under the bridge, its own port when it was given one, else the ports
/// that started listening since it was launched.
pub enum ReadinessProbe {
    Socket(String),
    Port(u16),
    NewPorts,
}

pub fn readiness_probe(use_bridge: bool, socket_path: &str, explicit_port: bool, port: u16) -> (r:
    ReadinessProbe)
    ensures
        use_bridge ==> (r matches ReadinessProbe::Socket(s) && s@ == socket_path@),
        !use_bridge && explicit_port ==> (r matches ReadinessProbe::Port(p) && p == port),
        !use_bridge && !explicit_port ==> r is NewPorts,
{
    if use_bridge {
        ReadinessProbe::Socket(crate::text::owned(socket_path))
    } else if explicit_port {
        ReadinessProbe::Port(port)
    } else {
        ReadinessProbe::NewPorts
    }
}

/// The smallest port above 1024 that is listening now and was not before.
pub open spec fn new_listener(current: Seq<u16>, snapshot: Seq<u16>) -> Option<u16> {
    if exists|p: u16| current.contains(p) && !snapshot.contains(p) && p > 1024 {
        Some(
            choose|p: u16|
                current.contains(p) && !snapshot.contains(p) && p > 1024 && forall|q: u16|
                    current.contains(q) && !snapshot.contains(q) && q > 1024 ==> p <= q,
        )
    } else {
        None
    }
}

/// Whenever some port above 1024 listens now and did not before, there is
/// a smallest such port, and `new_listener` names it; otherwise it names
/// none.
pub proof fn lemma_new_listener_is_least(current: Seq<u16>, snapshot: Seq<u16>)
    ensures
        (exists|p: u16| current.contains(p) && !snapshot.contains(p) && p > 1024) <==> new_listener(
            current,
            snapshot,
        ) is Some,
        new_listener(current, snapshot) matches Some(p) ==> current.contains(p) && !snapshot.contains(p)
            && p > 1024 && forall|q: u16| current.contains(q) && !snapshot.contains(q) && q > 1024 ==> p <= q,
{
    if exists|p: u16| current.contains(p) && !snapshot.contains(p) && p > 1024 {
        lemma_least_fresh(current, snapshot);
    }
}

proof fn lemma_least_fresh(current: Seq<u16>, snapshot: Seq<u16>)
    requires
        exists|p: u16| current.contains(p) && !snapshot.contains(p) && p > 1024,
    ensures
        exists|p: u16|
            current.contains(p) && !snapshot.contains(p) && p > 1024 && forall|q: u16|
                current.contains(q) && !snapshot.contains(q) && q > 1024 ==> p <= q,
    decreases current.len(),
{
    let w = choose|p: u16| current.contains(p) && !snapshot.contains(p) && p > 1024;
    let rest = current.drop_last();
    let last = current.last();
    assert forall|q: u16| #[trigger] current.contains(q) implies rest.contains(q) || q == last by {
        let i = choose|i: int| 0 <= i < current.len() && current[i] == q;
        if i < current.len() - 1 {
            assert(rest[i] == q);
        }
    }
    assert forall|q: u16| #[trigger] rest.contains(q) implies current.contains(q) by {
        let i = choose|i: int| 0 <= i < rest.len() && rest[i] == q;
        assert(current[i] == q);
    }
    assert(current[current.len() - 1] == last);
    assert(current.contains(last));
    if exists|p: u16| rest.contains(p) && !snapshot.contains(p) && p > 1024 {
        lemma_least_fresh(rest, snapshot);
        let m = choose|p: u16|
            rest.contains(p) && !snapshot.contains(p) && p > 1024 && forall|q: u16|
                rest.contains(q) && !snapshot.contains(q) && q > 1024 ==> p <= q;
        assert(current.contains(m));
        if !snapshot.contains(last) && last > 1024 && last < m {
            assert forall|q: u16| current.contains(q) && !snapshot.contains(q) && q > 1024 implies last <= q by {
                if q != last {
                    assert(rest.contains(q));
                }
            }
        } else {
            assert forall|q: u16| current.contains(q) && !snapshot.contains(q) && q > 1024 implies m <= q by {
                if q != last {
                    assert(rest.contains(q));
                }
            }
        }
    } else {
        assert(w == last) by {
            if w != last {
                assert(rest.contains(w));
            }
        }
        assert forall|q: u16| current.contains(q) && !snapshot.contains(q) && q > 1024 implies last <= q by {
            if q != last {
                assert(rest.contains(q));
            }
        }
    }
}

pub fn newly_listening_port(current: &Vec<u16>, snapshot: &Vec<u16>) -> (r: Option<u16>)
    ensures
        r == new_listener(current@, snapshot@),
{
    let mut best: Option<u16> = None;
    let mut i: usize = 0;
    while i < current.len()
        invariant
            i <= current@.len(),
            match best {
                Some(b) => current@.contains(b) && !snapshot@.contains(b) && b > 1024 && forall|k: int|
                    0 <= k < i && !snapshot@.contains(#[trigger] current@[k]) && current@[k] > 1024
                        ==> b <= current@[k],
                None => forall|k: int|
                    0 <= k < i ==> snapshot@.contains(#[trigger] current@[k]) || current@[k] <= 1024,
            },
        decreases current.len() - i,
    {
        let p = current[i];
        if p > 1024 && !vec_contains(snapshot, p) {
            match best {
                Some(b) => {
                    if p < b {
                        best = Some(p);
                    }
                },
                None => {
                    best = Some(p);
                },
            }
        }
        i = i + 1;
    }
    proof {
        match best {
            Some(b) => {
                let c = choose|c: u16|
                    current@.contains(c) && !snapshot@.contains(c) && c > 1024 && forall|q: u16|
                        current@.contains(q) && !snapshot@.contains(q) && q > 1024 ==> c <= q;
                assert forall|q: u16|
                    current@.contains(q) && !snapshot@.contains(q) && q > 1024 implies b <= q by {
                    let k = choose|k: int| 0 <= k < current@.len() && current@[k] == q;
                    assert(!snapshot@.contains(current@[k]));
                }
                assert(c <= b);
                assert(b <= c);
            },
            None => {
                assert forall|q: u16| !(current@.contains(q) && !snapshot@.contains(q) && q > 1024) by {
                    if current@.contains(q) {
                        let k = choose|k: int| 0 <= k < current@.len() && current@[k] == q;
                        assert(snapshot@.contains(current@[k]) || current@[k] <= 1024);
                    }
                }
            },
        }
    }
    best
}

/// The ports of `ports` not in `excluded`, each once, in increasing order:
/// the candidates the bridge tries for a server's backend.
pub fn backend_candidates(ports: &Vec<u16>, excluded: &Vec<u16>) -> (r: Vec<u16>)
    ensures
        forall|i: int, j: int| 0 <= i < j < r@.len() ==> r@[i] < r@[j],
        forall|p: u16| r@.contains(p) <==> (ports@.contains(p) && !excluded@.contains(p)),
{
    let mut out: Vec<u16> = Vec::new();
    let mut i: usize = 0;
    while i < ports.len()
        invariant
            i <= ports@.len(),
            forall|a: int, b: int| 0 <= a < b < out@.len() ==> out@[a] < out@[b],
            forall|p: u16|
                out@.contains(p) <==> (exists|k: int| 0 <= k < i && #[trigger] ports@[k] == p)
                    && !excluded@.contains(p),
        decreases ports.len() - i,
    {
        let p = ports[i];
        let ghost before = out@;
        if !vec_contains(excluded, p) && !vec_contains(&out, p) {
            let mut k: usize = 0;
            while k < out.len() && out[k] < p
                invariant
                    k <= out@.len(),
                    out@ == before,
                    forall|m: int| 0 <= m < k ==> out@[m] < p,
                decreases out.len() - k,
            {
                k = k + 1;
            }
            out.insert(k, p);
            proof {
                assert(out@ =~= before.insert(k as int, p));
                assert forall|a: int, b: int| 0 <= a < b < out@.len() implies out@[a] < out@[b] by {
                    if a < k && b == k {
                    } else if a == k && b > k {
                        assert(out@[b] == before[b - 1]);
                        assert(before[k as int] >= p);
                        assert(!before.contains(p));
                        if b - 1 > k {
                            assert(before[k as int] < before[b - 1]);
                        }
                        assert(before[k as int] != p);
                    } else if a < k && b < k {
                    } else if a < k {
                        assert(out@[b] == before[b - 1]);
                    } else {
                        assert(out@[a] == before[a - 1]);
                        assert(out@[b] == before[b - 1]);
                    }
                }
                assert forall|q: u16| out@.contains(q) <==> (exists|m: int|
                    0 <= m < i + 1 && #[trigger] ports@[m] == q) && !excluded@.contains(q) by {
                    if out@.contains(q) && q != p {
                        let m = choose|m: int| 0 <= m < out@.len() && out@[m] == q;
                        if m < k {
                            assert(before[m] == q);
                        } else {
                            assert(before[m - 1] == q);
                        }
                        assert(before.contains(q));
                    }
                    if q != p && (exists|m: int| 0 <= m < i + 1 && #[trigger] ports@[m] == q) && !excluded@.contains(q) {
                        let m = choose|m: int| 0 <= m < i + 1 && #[trigger] ports@[m] == q;
                        assert(m < i);
                        assert(before.contains(q));
                        let n = choose|n: int| 0 <= n < before.len() && before[n] == q;
                        if n < k {
                            assert(out@[n] == q);
                        } else {
                            assert(out@[n + 1] == q);
                        }
                    }
                    if q == p {
                        assert(out@[k as int] == p);
                        assert(ports@[i as int] == p);
                    }
                }
            }
        } else {
            proof {
                assert forall|q: u16| out@.contains(q) <==> (exists|m: int|
                    0 <= m < i + 1 && #[trigger] ports@[m] == q) && !excluded@.contains(q) by {
                    if (exists|m: int| 0 <= m < i + 1 && #[trigger] ports@[m] == q) && !excluded@.contains(q) {
                        let m = choose|m: int| 0 <= m < i + 1 && #[trigger] ports@[m] == q;
                        if m == i {
                            assert(q == p);
                        }
                    }
                }
            }
        }
        i = i + 1;
    }
    proof {
        assert forall|p: u16| out@.contains(p) <==> (ports@.contains(p) && !excluded@.contains(p)) by {
            if ports@.contains(p) {
                let m = choose|m: int| 0 <= m < ports@.len() && ports@[m] == p;
                assert(ports@[m] == p);
            }
        }
    }
    out
}

} // verus!
