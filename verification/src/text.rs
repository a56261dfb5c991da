//! Character-level string operations with their mathematical meaning.
//!
//! Every function here works on the `Seq<char>` view of a string. The spec
//! functions say what an operation means; the executable functions compute
//! it and are proved to agree.
use vstd::prelude::*;

verus! {

/// Unicode `White_Space`, the set that `char::is_whitespace` and
/// `str::trim` use.
pub open spec fn is_ws(c: char) -> bool {
    let u = c as u32;
    ||| 0x9 <= u <= 0xd
    ||| u == 0x20
    ||| u == 0x85
    ||| u == 0xa0
    ||| u == 0x1680
    ||| 0x2000 <= u <= 0x200a
    ||| u == 0x2028
    ||| u == 0x2029
    ||| u == 0x202f
    ||| u == 0x205f
    ||| u == 0x3000
}

pub fn is_whitespace(c: char) -> (r: bool)
    ensures
        r == is_ws(c),
{
    let u = c as u32;
    (0x9 <= u && u <= 0xd) || u == 0x20 || u == 0x85 || u == 0xa0 || u == 0x1680 || (0x2000 <= u
        && u <= 0x200a) || u == 0x2028 || u == 0x2029 || u == 0x202f || u == 0x205f || u == 0x3000
}

/// The string without its leading whitespace.
pub open spec fn trim_start(s: Seq<char>) -> Seq<char>
    decreases s.len(),
{
    if s.len() > 0 && is_ws(s[0]) {
        trim_start(s.drop_first())
    } else {
        s
    }
}

/// The string without its trailing whitespace.
pub open spec fn trim_end(s: Seq<char>) -> Seq<char>
    decreases s.len(),
{
    if s.len() > 0 && is_ws(s.last()) {
        trim_end(s.drop_last())
    } else {
        s
    }
}

/// `str::trim`: the string without leading and trailing whitespace.
pub open spec fn trim(s: Seq<char>) -> Seq<char> {
    trim_end(trim_start(s))
}

pub open spec fn is_upper_ascii(c: char) -> bool {
    'A' <= c <= 'Z'
}

pub open spec fn lower_char(c: char) -> char {
    if is_upper_ascii(c) {
        ((c as u32) + 32) as char
    } else {
        c
    }
}

/// `str::to_ascii_lowercase`: ASCII capitals become small letters, every
/// other character stays.
pub open spec fn ascii_lower(s: Seq<char>) -> Seq<char> {
    s.map_values(|c: char| lower_char(c))
}

pub open spec fn is_ascii_alnum(c: char) -> bool {
    ||| 'a' <= c <= 'z'
    ||| 'A' <= c <= 'Z'
    ||| '0' <= c <= '9'
}

pub open spec fn is_digit(c: char) -> bool {
    '0' <= c <= '9'
}

pub open spec fn starts_with(s: Seq<char>, p: Seq<char>) -> bool {
    p.len() <= s.len() && s.take(p.len() as int) == p
}

pub open spec fn ends_with(s: Seq<char>, p: Seq<char>) -> bool {
    p.len() <= s.len() && s.skip(s.len() - p.len()) == p
}

/// `p` occurs in `s` starting at position `i`.
pub open spec fn occurs_at(s: Seq<char>, p: Seq<char>, i: int) -> bool {
    0 <= i && i + p.len() <= s.len() && s.subrange(i, i + p.len()) == p
}

/// `str::contains` with a string pattern.
pub open spec fn contains(s: Seq<char>, p: Seq<char>) -> bool {
    exists|i: int| occurs_at(s, p, i)
}

/// `str::replace` of one character by a string.
pub open spec fn replace_char(s: Seq<char>, from: char, to: Seq<char>) -> Seq<char>
    decreases s.len(),
{
    if s.len() == 0 {
        seq![]
    } else {
        replace_char(s.drop_last(), from, to) + (if s.last() == from {
            to
        } else {
            seq![s.last()]
        })
    }
}

/// The characters of `s` that `keep` holds of, in order.
pub open spec fn filter_chars(s: Seq<char>, keep: spec_fn(char) -> bool) -> Seq<char>
    decreases s.len(),
{
    if s.len() == 0 {
        seq![]
    } else {
        filter_chars(s.drop_last(), keep) + (if keep(s.last()) {
            seq![s.last()]
        } else {
            seq![]
        })
    }
}

/// Index of the first occurrence of `c`, if any.
pub open spec fn first_index(s: Seq<char>, c: char) -> int
    recommends
        s.contains(c),
{
    choose|i: int| 0 <= i < s.len() && s[i] == c && forall|j: int| 0 <= j < i ==> s[j] != c
}

/// Index of the last occurrence of `c`, if any.
pub open spec fn last_index(s: Seq<char>, c: char) -> int
    recommends
        s.contains(c),
{
    choose|i: int| 0 <= i < s.len() && s[i] == c && forall|j: int| i < j < s.len() ==> s[j] != c
}

/// `str::split_once` with a character: the parts before and after the first
/// occurrence of `c`.
pub open spec fn split_once(s: Seq<char>, c: char) -> Option<(Seq<char>, Seq<char>)> {
    if s.contains(c) {
        let i = first_index(s, c);
        Some((s.take(i), s.skip(i + 1)))
    } else {
        None
    }
}

/// `s.rsplit(c).next()`: what follows the last occurrence of `c`, or all of
/// `s` when `c` does not occur.
pub open spec fn after_last(s: Seq<char>, c: char) -> Seq<char> {
    if s.contains(c) {
        s.skip(last_index(s, c) + 1)
    } else {
        s
    }
}

/// `str::trim_end_matches` with a character: all trailing copies removed.
pub open spec fn trim_end_char(s: Seq<char>, c: char) -> Seq<char>
    decreases s.len(),
{
    if s.len() > 0 && s.last() == c {
        trim_end_char(s.drop_last(), c)
    } else {
        s
    }
}

/// `str::trim_start_matches` with a character.
pub open spec fn trim_start_char(s: Seq<char>, c: char) -> Seq<char>
    decreases s.len(),
{
    if s.len() > 0 && s[0] == c {
        trim_start_char(s.drop_first(), c)
    } else {
        s
    }
}

/// `str::trim_end_matches` with a non-empty string: all trailing copies removed.
pub open spec fn trim_end_str(s: Seq<char>, p: Seq<char>) -> Seq<char>
    decreases s.len(),
{
    if p.len() > 0 && ends_with(s, p) {
        trim_end_str(s.take(s.len() - p.len()), p)
    } else {
        s
    }
}

/// `str::trim_start_matches` with a non-empty string: all leading copies removed.
pub open spec fn trim_start_str(s: Seq<char>, p: Seq<char>) -> Seq<char>
    decreases s.len(),
{
    if p.len() > 0 && starts_with(s, p) {
        trim_start_str(s.skip(p.len() as int), p)
    } else {
        s
    }
}

// ---------------------------------------------------------------------------
// Conversions between `String` and its characters.
/// Appends one character; `String::push`.
#[verifier::external_body]
pub(crate) fn push_char(s: &mut String, c: char)
    ensures
        final(s)@ == old(s)@.push(c),
{
    s.push(c);
}

/// The characters of a string, in order.
pub fn chars_of(s: &str) -> (v: Vec<char>)
    ensures
        v@ == s@,
{
    let mut v: Vec<char> = Vec::new();
    for c in it: s.chars()
        invariant
            v@ == it.seq().take(it.index() as int),
    {
        v.push(c);
    }
    v
}

/// The string made of the characters of `v[from..to]`.
pub fn string_of_range(v: &Vec<char>, from: usize, to: usize) -> (s: String)
    requires
        from <= to <= v.len(),
    ensures
        s@ == v@.subrange(from as int, to as int),
{
    let mut s = String::new();
    let mut i = from;
    while i < to
        invariant
            from <= i <= to <= v.len(),
            s@ == v@.subrange(from as int, i as int),
        decreases to - i,
    {
        push_char(&mut s, v[i]);
        i = i + 1;
        assert(s@ =~= v@.subrange(from as int, i as int));
    }
    s
}

/// The string made of the characters of `v`.
pub fn string_of(v: &Vec<char>) -> (s: String)
    ensures
        s@ == v@,
{
    let s = string_of_range(v, 0, v.len());
    assert(v@.subrange(0, v@.len() as int) =~= v@);
    s
}

/// A copy of a string slice.
pub fn owned(s: &str) -> (r: String)
    ensures
        r@ == s@,
{
    s.to_string()
}

/// Appends a string slice.
pub fn append(s: &mut String, t: &str)
    ensures
        final(s)@ == old(s)@ + t@,
{
    let v = chars_of(t);
    let ghost start = s@;
    let mut i: usize = 0;
    while i < v.len()
        invariant
            i <= v.len(),
            v@ == t@,
            s@ == start + v@.take(i as int),
        decreases v.len() - i,
    {
        push_char(s, v[i]);
        i = i + 1;
        assert(s@ =~= start + v@.take(i as int));
    }
    assert(v@.take(v@.len() as int) =~= v@);
}

/// `a` followed by `b`.
pub fn concat(a: &str, b: &str) -> (r: String)
    ensures
        r@ == a@ + b@,
{
    let mut r = owned(a);
    append(&mut r, b);
    r
}

/// Equality of two strings by their characters.
pub fn str_eq(a: &str, b: &str) -> (r: bool)
    ensures
        r == (a@ == b@),
{
    let va = chars_of(a);
    let vb = chars_of(b);
    if va.len() != vb.len() {
        return false;
    }
    let mut i: usize = 0;
    while i < va.len()
        invariant
            i <= va.len() == vb.len(),
            va@ == a@,
            vb@ == b@,
            forall|j: int| 0 <= j < i ==> va@[j] == vb@[j],
        decreases va.len() - i,
    {
        if va[i] != vb[i] {
            return false;
        }
        i = i + 1;
    }
    assert(va@ =~= vb@);
    true
}

// ---------------------------------------------------------------------------
// Prefixes and suffixes.
pub fn starts_with_at(v: &Vec<char>, at: usize, p: &Vec<char>) -> (r: bool)
    requires
        at <= v.len(),
    ensures
        r == starts_with(v@.skip(at as int), p@),
{
    if p.len() > v.len() - at {
        return false;
    }
    let mut i: usize = 0;
    while i < p.len()
        invariant
            at <= v.len(),
            p.len() <= v.len() - at,
            i <= p.len(),
            forall|j: int| 0 <= j < i ==> v@[at + j] == p@[j],
        decreases p.len() - i,
    {
        if v[at + i] != p[i] {
            assert(v@.skip(at as int).take(p@.len() as int)[i as int] != p@[i as int]);
            return false;
        }
        i = i + 1;
    }
    assert(v@.skip(at as int).take(p@.len() as int) =~= p@);
    true
}

/// `str::starts_with` with a string pattern.
pub fn has_prefix(s: &str, p: &str) -> (r: bool)
    ensures
        r == starts_with(s@, p@),
{
    let v = chars_of(s);
    let pv = chars_of(p);
    assert(v@.skip(0) =~= v@);
    starts_with_at(&v, 0, &pv)
}

/// `str::ends_with` with a string pattern.
pub fn has_suffix(s: &str, p: &str) -> (r: bool)
    ensures
        r == ends_with(s@, p@),
{
    let v = chars_of(s);
    let pv = chars_of(p);
    if pv.len() > v.len() {
        return false;
    }
    let at = v.len() - pv.len();
    let r = starts_with_at(&v, at, &pv);
    assert(v@.skip(at as int).take(pv@.len() as int) =~= v@.skip(at as int));
    r
}

/// `str::strip_prefix`.
pub fn strip_prefix(s: &str, p: &str) -> (r: Option<String>)
    ensures
        r is Some <==> starts_with(s@, p@),
        r matches Some(t) ==> t@ == s@.skip(p@.len() as int),
{
    let v = chars_of(s);
    let pv = chars_of(p);
    assert(v@.skip(0) =~= v@);
    if starts_with_at(&v, 0, &pv) {
        let t = string_of_range(&v, pv.len(), v.len());
        assert(t@ =~= s@.skip(p@.len() as int));
        Some(t)
    } else {
        None
    }
}

/// `str::strip_suffix`.
pub fn strip_suffix(s: &str, p: &str) -> (r: Option<String>)
    ensures
        r is Some <==> ends_with(s@, p@),
        r matches Some(t) ==> t@ == s@.take(s@.len() - p@.len()),
{
    if has_suffix(s, p) {
        let v = chars_of(s);
        let pv = chars_of(p);
        let t = string_of_range(&v, 0, v.len() - pv.len());
        assert(t@ =~= s@.take(s@.len() - p@.len()));
        Some(t)
    } else {
        None
    }
}

// ---------------------------------------------------------------------------
// Whitespace.
proof fn lemma_trim_start_skip(s: Seq<char>, i: int)
    requires
        0 <= i < s.len(),
        is_ws(s[i]),
    ensures
        trim_start(s.skip(i)) == trim_start(s.skip(i + 1)),
{
    assert(s.skip(i).drop_first() =~= s.skip(i + 1));
}

proof fn lemma_trim_end_take(s: Seq<char>, j: int)
    requires
        0 < j <= s.len(),
        is_ws(s[j - 1]),
    ensures
        trim_end(s.take(j)) == trim_end(s.take(j - 1)),
{
    assert(s.take(j).drop_last() =~= s.take(j - 1));
}

/// `str::trim`.
pub fn trim_str(s: &str) -> (r: String)
    ensures
        r@ == trim(s@),
{
    let v = chars_of(s);
    let mut i: usize = 0;
    assert(v@.skip(0) =~= v@);
    while i < v.len() && is_whitespace(v[i])
        invariant
            i <= v.len(),
            v@ == s@,
            trim_start(s@) == trim_start(s@.skip(i as int)),
        decreases v.len() - i,
    {
        proof {
            lemma_trim_start_skip(s@, i as int);
        }
        i = i + 1;
    }
    let ghost t = s@.skip(i as int);
    assert(trim_start(s@) == t);
    let mut j: usize = v.len();
    assert(t.take(t.len() as int) =~= t);
    while j > i && is_whitespace(v[j - 1])
        invariant
            i <= j <= v.len(),
            v@ == s@,
            t == s@.skip(i as int),
            trim_end(t) == trim_end(t.take(j - i)),
        decreases j,
    {
        proof {
            lemma_trim_end_take(t, (j - i) as int);
        }
        j = j - 1;
    }
    let r = string_of_range(&v, i, j);
    assert(r@ =~= t.take(j - i));
    r
}

/// `str::to_ascii_lowercase`.
pub fn ascii_lowercase(s: &str) -> (r: String)
    ensures
        r@ == ascii_lower(s@),
{
    let v = chars_of(s);
    let mut out = String::new();
    let mut i: usize = 0;
    while i < v.len()
        invariant
            i <= v.len(),
            v@ == s@,
            out@ == ascii_lower(s@).take(i as int),
        decreases v.len() - i,
    {
        let c = v[i];
        let l = if 'A' <= c && c <= 'Z' {
            ((c as u8) + 32) as char
        } else {
            c
        };
        push_char(&mut out, l);
        i = i + 1;
        assert(out@ =~= ascii_lower(s@).take(i as int));
    }
    assert(ascii_lower(s@).take(v@.len() as int) =~= ascii_lower(s@));
    out
}

// ---------------------------------------------------------------------------
// Decimal numbers.
pub open spec fn digit_char(d: nat) -> char {
    ((d + 48) as u32) as char
}

/// The decimal digits of `n`, without sign or leading zeros; what
/// `to_string` gives for an unsigned integer.
pub open spec fn decimal(n: nat) -> Seq<char>
    decreases n,
{
    if n < 10 {
        seq![digit_char(n)]
    } else {
        decimal(n / 10).push(digit_char(n % 10))
    }
}

/// The decimal text of a number is a nonempty run of digits whose value is
/// the number.
pub proof fn lemma_decimal_digits(n: nat)
    ensures
        decimal(n).len() > 0,
        all_digits(decimal(n)),
        digits_value(decimal(n)) == n,
    decreases n,
{
    let d = digit_char(n % 10);
    assert((d as u32) == n % 10 + 48);
    if n < 10 {
        assert(decimal(n).drop_last() =~= Seq::<char>::empty());
        assert(digits_value(decimal(n).drop_last()) == 0);
        assert(decimal(n).last() == d);
    } else {
        lemma_decimal_digits(n / 10);
        let s = decimal(n);
        assert(s.drop_last() == decimal(n / 10));
        assert forall|i: int| 0 <= i < s.len() implies is_digit(#[trigger] s[i]) by {
            if i < s.len() - 1 {
                assert(s[i] == decimal(n / 10)[i]);
            }
        }
        assert(s.last() == d);
        assert(digits_value(s) == digits_value(decimal(n / 10)) * 10 + n % 10);
        assert((n / 10) * 10 + n % 10 == n) by (nonlinear_arith);
    }
}

/// The decimal text of `n`.
pub fn decimal_string(n: u64) -> (r: String)
    ensures
        r@ == decimal(n as nat),
    decreases n,
{
    let d = ((n % 10) as u8 + 48) as char;
    assert(d == digit_char((n % 10) as nat));
    if n < 10 {
        let mut s = String::new();
        push_char(&mut s, d);
        assert(s@ =~= seq![digit_char(n as nat)]);
        s
    } else {
        let mut s = decimal_string(n / 10);
        push_char(&mut s, d);
        s
    }
}

/// The value of a string of decimal digits.
pub open spec fn digits_value(s: Seq<char>) -> nat
    decreases s.len(),
{
    if s.len() == 0 {
        0
    } else {
        digits_value(s.drop_last()) * 10 + ((s.last() as u32) - 48) as nat
    }
}

pub open spec fn all_digits(s: Seq<char>) -> bool {
    forall|i: int| 0 <= i < s.len() ==> is_digit(#[trigger] s[i])
}

/// What `str::parse` accepts for an unsigned integer type whose largest value
/// is `max`: an optional `+`, then at least one decimal digit, with a value
/// that fits.
pub open spec fn parse_unsigned(s: Seq<char>, max: nat) -> Option<nat> {
    let body = if s.len() > 0 && s[0] == '+' {
        s.drop_first()
    } else {
        s
    };
    if body.len() > 0 && all_digits(body) && digits_value(body) <= max {
        Some(digits_value(body))
    } else {
        None
    }
}

/// `str::parse` for an unsigned type whose largest value is `max`: the value
/// of `s` when it is an unsigned decimal number no larger than `max`.
pub fn parse_unsigned_str(s: &str, max: u64) -> (r: Option<u64>)
    ensures
        r matches Some(n) ==> parse_unsigned(s@, max as nat) == Some(n as nat),
        r is None ==> parse_unsigned(s@, max as nat) is None,
{
    let v = chars_of(s);
    let start: usize = if v.len() > 0 && v[0] == '+' {
        1
    } else {
        0
    };
    let ghost body = if s@.len() > 0 && s@[0] == '+' {
        s@.drop_first()
    } else {
        s@
    };
    assert(body =~= v@.skip(start as int));
    if start >= v.len() {
        return None;
    }
    let mut value: u128 = 0;
    let mut i = start;
    assert(v@.subrange(start as int, start as int) =~= Seq::<char>::empty());
    while i < v.len()
        invariant
            start <= i <= v.len(),
            v@ == s@,
            body == v@.skip(start as int),
            body == (if s@.len() > 0 && s@[0] == '+' {
                s@.drop_first()
            } else {
                s@
            }),
            value <= max,
            all_digits(v@.subrange(start as int, i as int)),
            value == digits_value(v@.subrange(start as int, i as int)),
        decreases v.len() - i,
    {
        let c = v[i];
        if c < '0' || c > '9' {
            assert(body[i - start] == c);
            assert(!is_digit(body[i - start]));
            return None;
        }
        let d = (c as u32 - 48) as u128;
        let ghost next = v@.subrange(start as int, i + 1);
        assert(next.drop_last() =~= v@.subrange(start as int, i as int));
        let next_value = value * 10 + d;
        if next_value > max as u128 {
            proof {
                assert(next.last() == c);
                assert(digits_value(next) == value * 10 + d);
                assert(next =~= body.take(i - start + 1));
                if all_digits(body) {
                    lemma_digits_prefix(body, i - start + 1);
                }
            }
            return None;
        }
        value = next_value;
        i = i + 1;
        assert(all_digits(v@.subrange(start as int, i as int)));
    }
    assert(v@.subrange(start as int, v@.len() as int) =~= body);
    Some(value as u64)
}

/// A prefix of a digit string is worth no more than the whole string.
pub proof fn lemma_digits_prefix(s: Seq<char>, k: int)
    requires
        0 <= k <= s.len(),
        all_digits(s),
    ensures
        digits_value(s.take(k)) <= digits_value(s),
    decreases s.len(),
{
    if k < s.len() {
        let t = s.drop_last();
        assert(all_digits(t));
        assert(s.take(k) =~= t.take(k));
        lemma_digits_prefix(t, k);
    } else {
        assert(s.take(k) =~= s);
    }
}

// ---------------------------------------------------------------------------
// Case mapping, replacement and trimming of characters.
/// Whether every character is ASCII.
pub open spec fn is_ascii_text(s: Seq<char>) -> bool {
    forall|i: int| 0 <= i < s.len() ==> (#[trigger] s[i] as u32) < 128
}

pub open spec fn upper_char(c: char) -> char {
    if 'a' <= c <= 'z' {
        ((c as u32) - 32) as char
    } else {
        c
    }
}

/// ASCII small letters become capitals, every other character stays.
pub open spec fn ascii_upper(s: Seq<char>) -> Seq<char> {
    s.map_values(|c: char| upper_char(c))
}

/// The full Unicode lowercase mapping that `str::to_lowercase` applies to
/// text that is not all ASCII.
pub uninterp spec fn spec_to_lowercase(s: Seq<char>) -> Seq<char>;

/// What `str::to_lowercase` gives: on ASCII text the ASCII mapping (capitals
/// to small letters, the rest unchanged), otherwise the Unicode mapping,
/// which is named.
pub open spec fn lowercase(s: Seq<char>) -> Seq<char> {
    if is_ascii_text(s) {
        ascii_lower(s)
    } else {
        spec_to_lowercase(s)
    }
}

/// `str::to_lowercase`. On ASCII text it maps only `A` to `Z`, as
/// `to_ascii_lowercase` does; the Unicode case tables that it applies to
/// other text are named, not written out.
#[verifier::external_body]
pub fn to_lowercase(s: &str) -> (r: String)
    ensures
        r@ == lowercase(s@),
        !is_ascii_text(s@) ==> r@ == spec_to_lowercase(s@),
{
    s.to_lowercase()
}

/// The full Unicode uppercase mapping that `str::to_uppercase` applies to
/// text that is not all ASCII.
pub uninterp spec fn spec_to_uppercase(s: Seq<char>) -> Seq<char>;

/// What `str::to_uppercase` gives: on ASCII text the ASCII mapping (small
/// letters to capitals, the rest unchanged), otherwise the Unicode mapping,
/// which is named.
pub open spec fn uppercase(s: Seq<char>) -> Seq<char> {
    if is_ascii_text(s) {
        ascii_upper(s)
    } else {
        spec_to_uppercase(s)
    }
}

/// `str::to_uppercase`. On ASCII text it maps only `a` to `z`, as
/// `to_ascii_uppercase` does; the Unicode case tables that it applies to
/// other text are named, not written out.
#[verifier::external_body]
pub fn to_uppercase(s: &str) -> (r: String)
    ensures
        r@ == uppercase(s@),
        !is_ascii_text(s@) ==> r@ == spec_to_uppercase(s@),
{
    s.to_uppercase()
}

/// `str::replace` of one character by a string.
pub fn replace_char_str(s: &str, from: char, to: &str) -> (r: String)
    ensures
        r@ == replace_char(s@, from, to@),
{
    let v = chars_of(s);
    let mut out = String::new();
    let mut i: usize = 0;
    while i < v.len()
        invariant
            i <= v.len(),
            v@ == s@,
            out@ == replace_char(s@.take(i as int), from, to@),
        decreases v.len() - i,
    {
        assert(s@.take(i + 1).drop_last() =~= s@.take(i as int));
        if v[i] == from {
            append(&mut out, to);
        } else {
            push_char(&mut out, v[i]);
        }
        i = i + 1;
        assert(replace_char(s@.take(i as int), from, to@) =~= out@);
    }
    assert(s@.take(v@.len() as int) =~= s@);
    out
}

proof fn lemma_trim_end_char_take(s: Seq<char>, c: char, j: int)
    requires
        0 < j <= s.len(),
        s[j - 1] == c,
    ensures
        trim_end_char(s.take(j), c) == trim_end_char(s.take(j - 1), c),
{
    assert(s.take(j).drop_last() =~= s.take(j - 1));
}

/// `str::trim_end_matches` with a character.
pub fn trim_end_char_str(s: &str, c: char) -> (r: String)
    ensures
        r@ == trim_end_char(s@, c),
{
    let v = chars_of(s);
    let mut j: usize = v.len();
    assert(s@.take(s@.len() as int) =~= s@);
    while j > 0 && v[j - 1] == c
        invariant
            j <= v.len(),
            v@ == s@,
            trim_end_char(s@, c) == trim_end_char(s@.take(j as int), c),
        decreases j,
    {
        proof {
            lemma_trim_end_char_take(s@, c, j as int);
        }
        j = j - 1;
    }
    let r = string_of_range(&v, 0, j);
    assert(r@ =~= s@.take(j as int));
    r
}

/// Whether `c` occurs in `s`.
pub fn contains_char(s: &str, c: char) -> (r: bool)
    ensures
        r == s@.contains(c),
{
    let v = chars_of(s);
    let mut i: usize = 0;
    while i < v.len()
        invariant
            i <= v.len(),
            v@ == s@,
            forall|j: int| 0 <= j < i ==> v@[j] != c,
        decreases v.len() - i,
    {
        if v[i] == c {
            assert(s@[i as int] == c);
            return true;
        }
        i = i + 1;
    }
    false
}

/// `str::contains` with a string pattern.
pub fn contains_str(s: &str, p: &str) -> (r: bool)
    ensures
        r == contains(s@, p@),
{
    let v = chars_of(s);
    let pv = chars_of(p);
    if pv.len() > v.len() {
        assert forall|i: int| !occurs_at(s@, p@, i) by {}
        return false;
    }
    let last = v.len() - pv.len();
    let mut i: usize = 0;
    loop
        invariant
            i <= last,
            last == v.len() - pv.len(),
            pv.len() <= v.len(),
            v@ == s@,
            pv@ == p@,
            forall|j: int| 0 <= j < i ==> !occurs_at(s@, p@, j),
        ensures
            forall|j: int| 0 <= j <= last ==> !occurs_at(s@, p@, j),
        decreases last - i,
    {
        assert(v@.skip(i as int).take(pv@.len() as int) =~= s@.subrange(i as int, i + p@.len()));
        if starts_with_at(&v, i, &pv) {
            assert(occurs_at(s@, p@, i as int));
            return true;
        }
        if i == last {
            break;
        }
        i = i + 1;
    }
    assert forall|j: int| !occurs_at(s@, p@, j) by {}
    false
}

/// `str::split_once` with a character.
pub fn split_once_char(s: &str, c: char) -> (r: Option<(String, String)>)
    ensures
        r is Some <==> split_once(s@, c) is Some,
        r matches Some((a, b)) ==> split_once(s@, c) == Some((a@, b@)),
{
    let v = chars_of(s);
    let mut i: usize = 0;
    while i < v.len()
        invariant
            i <= v.len(),
            v@ == s@,
            forall|j: int| 0 <= j < i ==> v@[j] != c,
        decreases v.len() - i,
    {
        if v[i] == c {
            proof {
                assert(s@[i as int] == c);
                assert(s@.contains(c));
                let k = first_index(s@, c);
                assert(k == i);
            }
            let a = string_of_range(&v, 0, i);
            let b = string_of_range(&v, i + 1, v.len());
            assert(a@ =~= s@.take(i as int));
            assert(b@ =~= s@.skip(i + 1));
            return Some((a, b));
        }
        i = i + 1;
    }
    assert(!s@.contains(c));
    None
}

/// `s.rsplit(c).next()`: what follows the last `c`, or all of `s`.
pub fn after_last_char(s: &str, c: char) -> (r: String)
    ensures
        r@ == after_last(s@, c),
{
    let v = chars_of(s);
    let mut j: usize = v.len();
    while j > 0
        invariant
            j <= v.len(),
            v@ == s@,
            forall|k: int| j <= k < v@.len() ==> v@[k] != c,
        decreases j,
    {
        if v[j - 1] == c {
            proof {
                assert(s@[j - 1] == c);
                assert(s@.contains(c));
                let k = last_index(s@, c);
                assert(k == j - 1);
            }
            let r = string_of_range(&v, j, v.len());
            assert(r@ =~= s@.skip(j as int));
            return r;
        }
        j = j - 1;
    }
    assert(!s@.contains(c));
    string_of(&v)
}

proof fn lemma_trim_start_char_skip(s: Seq<char>, c: char, i: int)
    requires
        0 <= i < s.len(),
        s[i] == c,
    ensures
        trim_start_char(s.skip(i), c) == trim_start_char(s.skip(i + 1), c),
{
    assert(s.skip(i).drop_first() =~= s.skip(i + 1));
}

/// `str::trim_start_matches` with a character.
pub fn trim_start_char_str(s: &str, c: char) -> (r: String)
    ensures
        r@ == trim_start_char(s@, c),
{
    let v = chars_of(s);
    let mut i: usize = 0;
    assert(s@.skip(0) =~= s@);
    while i < v.len() && v[i] == c
        invariant
            i <= v.len(),
            v@ == s@,
            trim_start_char(s@, c) == trim_start_char(s@.skip(i as int), c),
        decreases v.len() - i,
    {
        proof {
            lemma_trim_start_char_skip(s@, c, i as int);
        }
        i = i + 1;
    }
    let r = string_of_range(&v, i, v.len());
    assert(r@ =~= s@.skip(i as int));
    r
}

/// A line without the `\r` of a `\r\n` ending.
pub open spec fn strip_cr(line: Seq<char>) -> Seq<char> {
    if line.len() > 0 && line.last() == '\r' {
        line.drop_last()
    } else {
        line
    }
}

pub proof fn lemma_first_index(s: Seq<char>, c: char)
    requires
        s.contains(c),
    ensures
        0 <= first_index(s, c) < s.len(),
        s[first_index(s, c)] == c,
        forall|j: int| 0 <= j < first_index(s, c) ==> s[j] != c,
{
    let i = choose|i: int| 0 <= i < s.len() && s[i] == c;
    lemma_first_exists(s, c, i);
}

proof fn lemma_first_exists(s: Seq<char>, c: char, i: int)
    requires
        0 <= i < s.len(),
        s[i] == c,
    ensures
        exists|m: int| 0 <= m < s.len() && s[m] == c && forall|j: int| 0 <= j < m ==> s[j] != c,
    decreases i,
{
    if exists|j: int| 0 <= j < i && s[j] == c {
        let j = choose|j: int| 0 <= j < i && s[j] == c;
        lemma_first_exists(s, c, j);
    } else {
        assert(forall|j: int| 0 <= j < i ==> s[j] != c);
    }
}

/// `str::lines`: the pieces between `\n`s, each without a `\r` before its
/// `\n`; a final `\n` ends the last line and starts no new one.
#[verifier::opaque]
pub open spec fn lines(s: Seq<char>) -> Seq<Seq<char>>
    decreases s.len(),
{
    if s.len() == 0 {
        seq![]
    } else if s.contains('\n') {
        let i = first_index(s, '\n');
        proof {
            lemma_first_index(s, '\n');
        }
        seq![strip_cr(s.take(i))] + lines(s.skip(i + 1))
    } else {
        seq![s]
    }
}

pub proof fn lemma_lines_without_newline(s: Seq<char>)
    requires
        !s.contains('\n'),
    ensures
        lines(s) == (if s.len() == 0 {
            Seq::<Seq<char>>::empty()
        } else {
            seq![s]
        }),
{
    reveal(lines);
}

proof fn lemma_lines_step(s: Seq<char>, start: int, i: int)
    requires
        0 <= start <= i < s.len(),
        s[i] == '\n',
        forall|j: int| start <= j < i ==> s[j] != '\n',
    ensures
        lines(s.skip(start)) == seq![strip_cr(s.subrange(start, i))] + lines(s.skip(i + 1)),
{
    reveal(lines);
    let t = s.skip(start);
    assert(t[i - start] == '\n');
    assert(t.contains('\n'));
    let k = first_index(t, '\n');
    if k < i - start {
        assert(s[start + k] == '\n');
    }
    assert(k == i - start);
    assert(t.take(k) =~= s.subrange(start, i));
    assert(t.skip(k + 1) =~= s.skip(i + 1));
}

/// The lines of a text, as `str::lines` gives them.
pub fn split_lines(s: &str) -> (r: Vec<String>)
    ensures
        r@.map_values(|l: String| l@) == lines(s@),
{
    let v = chars_of(s);
    let mut out: Vec<String> = Vec::new();
    let mut start: usize = 0;
    let mut i: usize = 0;
    assert(s@.skip(0) =~= s@);
    while i < v.len()
        invariant
            start <= i <= v.len(),
            v@ == s@,
            forall|j: int| start <= j < i ==> s@[j] != '\n',
            lines(s@) == out@.map_values(|l: String| l@) + lines(s@.skip(start as int)),
        decreases v.len() - i,
    {
        if v[i] == '\n' {
            let end = if i > start && v[i - 1] == '\r' {
                i - 1
            } else {
                i
            };
            let line = string_of_range(&v, start, end);
            proof {
                lemma_lines_step(s@, start as int, i as int);
                assert(line@ == strip_cr(s@.subrange(start as int, i as int)));
                let before = out@.map_values(|l: String| l@);
                assert(before.push(line@) =~= before + seq![line@]);
            }
            let ghost before = out@;
            out.push(line);
            proof {
                assert(out@.map_values(|l: String| l@) =~= before.map_values(|l: String| l@)
                    + seq![out@.last()@]);
            }
            start = i + 1;
        }
        i = i + 1;
    }
    if start < v.len() {
        proof {
            let t = s@.skip(start as int);
            assert(!t.contains('\n')) by {
                if t.contains('\n') {
                    let j = choose|j: int| 0 <= j < t.len() && t[j] == '\n';
                    assert(s@[start + j] == '\n');
                }
            }
            lemma_lines_without_newline(t);
        }
        let line = string_of_range(&v, start, v.len());
        assert(line@ =~= s@.skip(start as int));
        let ghost before = out@;
        out.push(line);
        assert(out@.map_values(|l: String| l@) =~= before.map_values(|l: String| l@) + seq![
            out@.last()@,
        ]);
    } else {
        assert(s@.skip(start as int) =~= Seq::<char>::empty());
        proof {
            lemma_lines_without_newline(s@.skip(start as int));
        }
        assert(out@.map_values(|l: String| l@) =~= out@.map_values(|l: String| l@) + Seq::<
            Seq<char>,
        >::empty());
    }
    out
}

/// `str::trim_start_matches` with a string pattern.
pub fn trim_start_matches_str(s: &str, p: &str) -> (r: String)
    ensures
        r@ == trim_start_str(s@, p@),
{
    let mut cur = owned(s);
    if chars_of(p).len() == 0 {
        return cur;
    }
    loop
        invariant
            p@.len() > 0,
            trim_start_str(s@, p@) == trim_start_str(cur@, p@),
        decreases cur@.len(),
    {
        match strip_prefix(cur.as_str(), p) {
            Some(rest) => {
                cur = rest;
            },
            None => {
                return cur;
            },
        }
    }
}

/// `str::trim_end_matches` with a string pattern.
pub fn trim_end_matches_str(s: &str, p: &str) -> (r: String)
    ensures
        r@ == trim_end_str(s@, p@),
{
    let mut cur = owned(s);
    if chars_of(p).len() == 0 {
        return cur;
    }
    loop
        invariant
            p@.len() > 0,
            trim_end_str(s@, p@) == trim_end_str(cur@, p@),
        decreases cur@.len(),
    {
        match strip_suffix(cur.as_str(), p) {
            Some(rest) => {
                cur = rest;
            },
            None => {
                return cur;
            },
        }
    }
}

/// The length of the leading run of non-whitespace characters.
pub open spec fn word_len(t: Seq<char>) -> nat
    decreases t.len(),
{
    if t.len() == 0 || is_ws(t[0]) {
        0
    } else {
        1 + word_len(t.drop_first())
    }
}

pub proof fn lemma_word_len(t: Seq<char>)
    ensures
        word_len(t) <= t.len(),
        forall|j: int| 0 <= j < word_len(t) ==> !is_ws(#[trigger] t[j]),
        word_len(t) < t.len() ==> is_ws(t[word_len(t) as int]),
    decreases t.len(),
{
    if t.len() > 0 && !is_ws(t[0]) {
        lemma_word_len(t.drop_first());
        assert forall|j: int| 0 <= j < word_len(t) implies !is_ws(#[trigger] t[j]) by {
            if j > 0 {
                assert(t[j] == t.drop_first()[j - 1]);
            }
        }
    }
}

pub proof fn lemma_trim_start_len(s: Seq<char>)
    ensures
        trim_start(s).len() <= s.len(),
        trim_start(s).len() > 0 ==> !is_ws(trim_start(s)[0]),
        trim_start(s) == s.skip(s.len() - trim_start(s).len()),
        forall|j: int| 0 <= j < s.len() - trim_start(s).len() ==> is_ws(#[trigger] s[j]),
    decreases s.len(),
{
    if s.len() > 0 && is_ws(s[0]) {
        lemma_trim_start_len(s.drop_first());
        assert(s.drop_first().skip(s.drop_first().len() - trim_start(s.drop_first()).len()) =~= s.skip(
            s.len() - trim_start(s).len(),
        ));
        assert forall|j: int| 0 <= j < s.len() - trim_start(s).len() implies is_ws(#[trigger] s[j]) by {
            if j > 0 {
                assert(s[j] == s.drop_first()[j - 1]);
            }
        }
    } else {
        assert(s.skip(0) =~= s);
    }
}

/// `str::split_whitespace`: the maximal runs of non-whitespace characters.
pub open spec fn words(s: Seq<char>) -> Seq<Seq<char>>
    decreases s.len(),
{
    let t = trim_start(s);
    if t.len() == 0 {
        seq![]
    } else {
        proof {
            lemma_trim_start_len(s);
            lemma_word_len(t);
        }
        seq![t.take(word_len(t) as int)] + words(t.skip(word_len(t) as int))
    }
}

proof fn lemma_words_skip_ws(s: Seq<char>, i: int)
    requires
        0 <= i < s.len(),
        is_ws(s[i]),
    ensures
        words(s.skip(i)) == words(s.skip(i + 1)),
{
    assert(s.skip(i).drop_first() =~= s.skip(i + 1));
    assert(trim_start(s.skip(i)) == trim_start(s.skip(i + 1)));
}

proof fn lemma_words_word(s: Seq<char>, i: int, j: int)
    requires
        0 <= i < j <= s.len(),
        forall|k: int| i <= k < j ==> !is_ws(#[trigger] s[k]),
        j == s.len() || is_ws(s[j]),
    ensures
        words(s.skip(i)) == seq![s.subrange(i, j)] + words(s.skip(j)),
{
    let t = s.skip(i);
    assert(!is_ws(t[0]));
    assert(trim_start(t) == t);
    lemma_word_len(t);
    let n = word_len(t);
    if n < j - i {
        assert(is_ws(t[n as int]));
        assert(t[n as int] == s[i + n]);
    }
    if n > j - i {
        assert(!is_ws(t[j - i]));
        assert(t[j - i] == s[j]);
    }
    assert(n == j - i);
    assert(t.take(n as int) =~= s.subrange(i, j));
    assert(t.skip(n as int) =~= s.skip(j));
}

/// The words of a text, split at whitespace.
pub fn split_words(s: &str) -> (r: Vec<String>)
    ensures
        r@.map_values(|w: String| w@) == words(s@),
{
    let v = chars_of(s);
    let mut out: Vec<String> = Vec::new();
    let mut i: usize = 0;
    assert(s@.skip(0) =~= s@);
    while i < v.len()
        invariant
            i <= v.len(),
            v@ == s@,
            words(s@) == out@.map_values(|w: String| w@) + words(s@.skip(i as int)),
        decreases v.len() - i,
    {
        if is_whitespace(v[i]) {
            proof {
                lemma_words_skip_ws(s@, i as int);
            }
            i = i + 1;
        } else {
            let start = i;
            while i < v.len() && !is_whitespace(v[i])
                invariant
                    start < v.len(),
                    start <= i <= v.len(),
                    v@ == s@,
                    forall|k: int| start <= k < i ==> !is_ws(#[trigger] s@[k]),
                decreases v.len() - i,
            {
                i = i + 1;
            }
            proof {
                assert(!is_ws(s@[start as int]));
                lemma_words_word(s@, start as int, i as int);
            }
            let w = string_of_range(&v, start, i);
            let ghost before = out@.map_values(|w: String| w@);
            out.push(w);
            assert(out@.map_values(|w: String| w@) =~= before + seq![out@.last()@]);
        }
    }
    proof {
        assert(s@.skip(i as int) =~= Seq::<char>::empty());
        assert(trim_start(Seq::<char>::empty()) =~= Seq::<char>::empty());
        assert(words(s@.skip(i as int)) =~= Seq::<Seq<char>>::empty());
    }
    assert(out@.map_values(|w: String| w@) + Seq::<Seq<char>>::empty() =~= out@.map_values(
        |w: String| w@,
    ));
    out
}

/// The pieces joined with `sep` between them; `[T]::join`.
pub open spec fn joined(pieces: Seq<Seq<char>>, sep: Seq<char>) -> Seq<char>
    decreases pieces.len(),
{
    if pieces.len() == 0 {
        seq![]
    } else if pieces.len() == 1 {
        pieces[0]
    } else {
        joined(pieces.drop_last(), sep) + sep + pieces.last()
    }
}

/// Joins the pieces with `sep` between them.
pub fn join_strings(pieces: &Vec<String>, sep: &str) -> (r: String)
    ensures
        r@ == joined(pieces@.map_values(|p: String| p@), sep@),
{
    let ghost ps = pieces@.map_values(|p: String| p@);
    let mut out = String::new();
    let mut i: usize = 0;
    assert(ps.take(0) =~= Seq::<Seq<char>>::empty());
    while i < pieces.len()
        invariant
            i <= pieces@.len(),
            ps == pieces@.map_values(|p: String| p@),
            out@ == joined(ps.take(i as int), sep@),
        decreases pieces.len() - i,
    {
        proof {
            assert(ps.take(i + 1).drop_last() =~= ps.take(i as int));
            assert(ps.take(i + 1).last() == pieces@[i as int]@);
        }
        if i > 0 {
            append(&mut out, sep);
        }
        append(&mut out, pieces[i].as_str());
        proof {
            if i == 0 {
                assert(out@ =~= ps.take(1)[0]);
            }
        }
        i = i + 1;
    }
    assert(ps.take(pieces@.len() as int) =~= ps);
    out
}

proof fn lemma_first_occurrence_exists(s: Seq<char>, p: Seq<char>, i: int)
    requires
        occurs_at(s, p, i),
    ensures
        exists|m: int| occurs_at(s, p, m) && forall|j: int| 0 <= j < m ==> !occurs_at(s, p, j),
    decreases i,
{
    if exists|j: int| 0 <= j < i && occurs_at(s, p, j) {
        let j = choose|j: int| 0 <= j < i && occurs_at(s, p, j);
        lemma_first_occurrence_exists(s, p, j);
    }
}

/// Where `p` first occurs in `s`, if it does.
pub open spec fn first_occurrence(s: Seq<char>, p: Seq<char>) -> Option<int> {
    if exists|i: int| occurs_at(s, p, i) {
        Some(choose|i: int| occurs_at(s, p, i) && forall|j: int| 0 <= j < i ==> !occurs_at(s, p, j))
    } else {
        None
    }
}

/// `str::split_once` with a string pattern.
pub open spec fn split_once_at(s: Seq<char>, p: Seq<char>) -> Option<(Seq<char>, Seq<char>)> {
    match first_occurrence(s, p) {
        Some(i) => Some((s.take(i), s.skip(i + p.len()))),
        None => None,
    }
}

pub fn split_once_str(s: &str, p: &str) -> (r: Option<(String, String)>)
    ensures
        match split_once_at(s@, p@) {
            Some((a, b)) => r matches Some((x, y)) && x@ == a && y@ == b,
            None => r is None,
        },
{
    let v = chars_of(s);
    let pv = chars_of(p);
    if pv.len() > v.len() {
        assert forall|i: int| !occurs_at(s@, p@, i) by {}
        return None;
    }
    let last = v.len() - pv.len();
    let mut i: usize = 0;
    loop
        invariant
            i <= last,
            last == v.len() - pv.len(),
            pv.len() <= v.len(),
            v@ == s@,
            pv@ == p@,
            forall|j: int| 0 <= j < i ==> !occurs_at(s@, p@, j),
        ensures
            forall|j: int| 0 <= j <= last ==> !occurs_at(s@, p@, j),
        decreases last - i,
    {
        assert(v@.skip(i as int).take(pv@.len() as int) =~= s@.subrange(i as int, i + p@.len()));
        if starts_with_at(&v, i, &pv) {
            proof {
                assert(occurs_at(s@, p@, i as int));
                lemma_first_occurrence_exists(s@, p@, i as int);
                let k = choose|k: int| occurs_at(s@, p@, k) && forall|j: int| 0 <= j < k ==> !occurs_at(s@, p@, j);
                if k > i {
                    assert(!occurs_at(s@, p@, i as int));
                }
                assert(k == i);
            }
            let a = string_of_range(&v, 0, i);
            let b = string_of_range(&v, i + pv.len(), v.len());
            assert(a@ =~= s@.take(i as int));
            assert(b@ =~= s@.skip(i + p@.len()));
            return Some((a, b));
        }
        if i == last {
            break;
        }
        i = i + 1;
    }
    assert forall|i: int| !occurs_at(s@, p@, i) by {}
    None
}

} // verus!
