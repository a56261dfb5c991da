//! What the library has from `serde_json`: a JSON document as plain values,
//! the text of a string value, and reading members of a document.
use crate::text::str_eq;
use vstd::prelude::*;

verus! {

/// A JSON number as the library reads it: its value as `u64` and as `i64`,
/// where it has one (`serde_json::Number::as_u64` and `as_i64`).
pub struct JsonNumber {
    pub as_u64: Option<u64>,
    pub as_i64: Option<i64>,
}

/// A JSON value. Object members keep the order `serde_json` keeps them in:
/// increasing key order, each key once.
pub enum Json {
    Null,
    Bool(bool),
    Number(JsonNumber),
    Str(String),
    Array(Vec<Json>),
    Object(Vec<(String, Json)>),
}

/// What `serde_json::from_str::<Value>` gives for `text`: the document, or
/// the text of its error.
pub uninterp spec fn spec_json_result(text: Seq<char>) -> Result<Json, Seq<char>>;

/// The document in `text`, if it is JSON.
pub open spec fn spec_json_parse(text: Seq<char>) -> Option<Json> {
    match spec_json_result(text) {
        Ok(v) => Some(v),
        Err(_) => None,
    }
}

/// `serde_json::from_str::<Value>`: the document in `text`, or the error's
/// text. The parse itself is named, not written out.
#[verifier::external_body]
pub fn parse_json_text(text: &str) -> (r: Result<Json, String>)
    ensures
        match spec_json_result(text@) {
            Ok(v) => r == Ok::<Json, String>(v),
            Err(e) => r matches Err(m) && m@ == e,
        },
{
    match serde_json::from_str::<serde_json::Value>(text) {
        Ok(value) => Ok(json_from_value(value)),
        Err(error) => Err(error.to_string()),
    }
}

/// The document in `text`, or `None` when `text` is not JSON.
pub fn parse_json(text: &str) -> (r: Option<Json>)
    ensures
        r == spec_json_parse(text@),
{
    match parse_json_text(text) {
        Ok(v) => Some(v),
        Err(_) => None,
    }
}

/// `serde_json::Value`, carried through opaquely.
#[verifier::external_type_specification]
#[verifier::external_body]
pub struct ExJsonValue(serde_json::Value);

/// Moves a `serde_json::Value` into the library's `Json`, variant by
/// variant.
#[verifier::external_body]
fn json_from_value(value: serde_json::Value) -> Json {
    match value {
        serde_json::Value::Null => Json::Null,
        serde_json::Value::Bool(b) => Json::Bool(b),
        serde_json::Value::Number(n) => Json::Number(JsonNumber { as_u64: n.as_u64(), as_i64: n.as_i64() }),
        serde_json::Value::String(s) => Json::Str(s),
        serde_json::Value::Array(items) => Json::Array(items.into_iter().map(json_from_value).collect()),
        serde_json::Value::Object(map) => Json::Object(map.into_iter().map(|(k, v)| (k, json_from_value(v))).collect()),
    }
}

/// How `serde_json` writes one character inside a string: `"` and `\\`
/// behind a backslash; backspace, tab, line feed, form feed and carriage
/// return as `\\b`, `\\t`, `\\n`, `\\f`, `\\r`; any other control
/// character below U+0020 as `\\u00` and two lowercase hex digits; every
/// other character as itself.
pub open spec fn json_escape_char(c: char) -> Seq<char> {
    let code = c as u32;
    if c == '"' {
        seq!['\\', '"']
    } else if c == '\\' {
        seq!['\\', '\\']
    } else if code == 8 {
        seq!['\\', 'b']
    } else if code == 9 {
        seq!['\\', 't']
    } else if code == 10 {
        seq!['\\', 'n']
    } else if code == 12 {
        seq!['\\', 'f']
    } else if code == 13 {
        seq!['\\', 'r']
    } else if code < 32 {
        seq!['\\', 'u', '0', '0', hex_digit(code / 16), hex_digit(code % 16)]
    } else {
        seq![c]
    }
}

/// A lowercase hexadecimal digit.
pub open spec fn hex_digit(d: u32) -> char {
    if d < 10 {
        (48 + d) as char
    } else {
        (87 + d) as char
    }
}

/// The characters of a string, each written as `json_escape_char` says.
pub open spec fn json_escaped(s: Seq<char>) -> Seq<char>
    decreases s.len(),
{
    if s.len() == 0 {
        seq![]
    } else {
        json_escaped(s.drop_last()) + json_escape_char(s.last())
    }
}

/// The JSON text of a string value, as `serde_json` writes it: the
/// escaped characters between double quotes.
pub open spec fn spec_json_string(s: Seq<char>) -> Seq<char> {
    seq!['"'] + json_escaped(s) + seq!['"']
}

#[verifier::external_body]
pub fn json_string(s: &str) -> (r: String)
    ensures
        r@ == spec_json_string(s@),
{
    match serde_json::to_string(s) {
        Ok(text) => text,
        Err(error) => error.to_string(),
    }
}

/// The index of the first member named `key`, if any.
pub open spec fn member_index(members: Seq<(String, Json)>, key: Seq<char>) -> Option<int> {
    if exists|i: int| 0 <= i < members.len() && #[trigger] members[i].0@ == key {
        Some(
            choose|i: int|
                0 <= i < members.len() && #[trigger] members[i].0@ == key && forall|j: int|
                    0 <= j < i ==> members[j].0@ != key,
        )
    } else {
        None
    }
}

/// The member named `key` of an object value; `Value::get` with a string key.
pub open spec fn spec_get(value: Json, key: Seq<char>) -> Option<Json> {
    match value {
        Json::Object(members) => match member_index(members@, key) {
            Some(i) => Some(members@[i].1),
            None => None,
        },
        _ => None,
    }
}

/// `Value::as_str`.
pub open spec fn spec_as_str(value: Option<Json>) -> Option<Seq<char>> {
    match value {
        Some(Json::Str(s)) => Some(s@),
        _ => None,
    }
}

/// `Value::as_u64`.
pub open spec fn spec_as_u64(value: Option<Json>) -> Option<u64> {
    match value {
        Some(Json::Number(n)) => n.as_u64,
        _ => None,
    }
}

/// `Value::as_i64`.
pub open spec fn spec_as_i64(value: Option<Json>) -> Option<i64> {
    match value {
        Some(Json::Number(n)) => n.as_i64,
        _ => None,
    }
}

/// `Value::as_bool`.
pub open spec fn spec_as_bool(value: Option<Json>) -> Option<bool> {
    match value {
        Some(Json::Bool(b)) => Some(b),
        _ => None,
    }
}

proof fn lemma_first_member(members: Seq<(String, Json)>, key: Seq<char>, i: int)
    requires
        0 <= i < members.len(),
        members[i].0@ == key,
        forall|j: int| 0 <= j < i ==> members[j].0@ != key,
    ensures
        member_index(members, key) == Some(i),
{
    let k = choose|k: int|
        0 <= k < members.len() && #[trigger] members[k].0@ == key && forall|j: int|
            0 <= j < k ==> members[j].0@ != key;
    assert(0 <= k < members.len() && members[k].0@ == key && forall|j: int|
        0 <= j < k ==> members[j].0@ != key);
    if k < i {
    } else if k > i {
        assert(members[i].0@ != key);
    }
}

/// The member named `key` of an object value; `Value::get`.
pub fn get<'a>(value: &'a Json, key: &str) -> (r: Option<&'a Json>)
    ensures
        r matches Some(v) ==> spec_get(*value, key@) == Some(*v),
        r is None ==> spec_get(*value, key@) is None,
{
    match value {
        Json::Object(members) => {
            let mut i: usize = 0;
            while i < members.len()
                invariant
                    i <= members@.len(),
                    *value == Json::Object(*members),
                    forall|j: int| 0 <= j < i ==> members@[j].0@ != key@,
                decreases members.len() - i,
            {
                if str_eq(members[i].0.as_str(), key) {
                    proof {
                        lemma_first_member(members@, key@, i as int);
                        assert(spec_get(*value, key@) == Some(members@[i as int].1));
                    }
                    return Some(&members[i].1);
                }
                i = i + 1;
            }
            None
        },
        _ => None,
    }
}

/// `Value::as_str`.
pub fn as_str(value: Option<&Json>) -> (r: Option<&str>)
    ensures
        r matches Some(s) ==> spec_as_str(opt_json(value)) == Some(s@),
        r is None ==> spec_as_str(opt_json(value)) is None,
{
    match value {
        Some(Json::Str(s)) => Some(s.as_str()),
        _ => None,
    }
}

/// `Value::as_u64`.
pub fn as_u64(value: Option<&Json>) -> (r: Option<u64>)
    ensures
        r == spec_as_u64(opt_json(value)),
{
    match value {
        Some(Json::Number(n)) => n.as_u64,
        _ => None,
    }
}

/// `Value::as_i64`.
pub fn as_i64(value: Option<&Json>) -> (r: Option<i64>)
    ensures
        r == spec_as_i64(opt_json(value)),
{
    match value {
        Some(Json::Number(n)) => n.as_i64,
        _ => None,
    }
}

/// `Value::as_bool`.
pub fn as_bool(value: Option<&Json>) -> (r: Option<bool>)
    ensures
        r == spec_as_bool(opt_json(value)),
{
    match value {
        Some(Json::Bool(b)) => Some(*b),
        _ => None,
    }
}

/// The value behind an optional reference.
pub open spec fn opt_json(value: Option<&Json>) -> Option<Json> {
    match value {
        Some(v) => Some(*v),
        None => None,
    }
}

proof fn lemma_first_exists(members: Seq<(String, Json)>, key: Seq<char>, i: int)
    requires
        0 <= i < members.len(),
        members[i].0@ == key,
    ensures
        exists|m: int|
            0 <= m < members.len() && #[trigger] members[m].0@ == key && forall|j: int|
                0 <= j < m ==> members[j].0@ != key,
    decreases i,
{
    if exists|j: int| 0 <= j < i && #[trigger] members[j].0@ == key {
        let j = choose|j: int| 0 <= j < i && #[trigger] members[j].0@ == key;
        lemma_first_exists(members, key, j);
    } else {
        assert(forall|j: int| 0 <= j < i ==> members[j].0@ != key);
    }
}

proof fn lemma_member_index_facts(members: Seq<(String, Json)>, key: Seq<char>)
    ensures
        member_index(members, key) matches Some(i) ==> 0 <= i < members.len() && members[i].0@ == key
            && forall|j: int| 0 <= j < i ==> members[j].0@ != key,
        member_index(members, key) is None ==> forall|j: int|
            0 <= j < members.len() ==> members[j].0@ != key,
{
    if exists|i: int| 0 <= i < members.len() && #[trigger] members[i].0@ == key {
        let i = choose|i: int| 0 <= i < members.len() && #[trigger] members[i].0@ == key;
        lemma_first_exists(members, key, i);
    }
}

/// Two member lists that agree on every position holding `key`, and hold
/// `key` at the same positions, give the same first member named `key`.
proof fn lemma_same_members_for_key(a: Seq<(String, Json)>, b: Seq<(String, Json)>, key: Seq<char>)
    requires
        a.len() <= b.len(),
        forall|j: int| 0 <= j < a.len() ==> (a[j].0@ == key <==> b[j].0@ == key),
        forall|j: int| 0 <= j < a.len() && a[j].0@ == key ==> a[j].1 == b[j].1,
        forall|j: int| a.len() <= j < b.len() ==> b[j].0@ != key,
    ensures
        match member_index(a, key) {
            Some(i) => member_index(b, key) matches Some(k) && k == i && b[k].1 == a[i].1,
            None => member_index(b, key) is None,
        },
{
    lemma_member_index_facts(a, key);
    match member_index(a, key) {
        Some(i) => {
            lemma_first_member(b, key, i);
        },
        None => {
            lemma_member_index_facts(b, key);
            if member_index(b, key) is Some {
                let k = member_index(b, key)->0;
                if k < a.len() {
                    assert(a[k].0@ == key);
                }
            }
        },
    }
}

/// The object with member `key` set to `member`: the first member of that
/// name is replaced, or the member is added at the end; `Map::insert` on the
/// members of an object. A value that is not an object is left as it is.
pub fn set_member(value: Json, key: String, member: Json) -> (r: Json)
    ensures
        value is Object ==> r is Object && spec_get(r, key@) == Some(member) && forall|k: Seq<char>|
            k != key@ ==> #[trigger] spec_get(r, k) == spec_get(value, k),
        !(value is Object) ==> r == value,
{
    match value {
        Json::Object(members) => {
            let mut members = members;
            let ghost old_members = members@;
            let mut i: usize = 0;
            while i < members.len() && !str_eq(members[i].0.as_str(), key.as_str())
                invariant
                    i <= members@.len(),
                    members@ == old_members,
                    forall|j: int| 0 <= j < i ==> members@[j].0@ != key@,
                decreases members.len() - i,
            {
                i = i + 1;
            }
            if i < members.len() {
                let (old_key, _) = members.remove(i);
                members.insert(i, (old_key, member));
                proof {
                    let nm = members@;
                    assert(nm =~= old_members.update(i as int, (old_members[i as int].0, member)));
                    lemma_first_member(nm, key@, i as int);
                    assert forall|k: Seq<char>| k != key@ implies member_index(nm, k) == member_index(
                        old_members,
                        k,
                    ) && (member_index(nm, k) matches Some(x) ==> nm[x].1 == old_members[x].1) by {
                        lemma_same_members_for_key(old_members, nm, k);
                    }
                }
                Json::Object(members)
            } else {
                members.push((key, member));
                proof {
                    let nm = members@;
                    lemma_first_member(nm, key@, old_members.len() as int);
                    assert forall|k: Seq<char>| k != key@ implies member_index(nm, k) == member_index(
                        old_members,
                        k,
                    ) && (member_index(nm, k) matches Some(x) ==> nm[x].1 == old_members[x].1) by {
                        lemma_same_members_for_key(old_members, nm, k);
                    }
                }
                Json::Object(members)
            }
        },
        other => other,
    }
}

} // verus!
