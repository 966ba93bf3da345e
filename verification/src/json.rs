use vstd::prelude::*;
use crate::text::str_eq;

verus! {

/// A parsed JSON document, as the wire protocol reads it.
#[derive(Debug)]
pub enum JsonValue {
    Null,
    Bool(bool),
    /// A number: its value when it is an integer in `0..=u64::MAX`, `None` for any other
    /// number (negative, fractional or too large).
    Number(Option<u64>),
    Str(String),
    Array(Vec<JsonValue>),
    /// An object's members, one per distinct key.
    Object(Vec<(String, JsonValue)>),
}

#[verifier::external_type_specification]
#[verifier::external_body]
pub struct ExSerdeJsonValue(serde_json::Value);

/// What `serde_json` makes of `bytes` as one JSON document: the tree, or the text of its error
/// when they are not one.
pub uninterp spec fn json_document(bytes: Seq<u8>) -> Result<JsonValue, Seq<char>>;

/// Turns a `serde_json::Value` into the library's own tree, one node for one node; a
/// number keeps what `serde_json::Number::as_u64` gives. Part of `parse_json_document`.
#[verifier::external_body]
fn json_tree(v: serde_json::Value) -> JsonValue {
    match v {
        serde_json::Value::Null => JsonValue::Null,
        serde_json::Value::Bool(b) => JsonValue::Bool(b),
        serde_json::Value::Number(n) => JsonValue::Number(n.as_u64()),
        serde_json::Value::String(s) => JsonValue::Str(s),
        serde_json::Value::Array(a) => JsonValue::Array(a.into_iter().map(json_tree).collect()),
        serde_json::Value::Object(o) => JsonValue::Object(
            o.into_iter().map(|(k, x)| (k, json_tree(x))).collect(),
        ),
    }
}

/// Parses `bytes` with `serde_json::from_slice` into a `serde_json::Value` and hands it back
/// as a `JsonValue`, or the error's text (its `Display`). Claimed: the result is the named
/// parse of the bytes, so the same bytes always give the same tree or the same error text.
/// Nothing is claimed of which texts parse.
#[verifier::external_body]
pub(crate) fn parse_json_document(bytes: &[u8]) -> (r: Result<JsonValue, String>)
    ensures
        match json_document(bytes@) {
            Ok(v) => r == Ok::<JsonValue, String>(v),
            Err(m) => r matches Err(e) && e@ == m,
        },
{
    match serde_json::from_slice::<serde_json::Value>(bytes) {
        Ok(v) => Ok(json_tree(v)),
        Err(e) => Err(e.to_string()),
    }
}

/// Lower-case hexadecimal digit of `d < 16`.
pub open spec fn hex_digit(d: u32) -> char {
    if d < 10 {
        (('0' as u32) + d) as char
    } else {
        (('a' as u32) + d - 10) as char
    }
}

/// How `serde_json` writes one character inside a string literal: quote and backslash are
/// escaped with a backslash; control characters below U+0020 by their short escape or by
/// `\u00XX`; every other character as itself.
pub open spec fn json_escaped_char(c: char) -> Seq<char> {
    if c == '"' {
        seq!['\\', '"']
    } else if c == '\\' {
        seq!['\\', '\\']
    } else if c == '\u{8}' {
        seq!['\\', 'b']
    } else if c == '\t' {
        seq!['\\', 't']
    } else if c == '\n' {
        seq!['\\', 'n']
    } else if c == '\u{c}' {
        seq!['\\', 'f']
    } else if c == '\r' {
        seq!['\\', 'r']
    } else if (c as u32) < 0x20 {
        seq!['\\', 'u', '0', '0', hex_digit((c as u32) / 16), hex_digit((c as u32) % 16)]
    } else {
        seq![c]
    }
}

/// The escaped characters of `s`, in order.
pub open spec fn json_escaped(s: Seq<char>) -> Seq<char>
    decreases s.len(),
{
    if s.len() == 0 {
        Seq::empty()
    } else {
        json_escaped(s.drop_last()) + json_escaped_char(s.last())
    }
}

/// The JSON string literal that `serde_json` writes for `s`.
pub open spec fn json_string_literal(s: Seq<char>) -> Seq<char> {
    seq!['"'] + json_escaped(s) + seq!['"']
}

/// Writes `s` as a JSON string literal with `serde_json::to_string`. Claimed: the literal
/// is `json_string_literal(s)`, as `serde_json`'s escape table writes it; serialising a
/// string cannot fail.
#[verifier::external_body]
pub(crate) fn json_quote(s: &str) -> (r: String)
    ensures
        r@ == json_string_literal(s@),
{
    match serde_json::to_string(s) {
        Ok(t) => t,
        Err(_) => String::new(),
    }
}

/// Whether `bytes` are well-formed UTF-8.
pub fn is_valid_utf8(bytes: &[u8]) -> (r: bool)
    ensures
        r == vstd::utf8::valid_utf8(bytes@),
{
    crate::text::utf8_text(bytes).is_some()
}

/// The value of member `key` of an object's members, if there is one.
pub open spec fn member(members: Seq<(String, JsonValue)>, key: Seq<char>) -> Option<JsonValue>
    decreases members.len(),
{
    if members.len() == 0 {
        None
    } else if members.last().0@ == key {
        Some(members.last().1)
    } else {
        member(members.drop_last(), key)
    }
}

/// Whether every member's key is one of `keys`.
pub open spec fn keys_within(members: Seq<(String, JsonValue)>, keys: Seq<Seq<char>>) -> bool {
    forall|i: int| 0 <= i < members.len() ==> keys.contains(#[trigger] members[i].0@)
}

/// Looks up member `key`; gives a reference to its value.
pub fn find_member<'a>(members: &'a Vec<(String, JsonValue)>, key: &str) -> (r: Option<&'a JsonValue>)
    ensures
        match member(members@, key@) {
            Some(v) => r == Some(&v),
            None => r is None,
        },
{
    let mut i: usize = members.len();
    assert(members@.take(i as int) =~= members@);
    while i > 0
        invariant
            i <= members@.len(),
            member(members@, key@) == member(members@.take(i as int), key@),
        decreases i,
    {
        assert(members@.take(i as int).drop_last() =~= members@.take(i - 1));
        assert(members@.take(i as int).last() == members@[i - 1]);
        if str_eq(members[i - 1].0.as_str(), key) {
            return Some(&members[i - 1].1);
        }
        i = i - 1;
    }
    assert(members@.take(0) =~= Seq::<(String, JsonValue)>::empty());
    None
}

/// Whether every member's key is one of `keys`.
pub fn all_keys_within(members: &Vec<(String, JsonValue)>, keys: &[&str]) -> (r: bool)
    ensures
        r == keys_within(members@, keys@.map_values(|k: &str| k@)),
{
    let ghost ks = keys@.map_values(|k: &str| k@);
    let mut i: usize = 0;
    while i < members.len()
        invariant
            i <= members@.len(),
            ks == keys@.map_values(|k: &str| k@),
            forall|m: int| 0 <= m < i ==> ks.contains(#[trigger] members@[m].0@),
        decreases members.len() - i,
    {
        let mut found = false;
        let mut j: usize = 0;
        while j < keys.len()
            invariant
                i < members@.len(),
                j <= keys@.len(),
                ks == keys@.map_values(|k: &str| k@),
                found ==> ks.contains(members@[i as int].0@),
                !found ==> forall|q: int| 0 <= q < j ==> ks[q] != members@[i as int].0@,
            decreases keys.len() - j,
        {
            if str_eq(members[i].0.as_str(), keys[j]) {
                found = true;
                assert(ks[j as int] == members@[i as int].0@);
            }
            j = j + 1;
        }
        if !found {
            assert(!ks.contains(members@[i as int].0@));
            return false;
        }
        i = i + 1;
    }
    true
}

} // verus!
