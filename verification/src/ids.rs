use vstd::prelude::*;

verus! {

/// Stable identity of a core group (`group-<n>` when allocated by this tool).
#[derive(Debug, PartialEq, Eq, Hash)]
pub struct GroupId(pub String);

/// Stable identity of a launch rule (`rule-<n>` when allocated by this tool).
#[derive(Debug, PartialEq, Eq, Hash)]
pub struct RuleId(pub String);

impl View for GroupId {
    type V = Seq<char>;

    open spec fn view(&self) -> Seq<char> {
        self.0@
    }
}

impl View for RuleId {
    type V = Seq<char>;

    open spec fn view(&self) -> Seq<char> {
        self.0@
    }
}

impl Clone for GroupId {
    fn clone(&self) -> (r: Self)
        ensures
            r == *self,
    {
        GroupId(self.0.clone())
    }
}

impl Clone for RuleId {
    fn clone(&self) -> (r: Self)
        ensures
            r == *self,
    {
        RuleId(self.0.clone())
    }
}

/// Longest identifier accepted on the command line or over the local endpoint.
pub const MAX_CLI_ID_CHARS: usize = 128;

/// A character allowed in identifiers passed on the command line.
pub open spec fn is_cli_id_char(c: char) -> bool {
    ('a' <= c && c <= 'z') || ('A' <= c && c <= 'Z') || ('0' <= c && c <= '9') || c == '-' || c
        == '_'
}

/// An identifier that can travel on a command line unquoted: non-empty, bounded, and made of
/// ASCII letters, digits, `-` and `_` only.
pub open spec fn is_cli_safe_id_spec(s: Seq<char>) -> bool {
    &&& 0 < s.len() <= MAX_CLI_ID_CHARS
    &&& forall|i: int| 0 <= i < s.len() ==> is_cli_id_char(#[trigger] s[i])
}

/// Checks that an identifier is safe to pass on a command line.
pub fn is_cli_safe_id(id: &str) -> (r: bool)
    ensures
        r == is_cli_safe_id_spec(id@),
{
    let v = crate::text::str_chars(id);
    if v.len() == 0 || v.len() > MAX_CLI_ID_CHARS {
        return false;
    }
    let mut i: usize = 0;
    while i < v.len()
        invariant
            i <= v@.len(),
            v@ == id@,
            forall|j: int| 0 <= j < i ==> is_cli_id_char(#[trigger] v@[j]),
        decreases v.len() - i,
    {
        let c = v[i];
        if !(('a' <= c && c <= 'z') || ('A' <= c && c <= 'Z') || ('0' <= c && c <= '9') || c == '-'
            || c == '_') {
            assert(!is_cli_id_char(id@[i as int]));
            return false;
        }
        i = i + 1;
    }
    true
}

} // verus!
