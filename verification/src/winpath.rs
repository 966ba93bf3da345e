use vstd::prelude::*;
use crate::text::{str_chars, string_from_chars, concat};

verus! {

/// Path separators on Windows.
pub open spec fn is_sep(c: char) -> bool {
    c == '\\' || c == '/'
}

/// ASCII letter.
pub open spec fn is_ascii_alpha(c: char) -> bool {
    ('a' <= c && c <= 'z') || ('A' <= c && c <= 'Z')
}

/// Whether the path starts with a drive prefix such as `C:`.
pub open spec fn has_drive(s: Seq<char>) -> bool {
    s.len() >= 2 && is_ascii_alpha(s[0]) && s[1] == ':'
}

/// The path without its drive prefix.
pub open spec fn strip_drive(s: Seq<char>) -> Seq<char> {
    if has_drive(s) { s.skip(2) } else { s }
}

/// Length of the path once trailing separators are dropped.
pub open spec fn trimmed_len(s: Seq<char>) -> nat
    decreases s.len(),
{
    if s.len() > 0 && is_sep(s.last()) { trimmed_len(s.drop_last()) } else { s.len() }
}

/// Index just after the last separator of `s.take(n)` (zero when there is none).
pub open spec fn after_last_sep(s: Seq<char>, n: int) -> int
    decreases n,
{
    if n <= 0 {
        0
    } else if is_sep(s[n - 1]) {
        n
    } else {
        after_last_sep(s, n - 1)
    }
}

/// The last component of a Windows path, as `Path::file_name` gives it for plain paths:
/// trailing separators are ignored, and `.`/`..` or an empty component give nothing.
pub open spec fn file_name_spec(s: Seq<char>) -> Option<Seq<char>> {
    let t = strip_drive(s);
    let n = trimmed_len(t) as int;
    let name = t.subrange(after_last_sep(t, n), n);
    if is_special_component(name) {
        None
    } else {
        Some(name)
    }
}

/// Index of the last `.` in `s.take(n)`, if any.
pub open spec fn last_dot(s: Seq<char>, n: int) -> Option<int>
    decreases n,
{
    if n <= 0 {
        None
    } else if s[n - 1] == '.' {
        Some(n - 1)
    } else {
        last_dot(s, n - 1)
    }
}

/// `Path::file_stem` of a file name: the part before the last `.`, unless the only dot leads.
pub open spec fn stem_of(name: Seq<char>) -> Seq<char> {
    match last_dot(name, name.len() as int) {
        Some(i) => if i > 0 { name.take(i) } else { name },
        None => name,
    }
}

/// `Path::extension` of a file name.
pub open spec fn extension_of(name: Seq<char>) -> Option<Seq<char>> {
    match last_dot(name, name.len() as int) {
        Some(i) => if i > 0 { Some(name.skip(i + 1)) } else { None },
        None => None,
    }
}

proof fn lemma_after_last_sep_bounds(s: Seq<char>, n: int)
    requires
        0 <= n <= s.len(),
    ensures
        0 <= after_last_sep(s, n) <= n,
        forall|j: int| after_last_sep(s, n) <= j < n ==> !is_sep(#[trigger] s[j]),
        after_last_sep(s, n) > 0 ==> is_sep(s[after_last_sep(s, n) - 1]),
    decreases n,
{
    if n > 0 && !is_sep(s[n - 1]) {
        lemma_after_last_sep_bounds(s, n - 1);
    }
}

proof fn lemma_trimmed_len(s: Seq<char>)
    ensures
        trimmed_len(s) <= s.len(),
        trimmed_len(s) > 0 ==> !is_sep(s[trimmed_len(s) - 1]),
        forall|j: int| trimmed_len(s) <= j < s.len() ==> is_sep(#[trigger] s[j]),
    decreases s.len(),
{
    if s.len() > 0 && is_sep(s.last()) {
        lemma_trimmed_len(s.drop_last());
        assert forall|j: int| trimmed_len(s) <= j < s.len() implies is_sep(#[trigger] s[j]) by {
            if j < s.len() - 1 {
                assert(s[j] == s.drop_last()[j]);
            }
        }
    }
}

fn is_sep_exec(c: char) -> (r: bool)
    ensures
        r == is_sep(c),
{
    c == '\\' || c == '/'
}

/// Start index of the path after its drive prefix.
fn drive_len(v: &[char]) -> (r: usize)
    ensures
        v@.skip(r as int) == strip_drive(v@),
        r <= v@.len(),
{
    if v.len() >= 2 && (('a' <= v[0] && v[0] <= 'z') || ('A' <= v[0] && v[0] <= 'Z')) && v[1] == ':' {
        2
    } else {
        assert(v@.skip(0) =~= v@);
        0
    }
}

/// Bounds `[start, end)` of the last component in `v[base..]`.
fn last_component(v: &[char], base: usize) -> (r: (usize, usize))
    requires
        base <= v@.len(),
    ensures
        ({
            let t = v@.skip(base as int);
            let n = trimmed_len(t) as int;
            &&& r.0 as int == base + after_last_sep(t, n)
            &&& r.1 as int == base + n
            &&& r.0 <= r.1 <= v@.len()
            &&& v@.subrange(r.0 as int, r.1 as int) == t.subrange(after_last_sep(t, n), n)
        }),
{
    let ghost t = v@.skip(base as int);
    let mut end = v.len();
    assert(t.take(end - base) =~= t);
    while end > base && is_sep_exec(v[end - 1])
        invariant
            base <= end <= v@.len(),
            t == v@.skip(base as int),
            trimmed_len(t) == trimmed_len(t.take(end - base)),
        decreases end,
    {
        proof {
            let u = t.take(end - base);
            assert(u.last() == v[end - 1]);
            assert(u.drop_last() =~= t.take(end - 1 - base));
        }
        end = end - 1;
    }
    proof {
        let u = t.take(end - base);
        assert(trimmed_len(u) == u.len());
        assert(t.take(t.len() as int) =~= t);
    }
    let mut start = end;
    while start > base && !is_sep_exec(v[start - 1])
        invariant
            base <= start <= end <= v@.len(),
            t == v@.skip(base as int),
            trimmed_len(t) == end - base,
            after_last_sep(t, (end - base) as int) == after_last_sep(t, (start - base) as int),
        decreases start,
    {
        assert(t[start - 1 - base] == v[start - 1]);
        start = start - 1;
    }
    proof {
        if start > base {
            assert(t[start - 1 - base] == v[start - 1]);
        }
        assert(v@.subrange(start as int, end as int) =~= t.subrange(
            (start - base) as int,
            (end - base) as int,
        ));
    }
    (start, end)
}

/// Whether a component is empty, `.` or `..`.
pub open spec fn is_special_component(name: Seq<char>) -> bool {
    name.len() == 0 || name == seq!['.'] || name == seq!['.', '.']
}

fn is_special_component_exec(v: &[char], start: usize, end: usize) -> (r: bool)
    requires
        start <= end <= v@.len(),
    ensures
        r == is_special_component(v@.subrange(start as int, end as int)),
{
    let ghost name = v@.subrange(start as int, end as int);
    let len = end - start;
    if len == 0 {
        return true;
    }
    if len == 1 {
        let r = v[start] == '.';
        proof {
            if r { assert(name =~= seq!['.']); }
            if name == seq!['.'] { assert(name[0] == v@[start as int]); }
            assert(name.len() != 2);
        }
        return r;
    }
    if len == 2 {
        let r = v[start] == '.' && v[start + 1] == '.';
        proof {
            if r { assert(name =~= seq!['.', '.']); }
            if name == seq!['.', '.'] {
                assert(name[0] == v@[start as int]);
                assert(name[1] == v@[start + 1]);
            }
            assert(name.len() != 1);
        }
        return r;
    }
    assert(name.len() > 2);
    assert(seq!['.'].len() == 1);
    assert(seq!['.', '.'].len() == 2);
    false
}

/// `Path::file_name` for a Windows path held as text.
pub fn file_name(path: &str) -> (r: Option<String>)
    ensures
        r matches Some(s) ==> file_name_spec(path@) == Some(s@),
        r is None ==> file_name_spec(path@) is None,
{
    let v = str_chars(path);
    let base = drive_len(v.as_slice());
    let (start, end) = last_component(v.as_slice(), base);
    if is_special_component_exec(v.as_slice(), start, end) {
        None
    } else {
        Some(string_from_chars(v.as_slice(), start, end))
    }
}

/// Position of the last `.` in `v[..n]`.
fn last_dot_exec(v: &[char], n: usize) -> (r: Option<usize>)
    requires
        n <= v@.len(),
    ensures
        r matches Some(i) ==> last_dot(v@, n as int) == Some(i as int) && i < n,
        r is None ==> last_dot(v@, n as int) is None,
{
    let mut k = n;
    while k > 0
        invariant
            k <= n <= v@.len(),
            last_dot(v@, n as int) == last_dot(v@, k as int),
        decreases k,
    {
        if v[k - 1] == '.' {
            return Some(k - 1);
        }
        k = k - 1;
    }
    None
}

proof fn lemma_last_dot_prefix(s: Seq<char>, n: int, m: int)
    requires
        0 <= n <= m <= s.len(),
    ensures
        last_dot(s.take(m), n) == last_dot(s, n),
    decreases n,
{
    if n > 0 {
        assert(s.take(m)[n - 1] == s[n - 1]);
        lemma_last_dot_prefix(s, n - 1, m);
    }
}

/// `Path::file_stem` for a Windows path held as text.
pub fn file_stem(path: &str) -> (r: Option<String>)
    ensures
        r matches Some(s) ==> file_name_spec(path@) matches Some(n) && s@ == stem_of(n),
        r is None ==> file_name_spec(path@) is None,
{
    let name = file_name(path);
    match name {
        None => None,
        Some(n) => {
            let v = str_chars(n.as_str());
            let d = last_dot_exec(v.as_slice(), v.len());
            match d {
                Some(i) => {
                    if i > 0 {
                        Some(string_from_chars(v.as_slice(), 0, i))
                    } else {
                        Some(n)
                    }
                },
                None => Some(n),
            }
        },
    }
}

/// `Path::extension` for a Windows path held as text.
pub fn extension(path: &str) -> (r: Option<String>)
    ensures
        r matches Some(s) ==> file_name_spec(path@) matches Some(n) && extension_of(n) == Some(s@),
        r is None ==> (file_name_spec(path@) is None || (file_name_spec(path@) matches Some(n)
            && extension_of(n) is None)),
{
    let name = file_name(path);
    match name {
        None => None,
        Some(n) => {
            let v = str_chars(n.as_str());
            let d = last_dot_exec(v.as_slice(), v.len());
            match d {
                Some(i) => {
                    if i > 0 {
                        Some(string_from_chars(v.as_slice(), i + 1, v.len()))
                    } else {
                        None
                    }
                },
                None => None,
            }
        },
    }
}

/// `Path::join` with the Windows separator: appends `name` to `dir`, adding `\` only when
/// `dir` is non-empty and does not already end with a separator.
pub open spec fn join_spec(dir: Seq<char>, name: Seq<char>) -> Seq<char> {
    if dir.len() == 0 || is_sep(dir.last()) { dir + name } else { dir.push('\\') + name }
}

/// Joins a file name onto a directory.
pub fn join(dir: &str, name: &str) -> (r: String)
    ensures
        r@ == join_spec(dir@, name@),
{
    let v = str_chars(dir);
    if v.len() == 0 || is_sep_exec(v[v.len() - 1]) {
        concat(dir, name)
    } else {
        let with_sep = concat(dir, "\\");
        proof {
            reveal_strlit("\\");
        }
        assert(with_sep@ =~= dir@.push('\\'));
        concat(with_sep.as_str(), name)
    }
}

} // verus!
