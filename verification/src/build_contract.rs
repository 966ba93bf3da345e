use vstd::prelude::*;
use crate::desktop_entry::{lemma_split_at_equals, split_at_equals, text_lines};
use crate::event_log::starts_with;
use crate::text::{
    concat, leading_ws, str_chars, str_eq_chars, string_from_chars, starts_with_chars, trim, trim_spec,
    trim_bounds, is_whitespace_exec, is_whitespace,
};
use crate::url_file::lines_of;

verus! {

/// A line without the `\r` of a `\r\n` line ending.
pub open spec fn without_cr(l: Seq<char>) -> Seq<char> {
    if l.len() > 0 && l.last() == '\r' {
        l.drop_last()
    } else {
        l
    }
}

/// The lines of a text as `str::lines` gives them: the pieces between `\n`s, each without the
/// `\r` of a `\r\n` ending, and no empty last piece after a final line ending.
pub open spec fn str_lines(s: Seq<char>) -> Seq<Seq<char>> {
    let p = text_lines(s);
    let body = p.drop_last().map_values(|l: Seq<char>| without_cr(l));
    if p.len() == 0 || p.last().len() == 0 {
        body
    } else {
        body.push(p.last())
    }
}

proof fn lemma_text_lines_nonempty(s: Seq<char>)
    ensures
        text_lines(s).len() >= 1,
    decreases s.len(),
{
    if s.len() > 0 {
        lemma_text_lines_nonempty(s.drop_last());
    }
}

fn copy_chars(v: &Vec<char>, end: usize) -> (r: Vec<char>)
    requires
        end <= v@.len(),
    ensures
        r@ == v@.take(end as int),
{
    let mut r: Vec<char> = Vec::new();
    let mut i: usize = 0;
    while i < end
        invariant
            end <= v@.len(),
            i <= end,
            r@ == v@.take(i as int),
        decreases end - i,
    {
        r.push(v[i]);
        i = i + 1;
        assert(r@ =~= v@.take(i as int));
    }
    r
}

/// The lines of a text (see `str_lines`).
pub fn text_lines_of(s: &str) -> (r: Vec<Vec<char>>)
    ensures
        r@.map_values(|l: Vec<char>| l@) == str_lines(s@),
{
    let pieces = lines_of(s);
    let ghost p = text_lines(s@);
    assert(pieces@.map_values(|l: Vec<char>| l@) == p);
    let mut out: Vec<Vec<char>> = Vec::new();
    let n = pieces.len();
    proof {
        lemma_text_lines_nonempty(s@);
    }
    assert(n >= 1);
    let mut i: usize = 0;
    while i < n - 1
        invariant
            n == pieces@.len(),
            n >= 1,
            pieces@.map_values(|l: Vec<char>| l@) == p,
            i <= n - 1,
            out@.map_values(|l: Vec<char>| l@) == p.drop_last().take(i as int).map_values(|l: Seq<char>| without_cr(l)),
        decreases n - 1 - i,
    {
        let l = &pieces[i];
        assert(l@ == p[i as int]);
        let m = l.len();
        let piece = if m > 0 && l[m - 1] == '\r' {
            copy_chars(l, m - 1)
        } else {
            copy_chars(l, m)
        };
        assert(piece@ == without_cr(p[i as int])) by {
            assert(l@.take(m as int) =~= l@);
        }
        let ghost before = out@.map_values(|l: Vec<char>| l@);
        out.push(piece);
        assert(out@.map_values(|l: Vec<char>| l@) =~= before.push(piece@));
        i = i + 1;
        assert(p.drop_last().take(i as int).map_values(|l: Seq<char>| without_cr(l)) =~= p.drop_last().take(
            i - 1,
        ).map_values(|l: Seq<char>| without_cr(l)).push(without_cr(p[i - 1])));
    }
    assert(p.drop_last().take(i as int) =~= p.drop_last());
    let last = &pieces[n - 1];
    assert(last@ == p.last());
    if last.len() > 0 {
        let ghost before = out@.map_values(|l: Vec<char>| l@);
        let c = copy_chars(last, last.len());
        assert(last@.take(last@.len() as int) =~= last@);
        out.push(c);
        assert(out@.map_values(|l: Vec<char>| l@) =~= before.push(p.last()));
    }
    out
}

/// Where a `#` that is not inside a quoted string starts a comment on a TOML or YAML line,
/// scanning from `i` with the quoting state given (the line's length when none does).
pub open spec fn comment_start(line: Seq<char>, i: int, single: bool, double: bool, escaped: bool) -> int
    decreases line.len() - i,
{
    if i < 0 || i >= line.len() {
        line.len() as int
    } else {
        let c = line[i];
        if double {
            if escaped {
                comment_start(line, i + 1, single, true, false)
            } else if c == '\\' {
                comment_start(line, i + 1, single, true, true)
            } else if c == '"' {
                comment_start(line, i + 1, single, false, escaped)
            } else {
                comment_start(line, i + 1, single, true, escaped)
            }
        } else if single {
            if c == '\'' {
                comment_start(line, i + 1, false, double, escaped)
            } else {
                comment_start(line, i + 1, true, double, escaped)
            }
        } else if c == '\'' {
            comment_start(line, i + 1, true, double, escaped)
        } else if c == '"' {
            comment_start(line, i + 1, single, true, escaped)
        } else if c == '#' {
            i
        } else {
            comment_start(line, i + 1, single, double, escaped)
        }
    }
}

/// A line without its unquoted `#` comment.
pub open spec fn uncommented(line: Seq<char>) -> Seq<char> {
    line.take(comment_start(line, 0, false, false, false))
}

/// What a line says once its comment and surrounding whitespace are gone.
pub open spec fn active_line(line: Seq<char>) -> Seq<char> {
    trim_spec(uncommented(line))
}

proof fn lemma_comment_start_bounds(line: Seq<char>, i: int, single: bool, double: bool, escaped: bool)
    requires
        0 <= i,
    ensures
        i <= comment_start(line, i, single, double, escaped) <= line.len() || (i > line.len() && comment_start(
            line,
            i,
            single,
            double,
            escaped,
        ) == line.len()),
    decreases line.len() - i,
{
    if i < line.len() {
        let c = line[i];
        if double {
            if escaped {
                lemma_comment_start_bounds(line, i + 1, single, true, false);
            } else if c == '\\' {
                lemma_comment_start_bounds(line, i + 1, single, true, true);
            } else if c == '"' {
                lemma_comment_start_bounds(line, i + 1, single, false, escaped);
            } else {
                lemma_comment_start_bounds(line, i + 1, single, true, escaped);
            }
        } else if single {
            if c == '\'' {
                lemma_comment_start_bounds(line, i + 1, false, double, escaped);
            } else {
                lemma_comment_start_bounds(line, i + 1, true, double, escaped);
            }
        } else if c == '\'' {
            lemma_comment_start_bounds(line, i + 1, true, double, escaped);
        } else if c == '"' {
            lemma_comment_start_bounds(line, i + 1, single, true, escaped);
        } else if c != '#' {
            lemma_comment_start_bounds(line, i + 1, single, double, escaped);
        }
    }
}

fn comment_start_exec(line: &[char]) -> (r: usize)
    ensures
        r as int == comment_start(line@, 0, false, false, false),
        r <= line@.len(),
{
    let mut single = false;
    let mut double = false;
    let mut escaped = false;
    let mut i: usize = 0;
    while i < line.len()
        invariant
            i <= line@.len(),
            comment_start(line@, 0, false, false, false) == comment_start(line@, i as int, single, double, escaped),
        decreases line.len() - i,
    {
        let c = line[i];
        if double {
            if escaped {
                escaped = false;
            } else if c == '\\' {
                escaped = true;
            } else if c == '"' {
                double = false;
            }
        } else if single {
            if c == '\'' {
                single = false;
            }
        } else if c == '\'' {
            single = true;
        } else if c == '"' {
            double = true;
        } else if c == '#' {
            return i;
        }
        i = i + 1;
    }
    i
}

/// The part of a line before its first `#` outside quotes (`"` strings honour `\` escapes).
pub fn strip_unquoted_hash_comment(line: &str) -> (r: String)
    ensures
        r@ == uncommented(line@),
{
    let v = str_chars(line);
    let e = comment_start_exec(v.as_slice());
    let r = string_from_chars(v.as_slice(), 0, e);
    assert(v@.subrange(0, e as int) =~= v@.take(e as int));
    r
}

fn active_line_exec(line: &Vec<char>) -> (r: Vec<char>)
    ensures
        r@ == active_line(line@),
{
    let e = comment_start_exec(line.as_slice());
    let s = string_from_chars(line.as_slice(), 0, e);
    assert(line@.subrange(0, e as int) =~= line@.take(e as int));
    let t = trim(s.as_str());
    str_chars(t.as_str())
}

/// Whether a trimmed line is a table header: it starts with `[` and ends with `]`.
pub open spec fn is_header(t: Seq<char>) -> bool {
    t.len() > 0 && t[0] == '[' && t.last() == ']'
}

/// `s` without the characters `c` at its start.
pub open spec fn without_leading(s: Seq<char>, c: char) -> Seq<char>
    decreases s.len(),
{
    if s.len() > 0 && s[0] == c {
        without_leading(s.drop_first(), c)
    } else {
        s
    }
}

/// `s` without the characters `c` at its end.
pub open spec fn without_trailing(s: Seq<char>, c: char) -> Seq<char>
    decreases s.len(),
{
    if s.len() > 0 && s.last() == c {
        without_trailing(s.drop_last(), c)
    } else {
        s
    }
}

/// `str::trim_matches` with one character: `s` without the characters `c` at either end.
pub open spec fn trim_char(s: Seq<char>, c: char) -> Seq<char> {
    without_trailing(without_leading(s, c), c)
}

fn trim_char_exec(s: &Vec<char>, c: char) -> (r: Vec<char>)
    ensures
        r@ == trim_char(s@, c),
{
    let mut a: usize = 0;
    assert(s@.skip(0) =~= s@);
    while a < s.len() && s[a] == c
        invariant
            a <= s@.len(),
            without_leading(s@, c) == without_leading(s@.skip(a as int), c),
        decreases s.len() - a,
    {
        assert(s@.skip(a as int).drop_first() =~= s@.skip(a + 1));
        a = a + 1;
    }
    let ghost lead = s@.skip(a as int);
    assert(without_leading(lead, c) == lead);
    let mut b: usize = s.len();
    assert(lead.take((b - a) as int) =~= lead);
    while b > a && s[b - 1] == c
        invariant
            a <= b <= s@.len(),
            lead == s@.skip(a as int),
            without_trailing(lead, c) == without_trailing(lead.take((b - a) as int), c),
        decreases b,
    {
        assert(lead.take((b - a) as int).drop_last() =~= lead.take((b - 1 - a) as int));
        assert(lead.take((b - a) as int).last() == s@[b - 1]);
        b = b - 1;
    }
    let mut r: Vec<char> = Vec::new();
    let mut i: usize = a;
    while i < b
        invariant
            a <= i <= b <= s@.len(),
            r@ == s@.subrange(a as int, i as int),
        decreases b - i,
    {
        r.push(s[i]);
        i = i + 1;
        assert(r@ =~= s@.subrange(a as int, i as int));
    }
    assert(r@ =~= lead.take((b - a) as int));
    r
}

/// The key of a `key = value` line: the text before the first `=`, trimmed, without quotes
/// around it; `None` for a line without `=`.
pub open spec fn toml_key(t: Seq<char>) -> Option<Seq<char>> {
    match split_at_equals(t) {
        Some((k, _)) => Some(trim_char(trim_char(trim_spec(k), '"'), '\'')),
        None => None,
    }
}

/// Where the first `=` of `t` is, or its length.
fn equals_at(t: &Vec<char>) -> (r: usize)
    ensures
        r <= t@.len(),
        r < t@.len() ==> split_at_equals(t@) == Some((t@.take(r as int), t@.skip(r + 1))),
        r == t@.len() ==> split_at_equals(t@) is None,
{
    let mut i: usize = 0;
    while i < t.len() && t[i] != '='
        invariant
            i <= t@.len(),
            forall|k: int| 0 <= k < i ==> t@[k] != '=',
        decreases t.len() - i,
    {
        i = i + 1;
    }
    proof {
        lemma_split_at_equals(t@, i as int);
    }
    i
}

fn toml_key_exec(t: &Vec<char>) -> (r: Option<Vec<char>>)
    ensures
        match toml_key(t@) {
            Some(k) => r matches Some(v) && v@ == k,
            None => r is None,
        },
{
    let i = equals_at(t);
    if i == t.len() {
        return None;
    }
    let raw = string_from_chars(t.as_slice(), 0, i);
    assert(t@.subrange(0, i as int) =~= t@.take(i as int));
    let k = trim(raw.as_str());
    let kv = str_chars(k.as_str());
    let q = trim_char_exec(&kv, '"');
    Some(trim_char_exec(&q, '\''))
}

fn chars_of(s: &str) -> (r: Vec<char>)
    ensures
        r@ == s@,
{
    str_chars(s)
}

/// Scans a `Cargo.toml` line by line for winres metadata keys that embed a manifest: the state
/// is whether the line is inside `[package.metadata.winres]` and the keys found so far.
pub open spec fn winres_step(state: (bool, Seq<Seq<char>>), line: Seq<char>) -> (bool, Seq<Seq<char>>) {
    let t = active_line(line);
    if t.len() == 0 || t[0] == '#' {
        state
    } else if is_header(t) {
        (t == "[package.metadata.winres]"@, state.1)
    } else if !state.0 {
        state
    } else {
        match toml_key(t) {
            Some(key) => if key == "manifest"@ || key == "manifest_file"@ {
                (state.0, state.1.push(key))
            } else {
                state
            },
            None => state,
        }
    }
}

/// The state after the lines (see `winres_step`).
pub open spec fn winres_scan(lines: Seq<Seq<char>>) -> (bool, Seq<Seq<char>>)
    decreases lines.len(),
{
    if lines.len() == 0 {
        (false, Seq::empty())
    } else {
        winres_step(winres_scan(lines.drop_last()), lines.last())
    }
}

/// The manifest-embedding keys (`manifest`, `manifest_file`) of a `Cargo.toml`'s
/// `[package.metadata.winres]` table, in order.
pub fn invalid_winres_manifest_metadata_keys(cargo_toml: &str) -> (r: Vec<String>)
    ensures
        r@.map_values(|s: String| s@) == winres_scan(str_lines(cargo_toml@)).1,
{
    let lines = text_lines_of(cargo_toml);
    let ghost ls = lines@.map_values(|l: Vec<char>| l@);
    let header = chars_of("[package.metadata.winres]");
    let manifest = chars_of("manifest");
    let manifest_file = chars_of("manifest_file");
    let mut inside = false;
    let mut keys: Vec<String> = Vec::new();
    let mut i: usize = 0;
    while i < lines.len()
        invariant
            i <= lines@.len(),
            ls == lines@.map_values(|l: Vec<char>| l@),
            header@ == "[package.metadata.winres]"@,
            manifest@ == "manifest"@,
            manifest_file@ == "manifest_file"@,
            (inside, keys@.map_values(|s: String| s@)) == winres_scan(ls.take(i as int)),
        decreases lines.len() - i,
    {
        assert(ls.take(i + 1).drop_last() =~= ls.take(i as int));
        assert(ls.take(i + 1).last() == lines@[i as int]@);
        let t = active_line_exec(&lines[i]);
        if t.len() == 0 || t[0] == '#' {
        } else if t[0] == '[' && t[t.len() - 1] == ']' {
            inside = str_eq_chars(t.as_slice(), header.as_slice());
        } else if inside {
            match toml_key_exec(&t) {
                Some(key) => {
                    if str_eq_chars(key.as_slice(), manifest.as_slice()) || str_eq_chars(
                        key.as_slice(),
                        manifest_file.as_slice(),
                    ) {
                        let ghost before = keys@.map_values(|s: String| s@);
                        let k = string_from_chars(key.as_slice(), 0, key.len());
                        assert(key@.subrange(0, key@.len() as int) =~= key@);
                        keys.push(k);
                        assert(keys@.map_values(|s: String| s@) =~= before.push(key@));
                    }
                },
                None => {},
            }
        }
        i = i + 1;
    }
    assert(ls.take(i as int) =~= ls);
    keys
}

/// Looks for `key` in the table whose header is `header`: the state is whether the line is
/// inside that table and whether the key was found.
pub open spec fn table_step(header: Seq<char>, key: Seq<char>, state: (bool, bool), line: Seq<char>) -> (bool, bool) {
    let t = active_line(line);
    if state.1 || t.len() == 0 || t[0] == '#' {
        state
    } else if is_header(t) {
        (t == header, false)
    } else if !state.0 {
        state
    } else {
        match toml_key(t) {
            Some(k) => if k == key {
                (state.0, true)
            } else {
                state
            },
            None => state,
        }
    }
}

/// The state after the lines (see `table_step`).
pub open spec fn table_scan(header: Seq<char>, key: Seq<char>, lines: Seq<Seq<char>>) -> (bool, bool)
    decreases lines.len(),
{
    if lines.len() == 0 {
        (false, false)
    } else {
        table_step(header, key, table_scan(header, key, lines.drop_last()), lines.last())
    }
}

/// Whether the TOML table `[table]` sets `expected_key` itself (comments and other tables
/// do not count).
pub fn toml_table_has_exact_key(toml: &str, table: &str, expected_key: &str) -> (r: bool)
    ensures
        r == table_scan("["@ + table@ + "]"@, expected_key@, str_lines(toml@)).1,
{
    let lines = text_lines_of(toml);
    let ghost ls = lines@.map_values(|l: Vec<char>| l@);
    let h1 = concat("[", table);
    let h2 = concat(h1.as_str(), "]");
    let header = chars_of(h2.as_str());
    let key = chars_of(expected_key);
    let mut inside = false;
    let mut i: usize = 0;
    while i < lines.len()
        invariant
            i <= lines@.len(),
            ls == lines@.map_values(|l: Vec<char>| l@),
            header@ == "["@ + table@ + "]"@,
            ls == str_lines(toml@),
            key@ == expected_key@,
            (inside, false) == table_scan(header@, key@, ls.take(i as int)),
        decreases lines.len() - i,
    {
        assert(ls.take(i + 1).drop_last() =~= ls.take(i as int));
        assert(ls.take(i + 1).last() == lines@[i as int]@);
        let t = active_line_exec(&lines[i]);
        if t.len() == 0 || t[0] == '#' {
        } else if t[0] == '[' && t[t.len() - 1] == ']' {
            inside = str_eq_chars(t.as_slice(), header.as_slice());
        } else if inside {
            match toml_key_exec(&t) {
                Some(k) => {
                    if str_eq_chars(k.as_slice(), key.as_slice()) {
                        proof {
                            assert(ls[i as int] == lines@[i as int]@);
                            assert(table_step(header@, key@, (inside, false), ls[i as int]).1);
                            assert(table_scan(header@, key@, ls.take(i + 1)) == table_step(header@, key@, (inside, false), ls[i as int]));
                            lemma_table_scan_found(header@, key@, ls, i + 1);
                        }
                        return true;
                    }
                },
                None => {},
            }
        }
        i = i + 1;
    }
    assert(ls.take(i as int) =~= ls);
    false
}

proof fn lemma_table_scan_found(header: Seq<char>, key: Seq<char>, lines: Seq<Seq<char>>, n: int)
    requires
        0 <= n <= lines.len(),
        table_scan(header, key, lines.take(n)).1,
    ensures
        table_scan(header, key, lines).1,
    decreases lines.len() - n,
{
    if n < lines.len() {
        assert(lines.take(n + 1).drop_last() =~= lines.take(n));
        lemma_table_scan_found(header, key, lines, n + 1);
    } else {
        assert(lines.take(n) =~= lines);
    }
}

/// Whether `s` ends with `suffix`.
pub open spec fn ends_with(s: Seq<char>, suffix: Seq<char>) -> bool {
    s.len() >= suffix.len() && s.skip(s.len() - suffix.len()) == suffix
}

/// Looks for `key` in the dependency tables (`[dependencies]` and any `[... .dependencies]`).
pub open spec fn dependency_step(key: Seq<char>, state: (bool, bool), line: Seq<char>) -> (bool, bool) {
    let t = active_line(line);
    if state.1 || t.len() == 0 || t[0] == '#' {
        state
    } else if is_header(t) {
        (t == "[dependencies]"@ || ends_with(t, ".dependencies]"@), false)
    } else if !state.0 {
        state
    } else {
        match toml_key(t) {
            Some(k) => if k == key {
                (state.0, true)
            } else {
                state
            },
            None => state,
        }
    }
}

/// The state after the lines (see `dependency_step`).
pub open spec fn dependency_scan(key: Seq<char>, lines: Seq<Seq<char>>) -> (bool, bool)
    decreases lines.len(),
{
    if lines.len() == 0 {
        (false, false)
    } else {
        dependency_step(key, dependency_scan(key, lines.drop_last()), lines.last())
    }
}

proof fn lemma_dependency_scan_found(key: Seq<char>, lines: Seq<Seq<char>>, n: int)
    requires
        0 <= n <= lines.len(),
        dependency_scan(key, lines.take(n)).1,
    ensures
        dependency_scan(key, lines).1,
    decreases lines.len() - n,
{
    if n < lines.len() {
        assert(lines.take(n + 1).drop_last() =~= lines.take(n));
        lemma_dependency_scan_found(key, lines, n + 1);
    } else {
        assert(lines.take(n) =~= lines);
    }
}

fn ends_with_exec(s: &Vec<char>, suffix: &Vec<char>) -> (r: bool)
    ensures
        r == ends_with(s@, suffix@),
{
    if s.len() < suffix.len() {
        return false;
    }
    let start = s.len() - suffix.len();
    let mut j: usize = start;
    while j < s.len()
        invariant
            s@.len() >= suffix@.len(),
            start == s@.len() - suffix@.len(),
            start <= j <= s@.len(),
            forall|k: int| 0 <= k < j - start ==> s@[start + k] == suffix@[k],
        decreases s.len() - j,
    {
        if s[j] != suffix[j - start] {
            assert(s@.skip(start as int)[j - start] != suffix@[j - start]);
            return false;
        }
        j = j + 1;
    }
    assert(s@.skip(start as int) =~= suffix@);
    true
}

/// Whether a `Cargo.toml` declares `expected_key` in one of its dependency tables.
pub fn toml_has_dependency(toml: &str, expected_key: &str) -> (r: bool)
    ensures
        r == dependency_scan(expected_key@, str_lines(toml@)).1,
{
    let lines = text_lines_of(toml);
    let ghost ls = lines@.map_values(|l: Vec<char>| l@);
    let deps = chars_of("[dependencies]");
    let suffix = chars_of(".dependencies]");
    let key = chars_of(expected_key);
    let mut inside = false;
    let mut i: usize = 0;
    while i < lines.len()
        invariant
            i <= lines@.len(),
            ls == lines@.map_values(|l: Vec<char>| l@),
            deps@ == "[dependencies]"@,
            ls == str_lines(toml@),
            suffix@ == ".dependencies]"@,
            key@ == expected_key@,
            (inside, false) == dependency_scan(key@, ls.take(i as int)),
        decreases lines.len() - i,
    {
        assert(ls.take(i + 1).drop_last() =~= ls.take(i as int));
        assert(ls.take(i + 1).last() == lines@[i as int]@);
        let t = active_line_exec(&lines[i]);
        if t.len() == 0 || t[0] == '#' {
        } else if t[0] == '[' && t[t.len() - 1] == ']' {
            inside = str_eq_chars(t.as_slice(), deps.as_slice()) || ends_with_exec(&t, &suffix);
        } else if inside {
            match toml_key_exec(&t) {
                Some(k) => {
                    if str_eq_chars(k.as_slice(), key.as_slice()) {
                        proof {
                            assert(ls[i as int] == lines@[i as int]@);
                            assert(dependency_step(key@, (inside, false), ls[i as int]).1);
                            assert(dependency_scan(key@, ls.take(i + 1)) == dependency_step(key@, (inside, false), ls[i as int]));
                            lemma_dependency_scan_found(key@, ls, i + 1);
                        }
                        return true;
                    }
                },
                None => {},
            }
        }
        i = i + 1;
    }
    assert(ls.take(i as int) =~= ls);
    false
}

/// Looks for a `[[package]]` entry of `Cargo.lock` named `name`: the state is whether the line
/// is inside a package entry and whether the package was found.
pub open spec fn lock_step(name: Seq<char>, state: (bool, bool), line: Seq<char>) -> (bool, bool) {
    let t = active_line(line);
    if state.1 {
        state
    } else if t == "[[package]]"@ {
        (true, false)
    } else if t.len() > 0 && t[0] == '[' {
        (false, false)
    } else if !state.0 {
        state
    } else {
        match split_at_equals(t) {
            Some((k, v)) => if trim_spec(k) == "name"@ && trim_char(trim_spec(v), '"') == name {
                (state.0, true)
            } else {
                state
            },
            None => state,
        }
    }
}

/// The state after the lines (see `lock_step`).
pub open spec fn lock_scan(name: Seq<char>, lines: Seq<Seq<char>>) -> (bool, bool)
    decreases lines.len(),
{
    if lines.len() == 0 {
        (false, false)
    } else {
        lock_step(name, lock_scan(name, lines.drop_last()), lines.last())
    }
}

proof fn lemma_lock_scan_found(name: Seq<char>, lines: Seq<Seq<char>>, n: int)
    requires
        0 <= n <= lines.len(),
        lock_scan(name, lines.take(n)).1,
    ensures
        lock_scan(name, lines).1,
    decreases lines.len() - n,
{
    if n < lines.len() {
        assert(lines.take(n + 1).drop_last() =~= lines.take(n));
        lemma_lock_scan_found(name, lines, n + 1);
    } else {
        assert(lines.take(n) =~= lines);
    }
}

/// Whether a `Cargo.lock` lists a package named `expected_name`.
pub fn cargo_lock_has_package(cargo_lock: &str, expected_name: &str) -> (r: bool)
    ensures
        r == lock_scan(expected_name@, str_lines(cargo_lock@)).1,
{
    let lines = text_lines_of(cargo_lock);
    let ghost ls = lines@.map_values(|l: Vec<char>| l@);
    let package = chars_of("[[package]]");
    let name_key = chars_of("name");
    let name = chars_of(expected_name);
    let mut inside = false;
    let mut i: usize = 0;
    while i < lines.len()
        invariant
            i <= lines@.len(),
            ls == lines@.map_values(|l: Vec<char>| l@),
            package@ == "[[package]]"@,
            ls == str_lines(cargo_lock@),
            name_key@ == "name"@,
            name@ == expected_name@,
            (inside, false) == lock_scan(name@, ls.take(i as int)),
        decreases lines.len() - i,
    {
        assert(ls.take(i + 1).drop_last() =~= ls.take(i as int));
        assert(ls.take(i + 1).last() == lines@[i as int]@);
        let t = active_line_exec(&lines[i]);
        if str_eq_chars(t.as_slice(), package.as_slice()) {
            inside = true;
        } else if t.len() > 0 && t[0] == '[' {
            inside = false;
        } else if inside {
            let e = equals_at(&t);
            if e < t.len() {
                let raw_key = string_from_chars(t.as_slice(), 0, e);
                let raw_value = string_from_chars(t.as_slice(), e + 1, t.len());
                assert(t@.subrange(0, e as int) =~= t@.take(e as int));
                assert(t@.subrange(e + 1, t@.len() as int) =~= t@.skip(e + 1));
                let k = trim(raw_key.as_str());
                let v = trim(raw_value.as_str());
                let kv = chars_of(k.as_str());
                let vv = chars_of(v.as_str());
                let unquoted = trim_char_exec(&vv, '"');
                if str_eq_chars(kv.as_slice(), name_key.as_slice()) && str_eq_chars(
                    unquoted.as_slice(),
                    name.as_slice(),
                ) {
                    proof {
                        assert(ls[i as int] == lines@[i as int]@);
                            assert(lock_step(name@, (inside, false), ls[i as int]).1);
                            assert(lock_scan(name@, ls.take(i + 1)) == lock_step(name@, (inside, false), ls[i as int]));
                            lemma_lock_scan_found(name@, ls, i + 1);
                    }
                    return true;
                }
            }
        }
        i = i + 1;
    }
    assert(ls.take(i as int) =~= ls);
    false
}

/// A line without its leading whitespace (`str::trim_start`).
pub open spec fn trim_start_spec(l: Seq<char>) -> Seq<char> {
    l.skip(leading_ws(l) as int)
}

/// The bytes a character takes in UTF-8 (`char::len_utf8`).
pub open spec fn utf8_width(c: char) -> nat {
    if c <= '\u{7f}' {
        1
    } else if c <= '\u{7ff}' {
        2
    } else if c <= '\u{ffff}' {
        3
    } else {
        4
    }
}

/// The bytes a text takes in UTF-8.
pub open spec fn utf8_len(s: Seq<char>) -> nat
    decreases s.len(),
{
    if s.len() == 0 {
        0
    } else {
        utf8_len(s.drop_last()) + utf8_width(s.last())
    }
}

/// The indentation of a line as `str::len` counts it: the UTF-8 bytes of its leading
/// whitespace.
pub open spec fn indent_bytes(l: Seq<char>) -> nat {
    utf8_len(l.take(leading_ws(l) as int))
}

/// The first line at or after `from` that reads `marker` once trimmed.
pub open spec fn first_marked(lines: Seq<Seq<char>>, marker: Seq<char>, from: int) -> Option<int>
    decreases lines.len() - from,
{
    if from < 0 || from >= lines.len() {
        None
    } else if trim_spec(lines[from]) == marker {
        Some(from)
    } else {
        first_marked(lines, marker, from + 1)
    }
}

/// Whether a line ends a YAML step indented by `indent` bytes: it is not blank and is indented
/// less, or as much and starts another list item.
pub open spec fn ends_step(l: Seq<char>, indent: nat) -> bool {
    let t = trim_start_spec(l);
    t.len() > 0 && (indent_bytes(l) < indent || (indent_bytes(l) == indent && starts_with(t, "- "@)))
}

/// The first line at or after `from` that ends a step indented by `indent`, or the number of
/// lines.
pub open spec fn step_end(lines: Seq<Seq<char>>, indent: nat, from: int) -> int
    decreases lines.len() - from,
{
    if from < 0 || from >= lines.len() {
        lines.len() as int
    } else if ends_step(lines[from], indent) {
        from
    } else {
        step_end(lines, indent, from + 1)
    }
}

/// Lines joined with `\n`.
pub open spec fn joined(lines: Seq<Seq<char>>) -> Seq<char>
    decreases lines.len(),
{
    if lines.len() == 0 {
        Seq::empty()
    } else if lines.len() == 1 {
        lines[0]
    } else {
        joined(lines.drop_last()) + "\n"@ + lines.last()
    }
}

/// The text of the workflow step named `step_name`: from its `- name:` line up to the line
/// that ends it; `None` when no line names it.
pub open spec fn named_step(workflow: Seq<char>, step_name: Seq<char>) -> Option<Seq<char>> {
    let lines = str_lines(workflow);
    match first_marked(lines, "- name: "@ + step_name, 0) {
        Some(start) => Some(joined(lines.subrange(start, step_end(lines, indent_bytes(lines[start]), start + 1)))),
        None => None,
    }
}

fn leading_ws_exec(v: &Vec<char>) -> (r: usize)
    ensures
        r as int == leading_ws(v@),
        r <= v@.len(),
{
    let mut i: usize = 0;
    assert(v@.skip(0) =~= v@);
    while i < v.len() && is_whitespace_exec(v[i])
        invariant
            i <= v@.len(),
            leading_ws(v@) == i + leading_ws(v@.skip(i as int)),
        decreases v.len() - i,
    {
        assert(v@.skip(i as int).drop_first() =~= v@.skip(i + 1));
        i = i + 1;
    }
    i
}

fn indent_bytes_exec(v: &Vec<char>) -> (r: u128)
    ensures
        r as nat == indent_bytes(v@),
{
    let k = leading_ws_exec(v);
    let mut total: u128 = 0;
    let mut i: usize = 0;
    while i < k
        invariant
            k <= v.len(),
            i <= k,
            total as nat == utf8_len(v@.take(i as int)),
            total <= 4 * i,
        decreases k - i,
    {
        let c = v[i];
        let w: u128 = if c <= '\u{7f}' {
            1
        } else if c <= '\u{7ff}' {
            2
        } else if c <= '\u{ffff}' {
            3
        } else {
            4
        };
        assert(v@.take(i + 1).drop_last() =~= v@.take(i as int));
        total = total + w;
        i = i + 1;
    }
    total
}

fn trim_start_exec(v: &Vec<char>) -> (r: Vec<char>)
    ensures
        r@ == trim_start_spec(v@),
{
    let k = leading_ws_exec(v);
    let s = string_from_chars(v.as_slice(), k, v.len());
    assert(v@.subrange(k as int, v@.len() as int) =~= v@.skip(k as int));
    str_chars(s.as_str())
}

fn ends_step_exec(l: &Vec<char>, indent: u128) -> (r: bool)
    ensures
        r == ends_step(l@, indent as nat),
{
    let t = trim_start_exec(l);
    if t.len() == 0 {
        return false;
    }
    let current = indent_bytes_exec(l);
    let dash = chars_of("- ");
    proof {
        reveal_strlit("- ");
    }
    current < indent || (current == indent && starts_with_chars(t.as_slice(), dash.as_slice()))
}

fn reads_as(l: &Vec<char>, marker: &Vec<char>) -> (r: bool)
    ensures
        r == (trim_spec(l@) == marker@),
{
    let whole = string_from_chars(l.as_slice(), 0, l.len());
    assert(l@.subrange(0, l@.len() as int) =~= l@);
    let t = trim(whole.as_str());
    let tv = chars_of(t.as_str());
    str_eq_chars(tv.as_slice(), marker.as_slice())
}

/// The step of a workflow named `step_name` (see `named_step`).
pub fn yaml_named_step(workflow: &str, step_name: &str) -> (r: Option<String>)
    ensures
        match named_step(workflow@, step_name@) {
            Some(t) => r matches Some(s) && s@ == t,
            None => r is None,
        },
{
    let lines = text_lines_of(workflow);
    let ghost ls = lines@.map_values(|l: Vec<char>| l@);
    let m = concat("- name: ", step_name);
    let marker = chars_of(m.as_str());
    let mut start: usize = 0;
    while start < lines.len() && !reads_as(&lines[start], &marker)
        invariant
            start <= lines@.len(),
            ls == lines@.map_values(|l: Vec<char>| l@),
            ls == str_lines(workflow@),
            marker@ == "- name: "@ + step_name@,
            first_marked(ls, marker@, 0) == first_marked(ls, marker@, start as int),
        decreases lines.len() - start,
    {
        assert(ls[start as int] == lines@[start as int]@);
        start = start + 1;
    }
    if start == lines.len() {
        return None;
    }
    assert(ls[start as int] == lines@[start as int]@);
    assert(first_marked(ls, marker@, 0) == Some(start as int));
    let indent = indent_bytes_exec(&lines[start]);
    assert(ls[start as int] == lines@[start as int]@);
    let mut end: usize = start + 1;
    while end < lines.len() && !ends_step_exec(&lines[end], indent)
        invariant
            start < end <= lines@.len(),
            ls == lines@.map_values(|l: Vec<char>| l@),
            step_end(ls, indent as nat, start + 1) == step_end(ls, indent as nat, end as int),
        decreases lines.len() - end,
    {
        assert(ls[end as int] == lines@[end as int]@);
        end = end + 1;
    }
    proof {
        if end < lines.len() {
            assert(ls[end as int] == lines@[end as int]@);
        }
    }
    let ghost part = ls.subrange(start as int, end as int);
    let mut out = String::new();
    let mut k: usize = start;
    while k < end
        invariant
            start <= k <= end <= lines@.len(),
            ls == lines@.map_values(|l: Vec<char>| l@),
            part == ls.subrange(start as int, end as int),
            out@ == joined(part.take(k - start)),
        decreases end - k,
    {
        assert(part.take(k + 1 - start).drop_last() =~= part.take(k - start));
        assert(part.take(k + 1 - start).last() == lines@[k as int]@);
        if k > start {
            crate::text::string_push(&mut out, '\n');
        }
        let piece = string_from_chars(lines[k].as_slice(), 0, lines[k].len());
        assert(lines@[k as int]@.subrange(0, lines@[k as int]@.len() as int) =~= lines@[k as int]@);
        crate::text::push_str(&mut out, piece.as_str());
        proof {
            reveal_strlit("\n");
            if k == start {
                assert(part.take(1) =~= seq![lines@[k as int]@]);
                assert(out@ =~= lines@[k as int]@);
            } else {
                assert(joined(part.take(k + 1 - start)) == joined(part.take(k - start)) + "\n"@ + lines@[k as int]@);
                assert(out@ =~= joined(part.take(k - start)) + "\n"@ + lines@[k as int]@);
            }
        }
        k = k + 1;
    }
    assert(part.take(end - start) =~= part);
    Some(out)
}

/// Whether `p` occurs in `t`.
pub open spec fn contains_text(t: Seq<char>, p: Seq<char>) -> bool {
    exists|i: int| 0 <= i && i + p.len() <= t.len() && #[trigger] t.subrange(i, i + p.len()) == p
}

/// Whether some line of `yaml` says `expected` outside its comment.
pub open spec fn has_active_text(yaml: Seq<char>, expected: Seq<char>) -> bool {
    let lines = str_lines(yaml);
    exists|k: int|
        0 <= k < lines.len() && #[trigger] active_line(lines[k]).len() > 0 && contains_text(active_line(lines[k]), expected)
}

fn contains_chars(t: &Vec<char>, p: &Vec<char>) -> (r: bool)
    ensures
        r == contains_text(t@, p@),
{
    if p.len() > t.len() {
        return false;
    }
    let last = t.len() - p.len();
    let mut i: usize = 0;
    while i <= last
        invariant
            last == t.len() - p.len(),
            p.len() <= t.len(),
            i <= last + 1,
            forall|j: int| 0 <= j < i ==> #[trigger] t@.subrange(j, j + p@.len()) != p@,
        decreases last + 1 - i,
    {
        let mut k: usize = 0;
        let mut same = true;
        while k < p.len()
            invariant
                p.len() <= t.len(),
                i <= last,
                last == t.len() - p.len(),
                k <= p@.len(),
                same <==> forall|m: int| 0 <= m < k ==> t@[i + m] == p@[m],
            decreases p.len() - k,
        {
            if t[i + k] != p[k] {
                same = false;
            }
            k = k + 1;
        }
        if same {
            assert(t@.subrange(i as int, i + p@.len()) =~= p@);
            return true;
        }
        proof {
            assert(t@.subrange(i as int, i + p@.len()) != p@) by {
                let m = choose|m: int| 0 <= m < p@.len() && t@[i + m] != p@[m];
                assert(t@.subrange(i as int, i + p@.len())[m] == t@[i + m]);
            }
        }
        i = i + 1;
    }
    proof {
        assert forall|j: int| 0 <= j && j + p@.len() <= t@.len() implies #[trigger] t@.subrange(j, j + p@.len()) != p@ by {
            assert(j < i);
        }
    }
    false
}

/// Whether a workflow step has `expected` on a line that is not commented out.
pub fn yaml_step_has_active_text(yaml: &str, expected: &str) -> (r: bool)
    ensures
        r == has_active_text(yaml@, expected@),
{
    let lines = text_lines_of(yaml);
    let ghost ls = lines@.map_values(|l: Vec<char>| l@);
    let want = chars_of(expected);
    let mut i: usize = 0;
    while i < lines.len()
        invariant
            i <= lines@.len(),
            ls == lines@.map_values(|l: Vec<char>| l@),
            ls == str_lines(yaml@),
            want@ == expected@,
            forall|k: int| 0 <= k < i ==> !(#[trigger] active_line(ls[k]).len() > 0 && contains_text(active_line(ls[k]), expected@)),
        decreases lines.len() - i,
    {
        assert(ls[i as int] == lines@[i as int]@);
        let t = active_line_exec(&lines[i]);
        if t.len() > 0 && contains_chars(&t, &want) {
            return true;
        }
        i = i + 1;
    }
    false
}

/// Whether bytes `a`, `b` stand at `i` in `s`.
pub open spec fn pair_at(s: Seq<u8>, i: int, a: u8, b: u8) -> bool {
    0 <= i && i + 1 < s.len() && s[i] == a && s[i + 1] == b
}

/// Where a `//` comment whose text starts at `i` ends: at the next line feed, or the end.
pub open spec fn line_comment_end(s: Seq<u8>, i: int) -> int
    decreases s.len() - i,
{
    if i < 0 || i >= s.len() {
        s.len() as int
    } else if s[i] == 0x0A {
        i
    } else {
        line_comment_end(s, i + 1)
    }
}

/// Where a block comment ends when `depth` comments are open at `i` (block comments nest).
pub open spec fn block_comment_end(s: Seq<u8>, i: int, depth: nat) -> int
    decreases s.len() - i,
{
    if i < 0 || i >= s.len() || depth == 0 {
        i
    } else if pair_at(s, i, 0x2F, 0x2A) {
        block_comment_end(s, i + 2, depth + 1)
    } else if pair_at(s, i, 0x2A, 0x2F) {
        block_comment_end(s, i + 2, (depth - 1) as nat)
    } else {
        block_comment_end(s, i + 1, depth)
    }
}

/// The number of `#` in a row from `k`.
pub open spec fn hash_run(s: Seq<u8>, k: int) -> int
    decreases s.len() - k,
{
    if 0 <= k < s.len() && s[k] == 0x23 {
        1 + hash_run(s, k + 1)
    } else {
        0
    }
}

/// Where the `r` of a raw string literal starting at `start` stands (`r"`, `br"`, `cr"`).
pub open spec fn raw_prefix(s: Seq<u8>, start: int) -> Option<int> {
    if 0 <= start < s.len() && s[start] == 0x72 {
        Some(start)
    } else if 0 <= start && start + 1 < s.len() && (s[start] == 0x62 || s[start] == 0x63) && s[start + 1] == 0x72 {
        Some(start + 1)
    } else {
        None
    }
}

/// Where a raw string with `h` hashes ends, looking for its closing quote from `cursor`; the
/// end of the source when it never closes.
pub open spec fn raw_close(s: Seq<u8>, cursor: int, h: int) -> int
    decreases s.len() - cursor,
{
    if cursor < 0 || cursor >= s.len() {
        s.len() as int
    } else if s[cursor] == 0x22 && cursor + 1 + h <= s.len() && (forall|k: int| cursor + 1 <= k < cursor + 1 + h ==> s[k] == 0x23) {
        cursor + 1 + h
    } else {
        raw_close(s, cursor + 1, h)
    }
}

/// Where a raw string literal that starts at `start` ends; `None` when none starts there.
pub open spec fn raw_string_end(s: Seq<u8>, start: int) -> Option<int> {
    match raw_prefix(s, start) {
        Some(p) => {
            let h = hash_run(s, p + 1);
            let q = p + 1 + h;
            if 0 <= q < s.len() && s[q] == 0x22 {
                Some(raw_close(s, q + 1, h))
            } else {
                None
            }
        },
        None => None,
    }
}

/// Where the opening quote of a string literal starting at `start` stands (`"`, `b"`, `c"`).
pub open spec fn cooked_quote(s: Seq<u8>, start: int) -> Option<int> {
    if 0 <= start < s.len() && s[start] == 0x22 {
        Some(start)
    } else if 0 <= start && start + 1 < s.len() && (s[start] == 0x62 || s[start] == 0x63) && s[start + 1] == 0x22 {
        Some(start + 1)
    } else {
        None
    }
}

/// Where the opening quote of a character literal starting at `start` stands (`'`, `b'`).
pub open spec fn char_quote(s: Seq<u8>, start: int) -> Option<int> {
    if 0 <= start < s.len() && s[start] == 0x27 {
        Some(start)
    } else if 0 <= start && start + 1 < s.len() && s[start] == 0x62 && s[start + 1] == 0x27 {
        Some(start + 1)
    } else {
        None
    }
}

/// Where a literal opened by the quote at `q` ends, scanning from `index` (a `\` escapes the
/// next byte): after its closing quote, at the end of the source, or, for a character literal
/// cut by a line feed, just after the opening quote.
pub open spec fn quoted_end(s: Seq<u8>, q: int, quote: u8, index: int, escaped: bool) -> int
    decreases s.len() - index,
{
    if index < 0 || index >= s.len() {
        s.len() as int
    } else {
        let b = s[index];
        if escaped {
            quoted_end(s, q, quote, index + 1, false)
        } else if b == 0x5C {
            quoted_end(s, q, quote, index + 1, true)
        } else if b == quote {
            index + 1
        } else if b == 0x0A && quote == 0x27 {
            q + 1
        } else {
            quoted_end(s, q, quote, index + 1, false)
        }
    }
}

/// Where a character literal opened by the quote at `q` ends: an escaped literal runs to its
/// closing quote; otherwise one UTF-8 character must be followed by `'`. `None` when the quote
/// opens no character literal (a lifetime, say).
pub open spec fn char_literal_end(s: Seq<u8>, q: int) -> Option<int> {
    let cs = q + 1;
    if cs < 0 || cs >= s.len() {
        None
    } else if s[cs] == 0x5C {
        let end = quoted_end(s, q, 0x27, q + 1, false);
        if end > cs + 1 {
            Some(end)
        } else {
            None
        }
    } else {
        let rest = s.skip(cs);
        if !vstd::utf8::valid_utf8(rest) || vstd::utf8::decode_utf8(rest).len() == 0 {
            None
        } else {
            let closing = cs + utf8_width(vstd::utf8::decode_utf8(rest)[0]);
            if closing < s.len() && s[closing] == 0x27 {
                Some(closing + 1)
            } else {
                None
            }
        }
    }
}

pub proof fn lemma_line_comment_end(s: Seq<u8>, i: int)
    requires
        0 <= i <= s.len(),
    ensures
        i <= line_comment_end(s, i) <= s.len(),
    decreases s.len() - i,
{
    if i < s.len() && s[i] != 0x0A {
        lemma_line_comment_end(s, i + 1);
    }
}

pub proof fn lemma_block_comment_end(s: Seq<u8>, i: int, depth: nat)
    requires
        0 <= i <= s.len(),
    ensures
        i <= block_comment_end(s, i, depth) <= s.len(),
    decreases s.len() - i,
{
    if i < s.len() && depth > 0 {
        if pair_at(s, i, 0x2F, 0x2A) {
            lemma_block_comment_end(s, i + 2, depth + 1);
        } else if pair_at(s, i, 0x2A, 0x2F) {
            lemma_block_comment_end(s, i + 2, (depth - 1) as nat);
        } else {
            lemma_block_comment_end(s, i + 1, depth);
        }
    }
}

pub proof fn lemma_hash_run(s: Seq<u8>, k: int)
    requires
        0 <= k,
    ensures
        0 <= hash_run(s, k),
        k < s.len() ==> k + hash_run(s, k) <= s.len(),
        forall|j: int| k <= j < k + hash_run(s, k) ==> s[j] == 0x23,
        0 <= k + hash_run(s, k) < s.len() ==> s[k + hash_run(s, k)] != 0x23,
    decreases s.len() - k,
{
    if 0 <= k < s.len() && s[k] == 0x23 {
        lemma_hash_run(s, k + 1);
    }
}

pub proof fn lemma_raw_close(s: Seq<u8>, cursor: int, h: int)
    requires
        0 <= cursor,
        0 <= h,
    ensures
        cursor < s.len() ==> cursor < raw_close(s, cursor, h) <= s.len(),
        cursor >= s.len() ==> raw_close(s, cursor, h) == s.len(),
    decreases s.len() - cursor,
{
    if cursor < s.len() {
        lemma_raw_close(s, cursor + 1, h);
    }
}

pub proof fn lemma_quoted_end(s: Seq<u8>, q: int, quote: u8, index: int, escaped: bool)
    requires
        0 <= q < index <= s.len(),
    ensures
        quote != 0x27 ==> index <= quoted_end(s, q, quote, index, escaped) <= s.len(),
        q < quoted_end(s, q, quote, index, escaped) <= s.len(),
    decreases s.len() - index,
{
    if index < s.len() {
        let b = s[index];
        if escaped {
            lemma_quoted_end(s, q, quote, index + 1, false);
        } else if b == 0x5C {
            lemma_quoted_end(s, q, quote, index + 1, true);
        } else if b == quote {
        } else if b == 0x0A && quote == 0x27 {
        } else {
            lemma_quoted_end(s, q, quote, index + 1, false);
        }
    }
}

pub proof fn lemma_raw_string_end(s: Seq<u8>, start: int)
    requires
        0 <= start < s.len(),
    ensures
        raw_string_end(s, start) matches Some(e) ==> start < e <= s.len(),
{
    match raw_prefix(s, start) {
        Some(p) => {
            lemma_hash_run(s, p + 1);
            let h = hash_run(s, p + 1);
            let q = p + 1 + h;
            if 0 <= q < s.len() && s[q] == 0x22 {
                lemma_raw_close(s, q + 1, h);
            }
        },
        None => {},
    }
}

pub proof fn lemma_char_literal_end(s: Seq<u8>, q: int)
    requires
        0 <= q < s.len(),
    ensures
        char_literal_end(s, q) matches Some(e) ==> q + 1 < e <= s.len(),
{
    let cs = q + 1;
    if 0 <= cs < s.len() && s[cs] == 0x5C {
        lemma_quoted_end(s, q, 0x27, q + 1, false);
    }
}

/// The source with each comment and each string or character literal replaced by a space:
/// what is left of Rust code once no text inside comments or literals can be mistaken for it.
pub open spec fn code_from(s: Seq<u8>, i: int) -> Seq<u8>
    decreases s.len() - i,
{
    if i < 0 || i >= s.len() {
        Seq::empty()
    } else if pair_at(s, i, 0x2F, 0x2F) {
        proof {
            lemma_line_comment_end(s, i + 2);
        }
        seq![0x20u8] + code_from(s, line_comment_end(s, i + 2))
    } else if pair_at(s, i, 0x2F, 0x2A) {
        proof {
            lemma_block_comment_end(s, i + 2, 1);
        }
        seq![0x20u8] + code_from(s, block_comment_end(s, i + 2, 1))
    } else if raw_string_end(s, i) is Some {
        proof {
            lemma_raw_string_end(s, i);
        }
        seq![0x20u8] + code_from(s, raw_string_end(s, i)->0)
    } else if cooked_quote(s, i) is Some {
        let q = cooked_quote(s, i)->0;
        proof {
            lemma_quoted_end(s, q, 0x22, q + 1, false);
        }
        seq![0x20u8] + code_from(s, quoted_end(s, q, 0x22, q + 1, false))
    } else if char_quote(s, i) is Some && char_literal_end(s, char_quote(s, i)->0) is Some {
        proof {
            lemma_char_literal_end(s, char_quote(s, i)->0);
        }
        seq![0x20u8] + code_from(s, char_literal_end(s, char_quote(s, i)->0)->0)
    } else {
        seq![s[i]] + code_from(s, i + 1)
    }
}

fn rust_line_comment_end(source: &[u8], index: usize) -> (r: usize)
    requires
        index <= source@.len(),
    ensures
        r as int == line_comment_end(source@, index as int),
{
    let mut i = index;
    while i < source.len() && source[i] != 0x0A
        invariant
            index <= i <= source@.len(),
            line_comment_end(source@, index as int) == line_comment_end(source@, i as int),
        decreases source.len() - i,
    {
        i = i + 1;
    }
    i
}

fn rust_block_comment_end(source: &[u8], index: usize) -> (r: usize)
    requires
        2 <= index <= source@.len(),
    ensures
        r as int == block_comment_end(source@, index as int, 1),
{
    let mut i = index;
    let mut depth: usize = 1;
    while i < source.len() && depth > 0
        invariant
            index <= i <= source@.len(),
            depth <= i,
            block_comment_end(source@, index as int, 1) == block_comment_end(source@, i as int, depth as nat),
        decreases source.len() - i,
    {
        if i + 1 < source.len() && source[i] == 0x2F && source[i + 1] == 0x2A {
            depth = depth + 1;
            i = i + 2;
        } else if i + 1 < source.len() && source[i] == 0x2A && source[i + 1] == 0x2F {
            depth = depth - 1;
            i = i + 2;
        } else {
            i = i + 1;
        }
    }
    i
}

fn rust_raw_string_end(source: &[u8], start: usize) -> (r: Option<usize>)
    requires
        start < source@.len(),
    ensures
        match raw_string_end(source@, start as int) {
            Some(e) => r == Some(e as usize),
            None => r is None,
        },
{
    let len = source.len();
    let raw = if source[start] == 0x72 {
        start
    } else if start + 1 < len && (source[start] == 0x62 || source[start] == 0x63) && source[start + 1] == 0x72 {
        start + 1
    } else {
        return None;
    };
    assert(raw_prefix(source@, start as int) == Some(raw as int));
    let mut opening = raw + 1;
    proof {
        lemma_hash_run(source@, raw + 1);
    }
    while opening < len && source[opening] == 0x23
        invariant
            len == source@.len(),
            raw < len,
            raw + 1 <= opening <= len,
            hash_run(source@, raw + 1) == (opening - raw - 1) + hash_run(source@, opening as int),
        decreases len - opening,
    {
        opening = opening + 1;
    }
    if !(opening < len && source[opening] == 0x22) {
        return None;
    }
    let h = opening - raw - 1;
    assert(h == hash_run(source@, raw + 1));
    assert(raw_string_end(source@, start as int) == Some(raw_close(source@, opening + 1, h as int)));
    let mut cursor = opening + 1;
    while cursor < len
        invariant
            raw_string_end(source@, start as int) == Some(raw_close(source@, opening + 1, h as int)),
            len == source@.len(),
            opening < len,
            h <= len,
            opening + 1 <= cursor <= len,
            raw_close(source@, opening + 1, h as int) == raw_close(source@, cursor as int, h as int),
        decreases len - cursor,
    {
        if source[cursor] == 0x22 && h < len - cursor {
            let mut k: usize = 0;
            let mut all = true;
            while k < h
                invariant
                    len == source@.len(),
                    cursor < len,
                    h < len - cursor,
                    k <= h,
                    all <==> forall|j: int| cursor + 1 <= j < cursor + 1 + k ==> source@[j] == 0x23,
                decreases h - k,
            {
                if source[cursor + 1 + k] != 0x23 {
                    all = false;
                }
                k = k + 1;
            }
            if all {
                assert(raw_close(source@, cursor as int, h as int) == cursor + 1 + h);
                return Some(cursor + 1 + h);
            }
        }
        cursor = cursor + 1;
    }
    Some(len)
}

fn rust_cooked_string_quote(source: &[u8], start: usize) -> (r: Option<usize>)
    requires
        start < source@.len(),
    ensures
        match cooked_quote(source@, start as int) {
            Some(q) => r == Some(q as usize),
            None => r is None,
        },
{
    if source[start] == 0x22 {
        Some(start)
    } else if start + 1 < source.len() && (source[start] == 0x62 || source[start] == 0x63) && source[start + 1] == 0x22 {
        Some(start + 1)
    } else {
        None
    }
}

fn rust_char_literal_quote(source: &[u8], start: usize) -> (r: Option<usize>)
    requires
        start < source@.len(),
    ensures
        match char_quote(source@, start as int) {
            Some(q) => r == Some(q as usize),
            None => r is None,
        },
{
    if source[start] == 0x27 {
        Some(start)
    } else if start + 1 < source.len() && source[start] == 0x62 && source[start + 1] == 0x27 {
        Some(start + 1)
    } else {
        None
    }
}

fn rust_quoted_literal_end(source: &[u8], quote_index: usize, quote: u8) -> (r: usize)
    requires
        quote_index < source@.len(),
    ensures
        r as int == quoted_end(source@, quote_index as int, quote, quote_index + 1, false),
{
    let len = source.len();
    assert(quote_index < len);
    let mut index = quote_index + 1;
    let mut escaped = false;
    while index < source.len()
        invariant
            quote_index < index <= source@.len(),
            quoted_end(source@, quote_index as int, quote, quote_index + 1, false) == quoted_end(
                source@,
                quote_index as int,
                quote,
                index as int,
                escaped,
            ),
        decreases source.len() - index,
    {
        let byte = source[index];
        index = index + 1;
        if escaped {
            escaped = false;
        } else if byte == 0x5C {
            escaped = true;
        } else if byte == quote {
            return index;
        } else if byte == 0x0A && quote == 0x27 {
            return quote_index + 1;
        }
    }
    source.len()
}

fn char_width(c: char) -> (r: usize)
    ensures
        r as nat == utf8_width(c),
        1 <= r <= 4,
{
    if c <= '\u{7f}' {
        1
    } else if c <= '\u{7ff}' {
        2
    } else if c <= '\u{ffff}' {
        3
    } else {
        4
    }
}

fn bytes_from(source: &[u8], start: usize) -> (r: Vec<u8>)
    requires
        start <= source@.len(),
    ensures
        r@ == source@.skip(start as int),
{
    let mut r: Vec<u8> = Vec::new();
    let mut i = start;
    while i < source.len()
        invariant
            start <= i <= source@.len(),
            r@ == source@.subrange(start as int, i as int),
        decreases source.len() - i,
    {
        r.push(source[i]);
        i = i + 1;
        assert(r@ =~= source@.subrange(start as int, i as int));
    }
    assert(r@ =~= source@.skip(start as int));
    r
}

fn rust_char_literal_end(source: &[u8], quote_index: usize) -> (r: Option<usize>)
    requires
        quote_index < source@.len(),
    ensures
        match char_literal_end(source@, quote_index as int) {
            Some(e) => r == Some(e as usize),
            None => r is None,
        },
{
    let len = source.len();
    let content_start = quote_index + 1;
    if content_start >= len {
        return None;
    }
    if source[content_start] == 0x5C {
        let end = rust_quoted_literal_end(source, quote_index, 0x27);
        if end > content_start + 1 {
            return Some(end);
        }
        return None;
    }
    let rest = bytes_from(source, content_start);
    match crate::text::utf8_text(rest.as_slice()) {
        None => None,
        Some(text) => {
            let chars = str_chars(text.as_str());
            if chars.len() == 0 {
                return None;
            }
            let w = char_width(chars[0]);
            if w < len - content_start && source[content_start + w] == 0x27 {
                Some(content_start + w + 1)
            } else {
                None
            }
        },
    }
}

/// The source with its comments and literals blanked out (see `code_from`).
pub fn rust_code_without_comments_and_literals(source: &[u8]) -> (r: Vec<u8>)
    ensures
        r@ == code_from(source@, 0),
{
    let len = source.len();
    let mut code: Vec<u8> = Vec::new();
    let mut index: usize = 0;
    while index < len
        invariant
            len == source@.len(),
            index <= len,
            code_from(source@, 0) == code@ + code_from(source@, index as int),
        decreases len - index,
    {
        let ghost before = code@;
        let ghost at = index as int;
        if index + 1 < len && source[index] == 0x2F && source[index + 1] == 0x2F {
            proof {
                lemma_line_comment_end(source@, at + 2);
            }
            index = rust_line_comment_end(source, index + 2);
            code.push(0x20);
            assert(code@ + code_from(source@, index as int) =~= before + (seq![0x20u8] + code_from(source@, index as int)));
        } else if index + 1 < len && source[index] == 0x2F && source[index + 1] == 0x2A {
            proof {
                lemma_block_comment_end(source@, at + 2, 1);
            }
            index = rust_block_comment_end(source, index + 2);
            code.push(0x20);
            assert(code@ + code_from(source@, index as int) =~= before + (seq![0x20u8] + code_from(source@, index as int)));
        } else {
            match rust_raw_string_end(source, index) {
                Some(end) => {
                    proof {
                        lemma_raw_string_end(source@, at);
                    }
                    index = end;
                    code.push(0x20);
                    assert(code@ + code_from(source@, index as int) =~= before + (seq![0x20u8] + code_from(source@, index as int)));
                },
                None => {
                    match rust_cooked_string_quote(source, index) {
                        Some(q) => {
                            proof {
                                lemma_quoted_end(source@, q as int, 0x22, q + 1, false);
                            }
                            index = rust_quoted_literal_end(source, q, 0x22);
                            code.push(0x20);
                            assert(code@ + code_from(source@, index as int) =~= before + (seq![0x20u8] + code_from(source@, index as int)));
                        },
                        None => {
                            let lit = match rust_char_literal_quote(source, index) {
                                Some(q) => rust_char_literal_end(source, q),
                                None => None,
                            };
                            match lit {
                                Some(end) => {
                                    proof {
                                        lemma_char_literal_end(source@, char_quote(source@, at)->0);
                                    }
                                    index = end;
                                    code.push(0x20);
                                    assert(code@ + code_from(source@, index as int) =~= before + (seq![0x20u8] + code_from(source@, index as int)));
                                },
                                None => {
                                    code.push(source[index]);
                                    index = index + 1;
                                    assert(code@ + code_from(source@, index as int) =~= before + (seq![source@[at]] + code_from(source@, index as int)));
                                },
                            }
                        },
                    }
                },
            }
        }
    }
    assert(code@ + code_from(source@, index as int) =~= code@);
    code
}

/// Whether a byte is ASCII whitespace (`u8::is_ascii_whitespace`: space, tab, line feed, form
/// feed, carriage return).
pub open spec fn is_ascii_ws(b: u8) -> bool {
    b == 0x20 || b == 0x09 || b == 0x0A || b == 0x0C || b == 0x0D
}

/// Bytes without their ASCII whitespace.
pub open spec fn without_ascii_ws(s: Seq<u8>) -> Seq<u8>
    decreases s.len(),
{
    if s.len() == 0 {
        Seq::empty()
    } else if is_ascii_ws(s.last()) {
        without_ascii_ws(s.drop_last())
    } else {
        without_ascii_ws(s.drop_last()).push(s.last())
    }
}

/// Whether `w` occurs as a run of bytes in `s`.
pub open spec fn has_window(s: Seq<u8>, w: Seq<u8>) -> bool {
    exists|k: int| 0 <= k && k + w.len() <= s.len() && #[trigger] s.subrange(k, k + w.len()) == w
}

/// Whether Rust source holds an attribute written (without whitespace) as
/// `compact_attribute`, outside comments and literals and however it is spaced.
pub open spec fn source_has_attribute(source: Seq<char>, compact_attribute: Seq<char>) -> bool {
    has_window(
        without_ascii_ws(code_from(vstd::utf8::encode_utf8(source), 0)),
        vstd::utf8::encode_utf8(compact_attribute),
    )
}

fn bytes_window_at(s: &Vec<u8>, w: &[u8], k: usize) -> (r: bool)
    requires
        k + w@.len() <= s.len(),
    ensures
        r == (s@.subrange(k as int, k + w@.len()) == w@),
{
    let mut j: usize = 0;
    while j < w.len()
        invariant
            k + w@.len() <= s.len(),
            j <= w@.len(),
            forall|m: int| 0 <= m < j ==> s@[k + m] == w@[m],
        decreases w.len() - j,
    {
        if s[k + j] != w[j] {
            assert(s@.subrange(k as int, k + w@.len())[j as int] != w@[j as int]);
            return false;
        }
        j = j + 1;
    }
    assert(s@.subrange(k as int, k + w@.len()) =~= w@);
    true
}

/// Whether Rust source holds `compact_attribute` (see `source_has_attribute`).
pub fn rust_source_has_attribute(source: &str, compact_attribute: &str) -> (r: bool)
    requires
        compact_attribute@.len() > 0,
    ensures
        r == source_has_attribute(source@, compact_attribute@),
{
    let code = rust_code_without_comments_and_literals(source.as_bytes());
    let ghost code_spec = code_from(vstd::utf8::encode_utf8(source@), 0);
    assert(code@ == code_spec);
    let mut compact: Vec<u8> = Vec::new();
    let mut i: usize = 0;
    while i < code.len()
        invariant
            code@ == code_spec,
            i <= code@.len(),
            compact@ == without_ascii_ws(code@.take(i as int)),
        decreases code.len() - i,
    {
        assert(code@.take(i + 1).drop_last() =~= code@.take(i as int));
        let b = code[i];
        if !(b == 0x20 || b == 0x09 || b == 0x0A || b == 0x0C || b == 0x0D) {
            compact.push(b);
        }
        i = i + 1;
    }
    assert(code@.take(i as int) =~= code@);
    let w = compact_attribute.as_bytes();
    proof {
        let c = compact_attribute@;
        assert(vstd::utf8::encode_utf8(c) == vstd::utf8::encode_scalar(c[0] as u32) + vstd::utf8::encode_utf8(c.drop_first()));
        assert(vstd::utf8::encode_utf8(c).len() >= 1);
    }
    if w.len() > compact.len() {
        return false;
    }
    let last = compact.len() - w.len();
    let mut k: usize = 0;
    while k <= last
        invariant
            1 <= w@.len() <= compact.len(),
            w@ == vstd::utf8::encode_utf8(compact_attribute@),
            code_spec == code_from(vstd::utf8::encode_utf8(source@), 0),
            compact@ == without_ascii_ws(code_spec),
            last == compact.len() - w@.len(),
            k <= last + 1,
            forall|j: int| 0 <= j < k ==> #[trigger] compact@.subrange(j, j + w@.len()) != w@,
        decreases last + 1 - k,
    {
        if bytes_window_at(&compact, w, k) {
            assert(compact@.subrange(k as int, k + w@.len()) == w@);
            assert(has_window(compact@, w@));
            return true;
        }
        k = k + 1;
    }
    proof {
        assert forall|j: int| 0 <= j && j + w@.len() <= compact@.len() implies #[trigger] compact@.subrange(j, j + w@.len()) != w@ by {
            assert(j < k);
        }
    }
    false
}

/// Whether Rust source declares a `#[global_allocator]` (see `source_has_attribute`).
pub fn rust_source_has_global_allocator(source: &str) -> (r: bool)
    ensures
        r == source_has_attribute(source@, "#[global_allocator]"@),
{
    proof {
        reveal_strlit("#[global_allocator]");
    }
    rust_source_has_attribute(source, "#[global_allocator]")
}

} // verus!
