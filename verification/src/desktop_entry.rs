use vstd::prelude::*;
use crate::event_log::{eq_ignore_ascii_case, names_equal_ignoring_case};
use crate::text::{concat, str_chars, str_eq, string_from_chars, string_push, trim, trim_spec};
use crate::catalog::{InstalledAppCatalogEntry, InstalledAppCatalogSource, InstalledAppCatalogTarget};
use crate::catalog_merge::{append_new, dedup_catalog_entries, sort_catalog_entries, sorted_by_name, IdentifiedEntry};
use crate::shell::{to_lowercase, unicode_lowercase};

verus! {

// ---------------------------------------------------------------------------------------
// Exec= field codes

/// Whether a field code of an `Exec=` value is dropped: the file, URL, icon, name and
/// location codes the specification defines.
pub open spec fn is_dropped_field_code(c: char) -> bool {
    c == 'f' || c == 'F' || c == 'u' || c == 'U' || c == 'd' || c == 'D' || c == 'n' || c == 'N' || c == 'i'
        || c == 'c' || c == 'k' || c == 'v' || c == 'm'
}

/// Scans an `Exec=` token: the text so far and whether a `%` waits for its code. `%%` gives
/// `%`, a known code is dropped with its `%`, any other character after `%` is kept with it.
pub open spec fn field_code_scan(s: Seq<char>) -> (Seq<char>, bool)
    decreases s.len(),
{
    if s.len() == 0 {
        (Seq::empty(), false)
    } else {
        let (out, pending) = field_code_scan(s.drop_last());
        let c = s.last();
        if pending {
            if c == '%' {
                (out.push('%'), false)
            } else if is_dropped_field_code(c) {
                (out, false)
            } else {
                (out.push('%').push(c), false)
            }
        } else if c == '%' {
            (out, true)
        } else {
            (out.push(c), false)
        }
    }
}

/// An `Exec=` token without its field codes (a `%` at its end is kept), trimmed; `None` when
/// nothing is left.
pub open spec fn stripped_token(s: Seq<char>) -> Option<Seq<char>> {
    let (out, pending) = field_code_scan(s);
    let full = if pending {
        out.push('%')
    } else {
        out
    };
    if trim_spec(full).len() == 0 {
        None
    } else {
        Some(trim_spec(full))
    }
}

fn is_dropped_field_code_exec(c: char) -> (r: bool)
    ensures
        r == is_dropped_field_code(c),
{
    c == 'f' || c == 'F' || c == 'u' || c == 'U' || c == 'd' || c == 'D' || c == 'n' || c == 'N' || c == 'i'
        || c == 'c' || c == 'k' || c == 'v' || c == 'm'
}

/// Drops the field codes of an `Exec=` token (see `stripped_token`).
pub fn strip_exec_field_codes(token: &str) -> (r: Option<String>)
    ensures
        match stripped_token(token@) {
            Some(t) => r matches Some(s) && s@ == t,
            None => r is None,
        },
{
    let chars = str_chars(token);
    let mut out = String::new();
    let mut pending = false;
    let mut i: usize = 0;
    while i < chars.len()
        invariant
            chars@ == token@,
            i <= chars@.len(),
            (out@, pending) == field_code_scan(chars@.take(i as int)),
        decreases chars.len() - i,
    {
        assert(chars@.take(i + 1).drop_last() =~= chars@.take(i as int));
        let c = chars[i];
        if pending {
            if c == '%' {
                string_push(&mut out, '%');
            } else if !is_dropped_field_code_exec(c) {
                string_push(&mut out, '%');
                string_push(&mut out, c);
            }
            pending = false;
        } else if c == '%' {
            pending = true;
        } else {
            string_push(&mut out, c);
        }
        i = i + 1;
    }
    assert(chars@.take(i as int) =~= chars@);
    if pending {
        string_push(&mut out, '%');
    }
    let cleaned = trim(out.as_str());
    if str_chars(cleaned.as_str()).len() == 0 {
        None
    } else {
        Some(cleaned)
    }
}

// ---------------------------------------------------------------------------------------
// Exec= tokens

/// The words `shlex::split` makes of a text: `None` where the text is not well quoted.
pub uninterp spec fn shell_words(text: Seq<char>) -> Option<Seq<Seq<char>>>;

/// The texts of a list of strings.
pub open spec fn texts(v: Seq<String>) -> Seq<Seq<char>> {
    v.map_values(|s: String| s@)
}

/// Splits a text into words as a POSIX shell would, with `shlex::split`. Claimed: the result
/// is the named split of the text (`None` for badly quoted text), the same for the same text.
#[verifier::external_body]
fn shlex_split(text: &str) -> (r: Option<Vec<String>>)
    ensures
        match shell_words(text@) {
            Some(w) => r matches Some(v) && texts(v@) == w,
            None => r is None,
        },
{
    shlex::split(text)
}

/// The tokens of texts once field codes are dropped, in order, without those left empty.
pub open spec fn stripped_tokens(words: Seq<Seq<char>>) -> Seq<Seq<char>>
    decreases words.len(),
{
    if words.len() == 0 {
        Seq::empty()
    } else {
        let rest = stripped_tokens(words.drop_last());
        match stripped_token(words.last()) {
            Some(t) => rest.push(t),
            None => rest,
        }
    }
}

/// The words of an `Exec=` value: its shell words (the whole value as one word when it is
/// not well quoted), without field codes and empty words.
pub open spec fn exec_words(exec: Seq<char>) -> Seq<Seq<char>> {
    match shell_words(exec) {
        Some(w) => stripped_tokens(w),
        None => stripped_tokens(seq![exec]),
    }
}

/// The tokens of an `Exec=` value (see `exec_words`); an error when none is left.
pub fn desktop_exec_tokens(exec: &str) -> (r: Result<Vec<String>, String>)
    ensures
        exec_words(exec@).len() == 0 ==> (r matches Err(e) && e@ == "Exec is empty"@),
        exec_words(exec@).len() != 0 ==> (r matches Ok(v) && texts(v@) == exec_words(exec@)),
{
    let raw = match shlex_split(exec) {
        Some(words) => words,
        None => {
            let mut one: Vec<String> = Vec::new();
            one.push(crate::text::owned(exec));
            assert(texts(one@) =~= seq![exec@]);
            one
        },
    };
    let ghost words = texts(raw@);
    let mut tokens: Vec<String> = Vec::new();
    let mut i: usize = 0;
    while i < raw.len()
        invariant
            i <= raw@.len(),
            words == texts(raw@),
            texts(tokens@) == stripped_tokens(words.take(i as int)),
        decreases raw.len() - i,
    {
        assert(words.take(i + 1).drop_last() =~= words.take(i as int));
        assert(words.take(i + 1).last() == raw@[i as int]@);
        let ghost before = tokens@;
        match strip_exec_field_codes(raw[i].as_str()) {
            Some(t) => {
                tokens.push(t);
                assert(texts(tokens@) =~= texts(before).push(tokens@.last()@));
            },
            None => {},
        }
        i = i + 1;
    }
    assert(words.take(i as int) =~= words);
    if tokens.len() == 0 {
        return Err(crate::text::owned("Exec is empty"));
    }
    Ok(tokens)
}

/// Whether a word sets an environment variable for `env`: it holds `=` and does not start with
/// `-`.
pub open spec fn is_env_assignment(w: Seq<char>) -> bool {
    w.contains('=') && !(w.len() > 0 && w[0] == '-')
}

/// The number of words after the first that set variables for `env`.
pub open spec fn env_assignments(words: Seq<Seq<char>>, from: int) -> int
    decreases words.len() - from,
{
    if from < words.len() && is_env_assignment(words[from]) {
        env_assignments(words, from + 1)
    } else {
        from
    }
}

/// The command an `Exec=` value runs and its arguments: its first word, or, for an `env`
/// invocation, the first word after the variable settings.
pub open spec fn exec_command(exec: Seq<char>) -> Result<(Seq<char>, Seq<Seq<char>>), Seq<char>> {
    let words = exec_words(exec);
    if words.len() == 0 {
        Err("Exec is empty"@)
    } else if words[0] == "env"@ {
        let k = env_assignments(words, 1);
        if k >= words.len() {
            Err("desktop Exec= only contained env assignments"@)
        } else {
            Ok((words[k], words.skip(k + 1)))
        }
    } else {
        Ok((words[0], words.skip(1)))
    }
}

fn word_sets_variable(w: &str) -> (r: bool)
    ensures
        r == is_env_assignment(w@),
{
    let v = str_chars(w);
    let mut has_eq = false;
    let mut i: usize = 0;
    while i < v.len()
        invariant
            v@ == w@,
            i <= v@.len(),
            has_eq == (exists|k: int| 0 <= k < i && v@[k] == '='),
        decreases v.len() - i,
    {
        if v[i] == '=' {
            has_eq = true;
        }
        i = i + 1;
    }
    has_eq && !(v.len() > 0 && v[0] == '-')
}

/// The command an `Exec=` value runs and its arguments (see `exec_command`); finding the
/// command's file is left to the caller.
pub fn desktop_exec_command(exec: &str) -> (r: Result<(String, Vec<String>), String>)
    ensures
        match exec_command(exec@) {
            Ok((command, args)) => r matches Ok((c, a)) && c@ == command && texts(a@) == args,
            Err(e) => r matches Err(m) && m@ == e,
        },
{
    let tokens = match desktop_exec_tokens(exec) {
        Ok(t) => t,
        Err(e) => return Err(e),
    };
    let ghost words = texts(tokens@);
    let mut index: usize = 0;
    proof {
        reveal_strlit("env");
    }
    if str_eq(tokens[0].as_str(), "env") {
        index = 1;
        while index < tokens.len() && word_sets_variable(tokens[index].as_str())
            invariant
                1 <= index <= tokens@.len(),
                words == texts(tokens@),
                env_assignments(words, 1) == env_assignments(words, index as int),
            decreases tokens.len() - index,
        {
            index = index + 1;
        }
        if index >= tokens.len() {
            return Err(crate::text::owned("desktop Exec= only contained env assignments"));
        }
    }
    let command = tokens[index].clone();
    let mut args: Vec<String> = Vec::new();
    let mut k: usize = index + 1;
    while k < tokens.len()
        invariant
            index < tokens@.len(),
            index + 1 <= k <= tokens@.len(),
            words == texts(tokens@),
            texts(args@) == words.subrange(index + 1, k as int),
        decreases tokens.len() - k,
    {
        let ghost before = args@;
        assert(words[k as int] == tokens@[k as int]@);
        let item = tokens[k].clone();
        assert(item@ == tokens@[k as int]@);
        args.push(item);
        assert(texts(args@) =~= texts(before).push(item@));
        assert(texts(args@) =~= words.subrange(index + 1, k + 1));
        k = k + 1;
    }
    assert(words.subrange(index + 1, k as int) =~= words.skip(index + 1));
    Ok((command, args))
}

// ---------------------------------------------------------------------------------------
// .desktop files

/// What a `.desktop` file's `[Desktop Entry]` section says.
#[derive(Debug, Clone, PartialEq, Eq)]
pub struct DesktopEntry {
    pub name: String,
    pub exec_value: String,
    pub hidden: bool,
    pub no_display: bool,
    pub entry_type: Option<String>,
}

/// The lines of a text: its pieces between line feeds.
pub open spec fn text_lines(s: Seq<char>) -> Seq<Seq<char>>
    decreases s.len(),
{
    if s.len() == 0 {
        seq![Seq::empty()]
    } else {
        let l = text_lines(s.drop_last());
        if s.last() == '\n' {
            l.push(Seq::empty())
        } else {
            l.update(l.len() - 1, l.last().push(s.last()))
        }
    }
}

/// The text before the first `=` of a line, and the text after it, if it has one.
pub open spec fn split_at_equals(s: Seq<char>) -> Option<(Seq<char>, Seq<char>)>
    decreases s.len(),
{
    if s.len() == 0 {
        None
    } else if s[0] == '=' {
        Some((Seq::empty(), s.drop_first()))
    } else {
        match split_at_equals(s.drop_first()) {
            Some((k, v)) => Some((seq![s[0]] + k, v)),
            None => None,
        }
    }
}

/// The abstract value of a `.desktop` entry.
pub struct DesktopEntryView {
    pub name: Seq<char>,
    pub exec_value: Seq<char>,
    pub hidden: bool,
    pub no_display: bool,
    pub entry_type: Option<Seq<char>>,
}

impl View for DesktopEntry {
    type V = DesktopEntryView;

    open spec fn view(&self) -> DesktopEntryView {
        DesktopEntryView {
            name: self.name@,
            exec_value: self.exec_value@,
            hidden: self.hidden,
            no_display: self.no_display,
            entry_type: match self.entry_type {
                Some(t) => Some(t@),
                None => None,
            },
        }
    }
}

/// How one line changes what was read so far (whether the `[Desktop Entry]` section is the
/// current one, and the entry): blank lines and comments change nothing; a section header
/// selects its section; inside the entry's section `Name` and `Exec` are taken the first
/// time, `Type` is taken, and `Hidden` and `NoDisplay` are set by a (case-blind) `true`.
pub open spec fn desktop_line_step(state: (bool, DesktopEntryView), line: Seq<char>) -> (bool, DesktopEntryView) {
    let t = trim_spec(line);
    let inside = state.0;
    let e = state.1;
    if t.len() == 0 || t[0] == '#' {
        state
    } else if t[0] == '[' && t.last() == ']' {
        (eq_ignore_ascii_case(t, "[Desktop Entry]"@), e)
    } else if !inside {
        state
    } else {
        match split_at_equals(t) {
            None => state,
            Some((k, v)) => {
                let key = trim_spec(k);
                let value = trim_spec(v);
                if key == "Name"@ && e.name.len() == 0 {
                    (inside, DesktopEntryView { name: value, ..e })
                } else if key == "Exec"@ && e.exec_value.len() == 0 {
                    (inside, DesktopEntryView { exec_value: value, ..e })
                } else if key == "Type"@ {
                    (inside, DesktopEntryView { entry_type: Some(value), ..e })
                } else if key == "Hidden"@ {
                    (inside, DesktopEntryView { hidden: eq_ignore_ascii_case(value, "true"@), ..e })
                } else if key == "NoDisplay"@ {
                    (inside, DesktopEntryView { no_display: eq_ignore_ascii_case(value, "true"@), ..e })
                } else {
                    state
                }
            },
        }
    }
}

/// An entry with nothing read yet.
pub open spec fn empty_desktop_entry() -> DesktopEntryView {
    DesktopEntryView { name: Seq::empty(), exec_value: Seq::empty(), hidden: false, no_display: false, entry_type: None }
}

/// What the lines of a `.desktop` file say, read in order from outside any section.
pub open spec fn desktop_scan(lines: Seq<Seq<char>>) -> (bool, DesktopEntryView)
    decreases lines.len(),
{
    if lines.len() == 0 {
        (false, empty_desktop_entry())
    } else {
        desktop_line_step(desktop_scan(lines.drop_last()), lines.last())
    }
}

/// The entry of a `.desktop` file: an error when it has no `Exec=`; `Unknown` as its name when
/// it has none.
pub open spec fn desktop_entry_of(content: Seq<char>) -> Result<DesktopEntryView, Seq<char>> {
    let e = desktop_scan(text_lines(content)).1;
    if e.exec_value.len() == 0 {
        Err("Exec= not found in .desktop"@)
    } else if e.name.len() == 0 {
        Ok(DesktopEntryView { name: "Unknown"@, ..e })
    } else {
        Ok(e)
    }
}

pub(crate) proof fn lemma_split_at_equals(s: Seq<char>, i: int)
    requires
        0 <= i <= s.len(),
        forall|k: int| 0 <= k < i ==> s[k] != '=',
    ensures
        i < s.len() && s[i] == '=' ==> split_at_equals(s) == Some((s.take(i), s.skip(i + 1))),
        i == s.len() ==> split_at_equals(s) is None,
    decreases i,
{
    if i > 0 {
        let t = s.drop_first();
        assert forall|k: int| 0 <= k < i - 1 implies t[k] != '=' by {
            assert(t[k] == s[k + 1]);
        }
        lemma_split_at_equals(t, i - 1);
        if i < s.len() {
            assert(seq![s[0]] + t.take(i - 1) =~= s.take(i));
            assert(t.skip(i) =~= s.skip(i + 1));
        }
    } else if s.len() > 0 {
        assert(s.skip(1) =~= s.drop_first());
        assert(s.take(0) =~= Seq::<char>::empty());
    }
}

fn chars_string(v: &Vec<char>, start: usize, end: usize) -> (r: String)
    requires
        start <= end <= v@.len(),
    ensures
        r@ == v@.subrange(start as int, end as int),
{
    string_from_chars(v.as_slice(), start, end)
}

fn is_true_text(s: &str) -> (r: bool)
    ensures
        r == eq_ignore_ascii_case(s@, "true"@),
{
    proof {
        reveal_strlit("true");
    }
    names_equal_ignoring_case(s, "true")
}

/// Reads one line of a `.desktop` file (see `desktop_line_step`).
fn desktop_line(inside: bool, entry: DesktopEntry, line: &Vec<char>) -> (r: (bool, DesktopEntry))
    ensures
        (r.0, r.1@) == desktop_line_step((inside, entry@), line@),
{
    let whole = chars_string(line, 0, line.len());
    assert(line@.subrange(0, line@.len() as int) =~= line@);
    let trimmed = trim(whole.as_str());
    let t = str_chars(trimmed.as_str());
    if t.len() == 0 || t[0] == '#' {
        return (inside, entry);
    }
    if t[0] == '[' && t[t.len() - 1] == ']' {
        proof {
            reveal_strlit("[Desktop Entry]");
        }
        return (names_equal_ignoring_case(trimmed.as_str(), "[Desktop Entry]"), entry);
    }
    if !inside {
        return (inside, entry);
    }
    let mut i: usize = 0;
    while i < t.len() && t[i] != '='
        invariant
            i <= t@.len(),
            forall|k: int| 0 <= k < i ==> t@[k] != '=',
        decreases t.len() - i,
    {
        i = i + 1;
    }
    proof {
        lemma_split_at_equals(t@, i as int);
    }
    if i == t.len() {
        return (inside, entry);
    }
    let raw_key = chars_string(&t, 0, i);
    let raw_value = chars_string(&t, i + 1, t.len());
    assert(t@.subrange(0, i as int) =~= t@.take(i as int));
    assert(t@.subrange(i + 1, t@.len() as int) =~= t@.skip(i + 1));
    let key = trim(raw_key.as_str());
    let value = trim(raw_value.as_str());
    proof {
        reveal_strlit("Name");
        reveal_strlit("Exec");
        reveal_strlit("Type");
        reveal_strlit("Hidden");
        reveal_strlit("NoDisplay");
    }
    let mut e = entry;
    if str_eq(key.as_str(), "Name") && str_chars(e.name.as_str()).len() == 0 {
        e.name = value;
    } else if str_eq(key.as_str(), "Exec") && str_chars(e.exec_value.as_str()).len() == 0 {
        e.exec_value = value;
    } else if str_eq(key.as_str(), "Type") {
        e.entry_type = Some(value);
    } else if str_eq(key.as_str(), "Hidden") {
        e.hidden = is_true_text(value.as_str());
    } else if str_eq(key.as_str(), "NoDisplay") {
        e.no_display = is_true_text(value.as_str());
    }
    (inside, e)
}

/// Reads the `[Desktop Entry]` section of a `.desktop` file (see `desktop_entry_of`).
pub fn parse_desktop_entry(content: &str) -> (r: Result<DesktopEntry, String>)
    ensures
        match desktop_entry_of(content@) {
            Ok(e) => r matches Ok(d) && d@ == e,
            Err(m) => r matches Err(x) && x@ == m,
        },
{
    let chars = str_chars(content);
    let mut inside = false;
    let mut entry = DesktopEntry {
        name: String::new(),
        exec_value: String::new(),
        hidden: false,
        no_display: false,
        entry_type: None,
    };
    let mut line: Vec<char> = Vec::new();
    let mut i: usize = 0;
    assert(entry@ == empty_desktop_entry());
    while i < chars.len()
        invariant
            chars@ == content@,
            i <= chars@.len(),
            text_lines(chars@.take(i as int)).len() >= 1,
            (inside, entry@) == desktop_scan(text_lines(chars@.take(i as int)).drop_last()),
            line@ == text_lines(chars@.take(i as int)).last(),
        decreases chars.len() - i,
    {
        let ghost ls = text_lines(chars@.take(i as int));
        assert(chars@.take(i + 1).drop_last() =~= chars@.take(i as int));
        let c = chars[i];
        if c == '\n' {
            let (a, b) = desktop_line(inside, entry, &line);
            inside = a;
            entry = b;
            line = Vec::new();
            proof {
                let ls2 = text_lines(chars@.take(i + 1));
                assert(ls2 == ls.push(Seq::<char>::empty()));
                assert(ls2.drop_last() =~= ls);
                assert(ls.drop_last().push(ls.last()) =~= ls);
                assert(line@ =~= Seq::<char>::empty());
            }
        } else {
            line.push(c);
            proof {
                let ls2 = text_lines(chars@.take(i + 1));
                assert(ls2.drop_last() =~= ls.drop_last());
            }
        }
        i = i + 1;
    }
    assert(chars@.take(i as int) =~= chars@);
    let (a, b) = desktop_line(inside, entry, &line);
    proof {
        let ls = text_lines(chars@);
        assert(ls.drop_last().push(ls.last()) =~= ls);
    }
    let _ = a;
    let mut e = b;
    if str_chars(e.exec_value.as_str()).len() == 0 {
        return Err(crate::text::owned("Exec= not found in .desktop"));
    }
    if str_chars(e.name.as_str()).len() == 0 {
        e.name = crate::text::owned("Unknown");
        proof {
            reveal_strlit("Unknown");
        }
    }
    Ok(e)
}

// ---------------------------------------------------------------------------------------
// The catalog of desktop entries

/// A `.desktop` file found for the picker: its path, what reading its entry gave, and whether
/// the command of its `Exec=` was found.
#[derive(Debug)]
pub struct DesktopFile {
    pub path: String,
    pub entry: Result<DesktopEntry, String>,
    pub exec_resolves: bool,
}

/// Whether a desktop file is offered in the picker: its entry was read, it is neither hidden
/// nor marked not to be displayed, it is an application (or gives no type), and its command
/// was found.
pub open spec fn offered(f: DesktopFile) -> bool {
    &&& f.entry matches Ok(e)
    &&& !e.hidden
    &&& !e.no_display
    &&& (e.entry_type matches Some(t) ==> eq_ignore_ascii_case(t@, "Application"@))
    &&& f.exec_resolves
}

/// Whether `c` is the picker entry of offered desktop file `f`, with its identity: its
/// lower-cased name and path joined by `|`.
pub open spec fn is_candidate_of(c: IdentifiedEntry, f: DesktopFile) -> bool {
    &&& f.entry matches Ok(e)
    &&& c.0.name == e.name
    &&& c.0.target == InstalledAppCatalogTarget::Path(f.path)
    &&& c.0.source == InstalledAppCatalogSource::LinuxDesktopEntry
    &&& c.0.detail == f.path
    &&& c.1@ == unicode_lowercase(e.name@) + "|"@ + unicode_lowercase(f.path@)
}

/// `cands` are the picker entries of the offered files of `files`, in order.
pub open spec fn candidates_of(cands: Seq<IdentifiedEntry>, files: Seq<DesktopFile>) -> bool
    decreases files.len(),
{
    if files.len() == 0 {
        cands.len() == 0
    } else if offered(files.last()) {
        cands.len() > 0 && is_candidate_of(cands.last(), files.last()) && candidates_of(cands.drop_last(), files.drop_last())
    } else {
        candidates_of(cands, files.drop_last())
    }
}

fn is_application_type(t: &Option<String>) -> (r: bool)
    ensures
        r == (t matches Some(x) ==> eq_ignore_ascii_case(x@, "Application"@)),
{
    proof {
        reveal_strlit("Application");
    }
    match t {
        Some(x) => names_equal_ignoring_case(x.as_str(), "Application"),
        None => true,
    }
}

/// The picker entries of desktop files: those offered (see `offered`), the first of each
/// identity, listed by lower-cased name.
pub fn desktop_catalog_entries(files: Vec<DesktopFile>) -> (r: Vec<IdentifiedEntry>)
    ensures
        exists|cands: Seq<IdentifiedEntry>|
            candidates_of(cands, files@) && r@ == sorted_by_name(append_new(Seq::empty(), cands)),
{
    let mut cands: Vec<IdentifiedEntry> = Vec::new();
    let mut i: usize = 0;
    while i < files.len()
        invariant
            i <= files@.len(),
            candidates_of(cands@, files@.take(i as int)),
        decreases files.len() - i,
    {
        let f = &files[i];
        assert(files@.take(i + 1).drop_last() =~= files@.take(i as int));
        assert(files@.take(i + 1).last() == files@[i as int]);
        match &f.entry {
            Ok(e) => {
                if !e.hidden && !e.no_display && is_application_type(&e.entry_type) && f.exec_resolves {
                    let lower_name = to_lowercase(e.name.as_str());
                    let lower_path = to_lowercase(f.path.as_str());
                    let a = concat(lower_name.as_str(), "|");
                    let identity = concat(a.as_str(), lower_path.as_str());
                    proof {
                        reveal_strlit("|");
                    }
                    let entry = InstalledAppCatalogEntry::new_path(
                        e.name.clone(),
                        f.path.clone(),
                        InstalledAppCatalogSource::LinuxDesktopEntry,
                    );
                    let ghost before = cands@;
                    cands.push((entry, identity));
                    assert(cands@.drop_last() =~= before);
                }
            },
            Err(_) => {},
        }
        i = i + 1;
    }
    assert(files@.take(i as int) =~= files@);
    let deduped = dedup_catalog_entries(cands);
    sort_catalog_entries(deduped)
}

} // verus!
