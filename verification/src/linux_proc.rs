use vstd::prelude::*;
use crate::desktop_entry::text_lines;
use crate::event_log::starts_with;
use crate::process::PriorityClass;
use crate::text::{
    concat, decimal, digit_value, format_u64, is_digit, is_whitespace, is_whitespace_exec, owned, str_chars,
    string_from_chars, trim, trim_spec,
};

verus! {

/// The nice value the Linux build gives a priority class (real-time is set through the
/// scheduler instead; its nice value is the strongest).
pub open spec fn nice_of(p: PriorityClass) -> i32 {
    match p {
        PriorityClass::Idle => 19i32,
        PriorityClass::BelowNormal => 10i32,
        PriorityClass::Normal => 0i32,
        PriorityClass::AboveNormal => -5i32,
        PriorityClass::High => -10i32,
        PriorityClass::Realtime => -20i32,
    }
}

/// The nice value for a priority class (see `nice_of`).
pub fn to_nice(priority: PriorityClass) -> (r: i32)
    ensures
        r == nice_of(priority),
{
    match priority {
        PriorityClass::Idle => 19,
        PriorityClass::BelowNormal => 10,
        PriorityClass::Normal => 0,
        PriorityClass::AboveNormal => -5,
        PriorityClass::High => -10,
        PriorityClass::Realtime => -20,
    }
}

/// The priority class a nice value reads as: 15 and up idle, 5 and up below normal, -4 and up
/// normal, -9 and up above normal, lower high.
pub open spec fn priority_of_nice(nice: i32) -> PriorityClass {
    if nice >= 15 {
        PriorityClass::Idle
    } else if nice >= 5 {
        PriorityClass::BelowNormal
    } else if nice >= -4 {
        PriorityClass::Normal
    } else if nice >= -9 {
        PriorityClass::AboveNormal
    } else {
        PriorityClass::High
    }
}

/// The priority class of a process that is not scheduled in real time, from its nice value
/// (see `priority_of_nice`).
pub fn priority_from_nice(nice: i32) -> (r: PriorityClass)
    ensures
        r == priority_of_nice(nice),
{
    if nice >= 15 {
        PriorityClass::Idle
    } else if nice >= 5 {
        PriorityClass::BelowNormal
    } else if nice >= -4 {
        PriorityClass::Normal
    } else if nice >= -9 {
        PriorityClass::AboveNormal
    } else {
        PriorityClass::High
    }
}

/// Setting a priority class other than real time and reading it back gives the same class.
pub proof fn lemma_nice_roundtrip(p: PriorityClass)
    requires
        p != PriorityClass::Realtime,
    ensures
        priority_of_nice(nice_of(p)) == p,
{
}

/// Why `str::parse::<u32>` refuses a text.
#[derive(Debug, Clone, Copy, PartialEq, Eq, Structural)]
pub enum IntParseError {
    Empty,
    InvalidDigit,
    PosOverflow,
}

/// What a refused parse says (`ParseIntError`'s message).
pub open spec fn int_parse_message(e: IntParseError) -> Seq<char> {
    match e {
        IntParseError::Empty => "cannot parse integer from empty string"@,
        IntParseError::InvalidDigit => "invalid digit found in string"@,
        IntParseError::PosOverflow => "number too large to fit in target type"@,
    }
}

impl IntParseError {
    /// The message of the error (see `int_parse_message`).
    pub fn message(self) -> (r: String)
        ensures
            r@ == int_parse_message(self),
    {
        match self {
            IntParseError::Empty => owned("cannot parse integer from empty string"),
            IntParseError::InvalidDigit => owned("invalid digit found in string"),
            IntParseError::PosOverflow => owned("number too large to fit in target type"),
        }
    }
}

/// Reads decimal digits from `i` on, `acc` being the value so far: the first position that is
/// not a digit, or whose digit takes the value past `u32::MAX`, refuses the text.
pub open spec fn u32_digits(s: Seq<char>, i: int, acc: nat) -> Result<u32, IntParseError>
    decreases s.len() - i,
{
    if i < 0 || i >= s.len() {
        if acc <= u32::MAX {
            Ok(acc as u32)
        } else {
            Err(IntParseError::PosOverflow)
        }
    } else if !is_digit(s[i]) {
        Err(IntParseError::InvalidDigit)
    } else if acc * 10 + digit_value(s[i]) > u32::MAX {
        Err(IntParseError::PosOverflow)
    } else {
        u32_digits(s, i + 1, acc * 10 + digit_value(s[i]))
    }
}

/// `str::parse::<u32>`: an optional `+` and then decimal digits that fit a `u32`.
pub open spec fn parse_u32_spec(s: Seq<char>) -> Result<u32, IntParseError> {
    if s.len() == 0 {
        Err(IntParseError::Empty)
    } else if (s[0] == '+' || s[0] == '-') && s.len() == 1 {
        Err(IntParseError::InvalidDigit)
    } else if s[0] == '+' {
        u32_digits(s, 1, 0)
    } else {
        u32_digits(s, 0, 0)
    }
}

/// Parses a `u32` as `str::parse::<u32>` does (see `parse_u32_spec`).
pub fn parse_u32(s: &[char]) -> (r: Result<u32, IntParseError>)
    ensures
        r == parse_u32_spec(s@),
{
    if s.len() == 0 {
        return Err(IntParseError::Empty);
    }
    if (s[0] == '+' || s[0] == '-') && s.len() == 1 {
        return Err(IntParseError::InvalidDigit);
    }
    let start: usize = if s[0] == '+' { 1 } else { 0 };
    let mut acc: u32 = 0;
    let mut i = start;
    while i < s.len()
        invariant
            start <= i <= s@.len(),
            parse_u32_spec(s@) == u32_digits(s@, i as int, acc as nat),
        decreases s.len() - i,
    {
        let c = s[i];
        if !('0' <= c && c <= '9') {
            return Err(IntParseError::InvalidDigit);
        }
        let d: u32 = if c == '0' { 0 } else if c == '1' { 1 } else if c == '2' { 2 } else if c == '3' { 3 }
            else if c == '4' { 4 } else if c == '5' { 5 } else if c == '6' { 6 } else if c == '7' { 7 }
            else if c == '8' { 8 } else { 9 };
        assert(d as nat == digit_value(c));
        if acc > (u32::MAX - d) / 10 {
            assert(acc * 10 + d > u32::MAX) by (nonlinear_arith)
                requires acc > (u32::MAX - d) / 10, d < 10;
            return Err(IntParseError::PosOverflow);
        }
        assert(acc * 10 + d <= u32::MAX) by (nonlinear_arith)
            requires acc <= (u32::MAX - d) / 10, d < 10;
        acc = acc * 10 + d;
        i = i + 1;
    }
    Ok(acc)
}

/// Splits a text at whitespace (`str::split_whitespace`): the words so far and the word being
/// read.
pub open spec fn word_scan(s: Seq<char>) -> (Seq<Seq<char>>, Seq<char>)
    decreases s.len(),
{
    if s.len() == 0 {
        (Seq::empty(), Seq::empty())
    } else {
        let (words, current) = word_scan(s.drop_last());
        if is_whitespace(s.last()) {
            if current.len() > 0 {
                (words.push(current), Seq::empty())
            } else {
                (words, Seq::empty())
            }
        } else {
            (words, current.push(s.last()))
        }
    }
}

/// The words of a text, split at whitespace.
pub open spec fn words_of(s: Seq<char>) -> Seq<Seq<char>> {
    let (words, current) = word_scan(s);
    if current.len() > 0 {
        words.push(current)
    } else {
        words
    }
}

fn words_exec(s: &[char]) -> (r: Vec<Vec<char>>)
    ensures
        r@.map_values(|w: Vec<char>| w@) == words_of(s@),
{
    let mut words: Vec<Vec<char>> = Vec::new();
    let mut current: Vec<char> = Vec::new();
    let mut i: usize = 0;
    while i < s.len()
        invariant
            i <= s@.len(),
            (words@.map_values(|w: Vec<char>| w@), current@) == word_scan(s@.take(i as int)),
        decreases s.len() - i,
    {
        assert(s@.take(i + 1).drop_last() =~= s@.take(i as int));
        assert(s@.take(i + 1).last() == s@[i as int]);
        let c = s[i];
        if is_whitespace_exec(c) {
            if current.len() > 0 {
                let ghost before = words@.map_values(|w: Vec<char>| w@);
                let mut done: Vec<char> = Vec::new();
                std::mem::swap(&mut done, &mut current);
                words.push(done);
                assert(words@.map_values(|w: Vec<char>| w@) =~= before.push(done@));
            }
            assert(current@ =~= Seq::<char>::empty());
        } else {
            current.push(c);
        }
        i = i + 1;
    }
    assert(s@.take(i as int) =~= s@);
    if current.len() > 0 {
        let ghost before = words@.map_values(|w: Vec<char>| w@);
        let ghost cur = current@;
        words.push(current);
        assert(words@.map_values(|w: Vec<char>| w@) =~= before.push(cur));
    }
    words
}

/// The first index of `c` in `s`.
pub open spec fn first_index(s: Seq<char>, c: char) -> Option<int> {
    if s.contains(c) {
        Some(choose|i: int| 0 <= i < s.len() && s[i] == c && forall|k: int| 0 <= k < i ==> s[k] != c)
    } else {
        None
    }
}

/// The last index of `c` in `s`.
pub open spec fn last_index(s: Seq<char>, c: char) -> Option<int> {
    if s.contains(c) {
        Some(choose|i: int| 0 <= i < s.len() && s[i] == c && forall|k: int| i < k < s.len() ==> s[k] != c)
    } else {
        None
    }
}

fn first_index_exec(v: &Vec<char>, c: char) -> (r: Option<usize>)
    ensures
        r matches Some(i) ==> i < v.len() && first_index(v@, c) == Some(i as int),
        r is None ==> first_index(v@, c) is None,
{
    let mut i: usize = 0;
    while i < v.len()
        invariant
            i <= v@.len(),
            forall|k: int| 0 <= k < i ==> v@[k] != c,
        decreases v.len() - i,
    {
        if v[i] == c {
            proof {
                let w = choose|w: int| 0 <= w < v@.len() && v@[w] == c && forall|k: int| 0 <= k < w ==> v@[k] != c;
                assert(w == i) by {
                    if w < i {
                        assert(v@[w] != c);
                    } else if w > i {
                        assert(v@[i as int] == c);
                    }
                }
            }
            return Some(i);
        }
        i = i + 1;
    }
    None
}

fn last_index_exec(v: &Vec<char>, c: char) -> (r: Option<usize>)
    ensures
        r matches Some(i) ==> i < v.len() && last_index(v@, c) == Some(i as int),
        r is None ==> last_index(v@, c) is None,
{
    let mut i: usize = v.len();
    while i > 0
        invariant
            i <= v@.len(),
            forall|k: int| i <= k < v@.len() ==> v@[k] != c,
        decreases i,
    {
        if v[i - 1] == c {
            proof {
                let w = choose|w: int| 0 <= w < v@.len() && v@[w] == c && forall|k: int| w < k < v@.len() ==> v@[k] != c;
                assert(w == i - 1) by {
                    if w > i - 1 {
                        assert(v@[w] != c);
                    } else if w < i - 1 {
                        assert(v@[i - 1] == c);
                    }
                }
            }
            return Some(i - 1);
        }
        i = i - 1;
    }
    proof {
        if v@.contains(c) {
            let w = choose|w: int| 0 <= w < v@.len() && v@[w] == c;
            assert(v@[w] != c);
        }
    }
    None
}

/// Whether a `/proc/<pid>/stat` text can be cut at its brackets: the last `)` does not come
/// before the first `(` (a text where it does makes the Linux build panic).
pub open spec fn proc_stat_well_bracketed(stat: Seq<char>) -> bool {
    match (first_index(stat, '('), last_index(stat, ')')) {
        (Some(open), Some(close)) => open < close,
        _ => true,
    }
}

/// What a `/proc/<pid>/stat` text gives: the parent process id (the second field after the
/// command name's closing bracket) and the command name (between the first `(` and the last
/// `)`), or the error the Linux build reports.
pub open spec fn proc_stat_spec(pid: u32, stat: Seq<char>) -> Result<(u32, Seq<char>), Seq<char>> {
    match (first_index(stat, '('), last_index(stat, ')')) {
        (Some(open), Some(close)) => {
            match stat_fields_spec(pid, stat.skip(close + 1)) {
                Ok(parent) => Ok((parent, stat.subrange(open + 1, close))),
                Err(e) => Err(e),
            }
        },
        _ => Err("failed to parse /proc/"@ + decimal(pid as nat) + "/stat"@),
    }
}

/// What the fields after the command name give: the parent process id, or the error.
pub open spec fn stat_fields_spec(pid: u32, tail: Seq<char>) -> Result<u32, Seq<char>> {
    let rest = words_of(tail);
    if rest.len() < 3 {
        Err("failed to parse parent pid for /proc/"@ + decimal(pid as nat) + "/stat"@)
    } else {
        match parse_u32_spec(rest[1]) {
            Ok(parent) => Ok(parent),
            Err(e) => Err("failed to parse parent pid for /proc/"@ + decimal(pid as nat) + ": "@ + int_parse_message(e)),
        }
    }
}

fn stat_fields(pid: u32, tail: &[char]) -> (r: Result<u32, String>)
    ensures
        match stat_fields_spec(pid, tail@) {
            Ok(p) => r == Ok::<u32, String>(p),
            Err(e) => r matches Err(m) && m@ == e,
        },
{
    let pid_text = format_u64(pid as u64);
    let rest = words_exec(tail);
    let ghost rs = rest@.map_values(|w: Vec<char>| w@);
    if rest.len() < 3 {
        let a = concat("failed to parse parent pid for /proc/", pid_text.as_str());
        return Err(concat(a.as_str(), "/stat"));
    }
    assert(rs[1] == rest@[1]@);
    match parse_u32(rest[1].as_slice()) {
        Ok(parent) => Ok(parent),
        Err(e) => {
            let a = concat("failed to parse parent pid for /proc/", pid_text.as_str());
            let b = concat(a.as_str(), ": ");
            let m = e.message();
            Err(concat(b.as_str(), m.as_str()))
        },
    }
}

/// Reads the parent process id and command name from the text of `/proc/<pid>/stat` (see
/// `proc_stat_spec`).
pub fn parse_proc_stat(pid: u32, stat: &str) -> (r: Result<(u32, String), String>)
    requires
        proc_stat_well_bracketed(stat@),
    ensures
        match proc_stat_spec(pid, stat@) {
            Ok((parent, comm)) => r matches Ok((p, c)) && p == parent && c@ == comm,
            Err(e) => r matches Err(m) && m@ == e,
        },
{
    let v = str_chars(stat);
    let open = first_index_exec(&v, '(');
    let close = last_index_exec(&v, ')');
    match (open, close) {
        (Some(o), Some(c)) => {
            let tail = string_from_chars(v.as_slice(), c + 1, v.len());
            assert(v@.subrange(c + 1, v@.len() as int) =~= v@.skip(c + 1));
            let tv = str_chars(tail.as_str());
            match stat_fields(pid, tv.as_slice()) {
                Ok(parent) => {
                    let comm = string_from_chars(v.as_slice(), o + 1, c);
                    Ok((parent, comm))
                },
                Err(e) => Err(e),
            }
        },
        _ => {
            let pid_text = format_u64(pid as u64);
            let a = concat("failed to parse /proc/", pid_text.as_str());
            Err(concat(a.as_str(), "/stat"))
        },
    }
}

/// The text after the first `:` of a line, up to the next `:` (the second piece of
/// `split(':')`); `None` for a line without `:`.
pub open spec fn second_colon_piece(line: Seq<char>) -> Option<Seq<char>> {
    match first_index(line, ':') {
        Some(i) => {
            let after = line.skip(i + 1);
            match first_index(after, ':') {
                Some(j) => Some(after.take(j)),
                None => Some(after),
            }
        },
        None => None,
    }
}

/// The first line of a text that starts with `prefix`.
pub open spec fn first_line_starting(lines: Seq<Seq<char>>, prefix: Seq<char>) -> Option<Seq<char>>
    decreases lines.len(),
{
    if lines.len() == 0 {
        None
    } else if starts_with(lines[0], prefix) {
        Some(lines[0])
    } else {
        first_line_starting(lines.drop_first(), prefix)
    }
}

/// The CPU model `/proc/cpuinfo` names: the trimmed value of its first `model name` line, or
/// `Unknown CPU`.
pub open spec fn cpuinfo_model(content: Seq<char>) -> Seq<char> {
    match first_line_starting(text_lines(content), "model name"@) {
        Some(line) => match second_colon_piece(line) {
            Some(v) => trim_spec(v),
            None => "Unknown CPU"@,
        },
        None => "Unknown CPU"@,
    }
}

proof fn lemma_first_line_starting_skip(lines: Seq<Seq<char>>, prefix: Seq<char>, i: int)
    requires
        0 <= i <= lines.len(),
        forall|k: int| 0 <= k < i ==> !starts_with(#[trigger] lines[k], prefix),
    ensures
        first_line_starting(lines, prefix) == first_line_starting(lines.skip(i), prefix),
    decreases i,
{
    if i > 0 {
        let t = lines.drop_first();
        assert forall|k: int| 0 <= k < i - 1 implies !starts_with(#[trigger] t[k], prefix) by {
            assert(t[k] == lines[k + 1]);
        }
        lemma_first_line_starting_skip(t, prefix, i - 1);
        assert(t.skip(i - 1) =~= lines.skip(i));
    } else {
        assert(lines.skip(0) =~= lines);
    }
}

/// Reads the CPU model from the text of `/proc/cpuinfo` (see `cpuinfo_model`).
pub fn cpu_model_from_cpuinfo(content: &str) -> (r: String)
    ensures
        r@ == cpuinfo_model(content@),
{
    let lines = crate::url_file::lines_of(content);
    let ghost ls = lines@.map_values(|l: Vec<char>| l@);
    let prefix = str_chars("model name");
    proof {
        reveal_strlit("model name");
    }
    let mut i: usize = 0;
    while i < lines.len() && !crate::text::starts_with_chars(lines[i].as_slice(), prefix.as_slice())
        invariant
            i <= lines@.len(),
            ls == lines@.map_values(|l: Vec<char>| l@),
            ls == text_lines(content@),
            prefix@ == "model name"@,
            forall|k: int| 0 <= k < i ==> !starts_with(#[trigger] ls[k], "model name"@),
        decreases lines.len() - i,
    {
        assert(ls[i as int] == lines@[i as int]@);
        i = i + 1;
    }
    proof {
        lemma_first_line_starting_skip(ls, "model name"@, i as int);
    }
    if i == lines.len() {
        assert(ls.skip(i as int) =~= Seq::<Seq<char>>::empty());
        return owned("Unknown CPU");
    }
    assert(ls[i as int] == lines@[i as int]@);
    assert(ls.skip(i as int)[0] == ls[i as int]);
    model_value(&lines[i])
}

fn model_value(line: &Vec<char>) -> (r: String)
    ensures
        r@ == match second_colon_piece(line@) {
            Some(v) => trim_spec(v),
            None => "Unknown CPU"@,
        },
{
    match first_index_exec(line, ':') {
        None => owned("Unknown CPU"),
        Some(a) => {
            let after_s = string_from_chars(line.as_slice(), a + 1, line.len());
            assert(line@.subrange(a + 1, line@.len() as int) =~= line@.skip(a + 1));
            let after = str_chars(after_s.as_str());
            let piece = match first_index_exec(&after, ':') {
                Some(b) => {
                    let p = string_from_chars(after.as_slice(), 0, b);
                    assert(after@.subrange(0, b as int) =~= after@.take(b as int));
                    p
                },
                None => after_s,
            };
            trim(piece.as_str())
        },
    }
}

} // verus!
