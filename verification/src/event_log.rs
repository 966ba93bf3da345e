use vstd::prelude::*;
use crate::text::{str_chars, str_eq, string_from_chars, string_push, trim, trim_spec};
use crate::winpath::{file_name, file_name_spec, is_ascii_alpha};

verus! {

/// Provider of the crash records the diagnostics look for.
pub open spec fn application_error_provider() -> Seq<char> {
    "Application Error"@
}

/// Event id of an application crash record.
pub const APPLICATION_ERROR_EVENT_ID: u16 = 1000;
/// Number of positional data items of a version-zero crash record.
pub const APPLICATION_ERROR_V0_DATA_COUNT: usize = 15;
/// Longest event text, in characters, that the diagnostics keep.
pub const MAX_EVENT_TEXT_CHARS: usize = 256;
/// Mask of the value type in a rendered event value's type field.
pub const EVT_VARIANT_TYPE_MASK: u32 = 0x7f;
/// Flag of an array value in a rendered event value's type field.
pub const EVT_VARIANT_TYPE_ARRAY: u32 = 128;

/// A crash of this executable that the Windows Application log recorded.
#[derive(Debug, Clone, PartialEq, Eq)]
pub struct WindowsApplicationFailure {
    pub event_record_id: u64,
    pub timestamp_utc: String,
    pub exception_code: u32,
    pub faulting_module: String,
}

/// The system part of a rendered event record.
#[derive(Debug, Clone, PartialEq, Eq)]
pub struct EventSystemValues {
    pub provider: String,
    pub event_id: u16,
    pub version: u8,
    pub event_record_id: u64,
    pub timestamp_utc: String,
}

/// The named data items of a crash record, each absent when it could not be rendered.
#[derive(Debug, Clone, Default, PartialEq, Eq)]
pub struct NamedEventData {
    pub app_name: Option<String>,
    pub app_path: Option<String>,
    pub faulting_module_name: Option<String>,
    pub faulting_module_path: Option<String>,
    pub exception_code: Option<String>,
}

/// The event paths of the named data items, in the order `NamedEventData` lists them.
pub fn render_paths() -> (r: [&'static str; 5])
    ensures
        r@[0]@ == "Event/EventData/Data[@Name='AppName']"@,
        r@[1]@ == "Event/EventData/Data[@Name='AppPath']"@,
        r@[2]@ == "Event/EventData/Data[@Name='ModuleName']"@,
        r@[3]@ == "Event/EventData/Data[@Name='ModulePath']"@,
        r@[4]@ == "Event/EventData/Data[@Name='ExceptionCode']"@,
{
    [
        "Event/EventData/Data[@Name='AppName']",
        "Event/EventData/Data[@Name='AppPath']",
        "Event/EventData/Data[@Name='ModuleName']",
        "Event/EventData/Data[@Name='ModulePath']",
        "Event/EventData/Data[@Name='ExceptionCode']",
    ]
}

// ---------------------------------------------------------------------------------------
// Result codes and value types

/// `HRESULT_FROM_WIN32`: a Win32 error code as a failure `HRESULT`; zero and codes that are
/// already negative as 32-bit values stay as they are.
pub open spec fn hresult_from_win32_spec(error: u32) -> i32 {
    if error == 0 || error >= 0x8000_0000 {
        error as i32
    } else {
        ((error & 0xFFFF) | 0x8007_0000u32) as i32
    }
}

/// `HRESULT_FROM_WIN32` for a Win32 error code.
pub fn hresult_from_win32(error: u32) -> (r: i32)
    ensures
        r == hresult_from_win32_spec(error),
{
    if error == 0 || error >= 0x8000_0000 {
        error as i32
    } else {
        ((error & 0xFFFF) | 0x8007_0000u32) as i32
    }
}

/// Win32 error: no more items.
pub const ERROR_NO_MORE_ITEMS: u32 = 259;
/// Win32 error: the operation timed out.
pub const ERROR_TIMEOUT: u32 = 1460;

/// Whether a failure of reading the next records only means that the query has no more
/// records to give: no more items, or a wait of zero that timed out.
pub fn is_query_complete_error(code: i32) -> (r: bool)
    ensures
        r == (code == hresult_from_win32_spec(ERROR_NO_MORE_ITEMS) || code == hresult_from_win32_spec(
            ERROR_TIMEOUT,
        )),
{
    code == hresult_from_win32(ERROR_NO_MORE_ITEMS) || code == hresult_from_win32(ERROR_TIMEOUT)
}

/// Whether a rendered value with type field `value_type` is a single value (not an array)
/// of type `expected_type`; the value count plays no part.
pub fn is_scalar(value_type: u32, expected_type: i32) -> (r: bool)
    ensures
        r == (value_type & EVT_VARIANT_TYPE_ARRAY == 0 && (value_type & EVT_VARIANT_TYPE_MASK) as int
            == expected_type as int),
{
    value_type & EVT_VARIANT_TYPE_ARRAY == 0 && (value_type & EVT_VARIANT_TYPE_MASK) as i64
        == expected_type as i64
}

// ---------------------------------------------------------------------------------------
// Exception codes

/// Value of an ASCII hexadecimal digit.
pub open spec fn hex_digit_value(c: char) -> Option<nat> {
    if '0' <= c && c <= '9' {
        Some((c as nat - '0' as nat) as nat)
    } else if 'a' <= c && c <= 'f' {
        Some((c as nat - 'a' as nat + 10) as nat)
    } else if 'A' <= c && c <= 'F' {
        Some((c as nat - 'A' as nat + 10) as nat)
    } else {
        None
    }
}

/// Whether every character is an ASCII hexadecimal digit.
pub open spec fn all_hex(s: Seq<char>) -> bool {
    forall|i: int| 0 <= i < s.len() ==> (#[trigger] hex_digit_value(s[i])) is Some
}

/// Value of a run of hexadecimal digits.
pub open spec fn hex_value(s: Seq<char>) -> nat
    decreases s.len(),
{
    if s.len() == 0 {
        0
    } else {
        hex_value(s.drop_last()) * 16 + hex_digit_value(s.last()).unwrap()
    }
}

/// `s` without one leading `0x` or `0X`.
pub open spec fn strip_hex_prefix(s: Seq<char>) -> Seq<char> {
    if s.len() >= 2 && s[0] == '0' && (s[1] == 'x' || s[1] == 'X') {
        s.skip(2)
    } else {
        s
    }
}

/// The exception code of a crash record: exactly eight hexadecimal digits, after an optional
/// `0x` or `0X`.
pub open spec fn exception_code_value(s: Seq<char>) -> Option<u32> {
    let t = strip_hex_prefix(s);
    if t.len() == 8 && all_hex(t) {
        Some(hex_value(t) as u32)
    } else {
        None
    }
}

/// Sixteen to the power `n`.
pub open spec fn pow16(n: nat) -> nat
    decreases n,
{
    if n == 0 {
        1
    } else {
        16 * pow16((n - 1) as nat)
    }
}

proof fn lemma_hex_value_bound(s: Seq<char>)
    requires
        all_hex(s),
    ensures
        hex_value(s) < pow16(s.len()),
    decreases s.len(),
{
    if s.len() > 0 {
        let t = s.drop_last();
        assert forall|i: int| 0 <= i < t.len() implies (#[trigger] hex_digit_value(t[i])) is Some by {
            assert(t[i] == s[i]);
        }
        lemma_hex_value_bound(t);
        assert(hex_digit_value(s[s.len() - 1]) is Some);
        let d = hex_digit_value(s.last()).unwrap();
        assert(d < 16);
        let p = pow16(t.len());
        assert(hex_value(t) * 16 + d < p * 16) by (nonlinear_arith)
            requires
                hex_value(t) < p,
                d < 16,
        ;
    }
}

fn hex_digit_exec(c: char) -> (r: Option<u32>)
    ensures
        match hex_digit_value(c) {
            Some(d) => r == Some(d as u32),
            None => r is None,
        },
{
    if '0' <= c && c <= '9' {
        Some((c as u32) - ('0' as u32))
    } else if 'a' <= c && c <= 'f' {
        Some((c as u32) - ('a' as u32) + 10)
    } else if 'A' <= c && c <= 'F' {
        Some((c as u32) - ('A' as u32) + 10)
    } else {
        None
    }
}

/// Reads the exception code of a crash record: exactly eight hexadecimal digits, after an
/// optional `0x` or `0X`.
pub fn parse_exception_code(value: &str) -> (r: Option<u32>)
    ensures
        r == exception_code_value(value@),
{
    let v = str_chars(value);
    let start: usize = if v.len() >= 2 && v[0] == '0' && (v[1] == 'x' || v[1] == 'X') {
        2
    } else {
        0
    };
    let ghost t = strip_hex_prefix(v@);
    assert(t =~= v@.skip(start as int));
    if v.len() - start != 8 {
        return None;
    }
    let mut acc: u64 = 0;
    let mut i: usize = 0;
    while i < 8
        invariant
            v@ == value@,
            t == v@.skip(start as int),
            t.len() == 8,
            start + 8 == v@.len(),
            i <= 8,
            all_hex(t.take(i as int)),
            acc == hex_value(t.take(i as int)),
            acc < pow16(i as nat),
        decreases 8 - i,
    {
        assert(start + i < v@.len());
        let idx: usize = start + i;
        let c = v[idx];
        assert(c == t[i as int]);
        match hex_digit_exec(c) {
            None => {
                proof {
                    assert(hex_digit_value(t[i as int]) is None);
                    assert(!all_hex(t));
                }
                return None;
            },
            Some(d) => {
                let ghost before = t.take(i as int);
                let ghost after = t.take(i + 1);
                assert(after.drop_last() =~= before);
                assert(after.last() == c);
                proof {
                    assert forall|k: int| 0 <= k < after.len() implies (#[trigger] hex_digit_value(after[k])) is Some by {
                        if k < i {
                            assert(after[k] == before[k]);
                        }
                    }
                    assert(acc * 16 + d < pow16(i as nat) * 16) by (nonlinear_arith)
                        requires
                            acc < pow16(i as nat),
                            d < 16,
                    ;
                    assert(pow16((i + 1) as nat) == 16 * pow16(i as nat));
                    assert(pow16(i as nat) <= pow16(8)) by {
                        lemma_pow16_monotone(i as nat, 8);
                    }
                    lemma_pow16_eight();
                }
                acc = acc * 16 + d as u64;
                i = i + 1;
            },
        }
    }
    assert(t.take(8) =~= t);
    proof {
        lemma_pow16_eight();
    }
    Some(acc as u32)
}

proof fn lemma_pow16_eight()
    ensures
        pow16(8) == 4294967296,
{
    assert(pow16(0) == 1);
    assert(pow16(1) == 16);
    assert(pow16(2) == 256);
    assert(pow16(3) == 4096);
    assert(pow16(4) == 65536);
    assert(pow16(5) == 1048576);
    assert(pow16(6) == 16777216);
    assert(pow16(7) == 268435456);
    assert(pow16(8) == 4294967296);
}

proof fn lemma_pow16_monotone(a: nat, b: nat)
    requires
        a <= b,
    ensures
        pow16(a) <= pow16(b),
    decreases b,
{
    if a < b {
        lemma_pow16_monotone(a, (b - 1) as nat);
    }
}

// ---------------------------------------------------------------------------------------
// Paths and names

/// ASCII lower-case of a character.
pub open spec fn ascii_lower(c: char) -> char {
    if 'A' <= c && c <= 'Z' {
        ((c as u32) + 32) as char
    } else {
        c
    }
}

/// Whether two texts are equal once ASCII letters are folded to lower case.
pub open spec fn eq_ignore_ascii_case(a: Seq<char>, b: Seq<char>) -> bool {
    a.len() == b.len() && forall|i: int| 0 <= i < a.len() ==> ascii_lower(#[trigger] a[i]) == ascii_lower(b[i])
}

fn ascii_lower_exec(c: char) -> (r: char)
    ensures
        r == ascii_lower(c),
{
    if 'A' <= c && c <= 'Z' {
        ((c as u8) + 32) as char
    } else {
        c
    }
}

/// Compares two names the way the diagnostics compare executable names and paths: equal
/// once ASCII letters are folded to lower case.
pub fn names_equal_ignoring_case(a: &str, b: &str) -> (r: bool)
    ensures
        r == eq_ignore_ascii_case(a@, b@),
{
    let x = str_chars(a);
    let y = str_chars(b);
    if x.len() != y.len() {
        return false;
    }
    let mut i: usize = 0;
    while i < x.len()
        invariant
            x@ == a@,
            y@ == b@,
            x@.len() == y@.len(),
            i <= x@.len(),
            forall|k: int| 0 <= k < i ==> ascii_lower(#[trigger] x@[k]) == ascii_lower(y@[k]),
        decreases x.len() - i,
    {
        if ascii_lower_exec(x[i]) != ascii_lower_exec(y[i]) {
            return false;
        }
        i = i + 1;
    }
    true
}

/// `s` with every `/` turned into `\`.
pub open spec fn with_backslashes(s: Seq<char>) -> Seq<char> {
    s.map_values(|c: char| if c == '/' { '\\' } else { c })
}

/// Whether `s` starts with `prefix`.
pub open spec fn starts_with(s: Seq<char>, prefix: Seq<char>) -> bool {
    s.len() >= prefix.len() && s.take(prefix.len() as int) == prefix
}

/// Whether a Windows path (with `\` separators) is absolute: a drive letter followed by `:`
/// and `\`, or a path that starts with `\\` (a share, device or verbatim path).
pub open spec fn is_absolute_windows(s: Seq<char>) -> bool {
    (s.len() >= 2 && s[0] == '\\' && s[1] == '\\') || (s.len() >= 3 && is_ascii_alpha(s[0]) && s[1]
        == ':' && s[2] == '\\')
}

/// Length of `s` once trailing `\` are dropped.
pub open spec fn without_trailing_backslashes_len(s: Seq<char>) -> nat
    decreases s.len(),
{
    if s.len() > 0 && s.last() == '\\' {
        without_trailing_backslashes_len(s.drop_last())
    } else {
        s.len()
    }
}

/// A path as the diagnostics compare it: trimmed, with a drive (`:`), not a device path, no
/// verbatim `\\?\` prefix, `\` separators, absolute, without trailing separators.
pub open spec fn normalized_windows_path(value: Seq<char>) -> Option<Seq<char>> {
    let t = trim_spec(value);
    if t.len() == 0 || !t.contains(':') || starts_with(t, seq!['\\', '\\', '.']) {
        None
    } else {
        let u = if starts_with(t, seq!['\\', '\\', '?', '\\']) {
            t.skip(4)
        } else {
            t
        };
        let w = with_backslashes(u);
        if !is_absolute_windows(w) {
            None
        } else {
            Some(w.take(without_trailing_backslashes_len(w) as int))
        }
    }
}

fn starts_with_exec(v: &[char], prefix: &[char]) -> (r: bool)
    ensures
        r == starts_with(v@, prefix@),
{
    if v.len() < prefix.len() {
        return false;
    }
    let mut i: usize = 0;
    while i < prefix.len()
        invariant
            v@.len() >= prefix@.len(),
            i <= prefix@.len(),
            forall|k: int| 0 <= k < i ==> v@[k] == prefix@[k],
        decreases prefix.len() - i,
    {
        if v[i] != prefix[i] {
            assert(v@.take(prefix@.len() as int)[i as int] != prefix@[i as int]);
            return false;
        }
        i = i + 1;
    }
    assert(v@.take(prefix@.len() as int) =~= prefix@);
    true
}

/// Normalizes a Windows path for comparison (see `normalized_windows_path`).
pub fn normalize_windows_path(value: &str) -> (r: Option<String>)
    ensures
        match normalized_windows_path(value@) {
            Some(p) => r matches Some(s) && s@ == p,
            None => r is None,
        },
{
    let trimmed = trim(value);
    let t = str_chars(trimmed.as_str());
    if t.len() == 0 {
        return None;
    }
    let mut has_colon = false;
    let mut i: usize = 0;
    while i < t.len()
        invariant
            i <= t@.len(),
            has_colon <==> (exists|k: int| 0 <= k < i && t@[k] == ':'),
        decreases t.len() - i,
    {
        if t[i] == ':' {
            has_colon = true;
        }
        i = i + 1;
    }
    assert(has_colon == t@.contains(':'));
    if !has_colon {
        return None;
    }
    let device = ['\\', '\\', '.'];
    assert(device@ =~= seq!['\\', '\\', '.']);
    if starts_with_exec(t.as_slice(), &device) {
        return None;
    }
    let verbatim = ['\\', '\\', '?', '\\'];
    assert(verbatim@ =~= seq!['\\', '\\', '?', '\\']);
    let start: usize = if starts_with_exec(t.as_slice(), &verbatim) {
        4
    } else {
        0
    };
    let ghost u = if start == 4 {
        t@.skip(4)
    } else {
        t@
    };
    let mut w: Vec<char> = Vec::new();
    let mut j: usize = start;
    while j < t.len()
        invariant
            start <= j <= t@.len(),
            u == t@.skip(start as int),
            w@ == with_backslashes(t@.subrange(start as int, j as int)),
        decreases t.len() - j,
    {
        let c = t[j];
        w.push(if c == '/' { '\\' } else { c });
        assert(with_backslashes(t@.subrange(start as int, j + 1)) =~= with_backslashes(
            t@.subrange(start as int, j as int),
        ).push(if c == '/' { '\\' } else { c }));
        j = j + 1;
    }
    assert(t@.subrange(start as int, t@.len() as int) =~= u);
    let absolute = (w.len() >= 2 && w[0] == '\\' && w[1] == '\\') || (w.len() >= 3
        && is_ascii_alpha_exec(w[0]) && w[1] == ':' && w[2] == '\\');
    if !absolute {
        return None;
    }
    let mut end = w.len();
    assert(w@.take(end as int) =~= w@);
    while end > 0 && w[end - 1] == '\\'
        invariant
            end <= w@.len(),
            without_trailing_backslashes_len(w@) == without_trailing_backslashes_len(w@.take(end as int)),
        decreases end,
    {
        assert(w@.take(end as int).drop_last() =~= w@.take(end - 1));
        end = end - 1;
    }
    assert(without_trailing_backslashes_len(w@.take(end as int)) == end);
    Some(string_from_chars(w.as_slice(), 0, end))
}

fn is_ascii_alpha_exec(c: char) -> (r: bool)
    ensures
        r == is_ascii_alpha(c),
{
    ('a' <= c && c <= 'z') || ('A' <= c && c <= 'Z')
}

/// Characters that the diagnostics never show in a module name: control characters and the
/// invisible or direction-changing format characters.
pub open spec fn is_hidden_char(c: char) -> bool {
    let u = c as u32;
    ||| u <= 0x1f
    ||| (0x7f <= u && u <= 0x9f)
    ||| u == 0xad
    ||| u == 0x61c
    ||| u == 0x180e
    ||| (0x200b <= u && u <= 0x200f)
    ||| (0x202a <= u && u <= 0x202e)
    ||| (0x2060 <= u && u <= 0x206f)
    ||| u == 0xfeff
}

/// `s` without its hidden characters.
pub open spec fn visible_chars(s: Seq<char>) -> Seq<char>
    decreases s.len(),
{
    if s.len() == 0 {
        Seq::empty()
    } else if is_hidden_char(s.last()) {
        visible_chars(s.drop_last())
    } else {
        visible_chars(s.drop_last()).push(s.last())
    }
}

/// The module name the diagnostics show for a path: its file name (with `/` read as `\`)
/// without hidden characters, cut to `MAX_EVENT_TEXT_CHARS`; nothing when that is empty.
pub open spec fn sanitized_basename_spec(value: Seq<char>) -> Option<Seq<char>> {
    match file_name_spec(with_backslashes(value)) {
        None => None,
        Some(name) => {
            let v = visible_chars(name);
            let kept = if v.len() <= MAX_EVENT_TEXT_CHARS {
                v
            } else {
                v.take(MAX_EVENT_TEXT_CHARS as int)
            };
            if kept.len() == 0 {
                None
            } else {
                Some(kept)
            }
        },
    }
}

fn is_hidden_char_exec(c: char) -> (r: bool)
    ensures
        r == is_hidden_char(c),
{
    let u = c as u32;
    u <= 0x1f || (0x7f <= u && u <= 0x9f) || u == 0xad || u == 0x61c || u == 0x180e || (0x200b <= u
        && u <= 0x200f) || (0x202a <= u && u <= 0x202e) || (0x2060 <= u && u <= 0x206f) || u == 0xfeff
}

fn backslashed(value: &str) -> (r: String)
    ensures
        r@ == with_backslashes(value@),
{
    let v = str_chars(value);
    let mut r = String::new();
    let mut i: usize = 0;
    while i < v.len()
        invariant
            v@ == value@,
            i <= v@.len(),
            r@ == with_backslashes(v@.take(i as int)),
        decreases v.len() - i,
    {
        let c = v[i];
        string_push(&mut r, if c == '/' { '\\' } else { c });
        assert(with_backslashes(v@.take(i + 1)) =~= with_backslashes(v@.take(i as int)).push(
            if c == '/' { '\\' } else { c },
        ));
        i = i + 1;
    }
    assert(v@.take(i as int) =~= v@);
    r
}

/// The module name shown for a path (see `sanitized_basename_spec`).
pub fn sanitized_basename(value: &str) -> (r: Option<String>)
    ensures
        match sanitized_basename_spec(value@) {
            Some(s) => r matches Some(t) && t@ == s,
            None => r is None,
        },
{
    let normalized = backslashed(value);
    let name = match file_name(normalized.as_str()) {
        Some(n) => n,
        None => return None,
    };
    let v = str_chars(name.as_str());
    let mut visible = String::new();
    let mut count: usize = 0;
    let mut i: usize = 0;
    while i < v.len()
        invariant
            v@ == name@,
            i <= v@.len(),
            count == visible@.len(),
            count <= MAX_EVENT_TEXT_CHARS,
            visible_chars(v@.take(i as int)).len() <= MAX_EVENT_TEXT_CHARS ==> visible@ == visible_chars(v@.take(i as int)),
            visible_chars(v@.take(i as int)).len() > MAX_EVENT_TEXT_CHARS ==> visible@ == visible_chars(v@.take(i as int)).take(MAX_EVENT_TEXT_CHARS as int),
        decreases v.len() - i,
    {
        let c = v[i];
        let ghost before = visible_chars(v@.take(i as int));
        assert(v@.take(i + 1).drop_last() =~= v@.take(i as int));
        if !is_hidden_char_exec(c) {
            if count < MAX_EVENT_TEXT_CHARS {
                string_push(&mut visible, c);
                count = count + 1;
                assert(visible@ =~= visible_chars(v@.take(i + 1)).take(visible@.len() as int)
                    || visible@ =~= visible_chars(v@.take(i + 1)));
            }
            proof {
                let after = visible_chars(v@.take(i + 1));
                assert(after == before.push(c));
                if before.len() < MAX_EVENT_TEXT_CHARS {
                    assert(visible@ =~= after);
                } else {
                    assert(after.take(MAX_EVENT_TEXT_CHARS as int) =~= before.take(MAX_EVENT_TEXT_CHARS as int));
                    if before.len() == MAX_EVENT_TEXT_CHARS {
                        assert(before.take(MAX_EVENT_TEXT_CHARS as int) =~= before);
                    }
                }
            }
        }
        i = i + 1;
    }
    assert(v@.take(i as int) =~= v@);
    if count == 0 {
        None
    } else {
        Some(visible)
    }
}

// ---------------------------------------------------------------------------------------
// Crash records

/// The data a crash record gives, before it is checked against this executable.
#[derive(Debug, Clone, PartialEq, Eq)]
pub struct FailureFields {
    pub app_name: String,
    pub app_path: String,
    pub faulting_module: String,
    pub faulting_module_path: Option<String>,
    pub exception_code: String,
}

/// The fields of a crash record: its named data when all of it (the module path aside) is
/// there, or else, for a version-zero record, the known positional layout of exactly
/// fifteen items that are all there.
pub open spec fn failure_fields_spec(
    system: EventSystemValues,
    named: NamedEventData,
    positional: Seq<Option<String>>,
) -> Option<FailureFields> {
    if system.provider@ != application_error_provider() || system.event_id != APPLICATION_ERROR_EVENT_ID
        || system.timestamp_utc@.len() == 0 {
        None
    } else if named.app_name is Some && named.app_path is Some && named.faulting_module_name is Some
        && named.exception_code is Some {
        Some(
            FailureFields {
                app_name: named.app_name.unwrap(),
                app_path: named.app_path.unwrap(),
                faulting_module: named.faulting_module_name.unwrap(),
                faulting_module_path: named.faulting_module_path,
                exception_code: named.exception_code.unwrap(),
            },
        )
    } else if system.version == 0 && positional.len() == APPLICATION_ERROR_V0_DATA_COUNT && (forall|
        i: int,
    | 0 <= i < positional.len() ==> (#[trigger] positional[i]) is Some) {
        Some(
            FailureFields {
                app_name: positional[0].unwrap(),
                app_path: positional[10].unwrap(),
                faulting_module: positional[3].unwrap(),
                faulting_module_path: positional[11],
                exception_code: positional[6].unwrap(),
            },
        )
    } else {
        None
    }
}

fn all_present(items: &[Option<String>]) -> (r: bool)
    ensures
        r == (forall|i: int| 0 <= i < items@.len() ==> (#[trigger] items@[i]) is Some),
{
    let mut i: usize = 0;
    while i < items.len()
        invariant
            i <= items@.len(),
            forall|k: int| 0 <= k < i ==> (#[trigger] items@[k]) is Some,
        decreases items.len() - i,
    {
        if items[i].is_none() {
            assert(items@[i as int] is None);
            return false;
        }
        i = i + 1;
    }
    true
}

fn clone_opt(s: &Option<String>) -> (r: Option<String>)
    ensures
        r == *s,
{
    match s {
        Some(x) => Some(x.clone()),
        None => None,
    }
}

/// The fields of a crash record of the right provider and event id with a timestamp (see
/// `failure_fields_spec`).
pub fn failure_fields(system: &EventSystemValues, named: NamedEventData, positional: &[Option<String>]) -> (r:
    Option<FailureFields>)
    ensures
        r == failure_fields_spec(*system, named, positional@),
{
    let provider_ok = crate::text::str_eq(system.provider.as_str(), "Application Error");
    let ts = str_chars(system.timestamp_utc.as_str());
    if !provider_ok || system.event_id != APPLICATION_ERROR_EVENT_ID || ts.len() == 0 {
        return None;
    }
    if named.app_name.is_some() && named.app_path.is_some() && named.faulting_module_name.is_some()
        && named.exception_code.is_some() {
        return Some(
            FailureFields {
                app_name: named.app_name.unwrap(),
                app_path: named.app_path.unwrap(),
                faulting_module: named.faulting_module_name.unwrap(),
                faulting_module_path: named.faulting_module_path,
                exception_code: named.exception_code.unwrap(),
            },
        );
    }
    if system.version != 0 || positional.len() != APPLICATION_ERROR_V0_DATA_COUNT {
        return None;
    }
    if !all_present(positional) {
        return None;
    }
    Some(
        FailureFields {
            app_name: clone_opt(&positional[0]).unwrap(),
            app_path: clone_opt(&positional[10]).unwrap(),
            faulting_module: clone_opt(&positional[3]).unwrap(),
            faulting_module_path: clone_opt(&positional[11]),
            exception_code: clone_opt(&positional[6]).unwrap(),
        },
    )
}

/// What `char::to_uppercase` gives for one character (its full Unicode upper-case mapping).
pub uninterp spec fn unicode_uppercase_char(c: char) -> Seq<char>;

/// Upper-cases one character with `char::to_uppercase`, collected into a string. Claimed: the
/// result is the named mapping of the character, the same for the same character (it does
/// not depend on a locale).
#[verifier::external_body]
fn char_uppercase(c: char) -> (r: String)
    ensures
        r@ == unicode_uppercase_char(c),
{
    c.to_uppercase().collect::<String>()
}

/// The character an ordinal case-insensitive comparison compares in place of `c`: its
/// upper-case form when that is one character of the basic plane; a character outside the
/// basic plane, or one whose upper case is not a single such character, stands for itself.
pub open spec fn ordinal_upper(c: char) -> char {
    if c > '\u{FFFF}' {
        c
    } else {
        let u = unicode_uppercase_char(c);
        if u.len() == 1 && u[0] <= '\u{FFFF}' {
            u[0]
        } else {
            c
        }
    }
}

/// Whether two names are equal in an ordinal comparison that ignores case: same length, and
/// each character's upper-case form (see `ordinal_upper`) equal.
pub open spec fn eq_ignore_case(a: Seq<char>, b: Seq<char>) -> bool {
    a.len() == b.len() && forall|i: int| 0 <= i < a.len() ==> ordinal_upper(#[trigger] a[i]) == ordinal_upper(b[i])
}

fn ordinal_upper_exec(c: char) -> (r: char)
    ensures
        r == ordinal_upper(c),
{
    if c > '\u{FFFF}' {
        return c;
    }
    let u = char_uppercase(c);
    let v = str_chars(u.as_str());
    if v.len() == 1 && v[0] <= '\u{FFFF}' {
        v[0]
    } else {
        c
    }
}

/// Compares two names ordinally, ignoring case (see `eq_ignore_case`).
pub fn names_equal_folding_case(a: &str, b: &str) -> (r: bool)
    ensures
        r == eq_ignore_case(a@, b@),
{
    let x = str_chars(a);
    let y = str_chars(b);
    if x.len() != y.len() {
        return false;
    }
    let mut i: usize = 0;
    while i < x.len()
        invariant
            x@ == a@,
            y@ == b@,
            x@.len() == y@.len(),
            i <= x@.len(),
            forall|k: int| 0 <= k < i ==> ordinal_upper(#[trigger] x@[k]) == ordinal_upper(y@[k]),
        decreases x.len() - i,
    {
        if ordinal_upper_exec(x[i]) != ordinal_upper_exec(y[i]) {
            return false;
        }
        i = i + 1;
    }
    true
}

/// Whether the path a record names is this executable's path: both must normalize; when
/// both could be canonicalized (`canonical`, their canonical forms in that order) the
/// normalized canonical forms are compared, else the normalized paths; comparison folds
/// case (see `eq_ignore_case`).
pub open spec fn executable_path_matches(
    event_path: Seq<char>,
    executable_path: Seq<char>,
    canonical: Option<(Seq<char>, Seq<char>)>,
) -> bool {
    match (normalized_windows_path(event_path), normalized_windows_path(executable_path)) {
        (Some(e), Some(x)) => match canonical {
            Some((ec, xc)) => match (normalized_windows_path(ec), normalized_windows_path(xc)) {
                (Some(a), Some(b)) => eq_ignore_case(a, b),
                _ => false,
            },
            None => eq_ignore_case(e, x),
        },
        _ => false,
    }
}

/// Compares the path a record names with this executable's path (see
/// `executable_path_matches`).
pub fn matches_executable_path(
    event_path: &str,
    executable_path: &str,
    canonical: Option<(String, String)>,
) -> (r: bool)
    ensures
        r == executable_path_matches(
            event_path@,
            executable_path@,
            match canonical {
                Some((a, b)) => Some((a@, b@)),
                None => None,
            },
        ),
{
    let e = match normalize_windows_path(event_path) {
        Some(e) => e,
        None => return false,
    };
    let x = match normalize_windows_path(executable_path) {
        Some(x) => x,
        None => return false,
    };
    match canonical {
        Some((ec, xc)) => {
            let a = match normalize_windows_path(ec.as_str()) {
                Some(a) => a,
                None => return false,
            };
            let b = match normalize_windows_path(xc.as_str()) {
                Some(b) => b,
                None => return false,
            };
            names_equal_folding_case(a.as_str(), b.as_str())
        },
        None => names_equal_folding_case(e.as_str(), x.as_str()),
    }
}

/// The crash that a record's fields describe, when they are of this executable (same file
/// name and path, see `executable_path_matches`), the exception code reads, and a module
/// name can be shown (from the module name, else from the module path).
pub open spec fn failure_from_fields_spec(
    system: EventSystemValues,
    fields: FailureFields,
    executable_path: Seq<char>,
    canonical: Option<(Seq<char>, Seq<char>)>,
) -> Option<(u32, Seq<char>)> {
    match file_name_spec(executable_path) {
        None => None,
        Some(expected_name) => if !eq_ignore_case(fields.app_name@, expected_name)
            || !executable_path_matches(fields.app_path@, executable_path, canonical) {
            None
        } else {
            match exception_code_value(fields.exception_code@) {
                None => None,
                Some(code) => {
                    let module = match sanitized_basename_spec(fields.faulting_module@) {
                        Some(m) => Some(m),
                        None => match fields.faulting_module_path {
                            Some(p) => sanitized_basename_spec(p@),
                            None => None,
                        },
                    };
                    match module {
                        Some(m) => Some((code, m)),
                        None => None,
                    }
                },
            }
        },
    }
}

/// The crash a record's fields describe (see `failure_from_fields_spec`): its record id
/// and timestamp, exception code and shown module name.
pub fn failure_from_fields(
    system: EventSystemValues,
    fields: FailureFields,
    executable_path: &str,
    canonical: Option<(String, String)>,
) -> (r: Option<WindowsApplicationFailure>)
    ensures
        match failure_from_fields_spec(
            system,
            fields,
            executable_path@,
            match canonical {
                Some((a, b)) => Some((a@, b@)),
                None => None,
            },
        ) {
            Some((code, module)) => r matches Some(f) && f.event_record_id == system.event_record_id
                && f.timestamp_utc == system.timestamp_utc && f.exception_code == code
                && f.faulting_module@ == module,
            None => r is None,
        },
{
    let expected_name = match file_name(executable_path) {
        Some(n) => n,
        None => return None,
    };
    if !names_equal_folding_case(fields.app_name.as_str(), expected_name.as_str())
        || !matches_executable_path(fields.app_path.as_str(), executable_path, canonical) {
        return None;
    }
    let exception_code = match parse_exception_code(fields.exception_code.as_str()) {
        Some(c) => c,
        None => return None,
    };
    let module = match sanitized_basename(fields.faulting_module.as_str()) {
        Some(m) => Some(m),
        None => match &fields.faulting_module_path {
            Some(p) => sanitized_basename(p.as_str()),
            None => None,
        },
    };
    match module {
        Some(faulting_module) => Some(
            WindowsApplicationFailure {
                event_record_id: system.event_record_id,
                timestamp_utc: system.timestamp_utc,
                exception_code,
                faulting_module,
            },
        ),
        None => None,
    }
}

/// The crash that a rendered record describes for this executable, comparing paths as
/// written (for paths that could not be canonicalized): the record's fields (see
/// `failure_fields_spec`) checked against the executable (see `failure_from_fields_spec`).
pub fn application_error_from_values(
    system: EventSystemValues,
    named: NamedEventData,
    positional: &[Option<String>],
    executable_path: &str,
) -> (r: Option<WindowsApplicationFailure>)
    ensures
        match failure_fields_spec(system, named, positional@) {
            None => r is None,
            Some(fields) => match failure_from_fields_spec(system, fields, executable_path@, None) {
                Some((code, module)) => r matches Some(f) && f.event_record_id == system.event_record_id
                    && f.timestamp_utc == system.timestamp_utc && f.exception_code == code
                    && f.faulting_module@ == module,
                None => r is None,
            },
        },
{
    match failure_fields(&system, named, positional) {
        Some(fields) => failure_from_fields(system, fields, executable_path, None),
        None => None,
    }
}

} // verus!
