use vstd::prelude::*;
use crate::rendered::{is_high_surrogate, is_low_surrogate, surrogate_pair_value};
use crate::desktop_entry::text_lines;
use crate::event_log::starts_with;
use crate::text::{concat, str_chars, string_from_chars, trim, trim_spec, utf8_text};

verus! {

/// UTF-16 decoding of code units that replaces invalid data: a unit that is not a surrogate
/// is its own character, a high surrogate followed by a low one is the character they
/// encode, and any other surrogate unit becomes U+FFFD on its own.
pub open spec fn utf16_lossy_text(units: Seq<u16>) -> Seq<char>
    decreases units.len(),
{
    if units.len() == 0 {
        Seq::empty()
    } else if !is_high_surrogate(units[0]) && !is_low_surrogate(units[0]) {
        seq![units[0] as char] + utf16_lossy_text(units.drop_first())
    } else if is_high_surrogate(units[0]) && units.len() >= 2 && is_low_surrogate(units[1]) {
        seq![surrogate_pair_value(units[0], units[1]) as char] + utf16_lossy_text(units.skip(2))
    } else {
        seq!['\u{FFFD}'] + utf16_lossy_text(units.drop_first())
    }
}

/// Decodes UTF-16 code units with `String::from_utf16_lossy`, which its documentation
/// describes as decoding UTF-16 and replacing invalid data with U+FFFD. Claimed: the result
/// is `utf16_lossy_text` of the units.
#[verifier::external_body]
fn utf16_lossy(units: &Vec<u16>) -> (r: String)
    ensures
        r@ == utf16_lossy_text(units@),
{
    String::from_utf16_lossy(units.as_slice())
}

/// The code units of bytes read in pairs (little-endian when `little` is set); an odd last
/// byte is dropped.
pub open spec fn code_units(bytes: Seq<u8>, little: bool) -> Seq<u16> {
    Seq::new(
        bytes.len() / 2,
        |i: int|
            if little {
                (bytes[2 * i] as int + 256 * bytes[2 * i + 1] as int) as u16
            } else {
                (bytes[2 * i + 1] as int + 256 * bytes[2 * i] as int) as u16
            },
    )
}

/// The text of a `.url` file's bytes: UTF-16 after a little- or big-endian byte order mark,
/// otherwise UTF-8; `None` when the bytes are neither (the caller then tries the system's
/// ANSI code page).
pub open spec fn url_file_text(bytes: Seq<u8>) -> Option<Seq<char>> {
    if bytes.len() >= 2 && bytes[0] == 0xFF && bytes[1] == 0xFE {
        Some(utf16_lossy_text(code_units(bytes.skip(2), true)))
    } else if bytes.len() >= 2 && bytes[0] == 0xFE && bytes[1] == 0xFF {
        Some(utf16_lossy_text(code_units(bytes.skip(2), false)))
    } else if vstd::utf8::valid_utf8(bytes) {
        Some(vstd::utf8::decode_utf8(bytes))
    } else {
        None
    }
}

fn units_of(bytes: &[u8], little: bool) -> (r: Vec<u16>)
    requires
        bytes@.len() >= 2,
    ensures
        r@ == code_units(bytes@.skip(2), little),
{
    let mut r: Vec<u16> = Vec::new();
    let n = (bytes.len() - 2) / 2;
    let mut i: usize = 0;
    let mut j: usize = 2;
    while i < n
        invariant
            bytes@.len() >= 2,
            n == (bytes@.len() - 2) / 2,
            i <= n,
            j == 2 + 2 * i,
            r@.len() == i,
            forall|k: int| 0 <= k < i ==> r@[k] == #[trigger] code_units(bytes@.skip(2), little)[k],
        decreases n - i,
    {
        let a = bytes[j] as u16;
        let b = bytes[j + 1] as u16;
        let unit: u16 = if little {
            a + 256 * b
        } else {
            b + 256 * a
        };
        proof {
            let s = bytes@.skip(2);
            assert(s[2 * i as int] == bytes@[2 + 2 * i as int]);
            assert(s[2 * i + 1] == bytes@[3 + 2 * i as int]);
        }
        r.push(unit);
        i = i + 1;
        j = j + 2;
    }
    assert(r@ =~= code_units(bytes@.skip(2), little));
    r
}

/// Decodes the bytes of a `.url` file (see `url_file_text`).
pub fn decode_url_file(bytes: &[u8]) -> (r: Option<String>)
    ensures
        match url_file_text(bytes@) {
            Some(t) => r matches Some(s) && s@ == t,
            None => r is None,
        },
{
    if bytes.len() >= 2 && bytes[0] == 0xFF && bytes[1] == 0xFE {
        Some(utf16_lossy(&units_of(bytes, true)))
    } else if bytes.len() >= 2 && bytes[0] == 0xFE && bytes[1] == 0xFF {
        Some(utf16_lossy(&units_of(bytes, false)))
    } else {
        utf8_text(bytes)
    }
}

/// The value of the first line that starts with `URL=`, trimmed.
pub open spec fn first_url_line(lines: Seq<Seq<char>>) -> Option<Seq<char>>
    decreases lines.len(),
{
    if lines.len() == 0 {
        None
    } else if starts_with(lines[0], "URL="@) {
        Some(trim_spec(lines[0].skip(4)))
    } else {
        first_url_line(lines.drop_first())
    }
}

/// The URL a `.url` file's text points to: the trimmed value of its first `URL=` line.
pub open spec fn url_of_text(content: Seq<char>) -> Result<Seq<char>, Seq<char>> {
    match first_url_line(text_lines(content)) {
        Some(u) => Ok(u),
        None => Err("URL= not found"@),
    }
}

proof fn lemma_first_url_line_skip(lines: Seq<Seq<char>>, i: int)
    requires
        0 <= i <= lines.len(),
        forall|k: int| 0 <= k < i ==> !starts_with(#[trigger] lines[k], "URL="@),
    ensures
        first_url_line(lines) == first_url_line(lines.skip(i)),
    decreases i,
{
    if i > 0 {
        assert(!starts_with(lines[0], "URL="@));
        let t = lines.drop_first();
        assert forall|k: int| 0 <= k < i - 1 implies !starts_with(#[trigger] t[k], "URL="@) by {
            assert(t[k] == lines[k + 1]);
        }
        lemma_first_url_line_skip(t, i - 1);
        assert(t.skip(i - 1) =~= lines.skip(i));
    } else {
        assert(lines.skip(0) =~= lines);
    }
}

/// The lines of a text (see `text_lines`).
pub(crate) fn lines_of(content: &str) -> (r: Vec<Vec<char>>)
    ensures
        r@.map_values(|l: Vec<char>| l@) == text_lines(content@),
{
    let chars = str_chars(content);
    let mut lines: Vec<Vec<char>> = Vec::new();
    let mut line: Vec<char> = Vec::new();
    let mut i: usize = 0;
    while i < chars.len()
        invariant
            chars@ == content@,
            i <= chars@.len(),
            text_lines(chars@.take(i as int)).len() >= 1,
            lines@.map_values(|l: Vec<char>| l@) == text_lines(chars@.take(i as int)).drop_last(),
            line@ == text_lines(chars@.take(i as int)).last(),
        decreases chars.len() - i,
    {
        let ghost ls = text_lines(chars@.take(i as int));
        assert(chars@.take(i + 1).drop_last() =~= chars@.take(i as int));
        if chars[i] == '\n' {
            let ghost before = lines@.map_values(|l: Vec<char>| l@);
            let done = line;
            lines.push(done);
            line = Vec::new();
            proof {
                assert(lines@.map_values(|l: Vec<char>| l@) =~= before.push(ls.last()));
                assert(ls.drop_last().push(ls.last()) =~= ls);
                assert(line@ =~= Seq::<char>::empty());
            }
        } else {
            line.push(chars[i]);
            proof {
                let ls2 = text_lines(chars@.take(i + 1));
                assert(ls2.drop_last() =~= ls.drop_last());
            }
        }
        i = i + 1;
    }
    assert(chars@.take(i as int) =~= chars@);
    let ghost before = lines@.map_values(|l: Vec<char>| l@);
    let ghost last = line@;
    lines.push(line);
    proof {
        let ls = text_lines(chars@);
        assert(lines@.map_values(|l: Vec<char>| l@) =~= before.push(last));
        assert(ls.drop_last().push(ls.last()) =~= ls);
    }
    lines
}

/// Finds the URL of a `.url` file's text (see `url_of_text`).
pub fn url_from_text(content: &str) -> (r: Result<String, String>)
    ensures
        match url_of_text(content@) {
            Ok(u) => r matches Ok(s) && s@ == u,
            Err(e) => r matches Err(m) && m@ == e,
        },
{
    let lines = lines_of(content);
    let ghost ls = lines@.map_values(|l: Vec<char>| l@);
    let mut i: usize = 0;
    while i < lines.len()
        invariant
            i <= lines@.len(),
            ls == lines@.map_values(|l: Vec<char>| l@),
            ls == text_lines(content@),
            forall|k: int| 0 <= k < i ==> !starts_with(#[trigger] ls[k], "URL="@),
        decreases lines.len() - i,
    {
        let l = &lines[i];
        if l.len() >= 4 && l[0] == 'U' && l[1] == 'R' && l[2] == 'L' && l[3] == '=' {
            proof {
                reveal_strlit("URL=");
                assert(ls[i as int].take(4) =~= "URL="@);
                lemma_first_url_line_skip(ls, i as int);
                assert(ls.skip(i as int)[0] == ls[i as int]);
            }
            let rest = string_from_chars(l.as_slice(), 4, l.len());
            assert(l@.subrange(4, l@.len() as int) =~= ls[i as int].skip(4));
            return Ok(trim(rest.as_str()));
        }
        proof {
            reveal_strlit("URL=");
            assert(ls[i as int] == l@);
            if starts_with(ls[i as int], "URL="@) {
                assert(ls[i as int].take(4)[0] == 'U');
                assert(ls[i as int].take(4)[1] == 'R');
                assert(ls[i as int].take(4)[2] == 'L');
                assert(ls[i as int].take(4)[3] == '=');
            }
        }
        i = i + 1;
    }
    proof {
        lemma_first_url_line_skip(ls, i as int);
    }
    Err(crate::text::owned("URL= not found"))
}

/// The scheme of a URL: the text before its first `:` (the whole URL when it has none),
/// refused when empty.
pub open spec fn url_scheme_spec(url: Seq<char>) -> Result<Seq<char>, Seq<char>> {
    let end = if url.contains(':') {
        choose|i: int| 0 <= i < url.len() && url[i] == ':' && forall|k: int| 0 <= k < i ==> url[k] != ':'
    } else {
        url.len() as int
    };
    if end == 0 {
        Err("Invalid URL (no scheme): "@ + url)
    } else {
        Ok(url.take(end))
    }
}

/// The scheme of a URL (see `url_scheme_spec`).
pub fn url_scheme(url: &str) -> (r: Result<String, String>)
    ensures
        match url_scheme_spec(url@) {
            Ok(s) => r matches Ok(x) && x@ == s,
            Err(e) => r matches Err(m) && m@ == e,
        },
{
    let v = str_chars(url);
    let mut i: usize = 0;
    while i < v.len() && v[i] != ':'
        invariant
            v@ == url@,
            i <= v@.len(),
            forall|k: int| 0 <= k < i ==> v@[k] != ':',
        decreases v.len() - i,
    {
        i = i + 1;
    }
    proof {
        if url@.contains(':') {
            let w = choose|w: int| 0 <= w < url@.len() && url@[w] == ':';
            assert(i < v@.len());
            let c = choose|j: int| 0 <= j < url@.len() && url@[j] == ':' && forall|k: int| 0 <= k < j ==> url@[k] != ':';
            assert(c == i) by {
                if c < i {
                    assert(v@[c] != ':');
                } else if c > i {
                    assert(url@[i as int] == ':');
                }
            }
        } else {
            if i < v@.len() {
                assert(url@[i as int] == ':');
            }
        }
    }
    if i == 0 {
        return Err(concat("Invalid URL (no scheme): ", url));
    }
    let s = string_from_chars(v.as_slice(), 0, i);
    assert(v@.subrange(0, i as int) =~= url@.take(i as int));
    Ok(s)
}

} // verus!
