use vstd::prelude::*;
use crate::text::{str_chars, string_push};

verus! {

/// `n` backslashes.
pub open spec fn backslashes(n: nat) -> Seq<char> {
    Seq::new(n, |i: int| '\\')
}

/// Whether a character makes an argument need quotes: a space, a tab or a line break.
pub open spec fn is_separator(c: char) -> bool {
    c == ' ' || c == '\t' || c == '\n' || c == '\r'
}

/// Scans an argument for quoting: the escaped text so far and the number of backslashes
/// not yet written. A run of backslashes is written doubled and one more before a quote
/// (which it then escapes), and as it is before any other character.
pub open spec fn quote_scan(s: Seq<char>) -> (Seq<char>, nat)
    decreases s.len(),
{
    if s.len() == 0 {
        (Seq::empty(), 0)
    } else {
        let (out, pending) = quote_scan(s.drop_last());
        let c = s.last();
        if c == '\\' {
            (out, pending + 1)
        } else if c == '"' {
            (out + backslashes(2 * pending + 1) + seq!['"'], 0)
        } else {
            (out + backslashes(pending) + seq![c], 0)
        }
    }
}

/// An argument as the Windows command line takes it: `""` for an empty one, the argument
/// itself when it holds no separator and no quote, and otherwise the argument in quotes with
/// its quotes, and the backslashes before them and before the closing quote, escaped.
pub open spec fn quoted_arg(s: Seq<char>) -> Seq<char> {
    if s.len() == 0 {
        seq!['"', '"']
    } else if !s.contains('"') && !(exists|i: int| 0 <= i < s.len() && is_separator(#[trigger] s[i])) {
        s
    } else {
        let (out, pending) = quote_scan(s);
        seq!['"'] + out + backslashes(2 * pending) + seq!['"']
    }
}

fn push_backslashes(out: &mut String, n: usize)
    ensures
        final(out)@ == old(out)@ + backslashes(n as nat),
{
    let mut k: usize = 0;
    while k < n
        invariant
            k <= n,
            out@ == old(out)@ + backslashes(k as nat),
        decreases n - k,
    {
        string_push(out, '\\');
        k = k + 1;
        assert(out@ =~= old(out)@ + backslashes(k as nat));
    }
}

/// Quotes one argument for a Windows command line (see `quoted_arg`).
pub fn quote_arg_windows(arg: &str) -> (r: String)
    ensures
        r@ == quoted_arg(arg@),
{
    let chars = str_chars(arg);
    if chars.len() == 0 {
        let mut r = String::new();
        string_push(&mut r, '"');
        string_push(&mut r, '"');
        assert(r@ =~= seq!['"', '"']);
        return r;
    }
    let mut needs_quotes = false;
    let mut has_quote = false;
    let mut i: usize = 0;
    while i < chars.len()
        invariant
            chars@ == arg@,
            i <= chars@.len(),
            needs_quotes == (exists|j: int| 0 <= j < i && is_separator(#[trigger] chars@[j])),
            has_quote == (exists|j: int| 0 <= j < i && chars@[j] == '"'),
        decreases chars.len() - i,
    {
        let c = chars[i];
        if c == ' ' || c == '\t' || c == '\n' || c == '\r' {
            needs_quotes = true;
        }
        if c == '"' {
            has_quote = true;
        }
        i = i + 1;
    }
    if !needs_quotes && !has_quote {
        return crate::text::owned(arg);
    }
    let mut out = String::new();
    let mut pending: usize = 0;
    let mut k: usize = 0;
    while k < chars.len()
        invariant
            chars@ == arg@,
            k <= chars@.len(),
            pending <= k,
            (out@, pending as nat) == quote_scan(chars@.take(k as int)),
        decreases chars.len() - k,
    {
        assert(chars@.take(k + 1).drop_last() =~= chars@.take(k as int));
        let c = chars[k];
        if c == '\\' {
            pending = pending + 1;
        } else if c == '"' {
            let ghost before = out@;
            push_backslashes(&mut out, pending);
            push_backslashes(&mut out, pending);
            string_push(&mut out, '\\');
            string_push(&mut out, '"');
            assert(out@ =~= before + backslashes(2 * pending as nat + 1) + seq!['"']);
            pending = 0;
        } else {
            push_backslashes(&mut out, pending);
            string_push(&mut out, c);
            pending = 0;
        }
        k = k + 1;
    }
    assert(chars@.take(k as int) =~= chars@);
    let mut r = String::new();
    string_push(&mut r, '"');
    let ghost body = out@;
    crate::text::push_str(&mut r, out.as_str());
    push_backslashes(&mut r, pending);
    push_backslashes(&mut r, pending);
    string_push(&mut r, '"');
    assert(r@ =~= seq!['"'] + body + backslashes(2 * pending as nat) + seq!['"']);
    r
}

/// Parts joined with single spaces.
pub open spec fn space_joined(parts: Seq<Seq<char>>) -> Seq<char>
    decreases parts.len(),
{
    if parts.len() == 0 {
        Seq::empty()
    } else if parts.len() == 1 {
        parts[0]
    } else {
        space_joined(parts.drop_last()) + seq![' '] + parts.last()
    }
}

/// The command line that starts `exe` with `args`: each quoted, joined with spaces.
pub open spec fn command_line(exe: Seq<char>, args: Seq<String>) -> Seq<char> {
    space_joined(seq![quoted_arg(exe)] + args.map_values(|a: String| quoted_arg(a@)))
}

/// Builds the command line that starts `exe` with `args` (see `command_line`).
pub fn build_command_line(exe: &str, args: &Vec<String>) -> (r: String)
    ensures
        r@ == command_line(exe@, args@),
{
    let mut r = quote_arg_windows(exe);
    let ghost first = seq![quoted_arg(exe@)];
    let mut i: usize = 0;
    while i < args.len()
        invariant
            i <= args@.len(),
            first == seq![quoted_arg(exe@)],
            r@ == space_joined(first + args@.take(i as int).map_values(|a: String| quoted_arg(a@))),
        decreases args.len() - i,
    {
        let q = quote_arg_windows(args[i].as_str());
        string_push(&mut r, ' ');
        crate::text::push_str(&mut r, q.as_str());
        proof {
            let prev = first + args@.take(i as int).map_values(|a: String| quoted_arg(a@));
            let next = first + args@.take(i + 1).map_values(|a: String| quoted_arg(a@));
            assert(next.drop_last() =~= prev);
            assert(next.last() == quoted_arg(args@[i as int]@));
            assert(args@.take(i + 1).map_values(|a: String| quoted_arg(a@)).len() == i + 1);
            assert(next.len() >= 2);
        }
        i = i + 1;
    }
    assert(args@.take(i as int) =~= args@);
    r
}

} // verus!
