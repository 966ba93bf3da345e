use vstd::prelude::*;
use crate::text::{is_whitespace, is_whitespace_exec, owned, str_chars, string_from_chars};

verus! {

/// The number of logical CPUs, as `num_cpus::get` reports it. Claimed, as the crate documents:
/// at least 1. Which number comes back depends on the machine and is left open.
#[verifier::external_body]
fn logical_cpu_count() -> (r: usize)
    ensures
        r >= 1,
{
    num_cpus::get()
}

/// The number of hardware threads the core picker offers: the override when it is set (not
/// zero), the machine's logical CPU count otherwise.
pub fn detect_total_threads(test_override: usize) -> (r: usize)
    ensures
        test_override > 0 ==> r == test_override,
        r >= 1,
{
    if test_override > 0 {
        test_override
    } else {
        logical_cpu_count()
    }
}

/// The CPU model the header shows: the override when it is not empty, the model the system
/// reports otherwise.
pub fn detect_cpu_model(test_override: &str, system_model: String) -> (r: String)
    ensures
        r@ == if test_override@.len() > 0 { test_override@ } else { system_model@ },
{
    if str_chars(test_override).len() > 0 {
        owned(test_override)
    } else {
        system_model
    }
}

/// Whether a character is trimmed off a registry processor name: whitespace or NUL.
pub open spec fn is_name_padding(c: char) -> bool {
    is_whitespace(c) || c == '\0'
}

/// Number of padding characters at the start of `s`.
pub open spec fn leading_padding(s: Seq<char>) -> nat
    decreases s.len(),
{
    if s.len() > 0 && is_name_padding(s[0]) {
        1 + leading_padding(s.drop_first())
    } else {
        0
    }
}

/// Length of `s` once padding characters at its end are gone.
pub open spec fn without_trailing_padding(s: Seq<char>) -> nat
    decreases s.len(),
{
    if s.len() > 0 && is_name_padding(s.last()) {
        without_trailing_padding(s.drop_last())
    } else {
        s.len()
    }
}

/// The CPU model from the registry's `ProcessorNameString`: the value without whitespace and
/// NUL characters at either end, or `Unknown CPU` when it could not be read.
pub open spec fn registry_cpu_model(value: Option<Seq<char>>) -> Seq<char> {
    match value {
        Some(v) => {
            let t = v.skip(leading_padding(v) as int);
            t.take(without_trailing_padding(t) as int)
        },
        None => "Unknown CPU"@,
    }
}

proof fn lemma_leading_padding(s: Seq<char>, i: int)
    requires
        0 <= i <= s.len(),
        forall|k: int| 0 <= k < i ==> is_name_padding(#[trigger] s[k]),
    ensures
        leading_padding(s) == i + leading_padding(s.skip(i)),
    decreases i,
{
    if i > 0 {
        let t = s.drop_first();
        assert forall|k: int| 0 <= k < i - 1 implies is_name_padding(#[trigger] t[k]) by {
            assert(t[k] == s[k + 1]);
        }
        lemma_leading_padding(t, i - 1);
        assert(t.skip(i - 1) =~= s.skip(i));
    } else {
        assert(s.skip(0) =~= s);
    }
}

proof fn lemma_trailing_padding(s: Seq<char>, n: int)
    requires
        0 <= n <= s.len(),
        forall|k: int| n <= k < s.len() ==> is_name_padding(#[trigger] s[k]),
    ensures
        without_trailing_padding(s) == without_trailing_padding(s.take(n)),
    decreases s.len() - n,
{
    if n < s.len() {
        assert(s.drop_last().take(n) =~= s.take(n));
        assert forall|k: int| n <= k < s.drop_last().len() implies is_name_padding(#[trigger] s.drop_last()[k]) by {
            assert(s.drop_last()[k] == s[k]);
        }
        lemma_trailing_padding(s.drop_last(), n);
    } else {
        assert(s.take(n) =~= s);
    }
}

/// The CPU model from the registry value (see `registry_cpu_model`).
pub fn processor_name_model(value: Option<&str>) -> (r: String)
    ensures
        r@ == registry_cpu_model(match value {
            Some(v) => Some(v@),
            None => None,
        }),
{
    match value {
        None => owned("Unknown CPU"),
        Some(v) => {
            let c = str_chars(v);
            let mut a: usize = 0;
            while a < c.len() && (is_whitespace_exec(c[a]) || c[a] == '\0')
                invariant
                    a <= c@.len(),
                    forall|k: int| 0 <= k < a ==> is_name_padding(#[trigger] c@[k]),
                decreases c.len() - a,
            {
                a = a + 1;
            }
            proof {
                lemma_leading_padding(c@, a as int);
                if a < c@.len() {
                    assert(c@.skip(a as int)[0] == c@[a as int]);
                }
            }
            let ghost t = c@.skip(a as int);
            let mut b: usize = c.len();
            while b > a && (is_whitespace_exec(c[b - 1]) || c[b - 1] == '\0')
                invariant
                    a <= b <= c@.len(),
                    t == c@.skip(a as int),
                    forall|k: int| b - a <= k < t.len() ==> is_name_padding(#[trigger] t[k]),
                decreases b,
            {
                assert(t[b - 1 - a] == c@[b - 1]);
                b = b - 1;
            }
            proof {
                lemma_trailing_padding(t, b - a);
                if b > a {
                    assert(t.take(b - a).last() == c@[b - 1]);
                }
            }
            let r = string_from_chars(c.as_slice(), a, b);
            assert(c@.subrange(a as int, b as int) =~= t.take(b - a));
            r
        },
    }
}

} // verus!
