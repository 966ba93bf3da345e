use vstd::prelude::*;
use crate::process::{PriorityClass, ProcessSettingsApplyOutcome};
use crate::text::{concat, decimal, format_usize, format_u64, string_push};

verus! {

/// Whether every core index, read as a shift amount, fits the width of a mask.
pub open spec fn cores_in_range(cores: Seq<usize>) -> bool {
    forall|i: int| 0 <= i < cores.len() ==> ((#[trigger] cores[i]) as u32) < usize::BITS
}

/// Index of the first core whose bit does not fit a mask, if any.
pub open spec fn first_out_of_range(cores: Seq<usize>) -> Option<int>
    decreases cores.len(),
{
    if cores.len() == 0 {
        None
    } else {
        match first_out_of_range(cores.drop_last()) {
            Some(i) => Some(i),
            None => if (cores.last() as u32) >= usize::BITS {
                Some(cores.len() - 1)
            } else {
                None
            },
        }
    }
}

/// The mask with the bit of every core set.
pub open spec fn cores_mask(cores: Seq<usize>) -> usize
    decreases cores.len(),
{
    if cores.len() == 0 {
        0
    } else {
        cores_mask(cores.drop_last()) | (1usize << (cores.last() as u32))
    }
}

/// Error text for a core whose bit does not fit a mask.
pub open spec fn core_out_of_range_error(core: usize) -> Seq<char> {
    "core index "@ + decimal(core as nat) + " out of range for affinity mask"@
}

/// The affinity mask of a group's cores: every core's bit set; the first core whose bit does
/// not fit the mask is refused, and so is an empty mask.
pub open spec fn affinity_mask_spec(cores: Seq<usize>) -> Result<usize, Seq<char>> {
    match first_out_of_range(cores) {
        Some(i) => Err(core_out_of_range_error(cores[i])),
        None => if cores_mask(cores) == 0 {
            Err("affinity mask is empty"@)
        } else {
            Ok(cores_mask(cores))
        },
    }
}

/// The affinity mask of a group's cores (see `affinity_mask_spec`).
pub fn affinity_mask_from_cores(cores: &[usize]) -> (r: Result<usize, String>)
    ensures
        match affinity_mask_spec(cores@) {
            Ok(m) => r == Ok::<usize, String>(m),
            Err(e) => r matches Err(s) && s@ == e,
        },
{
    let mut mask: usize = 0;
    let mut i: usize = 0;
    while i < cores.len()
        invariant
            i <= cores@.len(),
            first_out_of_range(cores@.take(i as int)) is None,
            mask == cores_mask(cores@.take(i as int)),
        decreases cores.len() - i,
    {
        let core_index = cores[i];
        let shift = core_index as u32;
        assert(cores@.take(i + 1).drop_last() =~= cores@.take(i as int));
        if shift >= usize::BITS {
            proof {
                assert(first_out_of_range(cores@.take(i + 1)) == Some(i as int));
                lemma_first_out_of_range_prefix(cores@, i + 1);
            }
            let a = concat("core index ", format_usize(core_index).as_str());
            return Err(concat(a.as_str(), " out of range for affinity mask"));
        }
        mask = mask | (1usize << shift);
        i = i + 1;
    }
    assert(cores@.take(i as int) =~= cores@);
    if mask == 0 {
        return Err(crate::text::owned("affinity mask is empty"));
    }
    Ok(mask)
}

proof fn lemma_first_out_of_range_prefix(s: Seq<usize>, n: int)
    requires
        0 <= n <= s.len(),
        first_out_of_range(s.take(n)) is Some,
    ensures
        first_out_of_range(s) == first_out_of_range(s.take(n)),
    decreases s.len() - n,
{
    if n < s.len() {
        assert(s.take(n + 1).drop_last() =~= s.take(n));
        lemma_first_out_of_range_prefix(s, n + 1);
    } else {
        assert(s.take(n) =~= s);
    }
}

/// When no core is out of range, every core's bit fits a mask.
pub proof fn lemma_in_range_when_none_out(cores: Seq<usize>)
    requires
        first_out_of_range(cores) is None,
    ensures
        forall|k: int| 0 <= k < cores.len() ==> ((#[trigger] cores[k]) as u32) < usize::BITS,
    decreases cores.len(),
{
    if cores.len() > 0 {
        lemma_in_range_when_none_out(cores.drop_last());
        assert forall|k: int| 0 <= k < cores.len() implies ((#[trigger] cores[k]) as u32) < usize::BITS by {
            if k < cores.len() - 1 {
                assert(cores[k] == cores.drop_last()[k]);
            }
        }
    }
}

/// A mask of cores that all fit is empty only when there are no cores.
pub proof fn lemma_mask_empty_only_without_cores(cores: Seq<usize>)
    requires
        first_out_of_range(cores) is None,
    ensures
        (cores_mask(cores) == 0) <==> (cores.len() == 0),
    decreases cores.len(),
{
    if cores.len() > 0 {
        let s = cores.last() as u32;
        let prev = cores_mask(cores.drop_last());
        assert(first_out_of_range(cores.drop_last()) is None);
        assert(s < usize::BITS);
        assert(prev | (1usize << s) != 0usize) by (bit_vector)
            requires
                s < usize::BITS,
        ;
    }
}

// ---------------------------------------------------------------------------------------
// Notifications of one monitor pass

/// Upper-case hexadecimal digit of `d < 16`.
pub open spec fn hex_upper_digit(d: nat) -> char {
    if d < 10 {
        ((('0' as u32) + d) as u32) as char
    } else {
        ((('A' as u32) + d - 10) as u32) as char
    }
}

/// Upper-case hexadecimal text of a number, without leading zeros (`{:X}`).
pub open spec fn hex_upper(n: nat) -> Seq<char>
    decreases n,
{
    if n < 16 {
        seq![hex_upper_digit(n)]
    } else {
        hex_upper(n / 16).push(hex_upper_digit(n % 16))
    }
}

fn hex_upper_digit_exec(d: usize) -> (c: char)
    requires
        d < 16,
    ensures
        c == hex_upper_digit(d as nat),
{
    if d < 10 {
        (('0' as u8) + (d as u8)) as char
    } else {
        (('A' as u8) + (d as u8) - 10) as char
    }
}

/// Formats a number as upper-case hexadecimal (`{:X}`).
pub fn format_hex_upper(n: usize) -> (r: String)
    ensures
        r@ == hex_upper(n as nat),
    decreases n,
{
    if n < 16 {
        let mut s = String::new();
        string_push(&mut s, hex_upper_digit_exec(n));
        assert(s@ =~= hex_upper(n as nat));
        s
    } else {
        let mut s = format_hex_upper(n / 16);
        string_push(&mut s, hex_upper_digit_exec(n % 16));
        s
    }
}

/// The name of a priority class as its debug form shows it.
pub open spec fn priority_name(p: PriorityClass) -> Seq<char> {
    match p {
        PriorityClass::Idle => "Idle"@,
        PriorityClass::BelowNormal => "BelowNormal"@,
        PriorityClass::Normal => "Normal"@,
        PriorityClass::AboveNormal => "AboveNormal"@,
        PriorityClass::High => "High"@,
        PriorityClass::Realtime => "Realtime"@,
    }
}

fn priority_name_exec(p: PriorityClass) -> (r: &'static str)
    ensures
        r@ == priority_name(p),
{
    match p {
        PriorityClass::Idle => "Idle",
        PriorityClass::BelowNormal => "BelowNormal",
        PriorityClass::Normal => "Normal",
        PriorityClass::AboveNormal => "AboveNormal",
        PriorityClass::High => "High",
        PriorityClass::Realtime => "Realtime",
    }
}

/// What checking one tracked process gave.
#[derive(Debug, Clone, Copy, PartialEq, Eq, Structural)]
pub enum PidCheck {
    /// The process has no instance token: it cannot be checked safely.
    Untracked,
    /// The settings were read (and corrected when monitoring).
    Checked(ProcessSettingsApplyOutcome),
    /// Reading or correcting the settings failed.
    Failed,
}

/// Whether a check found the process's settings as the rule wants them.
pub open spec fn check_matched(c: PidCheck) -> bool {
    c matches PidCheck::Checked(o) && !o.affinity_changed && !o.priority_changed
}

/// The notice of a corrected affinity.
pub open spec fn affinity_notice(name: Seq<char>, pid: u32, previous: usize, expected: usize) -> Seq<char> {
    "Fixed affinity for "@ + name + " (PID "@ + decimal(pid as nat) + "): "@ + hex_upper(previous as nat)
        + " -> "@ + hex_upper(expected as nat)
}

/// The notice of a corrected priority.
pub open spec fn priority_notice(name: Seq<char>, pid: u32, previous: PriorityClass, expected: PriorityClass) -> Seq<char> {
    "Fixed priority for "@ + name + " (PID "@ + decimal(pid as nat) + "): "@ + priority_name(previous)
        + " -> "@ + priority_name(expected)
}

/// The notices for one checked process: with monitoring on, one per corrected setting,
/// affinity first.
pub open spec fn pid_notices(
    name: Seq<char>,
    expected_mask: usize,
    expected_priority: PriorityClass,
    monitoring_enabled: bool,
    pid: u32,
    check: PidCheck,
) -> Seq<Seq<char>> {
    match check {
        PidCheck::Checked(o) => if monitoring_enabled {
            (if o.affinity_changed {
                seq![affinity_notice(name, pid, o.previous_affinity, expected_mask)]
            } else {
                Seq::empty()
            }) + (if o.priority_changed {
                seq![priority_notice(name, pid, o.previous_priority, expected_priority)]
            } else {
                Seq::empty()
            })
        } else {
            Seq::empty()
        },
        _ => Seq::empty(),
    }
}

/// The notices for a rule's processes, in order.
pub open spec fn all_notices(
    name: Seq<char>,
    expected_mask: usize,
    expected_priority: PriorityClass,
    monitoring_enabled: bool,
    checks: Seq<(u32, PidCheck)>,
) -> Seq<Seq<char>>
    decreases checks.len(),
{
    if checks.len() == 0 {
        Seq::empty()
    } else {
        all_notices(name, expected_mask, expected_priority, monitoring_enabled, checks.drop_last())
            + pid_notices(
            name,
            expected_mask,
            expected_priority,
            monitoring_enabled,
            checks.last().0,
            checks.last().1,
        )
    }
}

/// What one monitor pass gives for a running rule.
#[derive(Debug, Clone, PartialEq, Eq)]
pub struct RuleSettingsReport {
    pub settings_matched: bool,
    pub changed: bool,
    pub notifications: Vec<String>,
}

fn affinity_notice_text(name: &str, pid: u32, previous: usize, expected: usize) -> (r: String)
    ensures
        r@ == affinity_notice(name@, pid, previous, expected),
{
    let a = concat("Fixed affinity for ", name);
    let b = concat(a.as_str(), " (PID ");
    let c = concat(b.as_str(), format_u64(pid as u64).as_str());
    let d = concat(c.as_str(), "): ");
    let e = concat(d.as_str(), format_hex_upper(previous).as_str());
    let f = concat(e.as_str(), " -> ");
    concat(f.as_str(), format_hex_upper(expected).as_str())
}

fn priority_notice_text(name: &str, pid: u32, previous: PriorityClass, expected: PriorityClass) -> (r:
    String)
    ensures
        r@ == priority_notice(name@, pid, previous, expected),
{
    let a = concat("Fixed priority for ", name);
    let b = concat(a.as_str(), " (PID ");
    let c = concat(b.as_str(), format_u64(pid as u64).as_str());
    let d = concat(c.as_str(), "): ");
    let e = concat(d.as_str(), priority_name_exec(previous));
    let f = concat(e.as_str(), " -> ");
    concat(f.as_str(), priority_name_exec(expected))
}

/// One monitor pass over a running rule's processes: the rule's settings match when every
/// process was checked and found as the rule wants; the report says whether that changed
/// from `previously_matched` and, with monitoring on, carries a notice per corrected setting.
pub fn evaluate_rule_settings(
    name: &str,
    expected_mask: usize,
    expected_priority: PriorityClass,
    monitoring_enabled: bool,
    previously_matched: bool,
    checks: &[(u32, PidCheck)],
) -> (r: RuleSettingsReport)
    ensures
        r.settings_matched == (forall|i: int| 0 <= i < checks@.len() ==> check_matched(#[trigger] checks@[i].1)),
        r.changed == (r.settings_matched != previously_matched),
        r.notifications@.map_values(|s: String| s@) == all_notices(
            name@,
            expected_mask,
            expected_priority,
            monitoring_enabled,
            checks@,
        ),
{
    let mut all_matched = true;
    let mut notifications: Vec<String> = Vec::new();
    let mut i: usize = 0;
    while i < checks.len()
        invariant
            i <= checks@.len(),
            all_matched == (forall|k: int| 0 <= k < i ==> check_matched(#[trigger] checks@[k].1)),
            notifications@.map_values(|s: String| s@) == all_notices(
                name@,
                expected_mask,
                expected_priority,
                monitoring_enabled,
                checks@.take(i as int),
            ),
        decreases checks.len() - i,
    {
        let (pid, check) = checks[i];
        let ghost before = notifications@.map_values(|s: String| s@);
        assert(checks@.take(i + 1).drop_last() =~= checks@.take(i as int));
        match check {
            PidCheck::Checked(o) => {
                if o.affinity_changed || o.priority_changed {
                    all_matched = false;
                    if monitoring_enabled {
                        if o.affinity_changed {
                            notifications.push(
                                affinity_notice_text(name, pid, o.previous_affinity, expected_mask),
                            );
                        }
                        if o.priority_changed {
                            notifications.push(
                                priority_notice_text(name, pid, o.previous_priority, expected_priority),
                            );
                        }
                    }
                }
            },
            _ => {
                all_matched = false;
            },
        }
        assert(notifications@.map_values(|s: String| s@) =~= before + pid_notices(
            name@,
            expected_mask,
            expected_priority,
            monitoring_enabled,
            pid,
            check,
        ));
        i = i + 1;
    }
    assert(checks@.take(i as int) =~= checks@);
    RuleSettingsReport {
        settings_matched: all_matched,
        changed: all_matched != previously_matched,
        notifications,
    }
}

/// A pass in which every process of a rule was checked and found matching reports no
/// notices, whether monitoring corrects or not.
pub proof fn lemma_matched_pass_is_silent(
    name: Seq<char>,
    expected_mask: usize,
    expected_priority: PriorityClass,
    monitoring_enabled: bool,
    checks: Seq<(u32, PidCheck)>,
)
    requires
        forall|i: int| 0 <= i < checks.len() ==> check_matched(#[trigger] checks[i].1),
    ensures
        all_notices(name, expected_mask, expected_priority, monitoring_enabled, checks).len() == 0,
    decreases checks.len(),
{
    if checks.len() > 0 {
        assert(check_matched(checks[checks.len() - 1].1));
        assert forall|i: int| 0 <= i < checks.drop_last().len() implies check_matched(#[trigger] checks.drop_last()[i].1) by {
            assert(checks.drop_last()[i] == checks[i]);
        }
        lemma_matched_pass_is_silent(name, expected_mask, expected_priority, monitoring_enabled, checks.drop_last());
    }
}

} // verus!
