use vstd::prelude::*;
use crate::text::{concat, decimal, format_u64};
use crate::process::{PriorityClass, ProcessSettingsApplyOutcome, from_win_priority, spec_from_win_priority};

verus! {

/// Protection level of an ordinary, unprotected process.
pub const PROTECTION_LEVEL_NONE: u32 = 0xFFFF_FFFE;
/// Protection level of a light Windows TCB process.
pub const PROTECTION_LEVEL_WINTCB_LIGHT: u32 = 0;

/// Whether a protection level marks a protected process: any level but none.
pub fn is_protected_level(level: u32) -> (r: bool)
    ensures
        r == (level != PROTECTION_LEVEL_NONE),
{
    level != PROTECTION_LEVEL_NONE
}

/// Whether the process found is the tracked instance (same instance token) and protected;
/// a reused process id never counts.
pub fn is_confirmed_protected_process(
    expected_instance_token: u64,
    observed_instance_token: u64,
    protection_level: u32,
) -> (r: bool)
    ensures
        r == (expected_instance_token == observed_instance_token && protection_level
            != PROTECTION_LEVEL_NONE),
{
    expected_instance_token == observed_instance_token && is_protected_level(protection_level)
}

/// The instance token of a process: its creation time's high and low halves as one number.
pub open spec fn instance_token_spec(high: u32, low: u32) -> u64 {
    ((high as int) * 0x1_0000_0000 + (low as int)) as u64
}

/// The instance token of a process from its creation time (`high << 32 | low`).
pub fn process_instance_token(created_high: u32, created_low: u32) -> (r: u64)
    ensures
        r == instance_token_spec(created_high, created_low),
{
    let h = created_high as u64;
    let l = created_low as u64;
    let r = (h << 32u64) | l;
    assert((h << 32u64) | l == h * 0x1_0000_0000 + l) by (bit_vector)
        requires
            h <= 0xffff_ffff,
            l <= 0xffff_ffff,
    ;
    r
}

/// What to do to a tracked process: what its settings were, which differ, and which of them
/// to change.
#[derive(Debug, Clone, Copy, PartialEq, Eq, Structural)]
pub struct ProcessSettingsPlan {
    pub outcome: ProcessSettingsApplyOutcome,
    pub set_affinity: bool,
    pub set_priority: bool,
}

/// Error text for an empty affinity mask.
pub open spec fn empty_mask_error() -> Seq<char> {
    "affinity mask is empty"@
}

/// Error text for process `pid`, whose id now names another process.
pub open spec fn instance_mismatch_error(pid: u32) -> Seq<char> {
    "Failed to apply settings for process "@ + decimal(pid as nat)
        + ": process instance no longer matches the tracked PID"@
}

/// Decides what to do to tracked process `pid` whose creation time gave `observed_token` and
/// whose settings read `current_mask` and the Win32 priority value `current_priority`: an
/// empty mask and a process that is not the tracked instance are refused; otherwise the
/// differences are reported and, when `apply_changes`, each differing setting is changed.
pub fn process_settings_plan(
    pid: u32,
    expected_token: u64,
    observed_token: u64,
    current_mask: usize,
    current_priority: u32,
    mask: usize,
    priority: PriorityClass,
    apply_changes: bool,
) -> (r: Result<ProcessSettingsPlan, String>)
    ensures
        mask == 0 ==> (r matches Err(e) && e@ == empty_mask_error()),
        mask != 0 && observed_token != expected_token ==> (r matches Err(e) && e@
            == instance_mismatch_error(pid)),
        mask != 0 && observed_token == expected_token ==> (r matches Ok(plan) && {
            let previous_priority = spec_from_win_priority(current_priority);
            &&& plan.outcome.previous_affinity == current_mask
            &&& plan.outcome.previous_priority == previous_priority
            &&& plan.outcome.affinity_changed == (current_mask != mask)
            &&& plan.outcome.priority_changed == (previous_priority != priority)
            &&& plan.set_affinity == (apply_changes && current_mask != mask)
            &&& plan.set_priority == (apply_changes && previous_priority != priority)
        }),
{
    if mask == 0 {
        return Err(crate::text::owned("affinity mask is empty"));
    }
    if observed_token != expected_token {
        let head = concat("Failed to apply settings for process ", format_u64(pid as u64).as_str());
        return Err(concat(head.as_str(), ": process instance no longer matches the tracked PID"));
    }
    let previous_priority = from_win_priority(current_priority);
    let affinity_changed = current_mask != mask;
    let priority_changed = previous_priority != priority;
    Ok(
        ProcessSettingsPlan {
            outcome: ProcessSettingsApplyOutcome {
                previous_affinity: current_mask,
                previous_priority,
                affinity_changed,
                priority_changed,
            },
            set_affinity: apply_changes && affinity_changed,
            set_priority: apply_changes && priority_changed,
        },
    )
}

/// A plan never changes a setting that already matches, and never changes anything when
/// changes are not asked for.
pub proof fn lemma_plan_changes_only_differences(plan: ProcessSettingsPlan, apply_changes: bool)
    requires
        plan.set_affinity == (apply_changes && plan.outcome.affinity_changed),
        plan.set_priority == (apply_changes && plan.outcome.priority_changed),
    ensures
        plan.set_affinity ==> plan.outcome.affinity_changed,
        plan.set_priority ==> plan.outcome.priority_changed,
        !apply_changes ==> !plan.set_affinity && !plan.set_priority,
{
}

} // verus!
