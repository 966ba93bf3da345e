use vstd::prelude::*;

verus! {

/// Scheduling priority a launch rule asks for.
#[derive(Clone, Copy, Debug, PartialEq, Eq, Structural)]
pub enum PriorityClass {
    Idle,
    BelowNormal,
    Normal,
    AboveNormal,
    High,
    Realtime,
}

/// Win32 `IDLE_PRIORITY_CLASS`.
pub const IDLE_PRIORITY_CLASS: u32 = 0x0000_0040;
/// Win32 `BELOW_NORMAL_PRIORITY_CLASS`.
pub const BELOW_NORMAL_PRIORITY_CLASS: u32 = 0x0000_4000;
/// Win32 `NORMAL_PRIORITY_CLASS`.
pub const NORMAL_PRIORITY_CLASS: u32 = 0x0000_0020;
/// Win32 `ABOVE_NORMAL_PRIORITY_CLASS`.
pub const ABOVE_NORMAL_PRIORITY_CLASS: u32 = 0x0000_8000;
/// Win32 `HIGH_PRIORITY_CLASS`.
pub const HIGH_PRIORITY_CLASS: u32 = 0x0000_0080;
/// Win32 `REALTIME_PRIORITY_CLASS`.
pub const REALTIME_PRIORITY_CLASS: u32 = 0x0000_0100;

/// The Win32 creation flag that selects a priority class.
pub open spec fn spec_win_priority(p: PriorityClass) -> u32 {
    match p {
        PriorityClass::Idle => IDLE_PRIORITY_CLASS,
        PriorityClass::BelowNormal => BELOW_NORMAL_PRIORITY_CLASS,
        PriorityClass::Normal => NORMAL_PRIORITY_CLASS,
        PriorityClass::AboveNormal => ABOVE_NORMAL_PRIORITY_CLASS,
        PriorityClass::High => HIGH_PRIORITY_CLASS,
        PriorityClass::Realtime => REALTIME_PRIORITY_CLASS,
    }
}

/// The priority class that a Win32 priority value denotes; unknown values read as `Normal`.
pub open spec fn spec_from_win_priority(p: u32) -> PriorityClass {
    if p == IDLE_PRIORITY_CLASS {
        PriorityClass::Idle
    } else if p == BELOW_NORMAL_PRIORITY_CLASS {
        PriorityClass::BelowNormal
    } else if p == NORMAL_PRIORITY_CLASS {
        PriorityClass::Normal
    } else if p == ABOVE_NORMAL_PRIORITY_CLASS {
        PriorityClass::AboveNormal
    } else if p == HIGH_PRIORITY_CLASS {
        PriorityClass::High
    } else if p == REALTIME_PRIORITY_CLASS {
        PriorityClass::Realtime
    } else {
        PriorityClass::Normal
    }
}

/// Maps a priority class to the Win32 priority flag.
pub fn transform_to_win_priority(p: PriorityClass) -> (r: u32)
    ensures
        r == spec_win_priority(p),
{
    match p {
        PriorityClass::Idle => IDLE_PRIORITY_CLASS,
        PriorityClass::BelowNormal => BELOW_NORMAL_PRIORITY_CLASS,
        PriorityClass::Normal => NORMAL_PRIORITY_CLASS,
        PriorityClass::AboveNormal => ABOVE_NORMAL_PRIORITY_CLASS,
        PriorityClass::High => HIGH_PRIORITY_CLASS,
        PriorityClass::Realtime => REALTIME_PRIORITY_CLASS,
    }
}

/// Maps a Win32 priority value back to a priority class (unknown values become `Normal`).
pub fn from_win_priority(p: u32) -> (r: PriorityClass)
    ensures
        r == spec_from_win_priority(p),
{
    if p == IDLE_PRIORITY_CLASS {
        PriorityClass::Idle
    } else if p == BELOW_NORMAL_PRIORITY_CLASS {
        PriorityClass::BelowNormal
    } else if p == NORMAL_PRIORITY_CLASS {
        PriorityClass::Normal
    } else if p == ABOVE_NORMAL_PRIORITY_CLASS {
        PriorityClass::AboveNormal
    } else if p == HIGH_PRIORITY_CLASS {
        PriorityClass::High
    } else if p == REALTIME_PRIORITY_CLASS {
        PriorityClass::Realtime
    } else {
        PriorityClass::Normal
    }
}

/// Reading back the flag written for a priority class gives that class again.
pub proof fn lemma_win_priority_roundtrip(p: PriorityClass)
    ensures
        spec_from_win_priority(spec_win_priority(p)) == p,
{
}

/// Result of a process-settings operation that verified the process instance first.
#[derive(Clone, Copy, Debug, PartialEq, Eq, Structural)]
pub struct ProcessSettingsApplyOutcome {
    pub previous_affinity: usize,
    pub previous_priority: PriorityClass,
    pub affinity_changed: bool,
    pub priority_changed: bool,
}

} // verus!

verus! {

/// Each priority class is set on Windows as the Win32 priority class of the same name
/// (`IDLE_PRIORITY_CLASS` = 0x40, `BELOW_NORMAL_PRIORITY_CLASS` = 0x4000,
/// `NORMAL_PRIORITY_CLASS` = 0x20, `ABOVE_NORMAL_PRIORITY_CLASS` = 0x8000,
/// `HIGH_PRIORITY_CLASS` = 0x80, `REALTIME_PRIORITY_CLASS` = 0x100), and each of those values
/// read back from a process is that class; any other value reads as `Normal`.
pub proof fn lemma_win_priority_classes(other: u32)
    requires
        other != 0x40 && other != 0x4000 && other != 0x20 && other != 0x8000 && other != 0x80 && other != 0x100,
    ensures
        spec_win_priority(PriorityClass::Idle) == 0x40u32,
        spec_win_priority(PriorityClass::BelowNormal) == 0x4000u32,
        spec_win_priority(PriorityClass::Normal) == 0x20u32,
        spec_win_priority(PriorityClass::AboveNormal) == 0x8000u32,
        spec_win_priority(PriorityClass::High) == 0x80u32,
        spec_win_priority(PriorityClass::Realtime) == 0x100u32,
        spec_from_win_priority(0x40) == PriorityClass::Idle,
        spec_from_win_priority(0x4000) == PriorityClass::BelowNormal,
        spec_from_win_priority(0x20) == PriorityClass::Normal,
        spec_from_win_priority(0x8000) == PriorityClass::AboveNormal,
        spec_from_win_priority(0x80) == PriorityClass::High,
        spec_from_win_priority(0x100) == PriorityClass::Realtime,
        spec_from_win_priority(other) == PriorityClass::Normal,
{
}

} // verus!
