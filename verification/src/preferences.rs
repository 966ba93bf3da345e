use vstd::prelude::*;
use crate::models::AppStateStorage;

verus! {

/// Number of colour themes the tool offers; theme indices run below it.
pub const THEME_COUNT: usize = 3;

/// Whether selecting theme `theme_index` changes anything: the index names a theme that is
/// not already selected.
pub open spec fn theme_change_applies(s: AppStateStorage, theme_index: usize) -> bool {
    theme_index < THEME_COUNT && s.theme_index != theme_index
}

/// The state after selecting theme `theme_index`.
pub open spec fn with_theme(s: AppStateStorage, theme_index: usize) -> AppStateStorage {
    if theme_change_applies(s, theme_index) {
        AppStateStorage { theme_index, ..s }
    } else {
        s
    }
}

/// The state with process monitoring switched to the other setting.
pub open spec fn toggled_monitoring(s: AppStateStorage) -> AppStateStorage {
    AppStateStorage { process_monitoring_enabled: !s.process_monitoring_enabled, ..s }
}

/// The state with the event-log crash diagnostics set to `enabled`.
pub open spec fn with_event_log_diagnostics(s: AppStateStorage, enabled: bool) -> AppStateStorage {
    AppStateStorage { windows_event_log_diagnostics_enabled: enabled, ..s }
}

/// Selects colour theme `theme_index`. An index past the last theme, or the theme already
/// selected, changes nothing and gives `false`.
pub fn set_theme_index(state: &mut AppStateStorage, theme_index: usize) -> (r: bool)
    ensures
        r == theme_change_applies(*old(state), theme_index),
        *final(state) == with_theme(*old(state), theme_index),
{
    if theme_index > 2 || state.theme_index == theme_index {
        return false;
    }
    state.theme_index = theme_index;
    true
}

/// Turns process monitoring off when it is on, and on when it is off.
pub fn toggle_process_monitoring(state: &mut AppStateStorage)
    ensures
        *final(state) == toggled_monitoring(*old(state)),
{
    state.process_monitoring_enabled = !state.process_monitoring_enabled;
}

/// Turns the event-log crash diagnostics on or off. The update cannot fail here: the
/// result is always `Ok`.
pub fn set_windows_event_log_diagnostics(state: &mut AppStateStorage, enabled: bool) -> (r: Result<
    (),
    String,
>)
    ensures
        r is Ok,
        *final(state) == with_event_log_diagnostics(*old(state), enabled),
{
    state.windows_event_log_diagnostics_enabled = enabled;
    Ok(())
}

/// Toggling process monitoring twice restores the state it started from.
pub proof fn lemma_toggle_twice_restores(s: AppStateStorage)
    ensures
        toggled_monitoring(toggled_monitoring(s)) == s,
{
}

/// Setting the diagnostics preference is idempotent: a second identical update changes
/// nothing.
pub proof fn lemma_event_log_diagnostics_idempotent(s: AppStateStorage, enabled: bool)
    ensures
        with_event_log_diagnostics(with_event_log_diagnostics(s, enabled), enabled)
            == with_event_log_diagnostics(s, enabled),
        with_event_log_diagnostics(s, enabled).windows_event_log_diagnostics_enabled == enabled,
{
}

/// Selecting a theme leaves that theme selected (when the index names a theme), and selecting
/// it again reports no change and changes nothing.
pub proof fn lemma_theme_selection_settles(s: AppStateStorage, theme_index: usize)
    ensures
        theme_index < THEME_COUNT ==> with_theme(s, theme_index).theme_index == theme_index,
        !theme_change_applies(with_theme(s, theme_index), theme_index),
        with_theme(with_theme(s, theme_index), theme_index) == with_theme(s, theme_index),
{
}

} // verus!
