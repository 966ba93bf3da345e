use vstd::prelude::*;
use crate::models::{
    AddAppsOutcome, AppStateStorage, AppToRun, AppToRunView, CoreGroup, CoreGroupView, apps_view,
    groups_view, launch_target_label_spec, clone_cores,
};
use crate::rules::{adjusted_insert_index, moved_between, move_in_bounds};
use crate::text::{trim, trim_spec, owned, concat, format_usize, decimal};
use crate::catalog::InstalledAppCatalogEntry;
use crate::discovery::{
    DroppedFile, apps_from_dropped_paths, app_from_installed_entry, are_dropped_rules,
    first_resolve_error, resolved_prefix_len, entry_resolution_error, is_entry_rule,
};

verus! {

/// The part of a group that the edit form shows.
#[derive(Debug, PartialEq, Eq)]
pub struct EditableGroup {
    pub name: String,
    pub selected_cores: Vec<usize>,
    pub run_all_enabled: bool,
}

/// Indices of the selected cores, in increasing order.
pub open spec fn selected_indices(s: Seq<bool>) -> Seq<usize>
    decreases s.len(),
{
    if s.len() == 0 {
        Seq::empty()
    } else if s.last() {
        selected_indices(s.drop_last()).push((s.len() - 1) as usize)
    } else {
        selected_indices(s.drop_last())
    }
}

/// The indices of the selected entries of a core selection.
pub fn selected_cores(core_selection: &[bool]) -> (r: Vec<usize>)
    ensures
        r@ == selected_indices(core_selection@),
{
    let mut r: Vec<usize> = Vec::new();
    let mut i: usize = 0;
    while i < core_selection.len()
        invariant
            i <= core_selection@.len(),
            r@ == selected_indices(core_selection@.take(i as int)),
        decreases core_selection.len() - i,
    {
        assert(core_selection@.take(i + 1).drop_last() =~= core_selection@.take(i as int));
        if core_selection[i] {
            r.push(i);
        }
        i = i + 1;
    }
    assert(core_selection@.take(i as int) =~= core_selection@);
    r
}

/// The rules of every group, as a matrix.
pub open spec fn programs_matrix(groups: Seq<CoreGroupView>) -> Seq<Seq<AppToRunView>> {
    groups.map_values(|g: CoreGroupView| g.programs)
}

/// The group with its rules replaced.
pub open spec fn with_programs(g: CoreGroupView, programs: Seq<AppToRunView>) -> CoreGroupView {
    CoreGroupView { programs, ..g }
}

/// Error text for a blank group name.
pub open spec fn empty_name_error() -> Seq<char> {
    seq![
        'G', 'r', 'o', 'u', 'p', ' ', 'n', 'a', 'm', 'e', ' ', 'c', 'a', 'n', 'n', 'o', 't', ' ',
        'b', 'e', ' ', 'e', 'm', 'p', 't', 'y'
    ]
}

/// Error text for a selection without cores.
pub open spec fn no_cores_error() -> Seq<char> {
    seq![
        'A', 't', ' ', 'l', 'e', 'a', 's', 't', ' ', 'o', 'n', 'e', ' ', 'c', 'o', 'r', 'e', ' ',
        'm', 'u', 's', 't', ' ', 'b', 'e', ' ', 's', 'e', 'l', 'e', 'c', 't', 'e', 'd'
    ]
}

fn empty_name_message() -> (r: String)
    ensures
        r@ == empty_name_error(),
{
    let r = owned("Group name cannot be empty");
    proof {
        reveal_strlit("Group name cannot be empty");
        assert(r@ =~= empty_name_error());
    }
    r
}

fn no_cores_message() -> (r: String)
    ensures
        r@ == no_cores_error(),
{
    let r = owned("At least one core must be selected");
    proof {
        reveal_strlit("At least one core must be selected");
        assert(r@ =~= no_cores_error());
    }
    r
}

proof fn lemma_groups_view_remove(v: Seq<CoreGroup>, i: int)
    requires
        0 <= i < v.len(),
    ensures
        groups_view(v.remove(i)) == groups_view(v).remove(i),
{
    assert(groups_view(v.remove(i)) =~= groups_view(v).remove(i));
}

proof fn lemma_groups_view_insert(v: Seq<CoreGroup>, i: int, x: CoreGroup)
    requires
        0 <= i <= v.len(),
    ensures
        groups_view(v.insert(i, x)) == groups_view(v).insert(i, x@),
{
    assert(groups_view(v.insert(i, x)) =~= groups_view(v).insert(i, x@));
}

proof fn lemma_groups_view_push(v: Seq<CoreGroup>, x: CoreGroup)
    ensures
        groups_view(v.push(x)) == groups_view(v).push(x@),
{
    assert(groups_view(v.push(x)) =~= groups_view(v).push(x@));
}

proof fn lemma_apps_view_remove(v: Seq<AppToRun>, i: int)
    requires
        0 <= i < v.len(),
    ensures
        apps_view(v.remove(i)) == apps_view(v).remove(i),
{
    assert(apps_view(v.remove(i)) =~= apps_view(v).remove(i));
}

proof fn lemma_apps_view_insert(v: Seq<AppToRun>, i: int, x: AppToRun)
    requires
        0 <= i <= v.len(),
    ensures
        apps_view(v.insert(i, x)) == apps_view(v).insert(i, x@),
{
    assert(apps_view(v.insert(i, x)) =~= apps_view(v).insert(i, x@));
}

/// `new` differs from `old` in its groups at most: every other field of the state is as it was.
pub open spec fn only_groups_changed(old: AppStateStorage, new: AppStateStorage) -> bool {
    new == (AppStateStorage { groups: new.groups, ..old })
}

/// Takes group `index` out of the state.
fn take_group(state: &mut AppStateStorage, index: usize) -> (g: CoreGroup)
    requires
        index < old(state).groups@.len(),
    ensures
        only_groups_changed(*old(state), *final(state)),
        g@ == groups_view(old(state).groups@)[index as int],
        g@ == old(state).groups@[index as int]@,
        g.programs@.len() == old(state).groups@[index as int].programs@.len(),
        groups_view(final(state).groups@) == groups_view(old(state).groups@).remove(index as int),
        final(state).groups@.len() == old(state).groups@.len() - 1,
        final(state).theme_index == old(state).theme_index,
        final(state).process_monitoring_enabled == old(state).process_monitoring_enabled,
        final(state).rule_identities == old(state).rule_identities,
{
    proof {
        lemma_groups_view_remove(state.groups@, index as int);
    }
    state.groups.remove(index)
}

/// Puts a group back into the state at `index`.
fn put_group(state: &mut AppStateStorage, index: usize, g: CoreGroup)
    requires
        index <= old(state).groups@.len(),
    ensures
        only_groups_changed(*old(state), *final(state)),
        groups_view(final(state).groups@) == groups_view(old(state).groups@).insert(index as int, g@),
        final(state).groups@.len() == old(state).groups@.len() + 1,
        final(state).theme_index == old(state).theme_index,
        final(state).process_monitoring_enabled == old(state).process_monitoring_enabled,
        final(state).rule_identities == old(state).rule_identities,
{
    proof {
        lemma_groups_view_insert(state.groups@, index as int, g);
    }
    state.groups.insert(index, g);
}

/// Shows or hides a group; reports whether anything changed.
pub fn set_group_is_hidden(state: &mut AppStateStorage, index: usize, is_hidden: bool) -> (r: bool)
    ensures
        only_groups_changed(*old(state), *final(state)),
        !r ==> *final(state) == *old(state),
        r == (index < old(state).groups@.len() && old(state).groups@[index as int].is_hidden
            != is_hidden),
        groups_view(final(state).groups@) == if r {
            groups_view(old(state).groups@).update(
                index as int,
                CoreGroupView { is_hidden, ..groups_view(old(state).groups@)[index as int] },
            )
        } else {
            groups_view(old(state).groups@)
        },
{
    if index < state.groups.len() && state.groups[index].is_hidden != is_hidden {
        let ghost v0 = groups_view(state.groups@);
        let mut g = take_group(state, index);
        g.is_hidden = is_hidden;
        put_group(state, index, g);
        assert(groups_view(state.groups@) =~= v0.update(
            index as int,
            CoreGroupView { is_hidden, ..v0[index as int] },
        ));
        true
    } else {
        false
    }
}

/// Exchanges two groups; reports whether both indices existed.
pub fn swap_groups(state: &mut AppStateStorage, index1: usize, index2: usize) -> (r: bool)
    ensures
        only_groups_changed(*old(state), *final(state)),
        !r ==> *final(state) == *old(state),
        r == (index1 < old(state).groups@.len() && index2 < old(state).groups@.len()),
        groups_view(final(state).groups@) == if r {
            crate::rules::swapped(groups_view(old(state).groups@), index1 as int, index2 as int)
        } else {
            groups_view(old(state).groups@)
        },
{
    if index1 < state.groups.len() && index2 < state.groups.len() {
        let ghost v0 = groups_view(state.groups@);
        if index1 != index2 {
            let (lo, hi) = if index1 < index2 { (index1, index2) } else { (index2, index1) };
            let hi_group = take_group(state, hi);
            let lo_group = take_group(state, lo);
            put_group(state, lo, hi_group);
            put_group(state, hi, lo_group);
        }
        assert(groups_view(state.groups@) =~= crate::rules::swapped(
            v0,
            index1 as int,
            index2 as int,
        ));
        true
    } else {
        false
    }
}

/// Adds a group named by the trimmed name with the selected cores and no rules. A blank name or
/// an empty selection is refused, and then nothing changes.
pub fn create_group(
    state: &mut AppStateStorage,
    group_name: &str,
    core_selection: &[bool],
    run_all_enabled: bool,
) -> (r: Result<(), String>)
    ensures
        only_groups_changed(*old(state), *final(state)),
        r is Err ==> *final(state) == *old(state),
        trim_spec(group_name@).len() == 0 ==> (r matches Err(e) && e@ == empty_name_error()),
        trim_spec(group_name@).len() != 0 && selected_indices(core_selection@).len() == 0 ==> (
        r matches Err(e) && e@ == no_cores_error()),
        r is Ok <==> (trim_spec(group_name@).len() != 0 && selected_indices(core_selection@).len()
            != 0),
        r is Ok ==> groups_view(final(state).groups@).len() == old(state).groups@.len() + 1
            && groups_view(final(state).groups@).drop_last() == groups_view(old(state).groups@)
            && groups_view(final(state).groups@).last().name@ == trim_spec(group_name@)
            && groups_view(final(state).groups@).last().cores == selected_indices(core_selection@)
            && groups_view(final(state).groups@).last().programs.len() == 0
            && !groups_view(final(state).groups@).last().is_hidden
            && groups_view(final(state).groups@).last().run_all_button == run_all_enabled,
        r is Err ==> groups_view(final(state).groups@) == groups_view(old(state).groups@),
{
    let name = trim(group_name);
    if crate::text::str_chars(name.as_str()).len() == 0 {
        return Err(empty_name_message());
    }
    let cores = selected_cores(core_selection);
    if cores.len() == 0 {
        return Err(no_cores_message());
    }
    let group = CoreGroup {
        name,
        cores,
        programs: Vec::new(),
        is_hidden: false,
        run_all_button: run_all_enabled,
    };
    let ghost v0 = groups_view(state.groups@);
    proof {
        lemma_groups_view_push(state.groups@, group);
    }
    state.groups.push(group);
    assert(groups_view(state.groups@).drop_last() =~= v0);
    Ok(())
}

} // verus!

verus! {

/// Renames a group and replaces its cores and run-all flag. A blank name or an empty selection
/// is refused; a missing group gives `Ok(false)`; in both cases nothing changes.
pub fn update_group_properties(
    state: &mut AppStateStorage,
    index: usize,
    name: String,
    core_selection: &[bool],
    run_all_button: bool,
) -> (r: Result<bool, String>)
    ensures
        only_groups_changed(*old(state), *final(state)),
        !(r matches Ok(true)) ==> *final(state) == *old(state),
        trim_spec(name@).len() == 0 ==> (r matches Err(e) && e@ == empty_name_error()),
        trim_spec(name@).len() != 0 && selected_indices(core_selection@).len() == 0 ==> (r matches Err(
            e,
        ) && e@ == no_cores_error()),
        r is Err <==> (trim_spec(name@).len() == 0 || selected_indices(core_selection@).len() == 0),
        r matches Ok(changed) ==> changed == (index < old(state).groups@.len()),
        r matches Ok(true) ==> groups_view(final(state).groups@) == groups_view(
            old(state).groups@,
        ).update(
            index as int,
            CoreGroupView {
                name: groups_view(final(state).groups@)[index as int].name,
                cores: selected_indices(core_selection@),
                run_all_button,
                ..groups_view(old(state).groups@)[index as int]
            },
        ) && groups_view(final(state).groups@)[index as int].name@ == trim_spec(name@),
        !(r matches Ok(true)) ==> groups_view(final(state).groups@) == groups_view(
            old(state).groups@,
        ),
{
    let trimmed = trim(name.as_str());
    if crate::text::str_chars(trimmed.as_str()).len() == 0 {
        return Err(empty_name_message());
    }
    let cores = selected_cores(core_selection);
    if cores.len() == 0 {
        return Err(no_cores_message());
    }
    if index < state.groups.len() {
        let ghost v0 = groups_view(state.groups@);
        let mut g = take_group(state, index);
        g.name = trimmed;
        g.cores = cores;
        g.run_all_button = run_all_button;
        let ghost gv = g@;
        put_group(state, index, g);
        assert(groups_view(state.groups@) =~= v0.update(
            index as int,
            CoreGroupView {
                name: gv.name,
                cores: selected_indices(core_selection@),
                run_all_button,
                ..v0[index as int]
            },
        ));
        Ok(true)
    } else {
        Ok(false)
    }
}

/// Removes a group; reports whether it existed.
pub fn remove_group(state: &mut AppStateStorage, index: usize) -> (r: bool)
    ensures
        only_groups_changed(*old(state), *final(state)),
        !r ==> *final(state) == *old(state),
        r == (index < old(state).groups@.len()),
        groups_view(final(state).groups@) == if r {
            groups_view(old(state).groups@).remove(index as int)
        } else {
            groups_view(old(state).groups@)
        },
{
    if index < state.groups.len() {
        let _g = take_group(state, index);
        true
    } else {
        false
    }
}

/// The edit form's view of a group.
pub fn load_group_for_edit(state: &AppStateStorage, group_index: usize) -> (r: Option<EditableGroup>)
    ensures
        r is Some <==> group_index < state.groups@.len(),
        r matches Some(e) ==> e.name == state.groups@[group_index as int].name && e.selected_cores@
            == state.groups@[group_index as int].cores@ && e.run_all_enabled == state.groups@[
            group_index as int].run_all_button,
{
    if group_index < state.groups.len() {
        let g = &state.groups[group_index];
        Some(
            EditableGroup {
                name: g.name.clone(),
                selected_cores: clone_cores(&g.cores),
                run_all_enabled: g.run_all_button,
            },
        )
    } else {
        None
    }
}

/// A copy of rule `rule_idx` of group `group_idx`.
pub fn load_rule(state: &AppStateStorage, group_idx: usize, rule_idx: usize) -> (r: Option<AppToRun>)
    ensures
        r is Some <==> (group_idx < state.groups@.len() && rule_idx < state.groups@[
            group_idx as int].programs@.len()),
        r matches Some(a) ==> a@ == state.groups@[group_idx as int].programs@[rule_idx as int]@,
{
    if group_idx < state.groups.len() && rule_idx < state.groups[group_idx].programs.len() {
        Some(state.groups[group_idx].programs[rule_idx].clone())
    } else {
        None
    }
}

/// Replaces a rule; reports whether it existed.
pub fn update_rule(
    state: &mut AppStateStorage,
    group_index: usize,
    program_index: usize,
    program: AppToRun,
) -> (r: bool)
    ensures
        only_groups_changed(*old(state), *final(state)),
        !r ==> *final(state) == *old(state),
        r == (group_index < old(state).groups@.len() && program_index < old(state).groups@[
            group_index as int].programs@.len()),
        groups_view(final(state).groups@) == if r {
            groups_view(old(state).groups@).update(
                group_index as int,
                with_programs(
                    groups_view(old(state).groups@)[group_index as int],
                    groups_view(old(state).groups@)[group_index as int].programs.update(
                        program_index as int,
                        program@,
                    ),
                ),
            )
        } else {
            groups_view(old(state).groups@)
        },
{
    if group_index < state.groups.len() && program_index < state.groups[group_index].programs.len() {
        let ghost v0 = groups_view(state.groups@);
        let mut g = take_group(state, group_index);
        let ghost p0 = g.programs@;
        let ghost pv = program@;
        g.programs.remove(program_index);
        g.programs.insert(program_index, program);
        proof {
            assert(apps_view(g.programs@) =~= apps_view(p0).update(program_index as int, pv));
        }
        put_group(state, group_index, g);
        assert(groups_view(state.groups@) =~= v0.update(
            group_index as int,
            with_programs(v0[group_index as int], v0[group_index as int].programs.update(
                program_index as int,
                pv,
            )),
        ));
        true
    } else {
        false
    }
}

/// Removes a rule and returns the label of what it launched, or `None` when it does not exist.
pub fn remove_rule_from_group(state: &mut AppStateStorage, group_index: usize, program_index: usize) -> (r:
    Option<String>)
    ensures
        only_groups_changed(*old(state), *final(state)),
        r is None ==> *final(state) == *old(state),
        r is Some <==> (group_index < old(state).groups@.len() && program_index < old(
            state,
        ).groups@[group_index as int].programs@.len()),
        r matches Some(label) ==> label@ == launch_target_label_spec(
            old(state).groups@[group_index as int].programs@[program_index as int].launch_target,
        ),
        groups_view(final(state).groups@) == if r is Some {
            groups_view(old(state).groups@).update(
                group_index as int,
                with_programs(
                    groups_view(old(state).groups@)[group_index as int],
                    groups_view(old(state).groups@)[group_index as int].programs.remove(
                        program_index as int,
                    ),
                ),
            )
        } else {
            groups_view(old(state).groups@)
        },
{
    if group_index < state.groups.len() && program_index < state.groups[group_index].programs.len() {
        let ghost v0 = groups_view(state.groups@);
        let ghost old_programs = state.groups@[group_index as int].programs@;
        let mut g = take_group(state, group_index);
        let ghost p0 = g.programs@;
        assert(apps_view(p0)[program_index as int] == apps_view(old_programs)[program_index as int]);
        let label = g.programs[program_index].launch_target_label();
        proof {
            lemma_apps_view_remove(g.programs@, program_index as int);
        }
        g.programs.remove(program_index);
        put_group(state, group_index, g);
        assert(groups_view(state.groups@) =~= v0.update(
            group_index as int,
            with_programs(v0[group_index as int], v0[group_index as int].programs.remove(
                program_index as int,
            )),
        ));
        Some(label)
    } else {
        None
    }
}

} // verus!

verus! {

/// Groups that differ from `old` only in their rules, which are those of `matrix`.
pub open spec fn groups_with_matrix(old: Seq<CoreGroupView>, matrix: Seq<Seq<AppToRunView>>) -> Seq<
    CoreGroupView,
> {
    Seq::new(old.len(), |g: int| with_programs(old[g], matrix[g]))
}

/// Moves a rule to another position, possibly in another group, and returns a copy of it; out of
/// range positions leave everything unchanged and give `None`.
#[verifier::rlimit(40)]
pub fn move_rule_between_groups_at(
    state: &mut AppStateStorage,
    source_group_index: usize,
    source_rule_index: usize,
    target_group_index: usize,
    target_rule_index: usize,
) -> (r: Option<AppToRun>)
    ensures
        only_groups_changed(*old(state), *final(state)),
        r is None ==> *final(state) == *old(state),
        ({
            let m0 = programs_matrix(groups_view(old(state).groups@));
            let ok = move_in_bounds(
                m0,
                source_group_index as int,
                source_rule_index as int,
                target_group_index as int,
                target_rule_index as int,
            );
            &&& r is Some <==> ok
            &&& r matches Some(a) ==> a@ == m0[source_group_index as int][source_rule_index as int]
            &&& groups_view(final(state).groups@) == if ok {
                groups_with_matrix(
                    groups_view(old(state).groups@),
                    moved_between(
                        m0,
                        source_group_index as int,
                        source_rule_index as int,
                        target_group_index as int,
                        target_rule_index as int,
                    ),
                )
            } else {
                groups_view(old(state).groups@)
            }
        }),
{
    let ghost v0 = groups_view(state.groups@);
    let ghost m0 = programs_matrix(v0);
    if source_group_index >= state.groups.len() || target_group_index >= state.groups.len()
        || source_rule_index >= state.groups[source_group_index].programs.len() || target_rule_index
        > state.groups[target_group_index].programs.len() {
        return None;
    }
    let ghost target = moved_between(
        m0,
        source_group_index as int,
        source_rule_index as int,
        target_group_index as int,
        target_rule_index as int,
    );
    if source_group_index == target_group_index {
        let mut g = take_group(state, source_group_index);
        let ghost p0 = g.programs@;
        proof {
            lemma_apps_view_remove(p0, source_rule_index as int);
        }
        let moved = g.programs.remove(source_rule_index);
        let insert_index = if target_rule_index > source_rule_index {
            target_rule_index - 1
        } else {
            target_rule_index
        };
        let copy = moved.clone();
        let ghost p1 = g.programs@;
        proof {
            lemma_apps_view_insert(p1, insert_index as int, moved);
        }
        g.programs.insert(insert_index, moved);
        put_group(state, source_group_index, g);
        proof {
            assert(groups_view(state.groups@) =~= groups_with_matrix(v0, target));
        }
        return Some(copy);
    }
    let mut source = take_group(state, source_group_index);
    proof {
        lemma_apps_view_remove(source.programs@, source_rule_index as int);
    }
    let moved = source.programs.remove(source_rule_index);
    put_group(state, source_group_index, source);
    let ghost v1 = groups_view(state.groups@);
    let mut dest = take_group(state, target_group_index);
    let copy = moved.clone();
    proof {
        lemma_apps_view_insert(dest.programs@, target_rule_index as int, moved);
    }
    dest.programs.insert(target_rule_index, moved);
    put_group(state, target_group_index, dest);
    proof {
        assert(groups_view(state.groups@) =~= groups_with_matrix(v0, target));
    }
    Some(copy)
}


/// Text reporting a group index that does not exist.
pub open spec fn group_not_found_error(index: nat) -> Seq<char> {
    "Group with index "@ + decimal(index) + " not found"@
}

fn group_not_found_message(index: usize) -> (r: String)
    ensures
        r@ == group_not_found_error(index as nat),
{
    let head = concat("Group with index ", format_usize(index).as_str());
    concat(head.as_str(), " not found")
}

/// Adds the rules found among dropped files to group `group_index` (see
/// `apps_from_dropped_paths`). The count is of the rules added and the error is that of the
/// first file that could not be resolved; a missing group adds nothing and reports itself.
pub fn add_apps_to_group(state: &mut AppStateStorage, group_index: usize, dropped: Vec<DroppedFile>) -> (r:
    AddAppsOutcome)
    ensures
        only_groups_changed(*old(state), *final(state)),
        group_index >= old(state).groups@.len() ==> *final(state) == *old(state),
        group_index < old(state).groups@.len() ==> {
            let old_programs = groups_view(old(state).groups@)[group_index as int].programs;
            let new_programs = groups_view(final(state).groups@)[group_index as int].programs;
            &&& r.added_count == resolved_prefix_len(dropped@)
            &&& r.first_error == first_resolve_error(dropped@)
            &&& new_programs.take(old_programs.len() as int) == old_programs
            &&& are_dropped_rules(new_programs.skip(old_programs.len() as int), dropped@)
            &&& groups_view(final(state).groups@) == groups_view(old(state).groups@).update(
                group_index as int,
                with_programs(groups_view(old(state).groups@)[group_index as int], new_programs),
            )
        },
        group_index >= old(state).groups@.len() ==> {
            &&& r.added_count == 0
            &&& r.first_error matches Some(e) && e@ == group_not_found_error(group_index as nat)
            &&& groups_view(final(state).groups@) == groups_view(old(state).groups@)
        },
        final(state).theme_index == old(state).theme_index,
        final(state).rule_identities == old(state).rule_identities,
{
    let ghost files = dropped@;
    let discovered = apps_from_dropped_paths(dropped);
    let ghost found = apps_view(discovered.apps@);
    let added_count = discovered.apps.len();
    if group_index < state.groups.len() {
        let ghost v0 = groups_view(state.groups@);
        let mut g = take_group(state, group_index);
        let ghost p0 = g.programs@;
        let mut apps = discovered.apps;
        g.programs.append(&mut apps);
        proof {
            assert(apps_view(g.programs@) =~= apps_view(p0) + found);
        }
        put_group(state, group_index, g);
        assert(groups_view(state.groups@) =~= v0.update(
            group_index as int,
            with_programs(v0[group_index as int], v0[group_index as int].programs + found),
        ));
        assert((v0[group_index as int].programs + found).take(v0[group_index as int].programs.len() as int) =~= v0[group_index as int].programs);
        assert((v0[group_index as int].programs + found).skip(v0[group_index as int].programs.len() as int) =~= found);
        AddAppsOutcome { added_count, first_error: discovered.first_error }
    } else {
        AddAppsOutcome { added_count: 0, first_error: Some(group_not_found_message(group_index)) }
    }
}

/// Adds the rule made from a picker entry (see `app_from_installed_entry`) to group
/// `group_index`. An entry that cannot be turned into a rule reports its error; a missing
/// group reports itself; in both cases nothing changes.
pub fn add_installed_app_to_group(
    state: &mut AppStateStorage,
    group_index: usize,
    entry: InstalledAppCatalogEntry,
    resolved_path: Option<Result<(String, Vec<String>), String>>,
) -> (r: AddAppsOutcome)
    requires
        entry.target is Path ==> resolved_path is Some,
    ensures
        only_groups_changed(*old(state), *final(state)),
        r.added_count == 0 ==> *final(state) == *old(state),
        entry_resolution_error(entry, resolved_path) matches Some(e) ==> {
            &&& r == (AddAppsOutcome { added_count: 0, first_error: Some(e) })
            &&& groups_view(final(state).groups@) == groups_view(old(state).groups@)
        },
        entry_resolution_error(entry, resolved_path) is None && group_index >= old(state).groups@.len() ==> {
            &&& r.added_count == 0
            &&& r.first_error matches Some(e) && e@ == group_not_found_error(group_index as nat)
            &&& groups_view(final(state).groups@) == groups_view(old(state).groups@)
        },
        entry_resolution_error(entry, resolved_path) is None && group_index < old(state).groups@.len() ==> {
            let old_programs = groups_view(old(state).groups@)[group_index as int].programs;
            let new_programs = groups_view(final(state).groups@)[group_index as int].programs;
            &&& r == (AddAppsOutcome { added_count: 1, first_error: None })
            &&& new_programs.len() == old_programs.len() + 1
            &&& is_entry_rule(new_programs.last(), entry, resolved_path)
            &&& groups_view(final(state).groups@) == groups_view(old(state).groups@).update(
                group_index as int,
                with_programs(
                    groups_view(old(state).groups@)[group_index as int],
                    new_programs,
                ),
            )
            &&& new_programs.drop_last() == old_programs
        },
        final(state).theme_index == old(state).theme_index,
        final(state).rule_identities == old(state).rule_identities,
{
    let ghost e0 = entry;
    let ghost rp = resolved_path;
    match app_from_installed_entry(entry, resolved_path) {
        Ok(app) => {
            proof {
                assert(is_entry_rule(app@, e0, rp));
            }
            if group_index < state.groups.len() {
                let ghost v0 = groups_view(state.groups@);
                let mut g = take_group(state, group_index);
                let ghost p0 = g.programs@;
                let ghost av = app@;
                g.programs.push(app);
                proof {
                    assert(apps_view(g.programs@) =~= apps_view(p0).push(av));
                }
                put_group(state, group_index, g);
                assert(groups_view(state.groups@) =~= v0.update(
                    group_index as int,
                    with_programs(v0[group_index as int], v0[group_index as int].programs.push(av)),
                ));
                assert(v0[group_index as int].programs.push(av).drop_last() =~= v0[group_index as int].programs);
                AddAppsOutcome { added_count: 1, first_error: None }
            } else {
                AddAppsOutcome { added_count: 0, first_error: Some(group_not_found_message(group_index)) }
            }
        },
        Err(err) => AddAppsOutcome { added_count: 0, first_error: Some(err) },
    }
}

} // verus!

verus! {

/// The cores of a group made or edited from a core selection are exactly the ticked indices:
/// an index is kept if and only if it is ticked, every kept index is an index of the
/// selection, and the kept indices are strictly increasing (so each appears once and there
/// are as many as ticked entries).
pub proof fn lemma_selected_indices_exact(s: Seq<bool>)
    requires
        s.len() <= usize::MAX,
    ensures
        forall|i: int| 0 <= i < s.len() ==> (selected_indices(s).contains(i as usize) <==> #[trigger] s[i]),
        forall|k: int| 0 <= k < selected_indices(s).len() ==> (#[trigger] selected_indices(s)[k] as int) < s.len(),
        forall|a: int, b: int|
            0 <= a < b < selected_indices(s).len() ==> #[trigger] selected_indices(s)[a] < #[trigger] selected_indices(s)[b],
    decreases s.len(),
{
    if s.len() > 0 {
        let rest = s.drop_last();
        lemma_selected_indices_exact(rest);
        let r0 = selected_indices(rest);
        let r = selected_indices(s);
        let last = (s.len() - 1) as usize;
        assert forall|i: int| 0 <= i < s.len() implies (r.contains(i as usize) <==> #[trigger] s[i]) by {
            if i < s.len() - 1 {
                assert(rest[i] == s[i]);
                if r.contains(i as usize) {
                    let w = choose|w: int| 0 <= w < r.len() && r[w] == i as usize;
                    if w < r0.len() {
                        assert(r0[w] == r[w]);
                    } else {
                        assert(r[w] == last);
                    }
                }
                if s[i] {
                    let w = choose|w: int| 0 <= w < r0.len() && r0[w] == i as usize;
                    assert(r[w] == r0[w]);
                }
            } else {
                if s[i] {
                    assert(r[r.len() - 1] == last);
                } else {
                    if r.contains(i as usize) {
                        let w = choose|w: int| 0 <= w < r.len() && r[w] == i as usize;
                        assert(r == r0);
                        assert((r0[w] as int) < rest.len());
                    }
                }
            }
        }
        assert forall|k: int| 0 <= k < r.len() implies (#[trigger] r[k] as int) < s.len() by {
            if k < r0.len() {
                assert(r[k] == r0[k]);
            }
        }
        assert forall|a: int, b: int| 0 <= a < b < r.len() implies #[trigger] r[a] < #[trigger] r[b] by {
            if b < r0.len() {
                assert(r[a] == r0[a] && r[b] == r0[b]);
            } else {
                assert(r[a] == r0[a]);
                assert((r0[a] as int) < rest.len());
            }
        }
    }
}

} // verus!
