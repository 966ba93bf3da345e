use vstd::prelude::*;
use crate::ids::{GroupId, RuleId};
use crate::launch::{app_key_spec, RunningApp, RuntimeRegistry};
use crate::models::{AppStateStorage, CoreGroup};
use crate::process::{PriorityClass, ProcessSettingsApplyOutcome};
use crate::reconcile::{
    affinity_mask_from_cores, affinity_mask_spec, all_notices, check_matched, evaluate_rule_settings, PidCheck,
};
use crate::rules::{
    from_storage_fits, from_storage_groups, from_storage_rules, snapshot_group_id, snapshot_rule_id, RulesContext,
};

verus! {

/// The settings the monitor expects of the processes of one rule.
#[derive(Debug)]
pub struct ProgramRuntimeSettings {
    pub key: String,
    pub name: String,
    pub group_id: GroupId,
    pub rule_id: RuleId,
    pub expected_mask: usize,
    pub expected_priority: PriorityClass,
}

/// The abstract value of expected settings.
pub struct SettingsView {
    pub key: Seq<char>,
    pub name: Seq<char>,
    pub group_id: Seq<char>,
    pub rule_id: Seq<char>,
    pub expected_mask: usize,
    pub expected_priority: PriorityClass,
}

impl View for ProgramRuntimeSettings {
    type V = SettingsView;

    open spec fn view(&self) -> SettingsView {
        SettingsView {
            key: self.key@,
            name: self.name@,
            group_id: self.group_id@,
            rule_id: self.rule_id@,
            expected_mask: self.expected_mask,
            expected_priority: self.expected_priority,
        }
    }
}

/// The settings of the first `n` rules of group `g` (whose cores give `mask`).
pub open spec fn group_settings(storage: AppStateStorage, g: nat, mask: usize, n: nat) -> Seq<SettingsView>
    decreases n,
{
    if n == 0 {
        Seq::empty()
    } else {
        let k = (n - 1) as nat;
        let p = storage.groups@[g as int].programs@[k as int];
        group_settings(storage, g, mask, k).push(
            SettingsView {
                key: app_key_spec(p@),
                name: p.name@,
                group_id: snapshot_group_id(from_storage_groups(storage), g),
                rule_id: snapshot_rule_id(from_storage_rules(storage), g, k),
                expected_mask: mask,
                expected_priority: p.priority,
            },
        )
    }
}

/// The settings the monitor expects of the rules of the first `n` groups of a state, in
/// order: each rule of a group whose cores give a mask, with the group's mask, the rule's
/// priority and the ids the state's rules have.
pub open spec fn expected_settings(storage: AppStateStorage, n: nat) -> Seq<SettingsView>
    decreases n,
{
    if n == 0 {
        Seq::empty()
    } else {
        let g = (n - 1) as nat;
        let group = storage.groups@[g as int];
        expected_settings(storage, g) + match affinity_mask_spec(group.cores@) {
            Ok(mask) => group_settings(storage, g, mask, group.programs@.len()),
            Err(_) => Seq::empty(),
        }
    }
}

/// The settings for `key`: those of the last rule with that key.
pub open spec fn settings_for(list: Seq<SettingsView>, key: Seq<char>) -> Option<SettingsView>
    decreases list.len(),
{
    if list.len() == 0 {
        None
    } else if list.last().key == key {
        Some(list.last())
    } else {
        settings_for(list.drop_last(), key)
    }
}

/// The abstract values of a list of expected settings.
pub open spec fn settings_view(v: Seq<ProgramRuntimeSettings>) -> Seq<SettingsView> {
    v.map_values(|s: ProgramRuntimeSettings| s@)
}

fn clone_group_id(id: &GroupId) -> (r: GroupId)
    ensures
        r@ == id@,
{
    GroupId(id.0.clone())
}

fn clone_rule_id(id: &RuleId) -> (r: RuleId)
    ensures
        r@ == id@,
{
    RuleId(id.0.clone())
}

/// The settings the monitor expects of every rule of a state (see `expected_settings`).
pub fn collect_program_settings(state: &AppStateStorage) -> (r: Vec<ProgramRuntimeSettings>)
    requires
        from_storage_fits(*state),
    ensures
        settings_view(r@) == expected_settings(*state, state.groups@.len()),
{
    let rules = RulesContext::from_storage(state);
    let snapshot = rules.snapshot(state);
    let mut r: Vec<ProgramRuntimeSettings> = Vec::new();
    let mut g: usize = 0;
    while g < state.groups.len()
        invariant
            g <= state.groups@.len(),
            snapshot.groups@.len() == state.groups@.len(),
            rules.groups() == from_storage_groups(*state),
            rules.rules() == from_storage_rules(*state),
            forall|j: int|
                0 <= j < state.groups@.len() ==> {
                    let c = #[trigger] snapshot.groups@[j];
                    let s = state.groups@[j];
                    &&& c.id@ == snapshot_group_id(rules.groups(), j as nat)
                    &&& c.cores@ == s.cores@
                    &&& c.rules@.len() == s.programs@.len()
                    &&& forall|k: int|
                        0 <= k < s.programs@.len() ==> (#[trigger] c.rules@[k]).id@ == snapshot_rule_id(
                            rules.rules(),
                            j as nat,
                            k as nat,
                        ) && c.rules@[k].app@ == s.programs@[k]@
                },
            settings_view(r@) == expected_settings(*state, g as nat),
        decreases state.groups.len() - g,
    {
        let group = &snapshot.groups[g];
        let ghost base = settings_view(r@);
        match affinity_mask_from_cores(group.cores.as_slice()) {
            Ok(mask) => {
                let mut k: usize = 0;
                while k < group.rules.len()
                    invariant
                        g < state.groups@.len(),
                        *group == snapshot.groups@[g as int],
                        group.rules@.len() == state.groups@[g as int].programs@.len(),
                        k <= group.rules@.len(),
                        rules.groups() == from_storage_groups(*state),
                        rules.rules() == from_storage_rules(*state),
                        group.id@ == snapshot_group_id(rules.groups(), g as nat),
                        forall|kk: int|
                            0 <= kk < group.rules@.len() ==> (#[trigger] group.rules@[kk]).id@ == snapshot_rule_id(
                                rules.rules(),
                                g as nat,
                                kk as nat,
                            ) && group.rules@[kk].app@ == state.groups@[g as int].programs@[kk]@,
                        settings_view(r@) == base + group_settings(*state, g as nat, mask, k as nat),
                    decreases group.rules.len() - k,
                {
                    let rule = &group.rules[k];
                    let ghost before = r@;
                    r.push(
                        ProgramRuntimeSettings {
                            key: rule.app.launch_target_label(),
                            name: rule.app.name.clone(),
                            group_id: clone_group_id(&group.id),
                            rule_id: clone_rule_id(&rule.id),
                            expected_mask: mask,
                            expected_priority: rule.app.priority,
                        },
                    );
                    assert(settings_view(r@) =~= settings_view(before).push(r@.last()@));
                    k = k + 1;
                }
            },
            Err(_) => {},
        }
        g = g + 1;
    }
    r
}

/// The index of the settings for `key` (see `settings_for`).
fn find_settings(list: &Vec<ProgramRuntimeSettings>, key: &str) -> (r: Option<usize>)
    ensures
        match settings_for(settings_view(list@), key@) {
            Some(s) => r matches Some(i) && i < list@.len() && list@[i as int]@ == s,
            None => r is None,
        },
{
    let mut n: usize = list.len();
    assert(list@.take(n as int) =~= list@);
    while n > 0
        invariant
            n <= list@.len(),
            settings_for(settings_view(list@), key@) == settings_for(settings_view(list@.take(n as int)), key@),
        decreases n,
    {
        let ghost t = settings_view(list@.take(n as int));
        assert(settings_view(list@.take(n - 1)) =~= t.drop_last());
        if crate::text::str_eq(list[n - 1].key.as_str(), key) {
            assert(t.last() == list@[n - 1]@);
            return Some(n - 1);
        }
        n = n - 1;
    }
    None
}

/// The instance token recorded for `pid`: the first one listed.
pub open spec fn token_of(tokens: Seq<(u32, u64)>, pid: u32) -> Option<u64>
    decreases tokens.len(),
{
    if tokens.len() == 0 {
        None
    } else if tokens[0].0 == pid {
        Some(tokens[0].1)
    } else {
        token_of(tokens.subrange(1, tokens.len() as int), pid)
    }
}

fn find_token(tokens: &Vec<(u32, u64)>, pid: u32) -> (r: Option<u64>)
    ensures
        r == token_of(tokens@, pid),
{
    let mut i: usize = 0;
    assert(tokens@.subrange(0, tokens@.len() as int) =~= tokens@);
    while i < tokens.len()
        invariant
            i <= tokens@.len(),
            token_of(tokens@, pid) == token_of(tokens@.subrange(i as int, tokens@.len() as int), pid),
        decreases tokens.len() - i,
    {
        let ghost rest = tokens@.subrange(i as int, tokens@.len() as int);
        assert(rest.subrange(1, rest.len() as int) =~= tokens@.subrange(i + 1, tokens@.len() as int));
        if tokens[i].0 == pid {
            return Some(tokens[i].1);
        }
        i = i + 1;
    }
    None
}

/// One request to the system: read, and correct where `apply_changes`, the affinity mask and
/// priority of process `pid`, but only while it is still the instance `instance_token` names.
#[derive(Debug, Clone, Copy, PartialEq, Eq, Structural)]
pub struct ProcessSettingsRequest {
    pub pid: u32,
    pub instance_token: u64,
    pub mask: usize,
    pub priority: PriorityClass,
    pub apply_changes: bool,
}

/// The requests for the processes `pids` of one rule with settings `s`, in order: one for each
/// process that has an instance token, with that token, the rule's mask and priority, and
/// correction asked exactly when monitoring is enabled. A process without a token is not sent.
pub open spec fn pid_requests(
    pids: Seq<u32>,
    tokens: Seq<(u32, u64)>,
    s: SettingsView,
    monitoring_enabled: bool,
) -> Seq<ProcessSettingsRequest>
    decreases pids.len(),
{
    if pids.len() == 0 {
        Seq::empty()
    } else {
        let rest = pid_requests(pids.drop_last(), tokens, s, monitoring_enabled);
        match token_of(tokens, pids.last()) {
            None => rest,
            Some(t) => rest.push(
                ProcessSettingsRequest {
                    pid: pids.last(),
                    instance_token: t,
                    mask: s.expected_mask,
                    priority: s.expected_priority,
                    apply_changes: monitoring_enabled,
                },
            ),
        }
    }
}

/// The requests for one tracked rule: none when no rule of the state has its key.
pub open spec fn app_requests(app: RunningApp, list: Seq<SettingsView>, monitoring_enabled: bool) -> Seq<
    ProcessSettingsRequest,
> {
    match settings_for(list, app.key@) {
        None => Seq::empty(),
        Some(s) => pid_requests(app.pids@, app.pid_instance_tokens@, s, monitoring_enabled),
    }
}

/// The requests of one monitor pass, tracked rule by tracked rule.
pub open spec fn planned_requests(apps: Seq<RunningApp>, list: Seq<SettingsView>, monitoring_enabled: bool) -> Seq<
    ProcessSettingsRequest,
>
    decreases apps.len(),
{
    if apps.len() == 0 {
        Seq::empty()
    } else {
        planned_requests(apps.drop_last(), list, monitoring_enabled) + app_requests(
            apps.last(),
            list,
            monitoring_enabled,
        )
    }
}

/// The check that the answer to request `j` gives: the outcome it reports, a failure when the
/// system failed, and a failure when no answer came.
pub open spec fn answer_check(answers: Seq<Result<ProcessSettingsApplyOutcome, String>>, j: int) -> PidCheck {
    if 0 <= j < answers.len() {
        match answers[j] {
            Ok(o) => PidCheck::Checked(o),
            Err(_) => PidCheck::Failed,
        }
    } else {
        PidCheck::Failed
    }
}

/// The checks of the processes `pids` of one rule, in order, when its first request is
/// request `start` of the pass: a process without an instance token cannot be checked; the
/// others take the answer to their own request.
pub open spec fn pid_checks(
    pids: Seq<u32>,
    tokens: Seq<(u32, u64)>,
    s: SettingsView,
    monitoring_enabled: bool,
    answers: Seq<Result<ProcessSettingsApplyOutcome, String>>,
    start: int,
) -> Seq<(u32, PidCheck)>
    decreases pids.len(),
{
    if pids.len() == 0 {
        Seq::empty()
    } else {
        let prev = pid_checks(pids.drop_last(), tokens, s, monitoring_enabled, answers, start);
        let j = start + pid_requests(pids.drop_last(), tokens, s, monitoring_enabled).len();
        prev.push(
            (
                pids.last(),
                match token_of(tokens, pids.last()) {
                    None => PidCheck::Untracked,
                    Some(_) => answer_check(answers, j),
                },
            ),
        )
    }
}

/// The settings of the tracked rules, and the requests for their processes (see
/// `planned_requests`): what one monitor pass asks of the system.
pub fn plan_process_settings_requests(
    registry: &RuntimeRegistry,
    state: &AppStateStorage,
    monitoring_enabled: bool,
) -> (r: Vec<ProcessSettingsRequest>)
    requires
        from_storage_fits(*state),
    ensures
        r@ == planned_requests(registry.apps@, expected_settings(*state, state.groups@.len()), monitoring_enabled),
{
    let settings = collect_program_settings(state);
    let ghost list = settings_view(settings@);
    let mut r: Vec<ProcessSettingsRequest> = Vec::new();
    let mut i: usize = 0;
    while i < registry.apps.len()
        invariant
            i <= registry.apps@.len(),
            list == settings_view(settings@),
            r@ == planned_requests(registry.apps@.take(i as int), list, monitoring_enabled),
        decreases registry.apps.len() - i,
    {
        assert(registry.apps@.take(i + 1).drop_last() =~= registry.apps@.take(i as int));
        assert(registry.apps@.take(i + 1).last() == registry.apps@[i as int]);
        let app = &registry.apps[i];
        match find_settings(&settings, app.key.as_str()) {
            None => {
                assert(planned_requests(registry.apps@.take(i + 1), list, monitoring_enabled) =~= r@);
            },
            Some(si) => {
                let s = &settings[si];
                assert(list[si as int] == s@);
                let ghost base = r@;
                let mut k: usize = 0;
                while k < app.pids.len()
                    invariant
                        k <= app.pids@.len(),
                        r@ == base + pid_requests(
                            app.pids@.take(k as int),
                            app.pid_instance_tokens@,
                            s@,
                            monitoring_enabled,
                        ),
                    decreases app.pids.len() - k,
                {
                    assert(app.pids@.take(k + 1).drop_last() =~= app.pids@.take(k as int));
                    assert(app.pids@.take(k + 1).last() == app.pids@[k as int]);
                    let pid = app.pids[k];
                    let ghost rest = pid_requests(app.pids@.take(k as int), app.pid_instance_tokens@, s@, monitoring_enabled);
                    match find_token(&app.pid_instance_tokens, pid) {
                        None => {},
                        Some(token) => {
                            let req = ProcessSettingsRequest {
                                pid,
                                instance_token: token,
                                mask: s.expected_mask,
                                priority: s.expected_priority,
                                apply_changes: monitoring_enabled,
                            };
                            r.push(req);
                            assert(r@ =~= base + rest.push(req));
                        },
                    }
                    k = k + 1;
                }
                assert(app.pids@.take(k as int) =~= app.pids@);
                assert(planned_requests(registry.apps@.take(i + 1), list, monitoring_enabled) =~= r@);
            },
        }
        i = i + 1;
    }
    assert(registry.apps@.take(i as int) =~= registry.apps@);
    r
}

/// The smaller of two integers.
pub open spec fn smaller(a: int, b: int) -> int {
    if a < b {
        a
    } else {
        b
    }
}

/// What a monitor pass did to one tracked rule, given the answers to the pass's requests (the
/// rule's first request being request `start`): a rule without expected settings is left
/// alone and not checked; otherwise it takes the ids of its settings, its processes are
/// checked in order (see `pid_checks`), and it is marked as matching when every check found
/// its process as the rule wants.
pub open spec fn pass_on_app(
    before: RunningApp,
    after: RunningApp,
    settings: Option<SettingsView>,
    checks: Seq<(u32, PidCheck)>,
    monitoring_enabled: bool,
    answers: Seq<Result<ProcessSettingsApplyOutcome, String>>,
    start: int,
) -> bool {
    match settings {
        None => after == before && checks.len() == 0,
        Some(s) => {
            &&& after.key == before.key
            &&& after.pids == before.pids
            &&& after.pid_instance_tokens == before.pid_instance_tokens
            &&& after.group_id@ == s.group_id
            &&& after.rule_id@ == s.rule_id
            &&& checks == pid_checks(
                before.pids@,
                before.pid_instance_tokens@,
                s,
                monitoring_enabled,
                answers,
                start,
            )
            &&& after.settings_matched == (forall|k: int| 0 <= k < checks.len() ==> check_matched(#[trigger] checks[k].1))
        },
    }
}

/// The notices of a monitor pass over tracked rules, rule by rule.
pub open spec fn pass_notices(
    apps: Seq<RunningApp>,
    list: Seq<SettingsView>,
    monitoring_enabled: bool,
    checks: Seq<Seq<(u32, PidCheck)>>,
) -> Seq<Seq<char>>
    decreases apps.len(),
{
    if apps.len() == 0 {
        Seq::empty()
    } else {
        pass_notices(apps.drop_last(), list, monitoring_enabled, checks.drop_last()) + match settings_for(
            list,
            apps.last().key@,
        ) {
            Some(s) => all_notices(s.name, s.expected_mask, s.expected_priority, monitoring_enabled, checks.last()),
            None => Seq::empty(),
        }
    }
}

/// What one monitor pass gives: whether any rule's matched state changed, the notices of the
/// corrections, and the checks made for each tracked rule.
#[derive(Debug)]
pub struct ProcessSettingsIterationOutcome {
    pub changed: bool,
    pub notifications: Vec<String>,
    pub checks: Vec<Vec<(u32, PidCheck)>>,
}

/// The checks of a pass, as sequences.
pub open spec fn checks_view(v: Seq<Vec<(u32, PidCheck)>>) -> Seq<Seq<(u32, PidCheck)>> {
    v.map_values(|c: Vec<(u32, PidCheck)>| c@)
}

/// One pass of the process settings monitor over the tracked rules, given what the system
/// answered to each request of `plan_process_settings_requests` (`answers[j]` to request `j`):
/// each tracked rule with expected settings takes their ids and the checks of its processes
/// (see `pass_on_app`); the outcome says whether a rule's matched state changed and carries
/// the notices of the corrections (see `all_notices`).
pub fn process_settings_iteration_with_os(
    registry: &mut RuntimeRegistry,
    state: &AppStateStorage,
    monitoring_enabled: bool,
    answers: &Vec<Result<ProcessSettingsApplyOutcome, String>>,
) -> (r: ProcessSettingsIterationOutcome)
    requires
        from_storage_fits(*state),
    ensures
        ({
            let list = expected_settings(*state, state.groups@.len());
            let before = old(registry).apps@;
            let after = final(registry).apps@;
            let checks = checks_view(r.checks@);
            &&& after.len() == before.len()
            &&& checks.len() == before.len()
            &&& forall|i: int|
                0 <= i < before.len() ==> pass_on_app(
                    #[trigger] before[i],
                    after[i],
                    settings_for(list, before[i].key@),
                    checks[i],
                    monitoring_enabled,
                    answers@,
                    planned_requests(before.take(i), list, monitoring_enabled).len() as int,
                )
            &&& r.changed == (exists|i: int|
                0 <= i < before.len() && #[trigger] after[i].settings_matched != before[i].settings_matched)
            &&& r.notifications@.map_values(|s: String| s@) == pass_notices(before, list, monitoring_enabled, checks)
        }),
{
    let settings = collect_program_settings(state);
    let ghost list = settings_view(settings@);
    let ghost before = registry.apps@;
    let mut changed = false;
    let mut notifications: Vec<String> = Vec::new();
    let mut all_checks: Vec<Vec<(u32, PidCheck)>> = Vec::new();
    let mut next: usize = 0;
    let mut i: usize = 0;
    while i < registry.apps.len()
        invariant
            list == settings_view(settings@),
            registry.apps@.len() == before.len(),
            i <= before.len(),
            all_checks@.len() == i,
            next as int == smaller(
                planned_requests(before.take(i as int), list, monitoring_enabled).len() as int,
                answers@.len() as int,
            ),
            forall|j: int| i <= j < before.len() ==> registry.apps@[j] == before[j],
            forall|j: int|
                0 <= j < i ==> pass_on_app(
                    #[trigger] before[j],
                    registry.apps@[j],
                    settings_for(list, before[j].key@),
                    checks_view(all_checks@)[j],
                    monitoring_enabled,
                    answers@,
                    planned_requests(before.take(j), list, monitoring_enabled).len() as int,
                ),
            changed == (exists|j: int|
                0 <= j < i && #[trigger] registry.apps@[j].settings_matched != before[j].settings_matched),
            notifications@.map_values(|s: String| s@) == pass_notices(
                before.take(i as int),
                list,
                monitoring_enabled,
                checks_view(all_checks@),
            ),
        decreases before.len() - i,
    {
        let ghost apps_before_step = registry.apps@;
        let ghost checks_before = checks_view(all_checks@);
        let ghost notes_before = notifications@.map_values(|s: String| s@);
        let ghost changed0 = changed;
        let ghost start = planned_requests(before.take(i as int), list, monitoring_enabled).len() as int;
        assert(before.take(i + 1).drop_last() =~= before.take(i as int));
        assert(before.take(i + 1).last() == before[i as int]);
        match find_settings(&settings, registry.apps[i].key.as_str()) {
            None => {
                assert(registry.apps@[i as int] == before[i as int]);
                all_checks.push(Vec::new());
                proof {
                    assert(checks_view(all_checks@).drop_last() =~= checks_before);
                    assert(checks_view(all_checks@).last() =~= Seq::<(u32, PidCheck)>::empty());
                    assert(pass_notices(before.take(i + 1), list, monitoring_enabled, checks_view(all_checks@))
                        =~= notes_before);
                    assert(planned_requests(before.take(i + 1), list, monitoring_enabled) =~= planned_requests(
                        before.take(i as int),
                        list,
                        monitoring_enabled,
                    ));
                }
            },
            Some(si) => {
                let s = &settings[si];
                assert(list[si as int] == s@);
                let mut app = registry.apps.remove(i);
                let ghost app0 = app;
                app.group_id = clone_group_id(&s.group_id);
                app.rule_id = clone_rule_id(&s.rule_id);
                let mut checks: Vec<(u32, PidCheck)> = Vec::new();
                let mut k: usize = 0;
                while k < app.pids.len()
                    invariant
                        app.pids == app0.pids,
                        app.pid_instance_tokens == app0.pid_instance_tokens,
                        k <= app0.pids@.len(),
                        checks@ == pid_checks(
                            app0.pids@.take(k as int),
                            app0.pid_instance_tokens@,
                            s@,
                            monitoring_enabled,
                            answers@,
                            start,
                        ),
                        next as int == smaller(
                            start + pid_requests(
                                app0.pids@.take(k as int),
                                app0.pid_instance_tokens@,
                                s@,
                                monitoring_enabled,
                            ).len(),
                            answers@.len() as int,
                        ),
                    decreases app0.pids@.len() - k,
                {
                    assert(app0.pids@.take(k + 1).drop_last() =~= app0.pids@.take(k as int));
                    assert(app0.pids@.take(k + 1).last() == app0.pids@[k as int]);
                    let pid = app.pids[k];
                    let ghost j = start + pid_requests(
                        app0.pids@.take(k as int),
                        app0.pid_instance_tokens@,
                        s@,
                        monitoring_enabled,
                    ).len();
                    let check = match find_token(&app.pid_instance_tokens, pid) {
                        None => PidCheck::Untracked,
                        Some(_) => {
                            if next < answers.len() {
                                assert(next as int == j);
                                let c = match &answers[next] {
                                    Ok(o) => PidCheck::Checked(*o),
                                    Err(_) => PidCheck::Failed,
                                };
                                next = next + 1;
                                c
                            } else {
                                PidCheck::Failed
                            }
                        },
                    };
                    checks.push((pid, check));
                    k = k + 1;
                }
                assert(app0.pids@.take(k as int) =~= app0.pids@);
                let report = evaluate_rule_settings(
                    s.name.as_str(),
                    s.expected_mask,
                    s.expected_priority,
                    monitoring_enabled,
                    app.settings_matched,
                    checks.as_slice(),
                );
                app.settings_matched = report.settings_matched;
                if report.changed {
                    changed = true;
                }
                let mut n: usize = 0;
                let ghost notes_mid = notifications@.map_values(|x: String| x@);
                while n < report.notifications.len()
                    invariant
                        n <= report.notifications@.len(),
                        notifications@.map_values(|x: String| x@) == notes_mid + report.notifications@.take(
                            n as int,
                        ).map_values(|x: String| x@),
                    decreases report.notifications.len() - n,
                {
                    let ghost pn = notifications@;
                    let note = report.notifications[n].clone();
                    assert(note@ == report.notifications@[n as int]@);
                    notifications.push(note);
                    assert(notifications@.map_values(|x: String| x@) =~= pn.map_values(|x: String| x@).push(
                        report.notifications@[n as int]@,
                    ));
                    assert(report.notifications@.take(n + 1).map_values(|x: String| x@) =~= report.notifications@.take(
                        n as int,
                    ).map_values(|x: String| x@).push(report.notifications@[n as int]@));
                    n = n + 1;
                    assert(notifications@.map_values(|x: String| x@) =~= notes_mid + report.notifications@.take(
                        n as int,
                    ).map_values(|x: String| x@));
                }
                assert(report.notifications@.take(n as int) =~= report.notifications@);
                let ghost app_final = app;
                let ghost report_changed = report.changed;
                assert(report_changed == (app_final.settings_matched != app0.settings_matched));
                assert(app0 == before[i as int]);
                assert(settings_for(list, before[i as int].key@) == Some(s@));
                assert(pass_on_app(before[i as int], app_final, Some(s@), checks@, monitoring_enabled, answers@, start));
                registry.apps.insert(i, app);
                assert(registry.apps@[i as int] == app_final);
                all_checks.push(checks);
                proof {
                    assert(checks_view(all_checks@).drop_last() =~= checks_before);
                    assert(checks_view(all_checks@).last() == checks@);
                    assert(pass_notices(before.take(i + 1), list, monitoring_enabled, checks_view(all_checks@))
                        =~= notes_before + all_notices(
                        s.name@,
                        s.expected_mask,
                        s.expected_priority,
                        monitoring_enabled,
                        checks@,
                    ));
                    assert(app_requests(before[i as int], list, monitoring_enabled) == pid_requests(
                        app0.pids@,
                        app0.pid_instance_tokens@,
                        s@,
                        monitoring_enabled,
                    ));
                }
            },
        }
        proof {
            assert forall|j: int| 0 <= j < i implies #[trigger] registry.apps@[j] == apps_before_step[j] by {}
            assert forall|j: int| 0 <= j < i implies checks_view(all_checks@)[j] == checks_before[j] by {}
            if changed0 {
                let w = choose|j: int|
                    0 <= j < i && #[trigger] apps_before_step[j].settings_matched != before[j].settings_matched;
                assert(registry.apps@[w] == apps_before_step[w]);
                assert(registry.apps@[w].settings_matched != before[w].settings_matched);
            } else if changed {
                assert(registry.apps@[i as int].settings_matched != before[i as int].settings_matched);
            } else {
                assert forall|j: int| 0 <= j < i + 1 implies #[trigger] registry.apps@[j].settings_matched
                    == before[j].settings_matched by {
                    if j < i {
                        assert(registry.apps@[j] == apps_before_step[j]);
                    }
                }
            }
            assert(pass_on_app(
                before[i as int],
                registry.apps@[i as int],
                settings_for(list, before[i as int].key@),
                checks_view(all_checks@)[i as int],
                monitoring_enabled,
                answers@,
                start,
            ));
        }
        i = i + 1;
    }
    assert(before.take(i as int) =~= before);
    ProcessSettingsIterationOutcome { changed, notifications, checks: all_checks }
}

} // verus!

verus! {

/// Each process of a rule gets the check at its place: none when it has no instance token,
/// else the one the answer to its own request gives (its request's index being `start` plus
/// the requests of the processes before it).
pub proof fn lemma_pid_checks_at(
    pids: Seq<u32>,
    tokens: Seq<(u32, u64)>,
    s: SettingsView,
    monitoring_enabled: bool,
    answers: Seq<Result<ProcessSettingsApplyOutcome, String>>,
    start: int,
)
    ensures
        pid_checks(pids, tokens, s, monitoring_enabled, answers, start).len() == pids.len(),
        forall|i: int|
            0 <= i < pids.len() ==> #[trigger] pid_checks(pids, tokens, s, monitoring_enabled, answers, start)[i] == (
                pids[i],
                match token_of(tokens, pids[i]) {
                    None => PidCheck::Untracked,
                    Some(_) => answer_check(
                        answers,
                        start + pid_requests(pids.take(i), tokens, s, monitoring_enabled).len(),
                    ),
                },
            ),
    decreases pids.len(),
{
    if pids.len() > 0 {
        let rest = pids.drop_last();
        lemma_pid_checks_at(rest, tokens, s, monitoring_enabled, answers, start);
        assert forall|i: int| 0 <= i < pids.len() implies #[trigger] pid_checks(
            pids,
            tokens,
            s,
            monitoring_enabled,
            answers,
            start,
        )[i] == (
            pids[i],
            match token_of(tokens, pids[i]) {
                None => PidCheck::Untracked,
                Some(_) => answer_check(answers, start + pid_requests(pids.take(i), tokens, s, monitoring_enabled).len()),
            },
        ) by {
            if i < pids.len() - 1 {
                assert(rest[i] == pids[i]);
                assert(rest.take(i) =~= pids.take(i));
            } else {
                assert(pids.take(i) =~= rest);
            }
        }
    }
}

/// The requests of one rule are for its processes that have an instance token, each with that
/// token, the rule's mask and priority, and correction asked exactly when monitoring is
/// enabled; every such process has its request, and a process without a token has none.
pub proof fn lemma_rule_requests(pids: Seq<u32>, tokens: Seq<(u32, u64)>, s: SettingsView, monitoring_enabled: bool)
    ensures
        forall|k: int|
            0 <= k < pid_requests(pids, tokens, s, monitoring_enabled).len() ==> {
                let q = #[trigger] pid_requests(pids, tokens, s, monitoring_enabled)[k];
                &&& pids.contains(q.pid)
                &&& token_of(tokens, q.pid) == Some(q.instance_token)
                &&& q.mask == s.expected_mask
                &&& q.priority == s.expected_priority
                &&& q.apply_changes == monitoring_enabled
            },
        forall|i: int|
            0 <= i < pids.len() && token_of(tokens, #[trigger] pids[i]) is Some ==> pid_requests(
                pids,
                tokens,
                s,
                monitoring_enabled,
            ).contains(
                ProcessSettingsRequest {
                    pid: pids[i],
                    instance_token: token_of(tokens, pids[i])->Some_0,
                    mask: s.expected_mask,
                    priority: s.expected_priority,
                    apply_changes: monitoring_enabled,
                },
            ),
    decreases pids.len(),
{
    if pids.len() > 0 {
        let rest = pids.drop_last();
        let rq = pid_requests(rest, tokens, s, monitoring_enabled);
        let all = pid_requests(pids, tokens, s, monitoring_enabled);
        lemma_rule_requests(rest, tokens, s, monitoring_enabled);
        assert forall|k: int| 0 <= k < all.len() implies {
            let q = #[trigger] all[k];
            &&& pids.contains(q.pid)
            &&& token_of(tokens, q.pid) == Some(q.instance_token)
            &&& q.mask == s.expected_mask
            &&& q.priority == s.expected_priority
            &&& q.apply_changes == monitoring_enabled
        } by {
            if k < rq.len() {
                assert(all[k] == rq[k]);
                let q = rq[k];
                let w = choose|w: int| 0 <= w < rest.len() && rest[w] == q.pid;
                assert(pids[w] == q.pid);
            } else {
                assert(pids[pids.len() - 1] == pids.last());
            }
        }
        assert forall|i: int| 0 <= i < pids.len() && token_of(tokens, #[trigger] pids[i]) is Some implies all.contains(
            ProcessSettingsRequest {
                pid: pids[i],
                instance_token: token_of(tokens, pids[i])->Some_0,
                mask: s.expected_mask,
                priority: s.expected_priority,
                apply_changes: monitoring_enabled,
            },
        ) by {
            let want = ProcessSettingsRequest {
                pid: pids[i],
                instance_token: token_of(tokens, pids[i])->Some_0,
                mask: s.expected_mask,
                priority: s.expected_priority,
                apply_changes: monitoring_enabled,
            };
            if i < pids.len() - 1 {
                assert(rest[i] == pids[i]);
                assert(rq.contains(want));
                let w = choose|w: int| 0 <= w < rq.len() && rq[w] == want;
                assert(all[w] == want);
            } else {
                assert(all[all.len() - 1] == want);
            }
        }
    }
}

/// Process `i` of a rule has an instance token and the answer to its request reports that
/// neither its mask nor its priority differed.
pub open spec fn pid_answer_unchanged(
    pids: Seq<u32>,
    tokens: Seq<(u32, u64)>,
    s: SettingsView,
    monitoring_enabled: bool,
    answers: Seq<Result<ProcessSettingsApplyOutcome, String>>,
    start: int,
    i: int,
) -> bool {
    let j = start + pid_requests(pids.take(i), tokens, s, monitoring_enabled).len();
    &&& token_of(tokens, pids[i]) is Some
    &&& 0 <= j < answers.len()
    &&& answers[j] matches Ok(o) && !o.affinity_changed && !o.priority_changed
}

/// A tracked rule is marked as matching exactly when every one of its processes has an
/// instance token and the answer to its request reports that neither its mask nor its
/// priority differed.
pub proof fn lemma_rule_matched(
    pids: Seq<u32>,
    tokens: Seq<(u32, u64)>,
    s: SettingsView,
    monitoring_enabled: bool,
    answers: Seq<Result<ProcessSettingsApplyOutcome, String>>,
    start: int,
)
    ensures
        (forall|k: int|
            0 <= k < pid_checks(pids, tokens, s, monitoring_enabled, answers, start).len() ==> check_matched(
                #[trigger] pid_checks(pids, tokens, s, monitoring_enabled, answers, start)[k].1,
            )) <==> (forall|i: int|
            0 <= i < pids.len() ==> #[trigger] pid_answer_unchanged(pids, tokens, s, monitoring_enabled, answers, start, i)),
{
    lemma_pid_checks_at(pids, tokens, s, monitoring_enabled, answers, start);
    let checks = pid_checks(pids, tokens, s, monitoring_enabled, answers, start);
    assert forall|k: int| 0 <= k < pids.len() implies check_matched(#[trigger] checks[k].1) == pid_answer_unchanged(
        pids,
        tokens,
        s,
        monitoring_enabled,
        answers,
        start,
        k,
    ) by {
        assert(checks[k] == pid_checks(pids, tokens, s, monitoring_enabled, answers, start)[k]);
    }
    if forall|k: int| 0 <= k < checks.len() ==> check_matched(#[trigger] checks[k].1) {
        assert forall|i: int| 0 <= i < pids.len() implies #[trigger] pid_answer_unchanged(
            pids,
            tokens,
            s,
            monitoring_enabled,
            answers,
            start,
            i,
        ) by {
            assert(check_matched(checks[i].1));
        }
    }
    if forall|i: int| 0 <= i < pids.len() ==> #[trigger] pid_answer_unchanged(pids, tokens, s, monitoring_enabled, answers, start, i) {
        assert forall|k: int| 0 <= k < checks.len() implies check_matched(#[trigger] checks[k].1) by {
            assert(pid_answer_unchanged(pids, tokens, s, monitoring_enabled, answers, start, k));
        }
    }
}

/// One monitor pass on a tracked rule whose key has settings `s` (see
/// `process_settings_iteration_with_os`): the rule takes the ids of `s`, and it is marked as
/// matching exactly when every one of its processes has an instance token and the answer to
/// its request (see `lemma_rule_requests` for what each request carries) reports that neither
/// its mask nor its priority differed.
pub proof fn lemma_pass_on_app_law(
    before: RunningApp,
    after: RunningApp,
    s: SettingsView,
    checks: Seq<(u32, PidCheck)>,
    monitoring_enabled: bool,
    answers: Seq<Result<ProcessSettingsApplyOutcome, String>>,
    start: int,
)
    requires
        pass_on_app(before, after, Some(s), checks, monitoring_enabled, answers, start),
    ensures
        after.group_id@ == s.group_id,
        after.rule_id@ == s.rule_id,
        after.pids == before.pids,
        after.settings_matched <==> (forall|i: int|
            0 <= i < before.pids@.len() ==> #[trigger] pid_answer_unchanged(
                before.pids@,
                before.pid_instance_tokens@,
                s,
                monitoring_enabled,
                answers,
                start,
                i,
            )),
{
    lemma_rule_matched(before.pids@, before.pid_instance_tokens@, s, monitoring_enabled, answers, start);
}

} // verus!
