use vstd::prelude::*;
use crate::ids::{GroupId, RuleId, is_cli_safe_id_spec};
use crate::models::AppStateStorage;
use crate::rules::RulesContext;
use crate::shortcut::{
    CreateRuleShortcutError, MAX_SHORTCUT_FILENAME_ATTEMPTS, ShortcutSpec, ShortcutWriteError,
    find_saved_rule, parent_dir_exec, saved_rule_position, shortcut_filename,
    shortcut_filename_spec, parent_dir,
};
use crate::text::{concat, owned};
use crate::winpath::{join, join_spec};

verus! {

/// Where the creation of a saved rule's desktop shortcut stands: waiting for the platform to
/// say whether it supports shortcuts, for the running executable, for the desktop folder, for
/// whether the current candidate file name is taken, for the shortcut write; or finished.
pub enum RuleShortcutStage {
    CheckSupport,
    ResolveExecutable,
    ResolveDesktop,
    Probe,
    Create,
    Done(Result<String, CreateRuleShortcutError>),
}

/// The state of one shortcut creation: the stage, the shortcut's display name and the ids it
/// starts, what the platform answered so far, and the candidate file name being tried.
pub struct RuleShortcutFlow {
    pub stage: RuleShortcutStage,
    pub display_name: String,
    pub group_id: GroupId,
    pub rule_id: RuleId,
    pub executable: String,
    pub desktop: String,
    pub attempt: usize,
    pub candidate: String,
}

/// What the platform answered to the last action.
pub enum RuleShortcutEvent {
    Supported(bool),
    Executable(Result<String, String>),
    Desktop(Result<String, String>),
    PathExists(Result<bool, String>),
    Created(Result<(), ShortcutWriteError>),
}

/// What the caller does next: ask the platform one thing, write the shortcut, or stop with
/// the result.
pub enum RuleShortcutAction {
    CheckSupport,
    ResolveExecutable,
    ResolveDesktop,
    PathExists(String),
    CreateShortcut(ShortcutSpec),
    Finish(Result<String, CreateRuleShortcutError>),
}

/// The path of candidate `k`: the desktop folder joined with the `k`-th file name.
pub open spec fn candidate_path(desktop: Seq<char>, display_name: Seq<char>, k: nat) -> Seq<char> {
    join_spec(desktop, shortcut_filename_spec(display_name, k))
}

/// Two results that say the same thing.
pub open spec fn same_result(
    a: Result<String, CreateRuleShortcutError>,
    b: Result<String, CreateRuleShortcutError>,
) -> bool {
    match a {
        Ok(p) => b matches Ok(q) && q@ == p@,
        Err(e) => b == Err::<String, CreateRuleShortcutError>(e),
    }
}

/// The shortcut written for flow `f`: at the candidate path, starting the executable with
/// `--run-rule <group id> <rule id>` in the executable's folder, with the executable's first
/// icon.
pub open spec fn shortcut_spec_for(spec: ShortcutSpec, f: RuleShortcutFlow) -> bool {
    &&& spec.shortcut_path@ == f.candidate@
    &&& spec.target_path@ == f.executable@
    &&& spec.arguments@.map_values(|a: String| a@) == seq!["--run-rule"@, f.group_id@, f.rule_id@]
    &&& match parent_dir(f.executable@) {
        Some(p) => spec.working_dir matches Some(w) && w@ == p,
        None => spec.working_dir is None,
    }
    &&& spec.icon_path matches Some(i) && i@ == f.executable@
    &&& spec.icon_index == 0
}

/// The action that goes with each stage.
pub open spec fn action_fits(f: RuleShortcutFlow, a: RuleShortcutAction) -> bool {
    match f.stage {
        RuleShortcutStage::CheckSupport => a is CheckSupport,
        RuleShortcutStage::ResolveExecutable => a is ResolveExecutable,
        RuleShortcutStage::ResolveDesktop => a is ResolveDesktop,
        RuleShortcutStage::Probe => a matches RuleShortcutAction::PathExists(c) && c@ == f.candidate@,
        RuleShortcutStage::Create => a matches RuleShortcutAction::CreateShortcut(spec) && shortcut_spec_for(spec, f),
        RuleShortcutStage::Done(r) => a matches RuleShortcutAction::Finish(r2) && same_result(r, r2),
    }
}

/// Whether `ev` is the answer the stage waits for.
pub open spec fn answers(stage: RuleShortcutStage, ev: RuleShortcutEvent) -> bool {
    match stage {
        RuleShortcutStage::CheckSupport => ev is Supported,
        RuleShortcutStage::ResolveExecutable => ev is Executable,
        RuleShortcutStage::ResolveDesktop => ev is Desktop,
        RuleShortcutStage::Probe => ev is PathExists,
        RuleShortcutStage::Create => ev is Created,
        RuleShortcutStage::Done(_) => false,
    }
}

/// How far a flow is from its end: every answered action brings it closer.
pub open spec fn flow_measure(f: RuleShortcutFlow) -> nat {
    match f.stage {
        RuleShortcutStage::CheckSupport => 203,
        RuleShortcutStage::ResolveExecutable => 202,
        RuleShortcutStage::ResolveDesktop => 201,
        RuleShortcutStage::Probe => if f.attempt <= 200 {
            (200 - f.attempt) as nat
        } else {
            0
        },
        RuleShortcutStage::Create => 1,
        RuleShortcutStage::Done(_) => 0,
    }
}

/// `t` keeps what the platform answered so far in `s`.
pub open spec fn keeps_answers(s: RuleShortcutFlow, t: RuleShortcutFlow) -> bool {
    &&& t.executable@ == s.executable@
    &&& t.desktop@ == s.desktop@
    &&& t.attempt == s.attempt
    &&& t.candidate@ == s.candidate@
}

/// `t` stops with error `e`.
pub open spec fn fails_with(s: RuleShortcutFlow, t: RuleShortcutFlow, e: CreateRuleShortcutError) -> bool {
    &&& t.stage == RuleShortcutStage::Done(Err(e))
    &&& keeps_answers(s, t)
}

/// `t` asks whether candidate `k` in folder `desktop` is taken.
pub open spec fn probes(t: RuleShortcutFlow, executable: Seq<char>, desktop: Seq<char>, k: nat) -> bool {
    &&& t.stage is Probe
    &&& t.executable@ == executable
    &&& t.desktop@ == desktop
    &&& t.attempt == k
    &&& t.candidate@ == candidate_path(desktop, t.display_name@, k)
}

/// One answered step: support is checked first, then the executable and the desktop are
/// resolved, the ids are checked, candidate names `0, 1, ..` are probed in order, the first
/// free one is written, and each failure maps to its error.
pub open spec fn stepped(s: RuleShortcutFlow, ev: RuleShortcutEvent, t: RuleShortcutFlow) -> bool {
    match s.stage {
        RuleShortcutStage::CheckSupport => match ev {
            RuleShortcutEvent::Supported(true) => t.stage is ResolveExecutable && keeps_answers(s, t),
            RuleShortcutEvent::Supported(false) => fails_with(s, t, CreateRuleShortcutError::UnsupportedPlatform),
            _ => false,
        },
        RuleShortcutStage::ResolveExecutable => match ev {
            RuleShortcutEvent::Executable(Ok(p)) => {
                &&& t.stage is ResolveDesktop
                &&& t.executable@ == p@
                &&& t.desktop@ == s.desktop@
                &&& t.attempt == s.attempt
                &&& t.candidate@ == s.candidate@
            },
            RuleShortcutEvent::Executable(Err(_)) => fails_with(s, t, CreateRuleShortcutError::CurrentExeUnavailable),
            _ => false,
        },
        RuleShortcutStage::ResolveDesktop => match ev {
            RuleShortcutEvent::Desktop(Ok(d)) => if is_cli_safe_id_spec(s.group_id@) && is_cli_safe_id_spec(s.rule_id@) {
                probes(t, s.executable@, d@, 0)
            } else {
                fails_with(s, t, CreateRuleShortcutError::InvalidShortcutId)
            },
            RuleShortcutEvent::Desktop(Err(_)) => fails_with(s, t, CreateRuleShortcutError::DesktopUnavailable),
            _ => false,
        },
        RuleShortcutStage::Probe => match ev {
            RuleShortcutEvent::PathExists(Ok(false)) => t.stage is Create && keeps_answers(s, t),
            RuleShortcutEvent::PathExists(Ok(true)) => if s.attempt + 1 < MAX_SHORTCUT_FILENAME_ATTEMPTS {
                probes(t, s.executable@, s.desktop@, (s.attempt + 1) as nat)
            } else {
                fails_with(s, t, CreateRuleShortcutError::NameCollisionExhausted)
            },
            RuleShortcutEvent::PathExists(Err(_)) => fails_with(s, t, CreateRuleShortcutError::OsWriteFailure),
            _ => false,
        },
        RuleShortcutStage::Create => match ev {
            RuleShortcutEvent::Created(Ok(())) => {
                &&& t.stage matches RuleShortcutStage::Done(Ok(p)) && p@ == s.candidate@
                &&& keeps_answers(s, t)
            },
            RuleShortcutEvent::Created(Err(ShortcutWriteError::AlreadyExists)) => fails_with(
                s,
                t,
                CreateRuleShortcutError::CreateCollision,
            ),
            RuleShortcutEvent::Created(Err(ShortcutWriteError::Failed(_))) => fails_with(
                s,
                t,
                CreateRuleShortcutError::OsWriteFailure,
            ),
            _ => false,
        },
        RuleShortcutStage::Done(_) => false,
    }
}

/// The shortcut's display name for a saved rule: `<rule> - <group>`.
pub open spec fn saved_display_name(storage: AppStateStorage, g: int, p: int) -> Seq<char> {
    storage.groups@[g].programs@[p].name@ + " - "@ + storage.groups@[g].name@
}

/// Starts creating a shortcut for the saved rule `group_id`/`rule_id`. Where the rule no
/// longer stands where its ids say, the flow finishes at once with `MissingGroup` or
/// `MissingRule` and nothing is asked of the platform; else the platform is first asked
/// whether it supports shortcuts.
pub fn start_rule_shortcut(
    storage: &AppStateStorage,
    rules: &RulesContext,
    group_id: GroupId,
    rule_id: RuleId,
) -> (r: (RuleShortcutFlow, RuleShortcutAction))
    ensures
        action_fits(r.0, r.1),
        r.0.group_id@ == group_id@,
        r.0.rule_id@ == rule_id@,
        r.0.attempt == 0,
        match saved_rule_position(*storage, *rules, group_id@, rule_id@) {
            Err(e) => r.0.stage == RuleShortcutStage::Done(Err(e)),
            Ok((g, p)) => r.0.stage is CheckSupport && r.0.display_name@ == saved_display_name(*storage, g, p),
        },
{
    let empty_exe = String::new();
    let empty_desktop = String::new();
    let empty_candidate = String::new();
    match find_saved_rule(storage, rules, &group_id, &rule_id) {
        Err(e) => {
            let flow = RuleShortcutFlow {
                stage: RuleShortcutStage::Done(Err(e)),
                display_name: String::new(),
                group_id,
                rule_id,
                executable: empty_exe,
                desktop: empty_desktop,
                attempt: 0,
                candidate: empty_candidate,
            };
            (flow, RuleShortcutAction::Finish(Err(e)))
        },
        Ok((g, p)) => {
            let group = &storage.groups[g];
            let app = &group.programs[p];
            let a = concat(app.name.as_str(), " - ");
            let display_name = concat(a.as_str(), group.name.as_str());
            let flow = RuleShortcutFlow {
                stage: RuleShortcutStage::CheckSupport,
                display_name,
                group_id,
                rule_id,
                executable: empty_exe,
                desktop: empty_desktop,
                attempt: 0,
                candidate: empty_candidate,
            };
            (flow, RuleShortcutAction::CheckSupport)
        },
    }
}

fn copy_result(r: &Result<String, CreateRuleShortcutError>) -> (c: Result<String, CreateRuleShortcutError>)
    ensures
        same_result(*r, c),
{
    match r {
        Ok(p) => Ok(p.clone()),
        Err(e) => Err(*e),
    }
}

/// The shortcut spec for a flow whose candidate is free (see `shortcut_spec_for`).
fn spec_of(f: &RuleShortcutFlow) -> (spec: ShortcutSpec)
    ensures
        shortcut_spec_for(spec, *f),
{
    let mut arguments: Vec<String> = Vec::new();
    arguments.push(owned("--run-rule"));
    arguments.push(f.group_id.0.clone());
    arguments.push(f.rule_id.0.clone());
    assert(arguments@.map_values(|a: String| a@) =~= seq!["--run-rule"@, f.group_id@, f.rule_id@]);
    ShortcutSpec {
        shortcut_path: f.candidate.clone(),
        target_path: f.executable.clone(),
        arguments,
        working_dir: parent_dir_exec(f.executable.as_str()),
        icon_path: Some(f.executable.clone()),
        icon_index: 0,
    }
}

/// The action the flow is waiting on (see `action_fits`).
pub fn pending_action(f: &RuleShortcutFlow) -> (a: RuleShortcutAction)
    ensures
        action_fits(*f, a),
{
    match &f.stage {
        RuleShortcutStage::CheckSupport => RuleShortcutAction::CheckSupport,
        RuleShortcutStage::ResolveExecutable => RuleShortcutAction::ResolveExecutable,
        RuleShortcutStage::ResolveDesktop => RuleShortcutAction::ResolveDesktop,
        RuleShortcutStage::Probe => RuleShortcutAction::PathExists(f.candidate.clone()),
        RuleShortcutStage::Create => RuleShortcutAction::CreateShortcut(spec_of(f)),
        RuleShortcutStage::Done(r) => RuleShortcutAction::Finish(copy_result(r)),
    }
}

/// The ids of a flow that reached a probe, the write or a result are safe on a command line.
pub open spec fn ids_checked(f: RuleShortcutFlow) -> bool {
    (f.stage is Probe || f.stage is Create || f.stage matches RuleShortcutStage::Done(Ok(_)))
        ==> is_cli_safe_id_spec(f.group_id@) && is_cli_safe_id_spec(f.rule_id@)
}

/// Takes the platform's answer to the last action (see `stepped`) and gives the next action.
/// An answer that is not the one the stage waits for changes nothing and repeats the action.
pub fn step_rule_shortcut(s: RuleShortcutFlow, ev: RuleShortcutEvent) -> (r: (RuleShortcutFlow, RuleShortcutAction))
    requires
        ids_checked(s),
    ensures
        action_fits(r.0, r.1),
        ids_checked(r.0),
        r.0.display_name@ == s.display_name@,
        r.0.group_id@ == s.group_id@,
        r.0.rule_id@ == s.rule_id@,
        !answers(s.stage, ev) ==> r.0 == s,
        answers(s.stage, ev) ==> stepped(s, ev, r.0),
        answers(s.stage, ev) && s.attempt < MAX_SHORTCUT_FILENAME_ATTEMPTS ==> flow_measure(r.0) < flow_measure(s)
            && r.0.attempt < MAX_SHORTCUT_FILENAME_ATTEMPTS,
{
    let mut t = s;
    let answered = match (&t.stage, &ev) {
        (RuleShortcutStage::CheckSupport, RuleShortcutEvent::Supported(_)) => true,
        (RuleShortcutStage::ResolveExecutable, RuleShortcutEvent::Executable(_)) => true,
        (RuleShortcutStage::ResolveDesktop, RuleShortcutEvent::Desktop(_)) => true,
        (RuleShortcutStage::Probe, RuleShortcutEvent::PathExists(_)) => true,
        (RuleShortcutStage::Create, RuleShortcutEvent::Created(_)) => true,
        _ => false,
    };
    if !answered {
        let a = pending_action(&t);
        return (t, a);
    }
    match ev {
        RuleShortcutEvent::Supported(supported) => {
            if supported {
                t.stage = RuleShortcutStage::ResolveExecutable;
            } else {
                t.stage = RuleShortcutStage::Done(Err(CreateRuleShortcutError::UnsupportedPlatform));
            }
        },
        RuleShortcutEvent::Executable(answer) => match answer {
            Ok(p) => {
                t.executable = p;
                t.stage = RuleShortcutStage::ResolveDesktop;
            },
            Err(_) => {
                t.stage = RuleShortcutStage::Done(Err(CreateRuleShortcutError::CurrentExeUnavailable));
            },
        },
        RuleShortcutEvent::Desktop(answer) => match answer {
            Ok(d) => {
                if crate::ids::is_cli_safe_id(t.group_id.0.as_str()) && crate::ids::is_cli_safe_id(
                    t.rule_id.0.as_str(),
                ) {
                    let name = shortcut_filename(t.display_name.as_str(), 0);
                    t.candidate = join(d.as_str(), name.as_str());
                    t.desktop = d;
                    t.attempt = 0;
                    t.stage = RuleShortcutStage::Probe;
                } else {
                    t.stage = RuleShortcutStage::Done(Err(CreateRuleShortcutError::InvalidShortcutId));
                }
            },
            Err(_) => {
                t.stage = RuleShortcutStage::Done(Err(CreateRuleShortcutError::DesktopUnavailable));
            },
        },
        RuleShortcutEvent::PathExists(answer) => match answer {
            Ok(false) => {
                t.stage = RuleShortcutStage::Create;
            },
            Ok(true) => {
                if t.attempt < MAX_SHORTCUT_FILENAME_ATTEMPTS - 1 {
                    let next = t.attempt + 1;
                    let name = shortcut_filename(t.display_name.as_str(), next);
                    t.candidate = join(t.desktop.as_str(), name.as_str());
                    t.attempt = next;
                } else {
                    t.stage = RuleShortcutStage::Done(Err(CreateRuleShortcutError::NameCollisionExhausted));
                }
            },
            Err(_) => {
                t.stage = RuleShortcutStage::Done(Err(CreateRuleShortcutError::OsWriteFailure));
            },
        },
        RuleShortcutEvent::Created(answer) => match answer {
            Ok(()) => {
                t.stage = RuleShortcutStage::Done(Ok(t.candidate.clone()));
            },
            Err(ShortcutWriteError::AlreadyExists) => {
                t.stage = RuleShortcutStage::Done(Err(CreateRuleShortcutError::CreateCollision));
            },
            Err(ShortcutWriteError::Failed(_)) => {
                t.stage = RuleShortcutStage::Done(Err(CreateRuleShortcutError::OsWriteFailure));
            },
        },
    }
    let a = pending_action(&t);
    (t, a)
}

} // verus!
