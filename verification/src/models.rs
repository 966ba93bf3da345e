use vstd::prelude::*;
use crate::process::PriorityClass;
use crate::rules::PersistedRuleIdentities;
use crate::text::{str_chars, string_from_chars, owned};
use crate::winpath::{file_name, file_name_spec};

verus! {

/// What a launch rule starts: a file on disk or an installed (packaged) application.
#[derive(Debug, PartialEq, Eq)]
pub enum LaunchTarget {
    Path { dropped_path: String, bin_path: String },
    Installed { aumid: String },
}

/// A saved launch rule.
#[derive(Debug, PartialEq, Eq)]
pub struct AppToRun {
    pub name: String,
    pub launch_target: LaunchTarget,
    pub args: Vec<String>,
    pub additional_processes: Vec<String>,
    pub autorun: bool,
    pub priority: PriorityClass,
}

/// Index of the first `.` in `s`, or its length when there is none.
pub open spec fn first_dot(s: Seq<char>) -> int
    decreases s.len(),
{
    if s.len() == 0 {
        0
    } else if s[0] == '.' {
        0
    } else {
        1 + first_dot(s.drop_first())
    }
}

/// The default display name of a dropped file: its file name up to the first `.`,
/// or `Unknown` when the path has no file name.
pub open spec fn default_rule_name(dropped_path: Seq<char>) -> Seq<char> {
    match file_name_spec(dropped_path) {
        Some(n) => n.take(first_dot(n)),
        None => seq!['U', 'n', 'k', 'n', 'o', 'w', 'n'],
    }
}

/// The processes tracked by default for a path rule: the executable's own file name.
pub open spec fn default_tracked_processes(bin_path: Seq<char>) -> Seq<Seq<char>> {
    match file_name_spec(bin_path) {
        Some(n) => seq![n],
        None => seq![],
    }
}

pub(crate) proof fn lemma_first_dot_bounds(s: Seq<char>)
    ensures
        0 <= first_dot(s) <= s.len(),
        forall|j: int| 0 <= j < first_dot(s) ==> s[j] != '.',
        first_dot(s) < s.len() ==> s[first_dot(s)] == '.',
    decreases s.len(),
{
    if s.len() > 0 && s[0] != '.' {
        lemma_first_dot_bounds(s.drop_first());
        assert forall|j: int| 0 <= j < first_dot(s) implies s[j] != '.' by {
            if j > 0 {
                assert(s[j] == s.drop_first()[j - 1]);
            }
        }
    }
}

pub(crate) fn first_dot_exec(v: &[char]) -> (r: usize)
    ensures
        r as int == first_dot(v@),
{
    let mut i: usize = 0;
    assert(v@.skip(0) =~= v@);
    while i < v.len() && v[i] != '.'
        invariant
            i <= v@.len(),
            first_dot(v@) == i + first_dot(v@.skip(i as int)),
        decreases v.len() - i,
    {
        proof {
            assert(v@.skip(i as int).drop_first() =~= v@.skip(i + 1));
        }
        i = i + 1;
    }
    proof {
        if i < v.len() {
            assert(v@.skip(i as int)[0] == v@[i as int]);
        }
    }
    i
}

fn unknown_name() -> (r: String)
    ensures
        r@ == seq!['U', 'n', 'k', 'n', 'o', 'w', 'n'],
{
    let r = owned("Unknown");
    proof {
        reveal_strlit("Unknown");
    }
    r
}

impl AppToRun {
    /// A rule that launches a file dropped onto a group.
    pub fn new_path(
        dropped_path: String,
        args: Vec<String>,
        bin_path: String,
        priority: PriorityClass,
        autorun: bool,
    ) -> (r: AppToRun)
        ensures
            r.name@ == default_rule_name(dropped_path@),
            r.launch_target == (LaunchTarget::Path { dropped_path, bin_path }),
            r.args@ == args@,
            r.additional_processes@.map_values(|p: String| p@) == default_tracked_processes(
                bin_path@,
            ),
            r.autorun == autorun,
            r.priority == priority,
    {
        let name = match file_name(dropped_path.as_str()) {
            Some(n) => {
                let v = str_chars(n.as_str());
                let k = first_dot_exec(v.as_slice());
                proof {
                    lemma_first_dot_bounds(v@);
                }
                string_from_chars(v.as_slice(), 0, k)
            },
            None => unknown_name(),
        };
        let mut additional_processes: Vec<String> = Vec::new();
        match file_name(bin_path.as_str()) {
            Some(n) => additional_processes.push(n),
            None => {},
        }
        assert(name@ =~= default_rule_name(dropped_path@));
        assert(additional_processes@.map_values(|p: String| p@) =~= default_tracked_processes(
            bin_path@,
        ));
        AppToRun {
            name,
            launch_target: LaunchTarget::Path { dropped_path, bin_path },
            args,
            additional_processes,
            autorun,
            priority,
        }
    }

    /// A rule that activates an installed application by its user model id.
    pub fn new_installed(name: String, aumid: String, priority: PriorityClass, autorun: bool) -> (r:
        AppToRun)
        ensures
            r.name == name,
            r.launch_target == (LaunchTarget::Installed { aumid }),
            r.args@.len() == 0,
            r.additional_processes@.len() == 0,
            r.autorun == autorun,
            r.priority == priority,
    {
        AppToRun {
            name,
            launch_target: LaunchTarget::Installed { aumid },
            args: Vec::new(),
            additional_processes: Vec::new(),
            autorun,
            priority,
        }
    }

    /// Whether the rule activates an installed application.
    pub fn is_installed_target(&self) -> (r: bool)
        ensures
            r == (self.launch_target is Installed),
    {
        match &self.launch_target {
            LaunchTarget::Installed { .. } => true,
            LaunchTarget::Path { .. } => false,
        }
    }

    /// Whether the rule launches a file.
    pub fn is_path_target(&self) -> (r: bool)
        ensures
            r == (self.launch_target is Path),
    {
        match &self.launch_target {
            LaunchTarget::Installed { .. } => false,
            LaunchTarget::Path { .. } => true,
        }
    }

    /// The application user model id of an installed target.
    pub fn installed_aumid(&self) -> (r: Option<&str>)
        ensures
            r matches Some(a) ==> self.launch_target matches LaunchTarget::Installed { aumid }
                && a@ == aumid@,
            r is None <==> self.launch_target is Path,
    {
        match &self.launch_target {
            LaunchTarget::Installed { aumid } => Some(aumid.as_str()),
            LaunchTarget::Path { .. } => None,
        }
    }

    /// The executable of a path target.
    pub fn bin_path(&self) -> (r: Option<&str>)
        ensures
            r matches Some(b) ==> self.launch_target matches LaunchTarget::Path { bin_path, .. }
                && b@ == bin_path@,
            r is None <==> self.launch_target is Installed,
    {
        match &self.launch_target {
            LaunchTarget::Path { bin_path, .. } => Some(bin_path.as_str()),
            LaunchTarget::Installed { .. } => None,
        }
    }

    /// Text naming what the rule starts: the executable path or the application id.
    pub fn launch_target_label(&self) -> (r: String)
        ensures
            r@ == launch_target_label_spec(self.launch_target),
    {
        match &self.launch_target {
            LaunchTarget::Path { bin_path, .. } => bin_path.clone(),
            LaunchTarget::Installed { aumid } => aumid.clone(),
        }
    }
}

/// The label of a launch target: the executable path or the application id.
pub open spec fn launch_target_label_spec(t: LaunchTarget) -> Seq<char> {
    match t {
        LaunchTarget::Path { bin_path, .. } => bin_path@,
        LaunchTarget::Installed { aumid } => aumid@,
    }
}

/// Copies a vector of strings.
pub fn clone_strings(v: &Vec<String>) -> (r: Vec<String>)
    ensures
        r@ == v@,
{
    let r = v.clone();
    assert(r@ =~= v@);
    r
}

impl Clone for LaunchTarget {
    fn clone(&self) -> (r: Self)
        ensures
            r == *self,
    {
        match self {
            LaunchTarget::Path { dropped_path, bin_path } => LaunchTarget::Path {
                dropped_path: dropped_path.clone(),
                bin_path: bin_path.clone(),
            },
            LaunchTarget::Installed { aumid } => LaunchTarget::Installed { aumid: aumid.clone() },
        }
    }
}

/// Abstract value of a launch rule: its fields, with vectors seen as sequences.
pub struct AppToRunView {
    pub name: String,
    pub launch_target: LaunchTarget,
    pub args: Seq<String>,
    pub additional_processes: Seq<String>,
    pub autorun: bool,
    pub priority: PriorityClass,
}

impl View for AppToRun {
    type V = AppToRunView;

    open spec fn view(&self) -> AppToRunView {
        AppToRunView {
            name: self.name,
            launch_target: self.launch_target,
            args: self.args@,
            additional_processes: self.additional_processes@,
            autorun: self.autorun,
            priority: self.priority,
        }
    }
}

impl Clone for AppToRun {
    fn clone(&self) -> (r: Self)
        ensures
            r@ == self@,
    {
        AppToRun {
            name: self.name.clone(),
            launch_target: self.launch_target.clone(),
            args: clone_strings(&self.args),
            additional_processes: clone_strings(&self.additional_processes),
            autorun: self.autorun,
            priority: self.priority,
        }
    }
}

/// The abstract values of a list of rules.
pub open spec fn apps_view(v: Seq<AppToRun>) -> Seq<AppToRunView> {
    v.map_values(|a: AppToRun| a@)
}

/// Copies a vector of rules.
pub fn clone_apps(v: &Vec<AppToRun>) -> (r: Vec<AppToRun>)
    ensures
        apps_view(r@) == apps_view(v@),
{
    let mut r: Vec<AppToRun> = Vec::new();
    let mut i: usize = 0;
    while i < v.len()
        invariant
            i <= v@.len(),
            r@.len() == i,
            apps_view(r@) == apps_view(v@.take(i as int)),
        decreases v.len() - i,
    {
        let ghost prev = r@;
        let c = v[i].clone();
        r.push(c);
        proof {
            assert forall|k: int| 0 <= k < i + 1 implies #[trigger] apps_view(r@)[k] == apps_view(
                v@.take(i + 1),
            )[k] by {
                assert(r@.len() == i + 1);
                if k < i {
                    assert(r@[k] == prev[k]);
                    assert(apps_view(prev)[k] == apps_view(v@.take(i as int))[k]);
                    assert(v@.take(i as int)[k] == v@.take(i + 1)[k]);
                } else {
                    assert(r@[k] == c);
                    assert(v@.take(i + 1)[k] == v@[k]);
                }
            }
        }
        i = i + 1;
        assert(apps_view(r@) =~= apps_view(v@.take(i as int)));
    }
    assert(v@.take(v.len() as int) =~= v@);
    r
}

/// Copies a vector of core indices.
pub fn clone_cores(v: &Vec<usize>) -> (r: Vec<usize>)
    ensures
        r@ == v@,
{
    let r = v.clone();
    assert(r@ =~= v@);
    r
}

/// Abstract value of a core group.
pub struct CoreGroupView {
    pub name: String,
    pub cores: Seq<usize>,
    pub programs: Seq<AppToRunView>,
    pub is_hidden: bool,
    pub run_all_button: bool,
}

impl View for CoreGroup {
    type V = CoreGroupView;

    open spec fn view(&self) -> CoreGroupView {
        CoreGroupView {
            name: self.name,
            cores: self.cores@,
            programs: apps_view(self.programs@),
            is_hidden: self.is_hidden,
            run_all_button: self.run_all_button,
        }
    }
}

impl Clone for CoreGroup {
    fn clone(&self) -> (r: Self)
        ensures
            r@ == self@,
    {
        CoreGroup {
            name: self.name.clone(),
            cores: clone_cores(&self.cores),
            programs: clone_apps(&self.programs),
            is_hidden: self.is_hidden,
            run_all_button: self.run_all_button,
        }
    }
}

/// The abstract values of a list of groups.
pub open spec fn groups_view(v: Seq<CoreGroup>) -> Seq<CoreGroupView> {
    v.map_values(|g: CoreGroup| g@)
}

/// Topology information saved with the state.
#[derive(Clone, Debug, PartialEq, Eq)]
pub struct CpuSchema {
    pub model: String,
    pub clusters: Vec<Vec<usize>>,
}

/// A named set of cores with the launch rules that run on them.
#[derive(Debug, PartialEq, Eq)]
pub struct CoreGroup {
    pub name: String,
    pub cores: Vec<usize>,
    pub programs: Vec<AppToRun>,
    pub is_hidden: bool,
    pub run_all_button: bool,
}

/// Everything the tool persists between runs.
#[derive(Clone, Debug, PartialEq, Eq)]
pub struct AppStateStorage {
    pub version: u32,
    pub groups: Vec<CoreGroup>,
    pub cpu_schema: CpuSchema,
    pub theme_index: usize,
    pub process_monitoring_enabled: bool,
    pub windows_event_log_diagnostics_enabled: bool,
    pub start_minimized: bool,
    pub rule_identities: Option<PersistedRuleIdentities>,
    pub loaded_version: u32,
    pub pending_pre_v6_backup: bool,
}

/// Summary of adding applications to a group.
#[derive(Clone, Debug, PartialEq, Eq)]
pub struct AddAppsOutcome {
    pub added_count: usize,
    pub first_error: Option<String>,
}

} // verus!
