use vstd::prelude::*;
use crate::catalog::InstalledPackageRuntimeInfo;
use crate::ids::{GroupId, RuleId};
use crate::models::{AppStateStorage, AppToRun, AppToRunView, CoreGroup, LaunchTarget, launch_target_label_spec, clone_strings};
use crate::rules::{RulesContext, from_storage_fits, from_storage_groups, from_storage_rules};
use crate::process::PriorityClass;
use crate::reconcile::{cores_mask, first_out_of_range};
use crate::text::{concat, decimal, format_u64, format_usize, owned, str_chars};
use crate::event_log::{ascii_lower, eq_ignore_ascii_case, names_equal_ignoring_case};

verus! {

/// How a launch request ended: accepted, or refused with a reason.
#[derive(Debug, Clone, PartialEq, Eq)]
pub enum LaunchDispatchOutcome {
    Accepted,
    Rejected(String),
}

/// A line for the tool's log; important lines stay visible until acknowledged.
#[derive(Debug, Clone, PartialEq, Eq)]
pub struct LaunchLog {
    pub message: String,
    pub important: bool,
}

/// A running rule the tool tracks: the key of what it launched, its processes, its ids, the
/// instance token recorded for each process it can check, and whether its processes were
/// last found with the rule's settings.
#[derive(Debug)]
pub struct RunningApp {
    pub key: String,
    pub pids: Vec<u32>,
    pub group_id: GroupId,
    pub rule_id: RuleId,
    pub pid_instance_tokens: Vec<(u32, u64)>,
    pub settings_matched: bool,
}

/// The rules the tool has started and still tracks.
#[derive(Debug)]
pub struct RuntimeRegistry {
    pub apps: Vec<RunningApp>,
}

/// The key under which a rule's processes are tracked: what it launches.
pub open spec fn app_key_spec(app: AppToRunView) -> Seq<char> {
    launch_target_label_spec(app.launch_target)
}

/// Index of the first tracked rule with `key`, if any.
pub open spec fn registry_index(apps: Seq<RunningApp>, key: Seq<char>) -> Option<int>
    decreases apps.len(),
{
    if apps.len() == 0 {
        None
    } else {
        match registry_index(apps.drop_last(), key) {
            Some(i) => Some(i),
            None => if apps.last().key@ == key {
                Some(apps.len() - 1)
            } else {
                None
            },
        }
    }
}

/// The processes tracked for `key`, if the rule is tracked.
pub open spec fn registry_pids(apps: Seq<RunningApp>, key: Seq<char>) -> Option<Seq<u32>> {
    match registry_index(apps, key) {
        Some(i) => Some(apps[i].pids@),
        None => None,
    }
}

proof fn lemma_registry_index(apps: Seq<RunningApp>, key: Seq<char>, r: Option<int>)
    requires
        r matches Some(i) ==> 0 <= i < apps.len() && apps[i].key@ == key && forall|j: int|
            0 <= j < i ==> apps[j].key@ != key,
        r is None ==> forall|j: int| 0 <= j < apps.len() ==> apps[j].key@ != key,
    ensures
        registry_index(apps, key) == r,
    decreases apps.len(),
{
    if apps.len() > 0 {
        let t = apps.drop_last();
        match r {
            Some(i) => {
                if i < apps.len() - 1 {
                    assert forall|j: int| 0 <= j < i implies t[j].key@ != key by {
                        assert(t[j] == apps[j]);
                    }
                    lemma_registry_index(t, key, Some(i));
                } else {
                    assert forall|j: int| 0 <= j < t.len() implies t[j].key@ != key by {
                        assert(t[j] == apps[j]);
                    }
                    lemma_registry_index(t, key, None);
                }
            },
            None => {
                assert forall|j: int| 0 <= j < t.len() implies t[j].key@ != key by {
                    assert(t[j] == apps[j]);
                }
                lemma_registry_index(t, key, None);
                assert(apps[apps.len() - 1].key@ != key);
            },
        }
    }
}

/// Copies a list of process ids.
pub fn clone_pid_list(v: &Vec<u32>) -> (r: Vec<u32>)
    ensures
        r@ == v@,
{
    let r = v.clone();
    assert(r@ =~= v@);
    r
}

impl RuntimeRegistry {
    /// A registry that tracks nothing.
    pub fn new() -> (r: Self)
        ensures
            r.apps@.len() == 0,
    {
        RuntimeRegistry { apps: Vec::new() }
    }

    fn find(&self, key: &str) -> (r: Option<usize>)
        ensures
            r matches Some(i) ==> i < self.apps@.len() && registry_index(self.apps@, key@) == Some(i as int),
            r is None <==> registry_index(self.apps@, key@) is None,
    {
        let mut i: usize = 0;
        while i < self.apps.len()
            invariant
                i <= self.apps@.len(),
                forall|j: int| 0 <= j < i ==> self.apps@[j].key@ != key@,
            decreases self.apps.len() - i,
        {
            if crate::text::str_eq(self.apps[i].key.as_str(), key) {
                proof {
                    lemma_registry_index(self.apps@, key@, Some(i as int));
                }
                return Some(i);
            }
            i = i + 1;
        }
        proof {
            lemma_registry_index(self.apps@, key@, None);
        }
        None
    }

    /// The processes tracked for `key`, if the rule is tracked.
    pub fn get_running_app_pids(&self, key: &str) -> (r: Option<Vec<u32>>)
        ensures
            match registry_pids(self.apps@, key@) {
                Some(p) => r matches Some(v) && v@ == p,
                None => r is None,
            },
    {
        match self.find(key) {
            Some(i) => Some(clone_pid_list(&self.apps[i].pids)),
            None => None,
        }
    }

    /// Whether the rule with `key` is tracked.
    pub fn contains_app(&self, key: &str) -> (r: bool)
        ensures
            r == (registry_index(self.apps@, key@) is Some),
    {
        self.find(key).is_some()
    }

    /// Starts tracking a rule with its first process; a rule already tracked is left alone
    /// and `false` comes back.
    pub fn add_running_app(&mut self, key: &str, pid: u32, group_id: GroupId, rule_id: RuleId) -> (r: bool)
        ensures
            r == (registry_index(old(self).apps@, key@) is None),
            r ==> final(self).apps@.len() == old(self).apps@.len() + 1 && final(self).apps@.take(
                old(self).apps@.len() as int,
            ) == old(self).apps@ && final(self).apps@.last().key@ == key@ && final(self).apps@.last().pids@
                == seq![pid] && final(self).apps@.last().group_id == group_id
                && final(self).apps@.last().rule_id == rule_id
                && final(self).apps@.last().pid_instance_tokens@.len() == 0
                && final(self).apps@.last().settings_matched,
            !r ==> final(self).apps@ == old(self).apps@,
    {
        if self.find(key).is_some() {
            return false;
        }
        let mut pids: Vec<u32> = Vec::new();
        pids.push(pid);
        let ghost before = self.apps@;
        self.apps.push(
            RunningApp {
                key: owned(key),
                pids,
                group_id,
                rule_id,
                pid_instance_tokens: Vec::new(),
                settings_matched: true,
            },
        );
        assert(self.apps@.take(before.len() as int) =~= before);
        true
    }

    /// Adds a process to a tracked rule unless it is already there; gives whether the rule is
    /// tracked.
    pub fn add_pid_to_existing_app(&mut self, key: &str, pid: u32) -> (r: bool)
        ensures
            r == (registry_index(old(self).apps@, key@) is Some),
            !r ==> final(self).apps@ == old(self).apps@,
            r ==> ({
                let i = registry_index(old(self).apps@, key@).unwrap();
                let before = old(self).apps@[i];
                &&& final(self).apps@.len() == old(self).apps@.len()
                &&& forall|j: int| 0 <= j < old(self).apps@.len() && j != i ==> final(self).apps@[j] == old(self).apps@[j]
                &&& final(self).apps@[i].key == before.key
                &&& final(self).apps@[i].group_id == before.group_id
                &&& final(self).apps@[i].rule_id == before.rule_id
                &&& final(self).apps@[i].pids@ == if before.pids@.contains(pid) {
                    before.pids@
                } else {
                    before.pids@.push(pid)
                }
            }),
    {
        let i = match self.find(key) {
            Some(i) => i,
            None => return false,
        };
        let mut entry = self.apps.remove(i);
        let ghost old_pids = entry.pids@;
        let mut present = false;
        let mut k: usize = 0;
        while k < entry.pids.len()
            invariant
                entry.pids@ == old_pids,
                k <= old_pids.len(),
                present == (exists|j: int| 0 <= j < k && old_pids[j] == pid),
            decreases entry.pids.len() - k,
        {
            if entry.pids[k] == pid {
                present = true;
            }
            k = k + 1;
        }
        assert(present == old_pids.contains(pid));
        if !present {
            entry.pids.push(pid);
        }
        self.apps.insert(i, entry);
        proof {
            assert forall|j: int| 0 <= j < old(self).apps@.len() && j != i implies self.apps@[j] == old(self).apps@[j] by {
                if j < i {
                    assert(self.apps@[j] == old(self).apps@.remove(i as int)[j]);
                } else {
                    assert(self.apps@[j] == old(self).apps@.remove(i as int)[j - 1]);
                }
            }
        }
        true
    }
}

impl RuntimeRegistry {
    /// Gives the tracked rule with `key` the given ids; gives whether the rule is tracked.
    pub fn set_rule_ids(&mut self, key: &str, group_id: GroupId, rule_id: RuleId) -> (r: bool)
        ensures
            r == (registry_index(old(self).apps@, key@) is Some),
            !r ==> final(self).apps@ == old(self).apps@,
            r ==> ({
                let i = registry_index(old(self).apps@, key@).unwrap();
                &&& final(self).apps@.len() == old(self).apps@.len()
                &&& forall|j: int| 0 <= j < old(self).apps@.len() && j != i ==> final(self).apps@[j] == old(self).apps@[j]
                &&& final(self).apps@[i].key == old(self).apps@[i].key
                &&& final(self).apps@[i].pids == old(self).apps@[i].pids
                &&& final(self).apps@[i].group_id == group_id
                &&& final(self).apps@[i].rule_id == rule_id
            }),
    {
        let i = match self.find(key) {
            Some(i) => i,
            None => return false,
        };
        let mut entry = self.apps.remove(i);
        entry.group_id = group_id;
        entry.rule_id = rule_id;
        self.apps.insert(i, entry);
        proof {
            assert forall|j: int| 0 <= j < old(self).apps@.len() && j != i implies self.apps@[j] == old(self).apps@[j] by {
                if j < i {
                    assert(self.apps@[j] == old(self).apps@.remove(i as int)[j]);
                } else {
                    assert(self.apps@[j] == old(self).apps@.remove(i as int)[j - 1]);
                }
            }
        }
        true
    }

    /// Adds to the tracked rule with `key` each process of `pids` it lacks, in order; gives the
    /// processes added. An untracked rule is left alone.
    pub fn add_missing_pids(&mut self, key: &str, pids: &Vec<u32>) -> (added: Vec<u32>)
        ensures
            match registry_index(old(self).apps@, key@) {
                None => final(self).apps@ == old(self).apps@ && added@.len() == 0,
                Some(i) => {
                    let before = old(self).apps@[i];
                    let after = crate::correction::append_missing(before.pids@, pids@);
                    &&& final(self).apps@.len() == old(self).apps@.len()
                    &&& forall|j: int| 0 <= j < old(self).apps@.len() && j != i ==> final(self).apps@[j] == old(self).apps@[j]
                    &&& final(self).apps@[i].key == before.key
                    &&& final(self).apps@[i].group_id == before.group_id
                    &&& final(self).apps@[i].rule_id == before.rule_id
                    &&& final(self).apps@[i].pids@ == after
                    &&& added@ == after.skip(before.pids@.len() as int)
                },
            },
    {
        let mut added: Vec<u32> = Vec::new();
        let i = match self.find(key) {
            Some(i) => i,
            None => return added,
        };
        let mut entry = self.apps.remove(i);
        let ghost old_pids = entry.pids@;
        let ghost e0 = entry;
        let mut k: usize = 0;
        while k < pids.len()
            invariant
                k <= pids@.len(),
                entry.key == e0.key,
                entry.group_id == e0.group_id,
                entry.rule_id == e0.rule_id,
                entry.pids@ == crate::correction::append_missing(old_pids, pids@.take(k as int)),
                old_pids.len() <= entry.pids@.len(),
                entry.pids@.take(old_pids.len() as int) == old_pids,
                added@ == entry.pids@.skip(old_pids.len() as int),
            decreases pids.len() - k,
        {
            assert(pids@.take(k + 1).drop_last() =~= pids@.take(k as int));
            let pid = pids[k];
            if !crate::process_tree::pid_listed(&entry.pids, pid) {
                let ghost p0 = entry.pids@;
                entry.pids.push(pid);
                added.push(pid);
                assert(entry.pids@.take(old_pids.len() as int) =~= p0.take(old_pids.len() as int));
                assert(entry.pids@.skip(old_pids.len() as int) =~= p0.skip(old_pids.len() as int).push(pid));
            }
            k = k + 1;
        }
        assert(pids@.take(k as int) =~= pids@);
        self.apps.insert(i, entry);
        proof {
            assert forall|j: int| 0 <= j < old(self).apps@.len() && j != i implies self.apps@[j] == old(self).apps@[j] by {
                if j < i {
                    assert(self.apps@[j] == old(self).apps@.remove(i as int)[j]);
                } else {
                    assert(self.apps@[j] == old(self).apps@.remove(i as int)[j - 1]);
                }
            }
        }
        added
    }
}

/// When the search for `key` comes up empty, no entry has it.
pub proof fn lemma_registry_index_none(apps: Seq<RunningApp>, key: Seq<char>, j: int)
    requires
        registry_index(apps, key) is None,
        0 <= j < apps.len(),
    ensures
        apps[j].key@ != key,
{
    lemma_registry_index_facts(apps, key);
}

/// The search finds `key` at `n` when no earlier entry has it.
pub proof fn lemma_registry_index_at(apps: Seq<RunningApp>, key: Seq<char>, n: int)
    requires
        0 <= n < apps.len(),
        apps[n].key@ == key,
        forall|j: int| 0 <= j < n ==> apps[j].key@ != key,
    ensures
        registry_index(apps, key) == Some(n),
{
    lemma_registry_index(apps, key, Some(n));
}

/// A registry whose entries keep their keys finds each key where it found it before.
pub proof fn lemma_registry_index_same_keys(old_apps: Seq<RunningApp>, new_apps: Seq<RunningApp>, key: Seq<char>)
    requires
        old_apps.len() == new_apps.len(),
        forall|j: int| 0 <= j < old_apps.len() ==> #[trigger] new_apps[j].key == old_apps[j].key,
    ensures
        registry_index(new_apps, key) == registry_index(old_apps, key),
{
    lemma_registry_index_facts(old_apps, key);
    let r = registry_index(old_apps, key);
    assert forall|j: int| 0 <= j < new_apps.len() implies (new_apps[j].key@ == key) == (old_apps[j].key@ == key) by {
        assert(new_apps[j].key == old_apps[j].key);
    }
    lemma_registry_index(new_apps, key, r);
}

// ---------------------------------------------------------------------------------------
// What the launcher decides

/// Whether a process name is a Windows host that an installed application's activation may
/// report instead of the application: `backgroundTaskHost`, with or without `.exe`, in any
/// ASCII case.
pub open spec fn is_excluded_installed_auto_process_spec(name: Seq<char>) -> bool {
    eq_ignore_ascii_case(name, "backgroundTaskHost"@) || eq_ignore_ascii_case(name, "backgroundTaskHost.exe"@)
}

/// Whether a process name is a Windows host that is never managed automatically.
pub fn is_excluded_installed_auto_process(name: &str) -> (r: bool)
    ensures
        r == is_excluded_installed_auto_process_spec(name@),
{
    names_equal_ignoring_case(name, "backgroundTaskHost") || names_equal_ignoring_case(name, "backgroundTaskHost.exe")
}

/// The affinity mask of a group's cores.
pub fn launch_mask(cores: &Vec<usize>) -> (r: usize)
    requires
        first_out_of_range(cores@) is None,
    ensures
        r == cores_mask(cores@),
{
    proof {
        crate::reconcile::lemma_in_range_when_none_out(cores@);
    }
    let mut mask: usize = 0;
    let mut i: usize = 0;
    while i < cores.len()
        invariant
            i <= cores@.len(),
            mask == cores_mask(cores@.take(i as int)),
            forall|k: int| 0 <= k < cores@.len() ==> ((#[trigger] cores@[k]) as u32) < usize::BITS,
        decreases cores.len() - i,
    {
        assert(cores@.take(i + 1).drop_last() =~= cores@.take(i as int));
        assert((cores@[i as int] as u32) < usize::BITS);
        mask = mask | (1usize << (cores[i] as u32));
        i = i + 1;
    }
    assert(cores@.take(i as int) =~= cores@);
    mask
}

/// The normalized text of a path for a prefix test: `/` as `\`, no trailing `\`, ASCII
/// lower case.
pub open spec fn normalized_for_prefix(path: Seq<char>) -> Seq<char> {
    let b = path.map_values(|c: char| if c == '/' { '\\' } else { c });
    let n = crate::event_log::without_trailing_backslashes_len(b);
    b.take(n as int).map_values(|c: char| ascii_lower(c))
}

/// Whether a process image lies inside a package's install directory (ASCII case folded).
pub open spec fn is_under_root(path: Seq<char>, root: Seq<char>) -> bool {
    let p = normalized_for_prefix(path);
    let r = normalized_for_prefix(root);
    p == r || crate::event_log::starts_with(p, r.push('\\'))
}

fn normalize_for_prefix(path: &str) -> (r: Vec<char>)
    ensures
        r@ == normalized_for_prefix(path@),
{
    let v = str_chars(path);
    let mut b: Vec<char> = Vec::new();
    let mut i: usize = 0;
    while i < v.len()
        invariant
            v@ == path@,
            i <= v@.len(),
            b@ == v@.take(i as int).map_values(|c: char| if c == '/' { '\\' } else { c }),
        decreases v.len() - i,
    {
        let c = v[i];
        b.push(if c == '/' { '\\' } else { c });
        assert(v@.take(i + 1).map_values(|c: char| if c == '/' { '\\' } else { c }) =~= v@.take(i as int).map_values(
            |c: char| if c == '/' { '\\' } else { c },
        ).push(if c == '/' { '\\' } else { c }));
        i = i + 1;
    }
    assert(v@.take(i as int) =~= v@);
    let ghost bs = b@;
    let mut end = b.len();
    assert(bs.take(end as int) =~= bs);
    while end > 0 && b[end - 1] == '\\'
        invariant
            b@ == bs,
            end <= bs.len(),
            crate::event_log::without_trailing_backslashes_len(bs) == crate::event_log::without_trailing_backslashes_len(
                bs.take(end as int),
            ),
        decreases end,
    {
        assert(bs.take(end as int).drop_last() =~= bs.take(end - 1));
        end = end - 1;
    }
    assert(crate::event_log::without_trailing_backslashes_len(bs.take(end as int)) == end);
    let mut r: Vec<char> = Vec::new();
    let mut k: usize = 0;
    while k < end
        invariant
            b@ == bs,
            end <= bs.len(),
            k <= end,
            r@ == bs.take(k as int).map_values(|c: char| ascii_lower(c)),
        decreases end - k,
    {
        let c = b[k];
        let lc = if 'A' <= c && c <= 'Z' { ((c as u8) + 32) as char } else { c };
        r.push(lc);
        assert(bs.take(k + 1).map_values(|c: char| ascii_lower(c)) =~= bs.take(k as int).map_values(
            |c: char| ascii_lower(c),
        ).push(ascii_lower(c)));
        k = k + 1;
    }
    r
}

/// Whether a process image lies inside a package's install directory.
pub fn path_is_under_root_case_insensitive(path: &str, install_root: &str) -> (r: bool)
    ensures
        r == is_under_root(path@, install_root@),
{
    let p = normalize_for_prefix(path);
    let mut root = normalize_for_prefix(install_root);
    let ghost r0 = root@;
    let equal = crate::text::str_eq_chars(p.as_slice(), root.as_slice());
    root.push('\\');
    let under = crate::text::starts_with_chars(p.as_slice(), root.as_slice());
    assert(root@ == r0.push('\\'));
    equal || under
}

// ---------------------------------------------------------------------------------------
// The launch decision, step by step

/// What the launcher works on: the rule, its group's cores and ids, its key and mask.
#[derive(Debug)]
pub struct LaunchPlan {
    pub group_id: GroupId,
    pub rule_id: RuleId,
    pub app: AppToRun,
    pub group_cores: Vec<usize>,
    pub key: String,
    pub mask: usize,
}

/// What the correction after an installed application's activation works with.
#[derive(Debug)]
pub struct PostLaunchCorrectionRequest {
    pub app_key: String,
    pub initial_pid: u32,
    pub group_id: GroupId,
    pub rule_id: RuleId,
    pub group_cores: Vec<usize>,
    pub priority: PriorityClass,
    pub expected_aumid: String,
    pub installed_package_info: Option<InstalledPackageRuntimeInfo>,
    pub prelaunch_package_pids: Vec<u32>,
}

/// Where a launch stands.
#[derive(Debug)]
pub enum LaunchState {
    Reapplying { plan: LaunchPlan, pids: Vec<u32> },
    Focusing { plan: LaunchPlan },
    ResolvingPackage { plan: LaunchPlan, aumid: String },
    CollectingPackagePids { plan: LaunchPlan, aumid: String, info: InstalledPackageRuntimeInfo },
    Launching { plan: LaunchPlan, package_info: Option<InstalledPackageRuntimeInfo>, prelaunch: Vec<u32> },
    CheckingLaunchedPid {
        plan: LaunchPlan,
        pid: u32,
        package_info: Option<InstalledPackageRuntimeInfo>,
        prelaunch: Vec<u32>,
    },
    ApplyingToLaunchedPid {
        plan: LaunchPlan,
        pid: u32,
        package_info: Option<InstalledPackageRuntimeInfo>,
        prelaunch: Vec<u32>,
    },
    StartingCorrection,
    Finished,
}

/// The outside work the launcher asks for next, or its outcome.
#[derive(Debug)]
pub enum LaunchAction {
    /// Set the mask and priority of every process (failures are ignored).
    ApplySettings { pids: Vec<u32>, mask: usize, priority: PriorityClass },
    /// Focus the window of the first of the processes that has one.
    FocusAny { pids: Vec<u32> },
    ResolvePackageInfo { aumid: String },
    /// List every running process with its image path (`None` where it cannot be read).
    ListProcessImages,
    Run { bin_path: String, args: Vec<String>, cores: Vec<usize>, priority: PriorityClass },
    Activate { aumid: String },
    /// Read the name of a process from a process snapshot.
    ReadProcessName { pid: u32 },
    StartCorrection(PostLaunchCorrectionRequest),
    Finish(LaunchDispatchOutcome),
}

/// What the outside work gave.
#[derive(Debug)]
pub enum LaunchEvent {
    SettingsApplied,
    Focused(bool),
    PackageInfo(Result<InstalledPackageRuntimeInfo, String>),
    ProcessImages(Result<Vec<(u32, Option<String>)>, String>),
    Launched(Result<u32, String>),
    LaunchedPidName(Result<Option<String>, String>),
    CorrectionStarted,
}

/// Whether `event` answers the work that `state` waits for.
pub open spec fn launch_event_fits(state: LaunchState, event: LaunchEvent) -> bool {
    match state {
        LaunchState::Reapplying { .. } => event is SettingsApplied,
        LaunchState::Focusing { .. } => event is Focused,
        LaunchState::ResolvingPackage { .. } => event is PackageInfo,
        LaunchState::CollectingPackagePids { .. } => event is ProcessImages,
        LaunchState::Launching { .. } => event is Launched,
        LaunchState::CheckingLaunchedPid { .. } => event is LaunchedPidName,
        LaunchState::ApplyingToLaunchedPid { .. } => event is SettingsApplied,
        LaunchState::StartingCorrection => event is CorrectionStarted,
        LaunchState::Finished => false,
    }
}

/// The text naming a rule in the log: what it launches.
pub open spec fn display_spec(app: AppToRunView) -> Seq<char> {
    app_key_spec(app)
}

/// The short label of what is started: the executable's file name (its path when it has
/// none) or the installed application's name.
pub open spec fn start_label_spec(app: AppToRunView) -> Seq<char> {
    match app.launch_target {
        LaunchTarget::Path { bin_path, .. } => match crate::winpath::file_name_spec(bin_path@) {
            Some(n) => n,
            None => bin_path@,
        },
        LaunchTarget::Installed { .. } => app.name@,
    }
}

/// The processes of a listing whose image lies inside the install root.
pub open spec fn package_local_pids(images: Seq<(u32, Option<String>)>, root: Seq<char>) -> Seq<u32>
    decreases images.len(),
{
    if images.len() == 0 {
        Seq::empty()
    } else {
        let rest = package_local_pids(images.drop_last(), root);
        match images.last().1 {
            Some(p) => if is_under_root(p@, root) {
                rest.push(images.last().0)
            } else {
                rest
            },
            None => rest,
        }
    }
}

fn collect_package_local_pids(images: &Vec<(u32, Option<String>)>, root: &str) -> (r: Vec<u32>)
    ensures
        r@ == package_local_pids(images@, root@),
{
    let mut r: Vec<u32> = Vec::new();
    let mut i: usize = 0;
    while i < images.len()
        invariant
            i <= images@.len(),
            r@ == package_local_pids(images@.take(i as int), root@),
        decreases images.len() - i,
    {
        assert(images@.take(i + 1).drop_last() =~= images@.take(i as int));
        match &images[i].1 {
            Some(p) => {
                if path_is_under_root_case_insensitive(p.as_str(), root) {
                    r.push(images[i].0);
                }
            },
            None => {},
        }
        i = i + 1;
    }
    assert(images@.take(i as int) =~= images@);
    r
}

/// The log after a tracked process was recorded: a new rule starts being tracked, a known
/// rule gains the process.
pub open spec fn started_message(new_app: bool, pid: u32) -> Seq<char> {
    if new_app {
        "App started with PID: "@ + decimal(pid as nat)
    } else {
        "New instance of existing app started with PID: "@ + decimal(pid as nat)
    }
}

fn log_line(log: &mut Vec<LaunchLog>, message: String, important: bool)
    ensures
        final(log)@ == old(log)@.push(LaunchLog { message, important }),
{
    log.push(LaunchLog { message, important });
}

fn clone_cores_vec(v: &Vec<usize>) -> (r: Vec<usize>)
    ensures
        r@ == v@,
{
    let r = v.clone();
    assert(r@ =~= v@);
    r
}

fn clone_info(i: &InstalledPackageRuntimeInfo) -> (r: InstalledPackageRuntimeInfo)
    ensures
        r == *i,
{
    InstalledPackageRuntimeInfo {
        aumid: i.aumid.clone(),
        package_family_name: i.package_family_name.clone(),
        install_root: i.install_root.clone(),
    }
}

fn display_text(app: &AppToRun) -> (r: String)
    ensures
        r@ == display_spec(app@),
{
    app.launch_target_label()
}

fn start_label(app: &AppToRun) -> (r: String)
    ensures
        r@ == start_label_spec(app@),
{
    match &app.launch_target {
        LaunchTarget::Path { bin_path, .. } => match crate::winpath::file_name(bin_path.as_str()) {
            Some(n) => n,
            None => bin_path.clone(),
        },
        LaunchTarget::Installed { .. } => app.name.clone(),
    }
}

/// Records a launched process: a rule not tracked yet starts being tracked with it, a
/// tracked rule gains it (once); the log says which.
pub fn record_started_pid(
    registry: &mut RuntimeRegistry,
    log: &mut Vec<LaunchLog>,
    key: &str,
    pid: u32,
    group_id: GroupId,
    rule_id: RuleId,
)
    ensures
        ({
            let new_app = registry_index(old(registry).apps@, key@) is None;
            &&& final(log)@.len() == old(log)@.len() + 1
            &&& final(log)@.take(old(log)@.len() as int) == old(log)@
            &&& final(log)@.last().message@ == started_message(new_app, pid)
            &&& !final(log)@.last().important
            &&& registry_pids(final(registry).apps@, key@) matches Some(p) && p.contains(pid)
            &&& new_app ==> registry_pids(final(registry).apps@, key@) == Some(seq![pid])
        }),
{
    let ghost old_log = log@;
    let is_new_app = !registry.contains_app(key);
    if is_new_app {
        let _ = registry.add_running_app(key, pid, group_id, rule_id);
        proof {
            let apps = registry.apps@;
            let n = apps.len() - 1;
            assert forall|j: int| 0 <= j < n implies apps[j].key@ != key@ by {
                assert(apps[j] == old(registry).apps@[j]);
                if apps[j].key@ == key@ {
                    lemma_registry_index_some(old(registry).apps@, key@, j);
                }
            }
            lemma_registry_index(apps, key@, Some(n));
            assert(seq![pid][0] == pid);
        }
        let m = concat("App started with PID: ", format_u64(pid as u64).as_str());
        log_line(log, m, false);
    } else {
        let _ = registry.add_pid_to_existing_app(key, pid);
        proof {
            let i = registry_index(old(registry).apps@, key@).unwrap();
            lemma_registry_index_facts(old(registry).apps@, key@);
            let apps = registry.apps@;
            assert forall|j: int| 0 <= j < i implies apps[j].key@ != key@ by {
                assert(apps[j] == old(registry).apps@[j]);
            }
            lemma_registry_index(apps, key@, Some(i));
            let before = old(registry).apps@[i].pids@;
            if !before.contains(pid) {
                assert(before.push(pid)[before.len() as int] == pid);
            }
        }
        let m = concat("New instance of existing app started with PID: ", format_u64(pid as u64).as_str());
        log_line(log, m, false);
    }
    assert(log@.take(old_log.len() as int) =~= old_log);
}

proof fn lemma_registry_index_facts(apps: Seq<RunningApp>, key: Seq<char>)
    ensures
        registry_index(apps, key) matches Some(i) ==> 0 <= i < apps.len() && apps[i].key@ == key
            && forall|j: int| 0 <= j < i ==> apps[j].key@ != key,
        registry_index(apps, key) is None ==> forall|j: int| 0 <= j < apps.len() ==> apps[j].key@ != key,
    decreases apps.len(),
{
    if apps.len() > 0 {
        let t = apps.drop_last();
        lemma_registry_index_facts(t, key);
        assert forall|j: int| 0 <= j < t.len() implies t[j] == apps[j] by {}
    }
}

proof fn lemma_registry_index_some(apps: Seq<RunningApp>, key: Seq<char>, j: int)
    requires
        0 <= j < apps.len(),
        apps[j].key@ == key,
    ensures
        registry_index(apps, key) is Some,
{
    lemma_registry_index_facts(apps, key);
}

/// `p` is the plan for launching `app` with the given ids on `cores`.
pub open spec fn is_plan_for(p: LaunchPlan, group_id: Seq<char>, rule_id: Seq<char>, app: AppToRun, cores: Seq<usize>) -> bool {
    &&& p.group_id@ == group_id
    &&& p.rule_id@ == rule_id
    &&& p.app == app
    &&& p.group_cores@ == cores
    &&& p.key@ == app_key_spec(app@)
    &&& p.mask == cores_mask(cores)
}

/// How a launch starts (see `start_launch`), from the tracked rules `apps` and the log before
/// (`log0`) and after (`log1`).
pub open spec fn launch_start_spec(
    apps: Seq<RunningApp>,
    log0: Seq<LaunchLog>,
    log1: Seq<LaunchLog>,
    group_id: Seq<char>,
    rule_id: Seq<char>,
    app: AppToRun,
    cores: Seq<usize>,
    r: (LaunchState, LaunchAction),
) -> bool {
    let key = app_key_spec(app@);
    match registry_pids(apps, key) {
        Some(pids) => {
            &&& log1 == log0
            &&& r.0 matches LaunchState::Reapplying { plan, pids: p } && p@ == pids
                && is_plan_for(plan, group_id, rule_id, app, cores)
            &&& r.1 matches LaunchAction::ApplySettings { pids: q, mask: m, priority } && q@ == pids
                && m == cores_mask(cores) && priority == app.priority
        },
        None => match app.launch_target {
            LaunchTarget::Installed { aumid } => {
                &&& log1 == log0
                &&& r.0 matches LaunchState::ResolvingPackage { plan, aumid: a } && a == aumid
                    && is_plan_for(plan, group_id, rule_id, app, cores)
                &&& r.1 matches LaunchAction::ResolvePackageInfo { aumid: a } && a == aumid
            },
            LaunchTarget::Path { .. } => {
                &&& log1.len() == log0.len() + 1
                &&& log1.take(log0.len() as int) == log0
                &&& log1.last() == LaunchLog {
                    message: log1.last().message,
                    important: false,
                }
                &&& log1.last().message@ == "Starting '"@ + start_label_spec(app@) + "', app: "@
                    + display_spec(app@)
                &&& r.0 matches LaunchState::Launching { plan, package_info, prelaunch } && package_info is None
                    && prelaunch@.len() == 0 && is_plan_for(plan, group_id, rule_id, app, cores)
                &&& starts_rule(r.0->Launching_plan, r.1)
            },
        },
    }
}

/// Starts the launch of a rule. A rule whose processes are tracked already is not started
/// again: its settings are applied to them once more. Otherwise an installed application's
/// package is looked up first, and a file is started directly.
pub fn start_launch(
    registry: &RuntimeRegistry,
    log: &mut Vec<LaunchLog>,
    group_id: GroupId,
    rule_id: RuleId,
    app: AppToRun,
    group_cores: Vec<usize>,
) -> (r: (LaunchState, LaunchAction))
    requires
        first_out_of_range(group_cores@) is None,
    ensures
        launch_start_spec(registry.apps@, old(log)@, final(log)@, group_id@, rule_id@, app, group_cores@, r),

{
    let key = app.launch_target_label();
    let mask = launch_mask(&group_cores);
    let running = registry.get_running_app_pids(key.as_str());
    let plan = LaunchPlan { group_id, rule_id, app, group_cores, key, mask };
    match running {
        Some(pids) => {
            let apply = clone_pid_list(&pids);
            let priority = plan.app.priority;
            (LaunchState::Reapplying { plan, pids }, LaunchAction::ApplySettings { pids: apply, mask, priority })
        },
        None => {
            let aumid = match &plan.app.launch_target {
                LaunchTarget::Installed { aumid } => Some(aumid.clone()),
                LaunchTarget::Path { .. } => None,
            };
            match aumid {
                Some(a) => {
                    let ask = a.clone();
                    (LaunchState::ResolvingPackage { plan, aumid: a }, LaunchAction::ResolvePackageInfo { aumid: ask })
                },
                None => begin_launch(plan, None, Vec::new(), log),
            }
        },
    }
}

/// `action` starts what `plan` launches: a file is run with the rule's arguments on the
/// group's cores, an installed application is activated.
pub open spec fn starts_rule(plan: LaunchPlan, action: LaunchAction) -> bool {
    match plan.app.launch_target {
        LaunchTarget::Path { bin_path, .. } => action matches LaunchAction::Run { bin_path: b, args, cores, priority }
            && b == bin_path && args@ == plan.app.args@ && cores@ == plan.group_cores@ && priority
            == plan.app.priority,
        LaunchTarget::Installed { aumid } => action matches LaunchAction::Activate { aumid: a } && a == aumid,
    }
}

/// Logs the start and asks for the launch itself.
fn begin_launch(
    plan: LaunchPlan,
    package_info: Option<InstalledPackageRuntimeInfo>,
    prelaunch: Vec<u32>,
    log: &mut Vec<LaunchLog>,
) -> (r: (LaunchState, LaunchAction))
    ensures
        final(log)@.len() == old(log)@.len() + 1,
        final(log)@.take(old(log)@.len() as int) == old(log)@,
        final(log)@.last().message@ == "Starting '"@ + start_label_spec(plan.app@) + "', app: "@
            + display_spec(plan.app@),
        !final(log)@.last().important,
        r.0 matches LaunchState::Launching { plan: p, package_info: i, prelaunch: q } && p == plan && i
            == package_info && q@ == prelaunch@,
        starts_rule(plan, r.1),
{
    let ghost old_log = log@;
    let label = start_label(&plan.app);
    let display = display_text(&plan.app);
    let a = concat("Starting '", label.as_str());
    let b = concat(a.as_str(), "', app: ");
    let m = concat(b.as_str(), display.as_str());
    log_line(log, m, false);
    assert(log@.take(old_log.len() as int) =~= old_log);
    let action = match &plan.app.launch_target {
        LaunchTarget::Path { bin_path, .. } => LaunchAction::Run {
            bin_path: bin_path.clone(),
            args: clone_strings(&plan.app.args),
            cores: clone_cores_vec(&plan.group_cores),
            priority: plan.app.priority,
        },
        LaunchTarget::Installed { aumid } => LaunchAction::Activate { aumid: aumid.clone() },
    };
    (LaunchState::Launching { plan, package_info, prelaunch }, action)
}

/// The correction started after an installed application's process `pid` was activated: it
/// follows the rule's key from that process, with the rule's ids, its group's cores and its
/// priority, the application's id, the package information and the processes that were in
/// the package before the launch.
pub open spec fn correction_request_for(
    req: PostLaunchCorrectionRequest,
    plan: LaunchPlan,
    pid: u32,
    package_info: Option<InstalledPackageRuntimeInfo>,
    prelaunch: Seq<u32>,
) -> bool {
    &&& req.app_key == plan.key
    &&& req.initial_pid == pid
    &&& req.group_id == plan.group_id
    &&& req.rule_id == plan.rule_id
    &&& req.group_cores@ == plan.group_cores@
    &&& req.priority == plan.app.priority
    &&& (plan.app.launch_target is Installed ==> req.expected_aumid == plan.app.launch_target->aumid)
    &&& req.installed_package_info == package_info
    &&& req.prelaunch_package_pids@ == prelaunch
}

fn correction_request(
    plan: LaunchPlan,
    pid: u32,
    package_info: Option<InstalledPackageRuntimeInfo>,
    prelaunch: Vec<u32>,
) -> (r: PostLaunchCorrectionRequest)
    ensures
        correction_request_for(r, plan, pid, package_info, prelaunch@),
{
    let expected_aumid = match &plan.app.launch_target {
        LaunchTarget::Installed { aumid } => aumid.clone(),
        LaunchTarget::Path { bin_path, .. } => bin_path.clone(),
    };
    PostLaunchCorrectionRequest {
        app_key: plan.key,
        initial_pid: pid,
        group_id: plan.group_id,
        rule_id: plan.rule_id,
        group_cores: plan.group_cores,
        priority: plan.app.priority,
        expected_aumid,
        installed_package_info: package_info,
        prelaunch_package_pids: prelaunch,
    }
}

/// After the settings of a running rule were applied again, a window of its processes is
/// focused; nothing else changes.
pub open spec fn reapply_step(
    state: LaunchState,
    r: (LaunchState, LaunchAction),
    log0: Seq<LaunchLog>,
    log1: Seq<LaunchLog>,
    apps0: Seq<RunningApp>,
    apps1: Seq<RunningApp>,
) -> bool {
    state matches LaunchState::Reapplying { plan, pids } ==> {
        &&& r.0 matches LaunchState::Focusing { plan: p } && p == plan
        &&& r.1 matches LaunchAction::FocusAny { pids: q } && q@ == pids@
        &&& log1 == log0
        &&& apps1 == apps0
    }
}

/// The log line of a running rule whose settings were applied again.
pub open spec fn already_running_message(app: AppToRunView, found: bool) -> Seq<char> {
    "App already running: "@ + display_spec(app) + (if found {
        ", settings reapplied and window focused"@
    } else {
        ", settings reapplied but no window found to focus"@
    })
}

/// After the focus attempt the launch is accepted, with a log line that says whether a window
/// was found; the tracked rules do not change.
pub open spec fn focus_step(
    state: LaunchState,
    event: LaunchEvent,
    r: (LaunchState, LaunchAction),
    log0: Seq<LaunchLog>,
    log1: Seq<LaunchLog>,
    apps0: Seq<RunningApp>,
    apps1: Seq<RunningApp>,
) -> bool {
    state matches LaunchState::Focusing { plan } ==> (event matches LaunchEvent::Focused(found) ==> {
        &&& r.0 is Finished
        &&& r.1 == LaunchAction::Finish(LaunchDispatchOutcome::Accepted)
        &&& log1.len() == log0.len() + 1
        &&& log1.take(log0.len() as int) == log0
        &&& log1.last().message@ == already_running_message(plan.app@, found)
        &&& apps1 == apps0
    })
}

/// Takes one step of a launch (see `start_launch`): after settings were reapplied, a window
/// of the running rule is focused and the launch is accepted, with a log line that says
/// whether a window was found; an installed application's package information and the
/// processes already inside its package are gathered (either may fail, and the launch goes
/// on without them); then the rule is started. A failed start is logged as an important error
/// and rejected. A started file's process is tracked. An activated application's process is
/// tracked and given its settings unless it is a Windows host, and the correction that
/// follows the application's processes is started; then the launch is accepted.
#[verifier::rlimit(60)]
pub fn step_launch(
    state: LaunchState,
    registry: &mut RuntimeRegistry,
    log: &mut Vec<LaunchLog>,
    event: LaunchEvent,
) -> (r: (LaunchState, LaunchAction))
    requires
        launch_event_fits(state, event),
    ensures
        final(log)@.take(old(log)@.len() as int) == old(log)@,
        reapply_step(state, r, old(log)@, final(log)@, old(registry).apps@, final(registry).apps@),
        focus_step(state, event, r, old(log)@, final(log)@, old(registry).apps@, final(registry).apps@),
        (state matches LaunchState::ResolvingPackage { plan, aumid } ==> event matches LaunchEvent::PackageInfo(info) ==> {
            &&& final(registry).apps@ == old(registry).apps@
            &&& match info {
                Ok(i) => {
                    &&& final(log)@ == old(log)@
                    &&& r.0 matches LaunchState::CollectingPackagePids { plan: p, info: j, .. } && p == plan && j == i
                    &&& r.1 is ListProcessImages
                },
                Err(_) => {
                    &&& final(log)@.len() == old(log)@.len() + 1
                    &&& r.0 matches LaunchState::Launching { plan: p, package_info, prelaunch } && p == plan
                        && package_info is None && prelaunch@.len() == 0
                    &&& starts_rule(plan, r.1)
                },
            }
        }),
        (state matches LaunchState::CollectingPackagePids { plan, info, .. } ==> event matches LaunchEvent::ProcessImages(images) ==> {
            &&& final(registry).apps@ == old(registry).apps@
            &&& final(log)@.len() == old(log)@.len() + 1
            &&& starts_rule(plan, r.1)
            &&& match images {
                Ok(list) => r.0 matches LaunchState::Launching { plan: p, package_info, prelaunch } && p == plan
                    && package_info == Some(info) && prelaunch@ == package_local_pids(list@, info.install_root@),
                Err(_) => r.0 matches LaunchState::Launching { plan: p, package_info, prelaunch } && p == plan
                    && package_info is None && prelaunch@.len() == 0,
            }
        }),
        (state matches LaunchState::Launching { plan, package_info, prelaunch } ==> event matches LaunchEvent::Launched(result) ==> match result {
            Err(e) => {
                &&& r.0 is Finished
                &&& r.1 == LaunchAction::Finish(LaunchDispatchOutcome::Rejected(e))
                &&& final(log)@.len() == old(log)@.len() + 1
                &&& final(log)@.last().message@ == "ERROR: "@ + e@
                &&& final(log)@.last().important
                &&& final(registry).apps@ == old(registry).apps@
            },
            Ok(pid) => if plan.app.launch_target is Path {
                &&& r.0 is Finished
                &&& r.1 == LaunchAction::Finish(LaunchDispatchOutcome::Accepted)
                &&& final(log)@.len() == old(log)@.len() + 1
                &&& final(log)@.last().message@ == started_message(
                    registry_index(old(registry).apps@, plan.key@) is None,
                    pid,
                )
                &&& registry_pids(final(registry).apps@, plan.key@) matches Some(p) && p.contains(pid)
            } else {
                &&& r.0 matches LaunchState::CheckingLaunchedPid { plan: p, pid: q, package_info: i, prelaunch: l }
                    && p == plan && q == pid && i == package_info && l@ == prelaunch@
                &&& r.1 == LaunchAction::ReadProcessName { pid }
                &&& final(log)@ == old(log)@
                &&& final(registry).apps@ == old(registry).apps@
            },
        }),
        (state matches LaunchState::CheckingLaunchedPid { plan, pid, package_info, prelaunch } ==> event matches LaunchEvent::LaunchedPidName(name) ==> {
            let auto_managed = match name {
                Ok(Some(n)) => !is_excluded_installed_auto_process_spec(n@),
                _ => true,
            };
            if auto_managed {
                &&& r.0 matches LaunchState::ApplyingToLaunchedPid { plan: p, pid: q, package_info: i, prelaunch: l }
                    && p == plan && q == pid && i == package_info && l@ == prelaunch@
                &&& r.1 matches LaunchAction::ApplySettings { pids, mask, priority } && pids@ == seq![pid]
                    && mask == plan.mask && priority == plan.app.priority
                &&& final(log)@ == old(log)@
                &&& final(registry).apps@ == old(registry).apps@
            } else {
                &&& r.0 is StartingCorrection
                &&& r.1 matches LaunchAction::StartCorrection(req) && correction_request_for(
                    req,
                    plan,
                    pid,
                    package_info,
                    prelaunch@,
                )
                &&& final(log)@.len() == old(log)@.len() + 1
                &&& final(log)@.last().message@ == "Installed app activation PID "@ + decimal(pid as nat)
                    + " is a Windows background host; waiting for app processes"@
                &&& final(registry).apps@ == old(registry).apps@
            }
        }),
        (state matches LaunchState::ApplyingToLaunchedPid { plan, pid, package_info, prelaunch } ==> {
            &&& r.0 is StartingCorrection
            &&& r.1 matches LaunchAction::StartCorrection(req) && correction_request_for(
                req,
                plan,
                pid,
                package_info,
                prelaunch@,
            )
            &&& final(log)@.len() == old(log)@.len() + 1
            &&& final(log)@.last().message@ == started_message(
                registry_index(old(registry).apps@, plan.key@) is None,
                pid,
            )
            &&& registry_pids(final(registry).apps@, plan.key@) matches Some(p) && p.contains(pid)
        }),
        (state is StartingCorrection ==> {
            &&& r.0 is Finished
            &&& r.1 == LaunchAction::Finish(LaunchDispatchOutcome::Accepted)
            &&& final(log)@ == old(log)@
            &&& final(registry).apps@ == old(registry).apps@
        }),
{
    let ghost old_log = log@;
    let r = match state {
        LaunchState::Reapplying { plan, pids } => {
            let focus = clone_pid_list(&pids);
            (LaunchState::Focusing { plan }, LaunchAction::FocusAny { pids: focus })
        },
        LaunchState::Focusing { plan } => {
            let found = match event {
                LaunchEvent::Focused(f) => f,
                _ => false,
            };
            let display = display_text(&plan.app);
            let head = concat("App already running: ", display.as_str());
            let m = if found {
                concat(head.as_str(), ", settings reapplied and window focused")
            } else {
                concat(head.as_str(), ", settings reapplied but no window found to focus")
            };
            log_line(log, m, false);
            (LaunchState::Finished, LaunchAction::Finish(LaunchDispatchOutcome::Accepted))
        },
        LaunchState::ResolvingPackage { plan, aumid } => match event {
            LaunchEvent::PackageInfo(Ok(info)) => (
                LaunchState::CollectingPackagePids { plan, aumid, info },
                LaunchAction::ListProcessImages,
            ),
            _ => begin_launch(plan, None, Vec::new(), log),
        },
        LaunchState::CollectingPackagePids { plan, aumid, info } => match event {
            LaunchEvent::ProcessImages(Ok(images)) => {
                let prelaunch = collect_package_local_pids(&images, info.install_root.as_str());
                begin_launch(plan, Some(info), prelaunch, log)
            },
            _ => begin_launch(plan, None, Vec::new(), log),
        },
        LaunchState::Launching { plan, package_info, prelaunch } => match event {
            LaunchEvent::Launched(Err(e)) => {
                let m = concat("ERROR: ", e.as_str());
                log_line(log, m, true);
                (LaunchState::Finished, LaunchAction::Finish(LaunchDispatchOutcome::Rejected(e)))
            },
            LaunchEvent::Launched(Ok(pid)) => {
                if plan.app.is_path_target() {
                    record_started_pid(
                        registry,
                        log,
                        plan.key.as_str(),
                        pid,
                        plan.group_id.clone(),
                        plan.rule_id.clone(),
                    );
                    (LaunchState::Finished, LaunchAction::Finish(LaunchDispatchOutcome::Accepted))
                } else {
                    (
                        LaunchState::CheckingLaunchedPid { plan, pid, package_info, prelaunch },
                        LaunchAction::ReadProcessName { pid },
                    )
                }
            },
            _ => (LaunchState::Finished, LaunchAction::Finish(LaunchDispatchOutcome::Accepted)),
        },
        LaunchState::CheckingLaunchedPid { plan, pid, package_info, prelaunch } => {
            let auto_managed = match &event {
                LaunchEvent::LaunchedPidName(Ok(Some(n))) => !is_excluded_installed_auto_process(n.as_str()),
                _ => true,
            };
            if auto_managed {
                let mut pids: Vec<u32> = Vec::new();
                pids.push(pid);
                let mask = plan.mask;
                let priority = plan.app.priority;
                (
                    LaunchState::ApplyingToLaunchedPid { plan, pid, package_info, prelaunch },
                    LaunchAction::ApplySettings { pids, mask, priority },
                )
            } else {
                let a = concat("Installed app activation PID ", format_u64(pid as u64).as_str());
                let m = concat(a.as_str(), " is a Windows background host; waiting for app processes");
                log_line(log, m, false);
                let req = correction_request(plan, pid, package_info, prelaunch);
                (LaunchState::StartingCorrection, LaunchAction::StartCorrection(req))
            }
        },
        LaunchState::ApplyingToLaunchedPid { plan, pid, package_info, prelaunch } => {
            record_started_pid(
                registry,
                log,
                plan.key.as_str(),
                pid,
                plan.group_id.clone(),
                plan.rule_id.clone(),
            );
            let req = correction_request(plan, pid, package_info, prelaunch);
            (LaunchState::StartingCorrection, LaunchAction::StartCorrection(req))
        },
        LaunchState::StartingCorrection => (
            LaunchState::Finished,
            LaunchAction::Finish(LaunchDispatchOutcome::Accepted),
        ),
        LaunchState::Finished => (LaunchState::Finished, LaunchAction::Finish(LaunchDispatchOutcome::Accepted)),
    };
    assert(log@.take(old_log.len() as int) =~= old_log);
    r
}


/// The autorun rules of one group (`g` is its index), in order, with their indices.
pub open spec fn autorun_in_group(g: usize, programs: Seq<AppToRun>) -> Seq<(usize, usize, AppToRunView)>
    decreases programs.len(),
{
    if programs.len() == 0 {
        Seq::empty()
    } else {
        let rest = autorun_in_group(g, programs.drop_last());
        if programs.last().autorun {
            rest.push((g, (programs.len() - 1) as usize, programs.last()@))
        } else {
            rest
        }
    }
}

/// The autorun rules of a state, group by group and rule by rule, each with its group's and
/// its own index.
pub open spec fn autorun_items(groups: Seq<CoreGroup>) -> Seq<(usize, usize, AppToRunView)>
    decreases groups.len(),
{
    if groups.len() == 0 {
        Seq::empty()
    } else {
        autorun_items(groups.drop_last()) + autorun_in_group(
            (groups.len() - 1) as usize,
            groups.last().programs@,
        )
    }
}

/// The abstract values of listed rules with their indices.
pub open spec fn indexed_apps_view(v: Seq<(usize, usize, AppToRun)>) -> Seq<(usize, usize, AppToRunView)> {
    v.map_values(|t: (usize, usize, AppToRun)| (t.0, t.1, t.2@))
}

/// The rules to start when the tool starts: every autorun rule, with its group's index and
/// its index in the group.
pub fn collect_autorun_items(state: &AppStateStorage) -> (r: Vec<(usize, usize, AppToRun)>)
    ensures
        indexed_apps_view(r@) == autorun_items(state.groups@),
{
    let mut r: Vec<(usize, usize, AppToRun)> = Vec::new();
    let mut g: usize = 0;
    while g < state.groups.len()
        invariant
            g <= state.groups@.len(),
            indexed_apps_view(r@) == autorun_items(state.groups@.take(g as int)),
        decreases state.groups.len() - g,
    {
        let programs = &state.groups[g].programs;
        let ghost base = indexed_apps_view(r@);
        let mut p: usize = 0;
        while p < programs.len()
            invariant
                g < state.groups@.len(),
                *programs == state.groups@[g as int].programs,
                p <= programs@.len(),
                indexed_apps_view(r@) == base + autorun_in_group(g, programs@.take(p as int)),
            decreases programs.len() - p,
        {
            let ghost before = r@;
            assert(programs@.take(p + 1).drop_last() =~= programs@.take(p as int));
            if programs[p].autorun {
                let c = programs[p].clone();
                r.push((g, p, c));
                assert(indexed_apps_view(r@) =~= indexed_apps_view(before).push((g, p, c@)));
            }
            p = p + 1;
        }
        assert(programs@.take(p as int) =~= programs@);
        assert(state.groups@.take(g + 1).drop_last() =~= state.groups@.take(g as int));
        g = g + 1;
    }
    assert(state.groups@.take(g as int) =~= state.groups@);
    r
}

/// The message logged when a launch is refused before it starts.
pub open spec fn launch_refusal(state: AppStateStorage, group_index: usize, prog_index: usize) -> Option<Seq<char>> {
    if group_index >= state.groups@.len() {
        Some("Error: Group index "@ + decimal(group_index as nat) + " not found"@)
    } else if prog_index >= state.groups@[group_index as int].programs@.len() {
        Some("Error: Missing rule id for rule index "@ + decimal(prog_index as nat) + " in group "@ + decimal(
            group_index as nat,
        ))
    } else {
        None
    }
}

/// Starts the launch of rule `prog_index` of group `group_index` of a state: with the
/// group's cores and the ids the state's rules have. Where the group or the rule's id is
/// missing, the refusal is logged as important and the launch ends rejected.
pub fn run_app_with_affinity_sync(
    state: &AppStateStorage,
    registry: &RuntimeRegistry,
    log: &mut Vec<LaunchLog>,
    group_index: usize,
    prog_index: usize,
    app_to_run: AppToRun,
) -> (r: (LaunchState, LaunchAction))
    requires
        from_storage_fits(*state),
        group_index < state.groups@.len() ==> first_out_of_range(state.groups@[group_index as int].cores@) is None,
    ensures
        match launch_refusal(*state, group_index, prog_index) {
            Some(m) => {
                &&& r.0 is Finished
                &&& r.1 matches LaunchAction::Finish(LaunchDispatchOutcome::Rejected(e)) && e@ == m
                &&& final(log)@ == old(log)@.push(LaunchLog { message: r.1->Finish_0->Rejected_0, important: true })
            },
            None => launch_start_spec(
                registry.apps@,
                old(log)@,
                final(log)@,
                from_storage_groups(*state)[group_index as int],
                from_storage_rules(*state)[group_index as int][prog_index as int],
                app_to_run,
                state.groups@[group_index as int].cores@,
                r,
            ),
        },
{
    if group_index >= state.groups.len() {
        let a = concat("Error: Group index ", format_usize(group_index).as_str());
        let m = concat(a.as_str(), " not found");
        let e = m.clone();
        log.push(LaunchLog { message: m, important: true });
        return (LaunchState::Finished, LaunchAction::Finish(LaunchDispatchOutcome::Rejected(e)));
    }
    let group_cores = crate::models::clone_cores(&state.groups[group_index].cores);
    let rules = RulesContext::from_storage(state);
    let group_id = match rules.group_id_for_index(group_index) {
        Some(id) => id,
        None => {
            let a = concat("Error: Missing group id for group index ", format_usize(group_index).as_str());
            let e = a.clone();
            log.push(LaunchLog { message: a, important: true });
            return (LaunchState::Finished, LaunchAction::Finish(LaunchDispatchOutcome::Rejected(e)));
        },
    };
    let rule_id = match rules.rule_id_for_index(group_index, prog_index) {
        Some(id) => id,
        None => {
            let a = concat("Error: Missing rule id for rule index ", format_usize(prog_index).as_str());
            let b = concat(a.as_str(), " in group ");
            let m = concat(b.as_str(), format_usize(group_index).as_str());
            let e = m.clone();
            log.push(LaunchLog { message: m, important: true });
            return (LaunchState::Finished, LaunchAction::Finish(LaunchDispatchOutcome::Rejected(e)));
        },
    };
    start_launch(registry, log, group_id, rule_id, app_to_run, group_cores)
}

} // verus!

verus! {

/// A rule whose processes are tracked already is not started again: the launch applies the
/// group's mask and the rule's priority to every tracked process, then asks to focus a window
/// of those processes, then is accepted with one log line saying whether a window was found.
/// It never runs, activates or looks up anything, and the tracked rules do not change.
pub proof fn lemma_already_running_launch(
    apps: Seq<RunningApp>,
    log0: Seq<LaunchLog>,
    log1: Seq<LaunchLog>,
    log2: Seq<LaunchLog>,
    log3: Seq<LaunchLog>,
    apps2: Seq<RunningApp>,
    apps3: Seq<RunningApp>,
    group_id: Seq<char>,
    rule_id: Seq<char>,
    app: AppToRun,
    cores: Seq<usize>,
    r1: (LaunchState, LaunchAction),
    r2: (LaunchState, LaunchAction),
    r3: (LaunchState, LaunchAction),
    found: bool,
)
    requires
        registry_pids(apps, app_key_spec(app@)) is Some,
        launch_start_spec(apps, log0, log1, group_id, rule_id, app, cores, r1),
        reapply_step(r1.0, r2, log1, log2, apps, apps2),
        focus_step(r2.0, LaunchEvent::Focused(found), r3, log2, log3, apps2, apps3),
    ensures
        ({
            let pids = registry_pids(apps, app_key_spec(app@))->Some_0;
            &&& r1.1 matches LaunchAction::ApplySettings { pids: q, mask, priority } && q@ == pids && mask
                == cores_mask(cores) && priority == app.priority
            &&& r2.1 matches LaunchAction::FocusAny { pids: q } && q@ == pids
            &&& r3.1 == LaunchAction::Finish(LaunchDispatchOutcome::Accepted)
            &&& apps3 == apps
            &&& log3.len() == log0.len() + 1
            &&& log3.take(log0.len() as int) == log0
            &&& log3.last().message@ == already_running_message(app@, found)
        }),
{
}

} // verus!

verus! {

/// A process image is inside an install root at any depth: when the path, normalized, is the
/// normalized root, or the normalized root followed by a backslash and anything at all
/// (further folders included), the image counts as inside the root; and only then.
pub proof fn lemma_under_root_at_any_depth(path: Seq<char>, root: Seq<char>, rest: Seq<char>)
    ensures
        normalized_for_prefix(path) == normalized_for_prefix(root) ==> is_under_root(path, root),
        normalized_for_prefix(path) == normalized_for_prefix(root).push('\\') + rest ==> is_under_root(path, root),
        is_under_root(path, root) ==> normalized_for_prefix(path) == normalized_for_prefix(root) || normalized_for_prefix(
            path,
        ) == normalized_for_prefix(root).push('\\') + normalized_for_prefix(path).skip(
            normalized_for_prefix(root).len() + 1int,
        ),
{
    let p = normalized_for_prefix(path);
    let r = normalized_for_prefix(root).push('\\');
    if p == r + rest {
        assert(p.take(r.len() as int) =~= r);
    }
    if crate::event_log::starts_with(p, r) {
        assert(p =~= p.take(r.len() as int) + p.skip(r.len() as int));
    }
}

/// Autorun picks every autorun rule of every group and nothing else: each rule marked autorun
/// appears with its group's index and its own index, and every item listed is such a rule.
pub proof fn lemma_autorun_items_exact(groups: Seq<CoreGroup>)
    requires
        groups.len() <= usize::MAX,
        forall|g: int| 0 <= g < groups.len() ==> #[trigger] groups[g].programs@.len() <= usize::MAX,
    ensures
        forall|g: int, p: int|
            0 <= g < groups.len() && 0 <= p < groups[g].programs@.len() && (#[trigger] groups[g].programs@[p]).autorun
                ==> autorun_items(groups).contains((g as usize, p as usize, groups[g].programs@[p]@)),
        forall|k: int|
            0 <= k < autorun_items(groups).len() ==> {
                let t = #[trigger] autorun_items(groups)[k];
                &&& (t.0 as int) < groups.len()
                &&& (t.1 as int) < groups[t.0 as int].programs@.len()
                &&& groups[t.0 as int].programs@[t.1 as int].autorun
                &&& t.2 == groups[t.0 as int].programs@[t.1 as int]@
            },
    decreases groups.len(),
{
    if groups.len() > 0 {
        let rest = groups.drop_last();
        let gl = (groups.len() - 1) as usize;
        assert forall|g: int| 0 <= g < rest.len() implies #[trigger] rest[g].programs@.len() <= usize::MAX by {
            assert(rest[g] == groups[g]);
        }
        lemma_autorun_items_exact(rest);
        lemma_autorun_in_group_exact(gl, groups.last().programs@);
        let a = autorun_items(rest);
        let b = autorun_in_group(gl, groups.last().programs@);
        let all = autorun_items(groups);
        assert(all == a + b);
        assert forall|g: int, p: int|
            0 <= g < groups.len() && 0 <= p < groups[g].programs@.len() && (#[trigger] groups[g].programs@[p]).autorun
                implies all.contains((g as usize, p as usize, groups[g].programs@[p]@)) by {
            let t = (g as usize, p as usize, groups[g].programs@[p]@);
            if g < rest.len() {
                assert(rest[g] == groups[g]);
                assert(rest[g].programs@[p].autorun);
                assert(a.contains(t));
                let w = choose|w: int| 0 <= w < a.len() && a[w] == t;
                assert(all[w] == t);
            } else {
                assert(groups[g] == groups.last());
                assert(b.contains(t));
                let w = choose|w: int| 0 <= w < b.len() && b[w] == t;
                assert(all[a.len() + w] == t);
            }
        }
        assert forall|k: int| 0 <= k < all.len() implies {
            let t = #[trigger] all[k];
            &&& (t.0 as int) < groups.len()
            &&& (t.1 as int) < groups[t.0 as int].programs@.len()
            &&& groups[t.0 as int].programs@[t.1 as int].autorun
            &&& t.2 == groups[t.0 as int].programs@[t.1 as int]@
        } by {
            if k < a.len() {
                assert(all[k] == a[k]);
                let t = a[k];
                assert(rest[t.0 as int] == groups[t.0 as int]);
            } else {
                assert(all[k] == b[k - a.len()]);
                let t = b[k - a.len()];
                assert(t.0 == gl);
            }
        }
    }
}

/// The autorun rules of one group: each rule marked autorun appears with the group's index and
/// its own, and every item listed is such a rule.
pub proof fn lemma_autorun_in_group_exact(g: usize, programs: Seq<AppToRun>)
    requires
        programs.len() <= usize::MAX,
    ensures
        forall|p: int|
            0 <= p < programs.len() && (#[trigger] programs[p]).autorun ==> autorun_in_group(g, programs).contains(
                (g, p as usize, programs[p]@),
            ),
        forall|k: int|
            0 <= k < autorun_in_group(g, programs).len() ==> {
                let t = #[trigger] autorun_in_group(g, programs)[k];
                &&& t.0 == g
                &&& (t.1 as int) < programs.len()
                &&& programs[t.1 as int].autorun
                &&& t.2 == programs[t.1 as int]@
            },
    decreases programs.len(),
{
    if programs.len() > 0 {
        let rest = programs.drop_last();
        lemma_autorun_in_group_exact(g, rest);
        let r0 = autorun_in_group(g, rest);
        let r = autorun_in_group(g, programs);
        assert forall|p: int| 0 <= p < programs.len() && (#[trigger] programs[p]).autorun implies r.contains(
            (g, p as usize, programs[p]@),
        ) by {
            if p < rest.len() {
                assert(rest[p] == programs[p]);
                let w = choose|w: int| 0 <= w < r0.len() && r0[w] == (g, p as usize, rest[p]@);
                assert(r[w] == r0[w]);
            } else {
                assert(r[r.len() - 1] == (g, p as usize, programs[p]@));
            }
        }
        assert forall|k: int| 0 <= k < r.len() implies {
            let t = #[trigger] r[k];
            &&& t.0 == g
            &&& (t.1 as int) < programs.len()
            &&& programs[t.1 as int].autorun
            &&& t.2 == programs[t.1 as int]@
        } by {
            if k < r0.len() {
                assert(r[k] == r0[k]);
                assert(rest[r0[k].1 as int] == programs[r0[k].1 as int]);
            }
        }
    }
}

} // verus!
