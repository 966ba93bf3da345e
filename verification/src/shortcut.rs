use vstd::prelude::*;
use crate::ids::{GroupId, RuleId, is_cli_safe_id, is_cli_safe_id_spec};
use crate::models::AppStateStorage;
use crate::rules::RulesContext;
use crate::text::{concat, decimal, format_usize, owned, str_chars, string_from_chars};
use crate::winpath::{has_drive, is_sep, join, join_spec, trimmed_len};
use crate::shortcut_flow::{
    RuleShortcutAction, RuleShortcutEvent, RuleShortcutStage, action_fits, candidate_path, flow_measure, same_result,
    ids_checked, saved_display_name, start_rule_shortcut, step_rule_shortcut,
};

verus! {

/// How many file names shortcut creation tries before giving up.
pub const MAX_SHORTCUT_FILENAME_ATTEMPTS: usize = 100;
/// Longest base name, in characters, of a numbered shortcut file name with its suffix.
pub const MAX_SHORTCUT_NAME_CHARS: usize = 120;

/// A shortcut to write: where, what it starts with which arguments, where, and its icon.
#[derive(Debug, Clone, PartialEq, Eq)]
pub struct ShortcutSpec {
    pub shortcut_path: String,
    pub target_path: String,
    pub arguments: Vec<String>,
    pub working_dir: Option<String>,
    pub icon_path: Option<String>,
    pub icon_index: i32,
}

/// How writing a new shortcut failed.
#[derive(Debug, Clone, PartialEq, Eq)]
pub enum ShortcutWriteError {
    AlreadyExists,
    Failed(String),
}

/// Why a desktop shortcut for a saved rule could not be created.
#[derive(Debug, Clone, Copy, PartialEq, Eq, Structural)]
pub enum CreateRuleShortcutError {
    MissingGroup,
    MissingRule,
    NoTarget,
    DraftNotLoaded,
    SaveChangesFirst,
    InvalidShortcutId,
    UnsupportedPlatform,
    CurrentExeUnavailable,
    DesktopUnavailable,
    StorageUnavailable,
    NameCollisionExhausted,
    CreateCollision,
    OsWriteFailure,
}

/// The message shown for each error.
pub open spec fn user_message(e: CreateRuleShortcutError) -> Seq<char> {
    match e {
        CreateRuleShortcutError::MissingGroup => "Shortcut target group was not found."@,
        CreateRuleShortcutError::MissingRule => "Shortcut target rule was not found."@,
        CreateRuleShortcutError::NoTarget => "Shortcut target is unavailable."@,
        CreateRuleShortcutError::DraftNotLoaded => "Shortcut target is not loaded."@,
        CreateRuleShortcutError::SaveChangesFirst => "Save changes before creating a shortcut."@,
        CreateRuleShortcutError::InvalidShortcutId => "Shortcut target ID is invalid."@,
        CreateRuleShortcutError::UnsupportedPlatform => "Desktop shortcut creation is only supported on Windows."@,
        CreateRuleShortcutError::CurrentExeUnavailable => "Current executable path is unavailable."@,
        CreateRuleShortcutError::DesktopUnavailable => "Desktop folder is unavailable."@,
        CreateRuleShortcutError::StorageUnavailable => "Saved app state is unavailable."@,
        CreateRuleShortcutError::NameCollisionExhausted => "Could not find an available shortcut filename."@,
        CreateRuleShortcutError::CreateCollision => "Shortcut filename was taken before it could be created."@,
        CreateRuleShortcutError::OsWriteFailure => "Shortcut could not be written."@,
    }
}

impl CreateRuleShortcutError {
    /// The message shown to the user for this error.
    pub fn to_user_message(&self) -> (r: &'static str)
        ensures
            r@ == user_message(*self),
    {
        match self {
            CreateRuleShortcutError::MissingGroup => "Shortcut target group was not found.",
            CreateRuleShortcutError::MissingRule => "Shortcut target rule was not found.",
            CreateRuleShortcutError::NoTarget => "Shortcut target is unavailable.",
            CreateRuleShortcutError::DraftNotLoaded => "Shortcut target is not loaded.",
            CreateRuleShortcutError::SaveChangesFirst => "Save changes before creating a shortcut.",
            CreateRuleShortcutError::InvalidShortcutId => "Shortcut target ID is invalid.",
            CreateRuleShortcutError::UnsupportedPlatform => "Desktop shortcut creation is only supported on Windows.",
            CreateRuleShortcutError::CurrentExeUnavailable => "Current executable path is unavailable.",
            CreateRuleShortcutError::DesktopUnavailable => "Desktop folder is unavailable.",
            CreateRuleShortcutError::StorageUnavailable => "Saved app state is unavailable.",
            CreateRuleShortcutError::NameCollisionExhausted => "Could not find an available shortcut filename.",
            CreateRuleShortcutError::CreateCollision => "Shortcut filename was taken before it could be created.",
            CreateRuleShortcutError::OsWriteFailure => "Shortcut could not be written.",
        }
    }
}

/// What the platform offers shortcut creation: whether it is supported, the running
/// executable, the user's desktop folder, whether a shortcut path is taken, and writing a new
/// shortcut that must not replace an existing file.
pub trait RuleShortcutPlatform {
    fn is_supported(&self) -> bool;

    fn current_exe_path(&mut self) -> Result<String, String>;

    fn current_user_desktop_dir(&mut self) -> Result<String, String>;

    fn shortcut_path_exists(&mut self, path: &str) -> Result<bool, String>;

    fn create_shortcut_new(&mut self, spec: ShortcutSpec) -> Result<(), ShortcutWriteError>;
}

// ---------------------------------------------------------------------------------------
// File names

/// `s` without trailing spaces and dots.
pub open spec fn trim_end_spaces_dots(s: Seq<char>) -> Seq<char>
    decreases s.len(),
{
    if s.len() > 0 && (s.last() == ' ' || s.last() == '.') {
        trim_end_spaces_dots(s.drop_last())
    } else {
        s
    }
}

/// The shortcut file name of attempt `attempt`: the display name for the first attempt;
/// then the display name cut so that it fits `MAX_SHORTCUT_NAME_CHARS` with the ` (n)`
/// suffix, without trailing spaces or dots (a fixed name when nothing is left), and the
/// suffix; always with `.lnk`.
pub open spec fn shortcut_filename_spec(display_name: Seq<char>, attempt: nat) -> Seq<char> {
    if attempt == 0 {
        display_name + ".lnk"@
    } else {
        let suffix = " ("@ + decimal(attempt) + ")"@;
        let max_base = if suffix.len() >= MAX_SHORTCUT_NAME_CHARS {
            1
        } else {
            (MAX_SHORTCUT_NAME_CHARS - suffix.len()) as int
        };
        let cut = if display_name.len() <= max_base {
            display_name
        } else {
            display_name.take(max_base)
        };
        let base = trim_end_spaces_dots(cut);
        let base = if base.len() == 0 {
            "CPU Affinity Rule"@
        } else {
            base
        };
        base + suffix + ".lnk"@
    }
}

/// The shortcut file name of attempt `attempt` (see `shortcut_filename_spec`).
pub fn shortcut_filename(display_name: &str, attempt: usize) -> (r: String)
    ensures
        r@ == shortcut_filename_spec(display_name@, attempt as nat),
{
    if attempt == 0 {
        return concat(display_name, ".lnk");
    }
    let a = concat(" (", format_usize(attempt).as_str());
    let suffix = concat(a.as_str(), ")");
    let suffix_len = str_chars(suffix.as_str()).len();
    let max_base: usize = if suffix_len >= MAX_SHORTCUT_NAME_CHARS {
        1
    } else {
        MAX_SHORTCUT_NAME_CHARS - suffix_len
    };
    let v = str_chars(display_name);
    let take = if v.len() <= max_base {
        v.len()
    } else {
        max_base
    };
    let mut end = take;
    assert(v@.take(take as int) =~= if v@.len() <= max_base {
        display_name@
    } else {
        display_name@.take(max_base as int)
    });
    assert(v@.take(end as int) =~= v@.take(take as int));
    while end > 0 && (v[end - 1] == ' ' || v[end - 1] == '.')
        invariant
            end <= take <= v@.len(),
            trim_end_spaces_dots(v@.take(take as int)) == trim_end_spaces_dots(v@.take(end as int)),
        decreases end,
    {
        assert(v@.take(end as int).drop_last() =~= v@.take(end - 1));
        end = end - 1;
    }
    assert(trim_end_spaces_dots(v@.take(end as int)) == v@.take(end as int));
    let base = if end == 0 {
        owned("CPU Affinity Rule")
    } else {
        string_from_chars(v.as_slice(), 0, end)
    };
    let with_suffix = concat(base.as_str(), suffix.as_str());
    concat(with_suffix.as_str(), ".lnk")
}

// ---------------------------------------------------------------------------------------
// The saved rule a shortcut starts

/// Index of the first element of `s` equal to `x`, if any.
pub open spec fn index_of_first(s: Seq<Seq<char>>, x: Seq<char>) -> Option<int>
    decreases s.len(),
{
    if s.len() == 0 {
        None
    } else {
        match index_of_first(s.drop_last(), x) {
            Some(i) => Some(i),
            None => if s.last() == x {
                Some(s.len() - 1)
            } else {
                None
            },
        }
    }
}

proof fn lemma_index_of_first(s: Seq<Seq<char>>, x: Seq<char>, r: Option<int>)
    requires
        r matches Some(i) ==> 0 <= i < s.len() && s[i] == x && forall|j: int| 0 <= j < i ==> s[j] != x,
        r is None ==> forall|j: int| 0 <= j < s.len() ==> s[j] != x,
    ensures
        index_of_first(s, x) == r,
    decreases s.len(),
{
    if s.len() > 0 {
        let t = s.drop_last();
        match r {
            Some(i) => {
                if i < s.len() - 1 {
                    assert forall|j: int| 0 <= j < i implies t[j] != x by {
                        assert(t[j] == s[j]);
                    }
                    lemma_index_of_first(t, x, Some(i));
                } else {
                    assert forall|j: int| 0 <= j < t.len() implies t[j] != x by {
                        assert(t[j] == s[j]);
                    }
                    lemma_index_of_first(t, x, None);
                }
            },
            None => {
                assert forall|j: int| 0 <= j < t.len() implies t[j] != x by {
                    assert(t[j] == s[j]);
                }
                lemma_index_of_first(t, x, None);
                assert(s[s.len() - 1] != x);
            },
        }
    }
}

/// Where a saved rule stands: the group holding `group_id` and, in it, the rule holding
/// `rule_id`, both also present in the saved state; else which of them is missing.
pub open spec fn saved_rule_position(
    storage: AppStateStorage,
    rules: RulesContext,
    group_id: Seq<char>,
    rule_id: Seq<char>,
) -> Result<(int, int), CreateRuleShortcutError> {
    match index_of_first(rules.groups(), group_id) {
        None => Err(CreateRuleShortcutError::MissingGroup),
        Some(g) => if g >= rules.rules().len() {
            Err(CreateRuleShortcutError::MissingRule)
        } else {
            match index_of_first(rules.rules()[g], rule_id) {
                None => Err(CreateRuleShortcutError::MissingRule),
                Some(p) => if g >= storage.groups@.len() {
                    Err(CreateRuleShortcutError::MissingGroup)
                } else if p >= storage.groups@[g].programs@.len() {
                    Err(CreateRuleShortcutError::MissingRule)
                } else {
                    Ok((g, p))
                },
            }
        },
    }
}

/// Finds the saved rule a shortcut is for (see `saved_rule_position`).
pub fn find_saved_rule(storage: &AppStateStorage, rules: &RulesContext, group_id: &GroupId, rule_id: &RuleId) -> (r:
    Result<(usize, usize), CreateRuleShortcutError>)
    ensures
        match saved_rule_position(*storage, *rules, group_id@, rule_id@) {
            Ok((g, p)) => r == Ok::<(usize, usize), CreateRuleShortcutError>((g as usize, p as usize)),
            Err(e) => r == Err::<(usize, usize), CreateRuleShortcutError>(e),
        },
        r matches Ok((g, p)) ==> g < storage.groups@.len() && p < storage.groups@[g as int].programs@.len()
            && saved_rule_position(*storage, *rules, group_id@, rule_id@) == Ok::<(int, int), CreateRuleShortcutError>((g as int, p as int)),
{
    let gi = rules.group_index_for_id(group_id);
    proof {
        lemma_index_of_first(
            rules.groups(),
            group_id@,
            match gi {
                Some(i) => Some(i as int),
                None => None,
            },
        );
    }
    let group_index = match gi {
        Some(i) => i,
        None => return Err(CreateRuleShortcutError::MissingGroup),
    };
    let ri = rules.rule_index_for_id(group_index, rule_id);
    proof {
        if group_index < rules.rules().len() {
            lemma_index_of_first(
                rules.rules()[group_index as int],
                rule_id@,
                match ri {
                    Some(i) => Some(i as int),
                    None => None,
                },
            );
        }
    }
    let rule_index = match ri {
        Some(i) => i,
        None => return Err(CreateRuleShortcutError::MissingRule),
    };
    if group_index >= storage.groups.len() {
        return Err(CreateRuleShortcutError::MissingGroup);
    }
    if rule_index >= storage.groups[group_index].programs.len() {
        return Err(CreateRuleShortcutError::MissingRule);
    }
    Ok((group_index, rule_index))
}

/// The directory of a path, as `Path::parent` gives it for plain Windows paths: the path
/// without its last component and the separators before it, keeping a root separator; empty
/// for a bare relative name, the drive for a drive-relative name; `None` for an empty path,
/// a root or a bare drive.
pub open spec fn parent_dir(path: Seq<char>) -> Option<Seq<char>> {
    let n = trimmed_len(path) as int;
    if n == 0 || (has_drive(path) && n == 2) {
        None
    } else {
        match last_sep_index(path, n) {
            None => if has_drive(path) {
                Some(path.take(2))
            } else {
                Some(Seq::empty())
            },
            Some(i) => {
                let k = trimmed_len(path.take(i)) as int;
                if k == 0 || (has_drive(path) && k == 2) {
                    Some(path.take(k + 1))
                } else {
                    Some(path.take(k))
                }
            },
        }
    }
}

/// Index of the last separator of `s.take(n)`, if any.
pub open spec fn last_sep_index(s: Seq<char>, n: int) -> Option<int>
    decreases n,
{
    if n <= 0 {
        None
    } else if is_sep(s[n - 1]) {
        Some(n - 1)
    } else {
        last_sep_index(s, n - 1)
    }
}

proof fn lemma_last_sep_index(s: Seq<char>, n: int)
    requires
        0 <= n <= s.len(),
    ensures
        last_sep_index(s, n) matches Some(i) ==> 0 <= i < n && is_sep(s[i]),
    decreases n,
{
    if n > 0 && !is_sep(s[n - 1]) {
        lemma_last_sep_index(s, n - 1);
    }
}

/// Length of `v[..end]` once trailing separators are dropped.
fn trimmed_end(v: &Vec<char>, end: usize) -> (r: usize)
    requires
        end <= v@.len(),
    ensures
        r as nat == trimmed_len(v@.take(end as int)),
        r <= end,
{
    let mut k = end;
    while k > 0 && (v[k - 1] == '\\' || v[k - 1] == '/')
        invariant
            k <= end <= v@.len(),
            trimmed_len(v@.take(end as int)) == trimmed_len(v@.take(k as int)),
        decreases k,
    {
        assert(v@.take(k as int).drop_last() =~= v@.take(k - 1));
        assert(v@.take(k as int).last() == v@[k - 1]);
        k = k - 1;
    }
    proof {
        if k > 0 {
            assert(v@.take(k as int).last() == v@[k - 1]);
        }
    }
    k
}

pub(crate) fn parent_dir_exec(path: &str) -> (r: Option<String>)
    ensures
        match parent_dir(path@) {
            Some(p) => r matches Some(s) && s@ == p,
            None => r is None,
        },
{
    let v = str_chars(path);
    let n = trimmed_end(&v, v.len());
    assert(v@.take(v@.len() as int) =~= v@);
    let drive = v.len() >= 2 && (('a' <= v[0] && v[0] <= 'z') || ('A' <= v[0] && v[0] <= 'Z')) && v[1] == ':';
    if n == 0 || (drive && n == 2) {
        return None;
    }
    let mut i = n;
    while i > 0 && !(v[i - 1] == '\\' || v[i - 1] == '/')
        invariant
            i <= n <= v@.len(),
            last_sep_index(v@, n as int) == last_sep_index(v@, i as int),
        decreases i,
    {
        i = i - 1;
    }
    if i == 0 {
        if drive {
            return Some(string_from_chars(v.as_slice(), 0, 2));
        }
        assert(v@.subrange(0, 0) =~= Seq::<char>::empty());
        return Some(string_from_chars(v.as_slice(), 0, 0));
    }
    let sep = i - 1;
    assert(last_sep_index(v@, i as int) == Some(sep as int));
    let k = trimmed_end(&v, sep);
    proof {
        lemma_trimmed_len_prefix(v@, sep as int);
    }
    if k == 0 || (drive && k == 2) {
        Some(string_from_chars(v.as_slice(), 0, k + 1))
    } else {
        Some(string_from_chars(v.as_slice(), 0, k))
    }
}

proof fn lemma_trimmed_len_prefix(s: Seq<char>, n: int)
    requires
        0 <= n < s.len(),
        is_sep(s[n]),
    ensures
        trimmed_len(s.take(n)) < s.len(),
{
    lemma_trimmed_len_bound(s.take(n));
}

proof fn lemma_trimmed_len_bound(s: Seq<char>)
    ensures
        trimmed_len(s) <= s.len(),
    decreases s.len(),
{
    if s.len() > 0 && is_sep(s.last()) {
        lemma_trimmed_len_bound(s.drop_last());
    }
}

/// A desktop shortcut for a saved rule before its file name is chosen.
#[derive(Debug, Clone, PartialEq, Eq)]
pub struct SavedRuleShortcut {
    pub display_name: String,
    pub target_path: String,
    pub arguments: Vec<String>,
    pub working_dir: Option<String>,
}

/// Builds the shortcut that starts a saved rule through the tool's own executable: named
/// `<rule> - <group>`, started with `--run-rule <group id> <rule id>` in the executable's
/// directory; ids that are not safe on a command line are refused.
pub fn build_saved_rule_shortcut(
    executable_path: &str,
    app_name: &str,
    group_name: &str,
    group_id: &GroupId,
    rule_id: &RuleId,
) -> (r: Result<SavedRuleShortcut, CreateRuleShortcutError>)
    ensures
        !(is_cli_safe_id_spec(group_id@) && is_cli_safe_id_spec(rule_id@)) ==> r
            == Err::<SavedRuleShortcut, CreateRuleShortcutError>(CreateRuleShortcutError::InvalidShortcutId),
        is_cli_safe_id_spec(group_id@) && is_cli_safe_id_spec(rule_id@) ==> (r matches Ok(s) && {
            &&& s.display_name@ == app_name@ + " - "@ + group_name@
            &&& s.target_path@ == executable_path@
            &&& s.arguments@.map_values(|a: String| a@) == seq!["--run-rule"@, group_id@, rule_id@]
            &&& match parent_dir(executable_path@) {
                Some(p) => s.working_dir matches Some(w) && w@ == p,
                None => s.working_dir is None,
            }
        }),
{
    if !is_cli_safe_id(group_id.0.as_str()) || !is_cli_safe_id(rule_id.0.as_str()) {
        return Err(CreateRuleShortcutError::InvalidShortcutId);
    }
    let a = concat(app_name, " - ");
    let display_name = concat(a.as_str(), group_name);
    let mut arguments: Vec<String> = Vec::new();
    arguments.push(owned("--run-rule"));
    arguments.push(group_id.0.clone());
    arguments.push(rule_id.0.clone());
    assert(arguments@.map_values(|a: String| a@) =~= seq!["--run-rule"@, group_id@, rule_id@]);
    Ok(
        SavedRuleShortcut {
            display_name,
            target_path: owned(executable_path),
            arguments,
            working_dir: parent_dir_exec(executable_path),
        },
    )
}

/// What a failed shortcut write means: a file that appeared meanwhile is a collision, any
/// other failure a write failure.
pub fn write_error_to_create_error(err: &ShortcutWriteError) -> (r: CreateRuleShortcutError)
    ensures
        r == (if *err is AlreadyExists {
            CreateRuleShortcutError::CreateCollision
        } else {
            CreateRuleShortcutError::OsWriteFailure
        }),
{
    match err {
        ShortcutWriteError::AlreadyExists => CreateRuleShortcutError::CreateCollision,
        ShortcutWriteError::Failed(_) => CreateRuleShortcutError::OsWriteFailure,
    }
}

/// Creates a desktop shortcut that starts a saved rule, by answering each action of the
/// shortcut flow (see `start_rule_shortcut` and `step_rule_shortcut`) through `platform`. The
/// rule must still stand where its ids say (else `MissingGroup` or `MissingRule`, before
/// anything is asked of the platform); the platform must support shortcuts and give the
/// executable and desktop; the first of `MAX_SHORTCUT_FILENAME_ATTEMPTS` file names (see
/// `shortcut_filename`) that is not taken is written, as a new file. Gives the shortcut's path.
pub fn create_saved_rule_shortcut<P: RuleShortcutPlatform>(
    storage: &AppStateStorage,
    rules: &RulesContext,
    group_id: GroupId,
    rule_id: RuleId,
    platform: &mut P,
) -> (r: Result<String, CreateRuleShortcutError>)
    ensures
        saved_rule_position(*storage, *rules, group_id@, rule_id@) matches Err(e) ==> r == Err::<
            String,
            CreateRuleShortcutError,
        >(e),
        r matches Ok(path) ==> saved_rule_position(*storage, *rules, group_id@, rule_id@) is Ok
            && is_cli_safe_id_spec(group_id@) && is_cli_safe_id_spec(rule_id@)
            && exists|dir: Seq<char>, attempt: nat| attempt < MAX_SHORTCUT_FILENAME_ATTEMPTS && path@
                == join_spec(
                dir,
                shortcut_filename_spec(
                    storage.groups@[saved_rule_position(*storage, *rules, group_id@, rule_id@)->Ok_0.0].programs@[
                        saved_rule_position(*storage, *rules, group_id@, rule_id@)->Ok_0.1].name@ + " - "@
                        + storage.groups@[saved_rule_position(*storage, *rules, group_id@, rule_id@)->Ok_0.0].name@,
                    attempt,
                ),
            ),
{
    let ghost gid = group_id@;
    let ghost rid = rule_id@;
    let ghost pos = saved_rule_position(*storage, *rules, gid, rid);
    let (mut flow, mut action) = start_rule_shortcut(storage, rules, group_id, rule_id);
    loop
        invariant
            action_fits(flow, action),
            ids_checked(flow),
            flow.attempt < MAX_SHORTCUT_FILENAME_ATTEMPTS,
            flow.group_id@ == gid,
            flow.rule_id@ == rid,
            pos == saved_rule_position(*storage, *rules, gid, rid),
            gid == group_id@,
            rid == rule_id@,
            pos matches Err(e) ==> flow.stage == RuleShortcutStage::Done(Err(e)),
            pos matches Ok((g, p)) ==> flow.display_name@ == saved_display_name(*storage, g, p),
            (flow.stage is Probe || flow.stage is Create || (flow.stage matches RuleShortcutStage::Done(Ok(_)))) ==> flow.candidate@
                == candidate_path(flow.desktop@, flow.display_name@, flow.attempt as nat),
            flow.stage matches RuleShortcutStage::Done(Ok(q)) ==> q@ == flow.candidate@,
        decreases flow_measure(flow),
    {
        let ev = match action {
            RuleShortcutAction::Finish(r) => {
                proof {
                    if let RuleShortcutStage::Done(x) = flow.stage {
                        assert(same_result(x, r));
                        match x {
                            Ok(q) => {
                                assert(pos is Ok);
                                let dir = flow.desktop@;
                                let k = flow.attempt as nat;
                                assert(r->Ok_0@ == join_spec(dir, shortcut_filename_spec(flow.display_name@, k)));
                            },
                            Err(e) => {},
                        }
                    }
                }
                return r;
            },
            RuleShortcutAction::CheckSupport => RuleShortcutEvent::Supported(platform.is_supported()),
            RuleShortcutAction::ResolveExecutable => RuleShortcutEvent::Executable(platform.current_exe_path()),
            RuleShortcutAction::ResolveDesktop => RuleShortcutEvent::Desktop(platform.current_user_desktop_dir()),
            RuleShortcutAction::PathExists(c) => RuleShortcutEvent::PathExists(platform.shortcut_path_exists(c.as_str())),
            RuleShortcutAction::CreateShortcut(spec) => RuleShortcutEvent::Created(platform.create_shortcut_new(spec)),
        };
        let (f, a) = step_rule_shortcut(flow, ev);
        flow = f;
        action = a;
    }
}

} // verus!
