use vstd::prelude::*;
use crate::catalog::{InstalledAppCatalogEntry, InstalledAppCatalogTarget};
use crate::models::{
    AppToRun, AppToRunView, LaunchTarget, apps_view, default_rule_name, default_tracked_processes,
};
use crate::process::PriorityClass;

verus! {

/// A file dropped onto a group, with what resolving it gave: the executable and its
/// arguments, or the error text.
pub struct DroppedFile {
    pub path: String,
    pub resolved: Result<(String, Vec<String>), String>,
}

/// Rules found among dropped files, and the first file that could not be resolved.
pub struct DiscoveredApps {
    pub apps: Vec<AppToRun>,
    pub first_error: Option<String>,
}

/// `r` launches `bin_path` with `args` for the dropped file `dropped_path`, tracks the
/// executable's own process, at normal priority and without autorun.
pub open spec fn is_resolved_rule(
    r: AppToRunView,
    dropped_path: String,
    bin_path: String,
    args: Seq<String>,
) -> bool {
    &&& r.launch_target == (LaunchTarget::Path { dropped_path, bin_path })
    &&& r.args == args
    &&& r.additional_processes.map_values(|p: String| p@) == default_tracked_processes(bin_path@)
    &&& !r.autorun
    &&& r.priority == PriorityClass::Normal
}

/// `r` is the rule that a dropped file `dropped_path` resolved to `bin_path` with `args`
/// makes: a resolved rule named after the dropped file.
pub open spec fn is_dropped_rule(
    r: AppToRunView,
    dropped_path: String,
    bin_path: String,
    args: Seq<String>,
) -> bool {
    &&& r.name@ == default_rule_name(dropped_path@)
    &&& is_resolved_rule(r, dropped_path, bin_path, args)
}

/// Number of dropped files before the first one that could not be resolved.
pub open spec fn resolved_prefix_len(files: Seq<DroppedFile>) -> nat
    decreases files.len(),
{
    if files.len() == 0 {
        0
    } else if files[0].resolved is Err {
        0
    } else {
        1 + resolved_prefix_len(files.drop_first())
    }
}

proof fn lemma_prefix_len_exact(files: Seq<DroppedFile>, k: int)
    requires
        0 <= k <= files.len(),
        forall|i: int| 0 <= i < k ==> (#[trigger] files[i]).resolved is Ok,
        k == files.len() || files[k].resolved is Err,
    ensures
        resolved_prefix_len(files) == k,
    decreases files.len(),
{
    if files.len() > 0 && k > 0 {
        assert forall|i: int| 0 <= i < k - 1 implies (#[trigger] files.drop_first()[i]).resolved is Ok by {
            assert(files.drop_first()[i] == files[i + 1]);
        }
        if k < files.len() {
            assert(files.drop_first()[k - 1] == files[k]);
        }
        assert(files[0].resolved is Ok);
        lemma_prefix_len_exact(files.drop_first(), k - 1);
    }
}

/// `apps` are the rules made from the dropped files before the first one that could not be
/// resolved, in order.
pub open spec fn are_dropped_rules(apps: Seq<AppToRunView>, files: Seq<DroppedFile>) -> bool {
    &&& apps.len() == resolved_prefix_len(files)
    &&& forall|i: int| 0 <= i < apps.len() ==> ((#[trigger] files[i]).resolved matches Ok((bin, args))
        && is_dropped_rule(apps[i], files[i].path, bin, args@))
}

/// The error of the first dropped file that could not be resolved, if any.
pub open spec fn first_resolve_error(files: Seq<DroppedFile>) -> Option<String> {
    if resolved_prefix_len(files) < files.len() {
        Some(files[resolved_prefix_len(files) as int].resolved->Err_0)
    } else {
        None
    }
}

/// Rules for the dropped files, in order, up to the first file that could not be resolved;
/// that file's error is reported and the files after it are left alone.
pub fn apps_from_dropped_paths(dropped: Vec<DroppedFile>) -> (r: DiscoveredApps)
    ensures
        are_dropped_rules(apps_view(r.apps@), dropped@),
        r.first_error == first_resolve_error(dropped@),
{
    let ghost files = dropped@;
    assert(files.len() == dropped.len());
    let mut apps: Vec<AppToRun> = Vec::new();
    let mut first_error: Option<String> = None;
    let mut rest = dropped;
    let mut i: usize = 0;
    assert(rest@ =~= files.subrange(0, files.len() as int));
    while rest.len() > 0
        invariant_except_break
            rest@ =~= files.subrange(i as int, files.len() as int),
            files.len() <= usize::MAX,
            i <= files.len(),
            apps@.len() == i,
            forall|j: int| 0 <= j < i ==> (#[trigger] files[j]).resolved is Ok,
            forall|j: int| 0 <= j < i ==> ((#[trigger] files[j]).resolved matches Ok((bin, args))
                && is_dropped_rule(apps@[j]@, files[j].path, bin, args@)),
            first_error is None,
        ensures
            i <= files.len(),
            apps@.len() == i,
            forall|j: int| 0 <= j < i ==> (#[trigger] files[j]).resolved is Ok,
            forall|j: int| 0 <= j < i ==> ((#[trigger] files[j]).resolved matches Ok((bin, args))
                && is_dropped_rule(apps@[j]@, files[j].path, bin, args@)),
            i == files.len() || files[i as int].resolved is Err,
            first_error == (if i < files.len() {
                Some(files[i as int].resolved->Err_0)
            } else {
                None::<String>
            }),
        decreases rest.len(),
    {
        let file = rest.remove(0);
        proof {
            assert(file == files[i as int]);
            assert(rest@ =~= files.subrange(i + 1, files.len() as int));
        }
        match file.resolved {
            Ok((bin_path, args)) => {
                let ghost bin = bin_path;
                let ghost a = args@;
                let app = AppToRun::new_path(file.path, args, bin_path, PriorityClass::Normal, false);
                apps.push(app);
                proof {
                    assert(is_dropped_rule(apps@[i as int]@, files[i as int].path, bin, a));
                }
                i = i + 1;
            },
            Err(err) => {
                first_error = Some(err);
                break;
            },
        }
    }
    proof {
        lemma_prefix_len_exact(files, i as int);
        assert forall|j: int| 0 <= j < apps@.len() implies ((#[trigger] files[j]).resolved matches Ok(
            (bin, args),
        ) && is_dropped_rule(apps_view(apps@)[j], files[j].path, bin, args@)) by {
            assert(apps_view(apps@)[j] == apps@[j]@);
        }
    }
    DiscoveredApps { apps, first_error }
}

/// Dropped files being turned into rules one at a time: the paths not parsed yet (the first is
/// being parsed) and the rules made so far.
pub struct DroppedPathsScan {
    pub rest: Vec<String>,
    pub apps: Vec<AppToRun>,
}

/// What the caller does next: parse a dropped path, or stop; a stop carries the error of the
/// path that could not be parsed, if one could not.
pub enum DroppedPathsAction {
    Parse(String),
    Finish(Option<String>),
}

/// The action that goes with the paths left: parse the first, or stop without an error.
pub open spec fn next_parse(rest: Seq<String>, a: DroppedPathsAction) -> bool {
    if rest.len() > 0 {
        a matches DroppedPathsAction::Parse(p) && p@ == rest[0]@
    } else {
        a == DroppedPathsAction::Finish(None)
    }
}

/// Starts turning dropped paths into rules: the first path is parsed first; with no path the
/// scan stops at once.
pub fn start_dropped_paths(paths: Vec<String>) -> (r: (DroppedPathsScan, DroppedPathsAction))
    ensures
        r.0.rest@ == paths@,
        r.0.apps@.len() == 0,
        next_parse(paths@, r.1),
{
    let action = if paths.len() > 0 {
        DroppedPathsAction::Parse(paths[0].clone())
    } else {
        DroppedPathsAction::Finish(None)
    };
    (DroppedPathsScan { rest: paths, apps: Vec::new() }, action)
}

/// Takes what parsing the first path left gave: a parsed path becomes a rule (see
/// `is_dropped_rule`) and the next path is parsed; a path that could not be parsed stops the
/// scan with its error, so no later path is ever parsed. With no path left the scan stops.
pub fn step_dropped_paths(
    scan: DroppedPathsScan,
    parsed: Result<(String, Vec<String>), String>,
) -> (r: (DroppedPathsScan, DroppedPathsAction))
    ensures
        scan.rest@.len() == 0 ==> r.0 == scan && r.1 == DroppedPathsAction::Finish(None),
        scan.rest@.len() > 0 ==> match parsed {
            Err(e) => r.0 == scan && r.1 == DroppedPathsAction::Finish(Some(e)),
            Ok((bin, args)) => {
                &&& r.0.rest@ == scan.rest@.drop_first()
                &&& r.0.apps@.len() == scan.apps@.len() + 1
                &&& r.0.apps@.drop_last() == scan.apps@
                &&& is_dropped_rule(r.0.apps@.last()@, scan.rest@[0], bin, args@)
                &&& next_parse(r.0.rest@, r.1)
            },
        },
{
    let mut scan = scan;
    if scan.rest.len() == 0 {
        return (scan, DroppedPathsAction::Finish(None));
    }
    match parsed {
        Err(e) => (scan, DroppedPathsAction::Finish(Some(e))),
        Ok((bin_path, args)) => {
            let ghost before = scan.apps@;
            let path = scan.rest.remove(0);
            let app = AppToRun::new_path(path, args, bin_path, PriorityClass::Normal, false);
            scan.apps.push(app);
            assert(scan.apps@.drop_last() =~= before);
            let action = if scan.rest.len() > 0 {
                DroppedPathsAction::Parse(scan.rest[0].clone())
            } else {
                DroppedPathsAction::Finish(None)
            };
            (scan, action)
        },
    }
}

/// The error that turning a picker entry into a rule gives: that of resolving its path.
pub open spec fn entry_resolution_error(
    entry: InstalledAppCatalogEntry,
    resolved_path: Option<Result<(String, Vec<String>), String>>,
) -> Option<String> {
    match entry.target {
        InstalledAppCatalogTarget::Aumid(_) => None,
        InstalledAppCatalogTarget::Path(_) => match resolved_path {
            Some(Err(e)) => Some(e),
            _ => None,
        },
    }
}

/// `app` is the rule that a picker entry makes: it carries the entry's name, activates an
/// installed application by its id, or launches what the entry's path resolved to; normal
/// priority, no autorun.
pub open spec fn is_entry_rule(
    app: AppToRunView,
    entry: InstalledAppCatalogEntry,
    resolved_path: Option<Result<(String, Vec<String>), String>>,
) -> bool {
    &&& app.name == entry.name
    &&& match entry.target {
        InstalledAppCatalogTarget::Aumid(aumid) => {
            &&& app.launch_target == (LaunchTarget::Installed { aumid })
            &&& app.args.len() == 0
            &&& app.additional_processes.len() == 0
            &&& !app.autorun
            &&& app.priority == PriorityClass::Normal
        },
        InstalledAppCatalogTarget::Path(path) => resolved_path matches Some(Ok((bin, args)))
            && is_resolved_rule(app, path, bin, args@),
    }
}

/// The rule that a picker entry makes: an installed application is activated by its id;
/// an executable path uses the picker's name and what resolving the path gave, which must be
/// handed in as `resolved_path` for path entries.
pub fn app_from_installed_entry(
    entry: InstalledAppCatalogEntry,
    resolved_path: Option<Result<(String, Vec<String>), String>>,
) -> (r: Result<AppToRun, String>)
    requires
        entry.target is Path ==> resolved_path is Some,
    ensures
        match entry_resolution_error(entry, resolved_path) {
            Some(e) => r == Err::<AppToRun, String>(e),
            None => r matches Ok(app) && is_entry_rule(app@, entry, resolved_path),
        },
{
    match entry.target {
        InstalledAppCatalogTarget::Aumid(aumid) => Ok(
            AppToRun::new_installed(entry.name, aumid, PriorityClass::Normal, false),
        ),
        InstalledAppCatalogTarget::Path(path) => {
            match resolved_path.unwrap() {
                Ok((bin_path, args)) => {
                    let mut app = AppToRun::new_path(path, args, bin_path, PriorityClass::Normal, false);
                    app.name = entry.name;
                    Ok(app)
                },
                Err(e) => Err(e),
            }
        },
    }
}

} // verus!
