use vstd::prelude::*;
use crate::catalog::InstalledPackageRuntimeInfo;
use crate::ids::{GroupId, RuleId};
use crate::launch::{RuntimeRegistry, registry_index, lemma_registry_index_same_keys};
use crate::event_log::{eq_ignore_ascii_case, names_equal_ignoring_case};
use crate::launch::{
    is_excluded_installed_auto_process, is_excluded_installed_auto_process_spec, is_under_root, launch_mask,
    path_is_under_root_case_insensitive,
};
use crate::reconcile::{cores_mask, first_out_of_range};
use crate::text::{str_chars, trim, trim_spec};
use crate::process_tree::{
    ProcessTree, children_in, find_entry, lemma_unvisited_push, lookup, pid_listed, push_unseen, unvisited,
    walk_from, walk_step,
};

verus! {

/// What the system reports of single processes.
#[derive(Debug)]
pub struct ProcessFacts {
    /// The image path of a process; `None`, or no entry, where it cannot be read.
    pub image_paths: Vec<(u32, Option<String>)>,
    /// The application id of a process (`Ok(None)` for none, also where no entry is given), or
    /// the error its query gave.
    pub app_ids: Vec<(u32, Result<Option<String>, String>)>,
}

/// The image path of `pid`, where it can be read.
pub open spec fn image_of(facts: ProcessFacts, pid: u32) -> Option<String> {
    match lookup(facts.image_paths@, pid) {
        Some(Some(p)) => Some(p),
        _ => None,
    }
}

/// The application id of `pid`, or the error its query gave.
pub open spec fn app_id_of(facts: ProcessFacts, pid: u32) -> Result<Option<String>, String> {
    match lookup(facts.app_ids@, pid) {
        Some(r) => r,
        None => Ok(None),
    }
}

/// Whether the tool manages `pid` itself: every process but a Windows background host.
pub open spec fn auto_managed(names: Seq<(u32, String)>, pid: u32) -> bool {
    match lookup(names, pid) {
        Some(n) => !is_excluded_installed_auto_process_spec(n@),
        None => true,
    }
}

/// `ext` extends the process list `old` by the descendants of its processes: `old` stays at its
/// head, each process added is new to the list and a child of one before it, and the list
/// holds every child of each process it holds.
pub open spec fn descendant_extension(children_of: Seq<(u32, Vec<u32>)>, old: Seq<u32>, ext: Seq<u32>) -> bool {
    &&& old.len() <= ext.len()
    &&& ext.take(old.len() as int) == old
    &&& forall|i: int| old.len() <= i < ext.len() ==> !#[trigger] ext.take(i).contains(ext[i])
    &&& forall|i: int| old.len() <= i < ext.len() ==> #[trigger] child_of_earlier(children_of, ext, i)
    &&& forall|p: u32, c: u32|
        ext.contains(p) && #[trigger] children_in(children_of, p).contains(c) ==> #[trigger] ext.contains(c)
}

/// The process at `i` in `ext` is a child of one listed before it.
pub open spec fn child_of_earlier(children_of: Seq<(u32, Vec<u32>)>, ext: Seq<u32>, i: int) -> bool {
    exists|j: int| 0 <= j < i && #[trigger] children_in(children_of, ext[j]).contains(ext[i])
}

/// The list and stack after `n` steps of the walk that starts with `start` both listed and
/// stacked (see `walk_from`).
pub open spec fn walk(children_of: Seq<(u32, Vec<u32>)>, start: Seq<u32>, n: nat) -> (Seq<u32>, Seq<u32>) {
    walk_from(children_of, (start, start), n)
}

/// `ext` is the list that the walk from `start` ends with, once its stack is empty: the order
/// in which the descendants were found, most recently found process first.
pub open spec fn walked_in_order(children_of: Seq<(u32, Vec<u32>)>, start: Seq<u32>, ext: Seq<u32>) -> bool {
    exists|n: nat| #[trigger] walk(children_of, start, n) == (ext, Seq::<u32>::empty())
}

/// Adds to `pids` the descendants of its processes in `snapshot` (see
/// `descendant_extension`), visiting the most recently found process first (see
/// `walked_in_order`).
pub fn extend_with_descendants(snapshot: &ProcessTree, pids: &mut Vec<u32>)
    ensures
        descendant_extension(snapshot.children_of@, old(pids)@, final(pids)@),
        walked_in_order(snapshot.children_of@, old(pids)@, final(pids)@),
{
    let ghost co = snapshot.children_of@;
    let ghost old_t = pids@;
    let mut stack: Vec<u32> = Vec::new();
    let mut s: usize = 0;
    while s < pids.len()
        invariant
            s <= pids@.len(),
            stack@ == pids@.take(s as int),
            pids@ == old_t,
        decreases pids.len() - s,
    {
        stack.push(pids[s]);
        s = s + 1;
        assert(stack@ =~= pids@.take(s as int));
    }
    assert(stack@ =~= pids@);
    let ghost mut par: Seq<int> = Seq::new(pids@.len(), |i: int| 0);
    let ghost mut steps: nat = 0;
    while stack.len() > 0
        invariant
            walk(co, old_t, steps) == (pids@, stack@),
            old_t.len() <= pids@.len(),
            pids@.take(old_t.len() as int) == old_t,
            forall|i: int| old_t.len() <= i < pids@.len() ==> !#[trigger] pids@.take(i).contains(pids@[i]),
            par.len() == pids@.len(),
            forall|i: int|
                old_t.len() <= i < pids@.len() ==> 0 <= #[trigger] par[i] < i && children_in(co, pids@[par[i]]).contains(
                    pids@[i],
                ),
            forall|k: int| 0 <= k < stack@.len() ==> pids@.contains(#[trigger] stack@[k]),
            forall|p: u32|
                #[trigger] pids@.contains(p) ==> stack@.contains(p) || forall|c: u32|
                    #[trigger] children_in(co, p).contains(c) ==> pids@.contains(c),
            co == snapshot.children_of@,
        decreases 2 * unvisited(pids@) + stack@.len(),
    {
        let ghost measure = 2 * unvisited(pids@) + stack@.len();
        let ghost stack0 = stack@;
        let parent = stack.pop().unwrap();
        assert(stack0.last() == parent);
        assert(stack@ =~= stack0.drop_last());
        assert(pids@.contains(parent)) by {
            assert(stack0[stack0.len() - 1] == parent);
        }
        let ghost list0 = pids@;
        let ghost after_pop = stack@;
        let ghost parent_at = choose|j: int| 0 <= j < pids@.len() && pids@[j] == parent;
        assert forall|p: u32|
            #[trigger] pids@.contains(p) && p != parent implies stack@.contains(p) || forall|c: u32|
                #[trigger] children_in(co, p).contains(c) ==> pids@.contains(c) by {
            if stack0.contains(p) {
                let k = choose|k: int| 0 <= k < stack0.len() && stack0[k] == p;
                assert(k != stack0.len() - 1);
                assert(stack@[k] == p);
            }
        }
        match find_entry(&snapshot.children_of, parent) {
            Some(e) => {
                let children = &snapshot.children_of[e].1;
                assert(children_in(co, parent) == children@);
                let mut j: usize = 0;
                assert(children@.take(0) =~= Seq::<u32>::empty());
                while j < children.len()
                    invariant
                        j <= children@.len(),
                        push_unseen(list0, after_pop, children@.take(j as int)) == (pids@, stack@),
                        children_in(co, parent) == children@,
                        co == snapshot.children_of@,
                        0 <= parent_at < old_t.len() || (old_t.len() <= parent_at < pids@.len()),
                        0 <= parent_at < pids@.len(),
                        pids@[parent_at] == parent,
                        old_t.len() <= pids@.len(),
                        pids@.take(old_t.len() as int) == old_t,
                        forall|i: int|
                            old_t.len() <= i < pids@.len() ==> !#[trigger] pids@.take(i).contains(pids@[i]),
                        par.len() == pids@.len(),
                        forall|i: int|
                            old_t.len() <= i < pids@.len() ==> 0 <= #[trigger] par[i] < i && children_in(
                                co,
                                pids@[par[i]],
                            ).contains(pids@[i]),
                        forall|k: int| 0 <= k < stack@.len() ==> pids@.contains(#[trigger] stack@[k]),
                        forall|p: u32|
                            #[trigger] pids@.contains(p) && p != parent ==> stack@.contains(p) || forall|c: u32|
                                #[trigger] children_in(co, p).contains(c) ==> pids@.contains(c),
                        forall|k: int| 0 <= k < j ==> pids@.contains(#[trigger] children@[k]),
                        2 * unvisited(pids@) + stack@.len() + 1 <= measure,
                    decreases children.len() - j,
                {
                    let c = children[j];
                    assert(children@.take(j + 1).drop_last() =~= children@.take(j as int));
                    assert(children@.take(j + 1).last() == c);
                    if !pid_listed(pids, c) {
                        let ghost t0 = pids@;
                        let ghost s0 = stack@;
                        proof {
                            lemma_unvisited_push(t0, c);
                        }
                        pids.push(c);
                        stack.push(c);
                        proof {
                            assert(pids@.take(t0.len() as int) =~= t0);
                            assert(pids@.take(old_t.len() as int) =~= t0.take(old_t.len() as int));
                            assert(pids@[parent_at] == parent);
                            assert(children_in(co, pids@[parent_at]).contains(c)) by {
                                assert(children@[j as int] == c);
                            }
                            assert forall|i: int| old_t.len() <= i < pids@.len() implies !#[trigger] pids@.take(
                                i,
                            ).contains(pids@[i]) by {
                                if i < t0.len() {
                                    assert(pids@.take(i) =~= t0.take(i));
                                    assert(pids@[i] == t0[i]);
                                }
                            }
                            par = par.push(parent_at);
                            assert forall|i: int| old_t.len() <= i < pids@.len() implies 0 <= #[trigger] par[i] < i
                                && children_in(co, pids@[par[i]]).contains(pids@[i]) by {
                                if i < t0.len() {
                                    assert(pids@[par[i]] == t0[par[i]]);
                                    assert(pids@[i] == t0[i]);
                                } else {
                                    assert(pids@[i] == c);
                                }
                            }
                            assert forall|k: int| 0 <= k < stack@.len() implies pids@.contains(#[trigger] stack@[k]) by {
                                if k < s0.len() {
                                    assert(stack@[k] == s0[k]);
                                    assert(t0.contains(s0[k]));
                                    let w = choose|w: int| 0 <= w < t0.len() && t0[w] == s0[k];
                                    assert(pids@[w] == t0[w]);
                                } else {
                                    assert(pids@[t0.len() as int] == c);
                                }
                            }
                            assert forall|p: u32|
                                #[trigger] pids@.contains(p) && p != parent implies stack@.contains(p) || forall|
                                    cc: u32,
                                | #[trigger] children_in(co, p).contains(cc) ==> pids@.contains(cc) by {
                                if p == c {
                                    assert(stack@[s0.len() as int] == c);
                                } else {
                                    let w = choose|w: int| 0 <= w < pids@.len() && pids@[w] == p;
                                    assert(w < t0.len());
                                    assert(t0[w] == p);
                                    assert(t0.contains(p));
                                    if s0.contains(p) {
                                        let k = choose|k: int| 0 <= k < s0.len() && s0[k] == p;
                                        assert(stack@[k] == p);
                                    } else {
                                        assert forall|cc: u32| #[trigger] children_in(co, p).contains(cc) implies pids@.contains(
                                            cc,
                                        ) by {
                                            assert(t0.contains(cc));
                                            let w2 = choose|w2: int| 0 <= w2 < t0.len() && t0[w2] == cc;
                                            assert(pids@[w2] == t0[w2]);
                                        }
                                    }
                                }
                            }
                            assert forall|k: int| 0 <= k < j + 1 implies pids@.contains(#[trigger] children@[k]) by {
                                if k < j {
                                    assert(t0.contains(children@[k]));
                                    let w = choose|w: int| 0 <= w < t0.len() && t0[w] == children@[k];
                                    assert(pids@[w] == t0[w]);
                                } else {
                                    assert(pids@[t0.len() as int] == c);
                                }
                            }
                        }
                    }
                    j = j + 1;
                }
                assert(children@.take(j as int) =~= children@);
            },
            None => {
                assert(children_in(co, parent) =~= Seq::<u32>::empty());
            },
        }
        proof {
            assert(walk_step(co, (list0, stack0)) == (pids@, stack@));
            steps = steps + 1;
        }
        assert forall|p: u32|
            #[trigger] pids@.contains(p) implies stack@.contains(p) || forall|c: u32|
                #[trigger] children_in(co, p).contains(c) ==> pids@.contains(c) by {
            if p == parent {
                assert forall|c: u32| #[trigger] children_in(co, p).contains(c) implies pids@.contains(c) by {
                    let k = choose|k: int| 0 <= k < children_in(co, p).len() && children_in(co, p)[k] == c;
                }
            }
        }
    }
    assert forall|p: u32, c: u32|
        pids@.contains(p) && #[trigger] children_in(co, p).contains(c) implies #[trigger] pids@.contains(c) by {
        assert(!stack@.contains(p));
    }
    assert forall|i: int| old_t.len() <= i < pids@.len() implies #[trigger] child_of_earlier(co, pids@, i) by {
        assert(0 <= par[i] < i);
        assert(children_in(co, pids@[par[i]]).contains(pids@[i]));
    }
    assert(old_t.len() <= pids@.len());
    assert(pids@.take(old_t.len() as int) == old_t);
    assert(forall|i: int| old_t.len() <= i < pids@.len() ==> !#[trigger] pids@.take(i).contains(pids@[i]));
    assert(co == snapshot.children_of@);
    assert(stack@ =~= Seq::<u32>::empty());
    assert(walk(co, old_t, steps) == (pids@, Seq::<u32>::empty()));
}


/// The processes of `s` the tool manages itself, in order.
pub open spec fn auto_managed_pids(names: Seq<(u32, String)>, s: Seq<u32>) -> Seq<u32>
    decreases s.len(),
{
    if s.len() == 0 {
        Seq::empty()
    } else {
        let rest = auto_managed_pids(names, s.drop_last());
        if auto_managed(names, s.last()) {
            rest.push(s.last())
        } else {
            rest
        }
    }
}

/// `s` followed by the processes of `more` that it lacks, each once, in order.
pub open spec fn append_missing(s: Seq<u32>, more: Seq<u32>) -> Seq<u32>
    decreases more.len(),
{
    if more.len() == 0 {
        s
    } else {
        let rest = append_missing(s, more.drop_last());
        if rest.contains(more.last()) {
            rest
        } else {
            rest.push(more.last())
        }
    }
}

/// How many processes of `s` are not in `before`.
pub open spec fn count_new(s: Seq<u32>, before: Seq<u32>) -> nat
    decreases s.len(),
{
    if s.len() == 0 {
        0
    } else {
        count_new(s.drop_last(), before) + if before.contains(s.last()) {
            0nat
        } else {
            1nat
        }
    }
}

/// Whether a text holds nothing but whitespace.
pub open spec fn is_blank(s: Seq<char>) -> bool {
    trim_spec(s).len() == 0
}

/// The processes of a package that appeared since the launch: those of the listing `names`,
/// in its order, that were neither tracked before (`before`) nor in the package before the
/// launch (`prelaunch`) and whose image lies inside `root`; split into those with the
/// expected application id and those without one. A failed id query ends the scan with its
/// error.
pub open spec fn package_candidates(
    names: Seq<(u32, String)>,
    facts: ProcessFacts,
    root: Seq<char>,
    expected: Seq<char>,
    prelaunch: Seq<u32>,
    before: Seq<u32>,
) -> Result<(Seq<u32>, Seq<u32>), String>
    decreases names.len(),
{
    if names.len() == 0 {
        Ok((Seq::empty(), Seq::empty()))
    } else {
        match package_candidates(names.drop_last(), facts, root, expected, prelaunch, before) {
            Err(e) => Err(e),
            Ok((same, none)) => {
                let pid = names.last().0;
                if before.contains(pid) || prelaunch.contains(pid) {
                    Ok((same, none))
                } else {
                    match image_of(facts, pid) {
                        None => Ok((same, none)),
                        Some(image) => if !is_under_root(image@, root) {
                            Ok((same, none))
                        } else {
                            match app_id_of(facts, pid) {
                                Err(e) => Err(e),
                                Ok(Some(a)) => if is_blank(a@) {
                                    Ok((same, none.push(pid)))
                                } else if eq_ignore_ascii_case(a@, expected) {
                                    Ok((same.push(pid), none))
                                } else {
                                    Ok((same, none))
                                },
                                Ok(None) => Ok((same, none.push(pid))),
                            }
                        },
                    }
                }
            },
        }
    }
}

/// Whether one of `seeds` carries the expected application id, asking them in order and
/// stopping at the first that does; a failed query before that gives its error.
pub open spec fn identity_scan(facts: ProcessFacts, seeds: Seq<u32>, expected: Seq<char>) -> Result<bool, String>
    decreases seeds.len(),
{
    if seeds.len() == 0 {
        Ok(false)
    } else {
        match identity_scan(facts, seeds.drop_last(), expected) {
            Err(e) => Err(e),
            Ok(true) => Ok(true),
            Ok(false) => match app_id_of(facts, seeds.last()) {
                Err(e) => Err(e),
                Ok(Some(a)) => Ok(eq_ignore_ascii_case(a@, expected)),
                Ok(None) => Ok(false),
            },
        }
    }
}

fn is_auto_managed_pid(snapshot: &ProcessTree, pid: u32) -> (r: bool)
    ensures
        r == auto_managed(snapshot.names@, pid),
{
    match find_entry(&snapshot.names, pid) {
        Some(i) => !is_excluded_installed_auto_process(snapshot.names[i].1.as_str()),
        None => true,
    }
}

/// Keeps the processes of `pids` that the tool manages itself.
pub fn retain_auto_managed_pids(snapshot: &ProcessTree, pids: &Vec<u32>) -> (r: Vec<u32>)
    ensures
        r@ == auto_managed_pids(snapshot.names@, pids@),
{
    let mut r: Vec<u32> = Vec::new();
    let mut i: usize = 0;
    while i < pids.len()
        invariant
            i <= pids@.len(),
            r@ == auto_managed_pids(snapshot.names@, pids@.take(i as int)),
        decreases pids.len() - i,
    {
        assert(pids@.take(i + 1).drop_last() =~= pids@.take(i as int));
        if is_auto_managed_pid(snapshot, pids[i]) {
            r.push(pids[i]);
        }
        i = i + 1;
    }
    assert(pids@.take(i as int) =~= pids@);
    r
}

fn append_missing_pids(v: &mut Vec<u32>, more: &Vec<u32>)
    ensures
        final(v)@ == append_missing(old(v)@, more@),
{
    let mut i: usize = 0;
    while i < more.len()
        invariant
            i <= more@.len(),
            v@ == append_missing(old(v)@, more@.take(i as int)),
        decreases more.len() - i,
    {
        assert(more@.take(i + 1).drop_last() =~= more@.take(i as int));
        if !pid_listed(v, more[i]) {
            v.push(more[i]);
        }
        i = i + 1;
    }
    assert(more@.take(i as int) =~= more@);
}

proof fn lemma_count_new_bound(s: Seq<u32>, before: Seq<u32>)
    ensures
        count_new(s, before) <= s.len(),
    decreases s.len(),
{
    if s.len() > 0 {
        lemma_count_new_bound(s.drop_last(), before);
    }
}

fn count_new_pids(s: &Vec<u32>, before: &Vec<u32>) -> (r: usize)
    ensures
        r == count_new(s@, before@),
{
    let mut n: usize = 0;
    let mut i: usize = 0;
    while i < s.len()
        invariant
            i <= s@.len(),
            n == count_new(s@.take(i as int), before@),
        decreases s.len() - i,
    {
        assert(s@.take(i + 1).drop_last() =~= s@.take(i as int));
        proof {
            lemma_count_new_bound(s@.take(i as int), before@);
        }
        if !pid_listed(before, s[i]) {
            n = n + 1;
        }
        i = i + 1;
    }
    assert(s@.take(i as int) =~= s@);
    n
}

fn clone_app_id(r: &Result<Option<String>, String>) -> (c: Result<Option<String>, String>)
    ensures
        c == *r,
{
    match r {
        Ok(Some(a)) => Ok(Some(a.clone())),
        Ok(None) => Ok(None),
        Err(e) => Err(e.clone()),
    }
}

fn app_id_query(facts: &ProcessFacts, pid: u32) -> (r: Result<Option<String>, String>)
    ensures
        r == app_id_of(*facts, pid),
{
    match find_entry(&facts.app_ids, pid) {
        Some(i) => clone_app_id(&facts.app_ids[i].1),
        None => Ok(None),
    }
}

fn image_query(facts: &ProcessFacts, pid: u32) -> (r: Option<String>)
    ensures
        r == image_of(*facts, pid),
{
    match find_entry(&facts.image_paths, pid) {
        Some(i) => match &facts.image_paths[i].1 {
            Some(p) => Some(p.clone()),
            None => None,
        },
        None => None,
    }
}

fn blank(s: &str) -> (r: bool)
    ensures
        r == is_blank(s@),
{
    let t = trim(s);
    let c = str_chars(t.as_str());
    c.len() == 0
}

/// The processes of a package that appeared since the launch (see `package_candidates`).
pub fn collect_package_local_pid_candidates(
    snapshot: &ProcessTree,
    facts: &ProcessFacts,
    install_root: &str,
    expected_aumid: &str,
    prelaunch: &Vec<u32>,
    before: &Vec<u32>,
) -> (r: Result<(Vec<u32>, Vec<u32>), String>)
    ensures
        match package_candidates(snapshot.names@, *facts, install_root@, expected_aumid@, prelaunch@, before@) {
            Ok((same, none)) => r matches Ok((a, b)) && a@ == same && b@ == none,
            Err(e) => r == Err::<(Vec<u32>, Vec<u32>), String>(e),
        },
{
    let ghost names = snapshot.names@;
    let mut same: Vec<u32> = Vec::new();
    let mut none: Vec<u32> = Vec::new();
    let mut i: usize = 0;
    while i < snapshot.names.len()
        invariant
            i <= names.len(),
            names == snapshot.names@,
            package_candidates(names.take(i as int), *facts, install_root@, expected_aumid@, prelaunch@, before@)
                == Ok::<(Seq<u32>, Seq<u32>), String>((same@, none@)),
        decreases snapshot.names.len() - i,
    {
        assert(names.take(i + 1).drop_last() =~= names.take(i as int));
        assert(names.take(i + 1).last() == names[i as int]);
        let pid = snapshot.names[i].0;
        if !pid_listed(before, pid) && !pid_listed(prelaunch, pid) {
            match image_query(facts, pid) {
                Some(image) => {
                    if path_is_under_root_case_insensitive(image.as_str(), install_root) {
                        match app_id_query(facts, pid) {
                            Err(e) => {
                                proof {
                                    lemma_candidates_error_stays(names, i as int + 1, *facts, install_root@, expected_aumid@, prelaunch@, before@, e);
                                }
                                return Err(e);
                            },
                            Ok(Some(a)) => {
                                if blank(a.as_str()) {
                                    none.push(pid);
                                } else if names_equal_ignoring_case(a.as_str(), expected_aumid) {
                                    same.push(pid);
                                }
                            },
                            Ok(None) => {
                                none.push(pid);
                            },
                        }
                    }
                },
                None => {},
            }
        }
        i = i + 1;
    }
    assert(names.take(i as int) =~= names);
    Ok((same, none))
}

proof fn lemma_candidates_error_stays(
    names: Seq<(u32, String)>,
    n: int,
    facts: ProcessFacts,
    root: Seq<char>,
    expected: Seq<char>,
    prelaunch: Seq<u32>,
    before: Seq<u32>,
    e: String,
)
    requires
        0 <= n <= names.len(),
        package_candidates(names.take(n), facts, root, expected, prelaunch, before) == Err::<(Seq<u32>, Seq<u32>), String>(e),
    ensures
        package_candidates(names, facts, root, expected, prelaunch, before) == Err::<(Seq<u32>, Seq<u32>), String>(e),
    decreases names.len() - n,
{
    if n < names.len() {
        assert(names.take(n + 1).drop_last() =~= names.take(n));
        lemma_candidates_error_stays(names, n + 1, facts, root, expected, prelaunch, before, e);
    } else {
        assert(names.take(n) =~= names);
    }
}

proof fn lemma_identity_settled(facts: ProcessFacts, seeds: Seq<u32>, n: int, expected: Seq<char>)
    requires
        0 <= n <= seeds.len(),
        identity_scan(facts, seeds.take(n), expected) is Err || identity_scan(facts, seeds.take(n), expected) == Ok::<bool, String>(true),
    ensures
        identity_scan(facts, seeds, expected) == identity_scan(facts, seeds.take(n), expected),
    decreases seeds.len() - n,
{
    if n < seeds.len() {
        assert(seeds.take(n + 1).drop_last() =~= seeds.take(n));
        lemma_identity_settled(facts, seeds, n + 1, expected);
    } else {
        assert(seeds.take(n) =~= seeds);
    }
}

/// Whether one of `seeds` carries the expected application id (see `identity_scan`).
fn scan_identity(facts: &ProcessFacts, seeds: &Vec<u32>, expected_aumid: &str) -> (r: Result<bool, String>)
    ensures
        r == identity_scan(*facts, seeds@, expected_aumid@),
{
    let mut i: usize = 0;
    while i < seeds.len()
        invariant
            i <= seeds@.len(),
            identity_scan(*facts, seeds@.take(i as int), expected_aumid@) == Ok::<bool, String>(false),
        decreases seeds.len() - i,
    {
        assert(seeds@.take(i + 1).drop_last() =~= seeds@.take(i as int));
        match app_id_query(facts, seeds[i]) {
            Err(e) => {
                proof {
                    lemma_identity_settled(*facts, seeds@, i + 1, expected_aumid@);
                }
                return Err(e);
            },
            Ok(Some(a)) => {
                if names_equal_ignoring_case(a.as_str(), expected_aumid) {
                    proof {
                        lemma_identity_settled(*facts, seeds@, i + 1, expected_aumid@);
                    }
                    return Ok(true);
                }
            },
            Ok(None) => {},
        }
        i = i + 1;
    }
    assert(seeds@.take(i as int) =~= seeds@);
    Ok(false)
}

/// What one look at the processes after an activation found.
#[derive(Debug, Clone, PartialEq, Eq)]
pub struct PostLaunchCorrectionOutcome {
    /// The processes followed from now on.
    pub seed_pids: Vec<u32>,
    /// The followed processes that the tool manages itself.
    pub managed_pids: Vec<u32>,
    /// New processes of the package without an application id that the tool may manage.
    pub no_identity_package_pids: Vec<u32>,
    /// How many managed processes were not followed before.
    pub new_managed_pids_added: usize,
    /// Whether a followed process carries the expected application id.
    pub saw_identity_seed: bool,
}

/// One look at the processes: the processes to give the group's mask (and the rule's
/// priority), and the outcome or the error of a failed id query.
#[derive(Debug)]
pub struct CorrectionPoll {
    pub apply_to: Vec<u32>,
    pub mask: usize,
    pub outcome: Result<PostLaunchCorrectionOutcome, String>,
}

/// What a look at the processes gives (see `post_launch_correction_poll`), with `ext` the
/// followed processes extended by their descendants and `seeds1` the followed processes
/// after it.
pub open spec fn correction_poll_spec(
    names: Seq<(u32, String)>,
    facts: ProcessFacts,
    expected: Seq<char>,
    seeds0: Seq<u32>,
    ext: Seq<u32>,
    package_root: Option<Seq<char>>,
    prelaunch: Seq<u32>,
    seeds1: Seq<u32>,
    r: CorrectionPoll,
) -> bool {
    let candidates = match package_root {
        Some(root) => package_candidates(names, facts, root, expected, prelaunch, seeds0),
        None => Ok((Seq::empty(), Seq::empty())),
    };
    match candidates {
        Err(e) => {
            &&& seeds1 == ext
            &&& r.apply_to@.len() == 0
            &&& r.outcome matches Err(x) && x == e
        },
        Ok((same, none)) => {
            let seeds = append_missing(ext, same);
            let managed = auto_managed_pids(names, seeds);
            &&& seeds1 == seeds
            &&& r.apply_to@ == managed
            &&& match identity_scan(facts, seeds, expected) {
                Err(e) => r.outcome matches Err(x) && x == e,
                Ok(saw) => r.outcome matches Ok(o) && o.seed_pids@ == seeds && o.managed_pids@ == managed
                    && o.no_identity_package_pids@ == auto_managed_pids(names, none)
                    && o.new_managed_pids_added == count_new(managed, seeds0) && o.saw_identity_seed == saw,
            }
        },
    }
}

/// One look at the processes after an installed application was activated. The followed
/// processes (`seed_pids`) gain their descendants in `snapshot` and, where the package is
/// known, the package's new processes with the expected application id; those the tool
/// manages itself get the group's mask. The outcome says which processes were new, which
/// new package processes have no application id, and whether a followed process carries the
/// expected id. A failed id query while gathering the package's processes ends the look
/// before any settings; one while looking for the expected id ends it with its error after
/// the settings.
pub fn post_launch_correction_poll(
    snapshot: &ProcessTree,
    facts: &ProcessFacts,
    expected_aumid: &str,
    seed_pids: &mut Vec<u32>,
    group_cores: &Vec<usize>,
    installed_package_info: Option<&InstalledPackageRuntimeInfo>,
    prelaunch_package_pids: &Vec<u32>,
) -> (r: CorrectionPoll)
    requires
        first_out_of_range(group_cores@) is None,
    ensures
        r.mask == cores_mask(group_cores@),
        exists|ext: Seq<u32>|
            descendant_extension(snapshot.children_of@, old(seed_pids)@, ext) && walked_in_order(
                snapshot.children_of@,
                old(seed_pids)@,
                ext,
            ) && correction_poll_spec(
                snapshot.names@,
                *facts,
                expected_aumid@,
                old(seed_pids)@,
                ext,
                match installed_package_info {
                    Some(i) => Some(i.install_root@),
                    None => None,
                },
                prelaunch_package_pids@,
                final(seed_pids)@,
                r,
            ),
{
    let before = crate::launch::clone_pid_list(seed_pids);
    extend_with_descendants(snapshot, seed_pids);
    let ghost ext = seed_pids@;
    let mask = launch_mask(group_cores);
    let mut no_identity: Vec<u32> = Vec::new();
    match installed_package_info {
        Some(info) => {
            match collect_package_local_pid_candidates(
                snapshot,
                facts,
                info.install_root.as_str(),
                expected_aumid,
                prelaunch_package_pids,
                &before,
            ) {
                Ok((same, none)) => {
                    append_missing_pids(seed_pids, &same);
                    no_identity = retain_auto_managed_pids(snapshot, &none);
                },
                Err(e) => {
                    return CorrectionPoll { apply_to: Vec::new(), mask, outcome: Err(e) };
                },
            }
        },
        None => {
            assert(append_missing(ext, Seq::<u32>::empty()) == ext);
            assert(auto_managed_pids(snapshot.names@, Seq::<u32>::empty()) == Seq::<u32>::empty());
        },
    }
    let managed = retain_auto_managed_pids(snapshot, seed_pids);
    let apply_to = crate::launch::clone_pid_list(&managed);
    match scan_identity(facts, seed_pids, expected_aumid) {
        Err(e) => CorrectionPoll { apply_to, mask, outcome: Err(e) },
        Ok(saw) => {
            let added = count_new_pids(&managed, &before);
            let seeds = crate::launch::clone_pid_list(seed_pids);
            CorrectionPoll {
                apply_to,
                mask,
                outcome: Ok(
                    PostLaunchCorrectionOutcome {
                        seed_pids: seeds,
                        managed_pids: managed,
                        no_identity_package_pids: no_identity,
                        new_managed_pids_added: added,
                        saw_identity_seed: saw,
                    },
                ),
            }
        },
    }
}

/// The wait before look `i` of a correction, in milliseconds; a correction takes seven looks
/// at most.
pub open spec fn correction_delay_spec(i: nat) -> Option<u64> {
    if i == 0 {
        Some(0)
    } else if i == 1 {
        Some(100)
    } else if i == 2 {
        Some(250)
    } else if i == 3 {
        Some(500)
    } else if i == 4 {
        Some(1000)
    } else if i == 5 {
        Some(2000)
    } else if i == 6 {
        Some(3500)
    } else {
        None
    }
}

/// The number of looks a correction takes at most.
pub const CORRECTION_POLLS: usize = 7;

/// The wait before look `i` of a correction (see `correction_delay_spec`).
pub fn correction_delay_ms(i: usize) -> (r: Option<u64>)
    ensures
        r == correction_delay_spec(i as nat),
{
    if i == 0 {
        Some(0)
    } else if i == 1 {
        Some(100)
    } else if i == 2 {
        Some(250)
    } else if i == 3 {
        Some(500)
    } else if i == 4 {
        Some(1000)
    } else if i == 5 {
        Some(2000)
    } else if i == 6 {
        Some(3500)
    } else {
        None
    }
}

/// The correction that follows an activated application's processes for a while: the
/// processes it follows, how many looks in a row found nothing new, whether one of them
/// carried the expected application id, and how many looks were taken.
#[derive(Debug)]
pub struct PostLaunchCorrection {
    pub seed_pids: Vec<u32>,
    pub stable_polls: usize,
    pub saw_identity_seed: bool,
    pub polls_done: usize,
    pub finished: bool,
}

impl PostLaunchCorrection {
    /// A correction that follows the process the activation reported.
    pub fn new(initial_pid: u32) -> (r: Self)
        ensures
            r.seed_pids@ == seq![initial_pid],
            r.stable_polls == 0,
            !r.saw_identity_seed,
            r.polls_done == 0,
            !r.finished,
    {
        let mut seed_pids: Vec<u32> = Vec::new();
        seed_pids.push(initial_pid);
        PostLaunchCorrection { seed_pids, stable_polls: 0, saw_identity_seed: false, polls_done: 0, finished: false }
    }

    /// The wait before the next look, or `None` once the correction is over.
    pub fn next_delay_ms(&self) -> (r: Option<u64>)
        ensures
            r == if self.finished {
                None
            } else {
                correction_delay_spec(self.polls_done as nat)
            },
    {
        if self.finished {
            None
        } else {
            correction_delay_ms(self.polls_done)
        }
    }

    /// Takes in a look: a failed one (`None`) only counts; a successful one replaces the
    /// followed processes by those it followed and the package processes attached after it,
    /// counts a look with nothing new as stable, and ends the correction once a process with
    /// the expected id was seen, some process is managed and two looks in a row were stable.
    pub fn record_poll(&mut self, outcome: Option<&PostLaunchCorrectionOutcome>, attached: &Vec<u32>)
        requires
            old(self).polls_done < CORRECTION_POLLS,
            old(self).stable_polls <= old(self).polls_done,
        ensures
            final(self).polls_done == old(self).polls_done + 1,
            final(self).stable_polls <= final(self).polls_done,
            match outcome {
                None => {
                    &&& final(self).seed_pids@ == old(self).seed_pids@
                    &&& final(self).stable_polls == old(self).stable_polls
                    &&& final(self).saw_identity_seed == old(self).saw_identity_seed
                    &&& final(self).finished == old(self).finished
                },
                Some(o) => {
                    let saw = old(self).saw_identity_seed || o.saw_identity_seed;
                    let stable = if o.new_managed_pids_added == 0 && attached@.len() == 0 {
                        old(self).stable_polls + 1
                    } else {
                        0
                    };
                    &&& final(self).seed_pids@ == o.seed_pids@ + attached@
                    &&& final(self).saw_identity_seed == saw
                    &&& final(self).stable_polls == stable
                    &&& final(self).finished == (saw && o.managed_pids@.len() > 0 && stable >= 2)
                },
            },
    {
        self.polls_done = self.polls_done + 1;
        match outcome {
            None => {},
            Some(o) => {
                if o.saw_identity_seed {
                    self.saw_identity_seed = true;
                }
                let mut seeds = crate::launch::clone_pid_list(&o.seed_pids);
                let mut k: usize = 0;
                while k < attached.len()
                    invariant
                        k <= attached@.len(),
                        seeds@ == o.seed_pids@ + attached@.take(k as int),
                    decreases attached.len() - k,
                {
                    seeds.push(attached[k]);
                    k = k + 1;
                    assert(seeds@ =~= o.seed_pids@ + attached@.take(k as int));
                }
                assert(attached@.take(k as int) =~= attached@);
                self.seed_pids = seeds;
                if o.new_managed_pids_added == 0 && attached.len() == 0 {
                    self.stable_polls = self.stable_polls + 1;
                } else {
                    self.stable_polls = 0;
                }
                self.finished = self.saw_identity_seed && o.managed_pids.len() > 0 && self.stable_polls >= 2;
            },
        }
    }
}

fn clone_group_id(id: &GroupId) -> (r: GroupId)
    ensures
        r == *id,
{
    GroupId(id.0.clone())
}

fn clone_rule_id(id: &RuleId) -> (r: RuleId)
    ensures
        r == *id,
{
    RuleId(id.0.clone())
}

/// Takes a look's managed processes into the registry, as the correction does while it holds
/// the registry: a rule not tracked yet starts being tracked with the first of them, the rule
/// gets the given ids, and it gains each of them it lacks.
pub fn track_correction_outcome(
    registry: &mut RuntimeRegistry,
    key: &str,
    group_id: &GroupId,
    rule_id: &RuleId,
    managed: &Vec<u32>,
)
    ensures
        match registry_index(old(registry).apps@, key@) {
            Some(i) => {
                &&& final(registry).apps@.len() == old(registry).apps@.len()
                &&& forall|j: int|
                    0 <= j < old(registry).apps@.len() && j != i ==> final(registry).apps@[j] == old(registry).apps@[j]
                &&& final(registry).apps@[i].key == old(registry).apps@[i].key
                &&& final(registry).apps@[i].group_id == *group_id
                &&& final(registry).apps@[i].rule_id == *rule_id
                &&& final(registry).apps@[i].pids@ == append_missing(old(registry).apps@[i].pids@, managed@)
            },
            None => if managed@.len() > 0 {
                let n = old(registry).apps@.len() as int;
                &&& final(registry).apps@.len() == n + 1
                &&& final(registry).apps@.take(n) == old(registry).apps@
                &&& final(registry).apps@[n].key@ == key@
                &&& final(registry).apps@[n].group_id == *group_id
                &&& final(registry).apps@[n].rule_id == *rule_id
                &&& final(registry).apps@[n].pids@ == append_missing(seq![managed@[0]], managed@)
            } else {
                final(registry).apps@ == old(registry).apps@
            },
        },
{
    let ghost a0 = registry.apps@;
    if managed.len() > 0 && !registry.contains_app(key) {
        registry.add_running_app(key, managed[0], clone_group_id(group_id), clone_rule_id(rule_id));
        proof {
            let a1 = registry.apps@;
            let n = a0.len() as int;
            assert(a1.take(n) == a0);
            assert forall|j: int| 0 <= j < n implies a1[j].key@ != key@ by {
                assert(a1[j] == a0[j]);
                crate::launch::lemma_registry_index_none(a0, key@, j);
            }
            crate::launch::lemma_registry_index_at(a1, key@, n);
        }
    }
    let ghost a1 = registry.apps@;
    registry.set_rule_ids(key, clone_group_id(group_id), clone_rule_id(rule_id));
    proof {
        if registry_index(a1, key@) is Some {
            lemma_registry_index_same_keys(a1, registry.apps@, key@);
        }
    }
    let ghost a2 = registry.apps@;
    let _ = registry.add_missing_pids(key, managed);
}

/// Attaches a package's new processes without an application id to the rule, where the rule
/// owns the package; gives the processes attached (which then get the rule's settings).
pub fn attach_package_pids(
    registry: &mut RuntimeRegistry,
    key: &str,
    owns_package: bool,
    no_identity_pids: &Vec<u32>,
) -> (added: Vec<u32>)
    ensures
        !owns_package ==> final(registry).apps@ == old(registry).apps@ && added@.len() == 0,
        owns_package ==> match registry_index(old(registry).apps@, key@) {
            None => final(registry).apps@ == old(registry).apps@ && added@.len() == 0,
            Some(i) => {
                let before = old(registry).apps@[i];
                let after = append_missing(before.pids@, no_identity_pids@);
                &&& final(registry).apps@.len() == old(registry).apps@.len()
                &&& forall|j: int|
                    0 <= j < old(registry).apps@.len() && j != i ==> final(registry).apps@[j] == old(registry).apps@[j]
                &&& final(registry).apps@[i].key == before.key
                &&& final(registry).apps@[i].group_id == before.group_id
                &&& final(registry).apps@[i].rule_id == before.rule_id
                &&& final(registry).apps@[i].pids@ == after
                &&& added@ == after.skip(before.pids@.len() as int)
            },
        },
{
    if owns_package {
        registry.add_missing_pids(key, no_identity_pids)
    } else {
        Vec::new()
    }
}

} // verus!
