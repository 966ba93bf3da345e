use vstd::prelude::*;
use crate::event_log::{eq_ignore_ascii_case, names_equal_ignoring_case};
use crate::launch::clone_pid_list;
use crate::models::{first_dot, first_dot_exec, lemma_first_dot_bounds};
use crate::shell::{to_lowercase, unicode_lowercase};
use crate::text::{str_chars, str_eq_chars, string_from_chars, trim, trim_spec};

verus! {

/// One snapshot of the running processes: each process's parent, the children of each
/// process (in the order the snapshot listed them) and each process's executable name.
/// Each list is read through `lookup`: the entry listed first for a process counts.
#[derive(Debug)]
pub struct ProcessTree {
    pub parent_of: Vec<(u32, u32)>,
    pub children_of: Vec<(u32, Vec<u32>)>,
    pub names: Vec<(u32, String)>,
}

/// One process as a system snapshot lists it.
#[derive(Debug)]
pub struct ProcessEntry {
    pub pid: u32,
    pub parent_pid: u32,
    pub exe_file: String,
}

/// The value listed first for `pid`.
pub open spec fn lookup<V>(s: Seq<(u32, V)>, pid: u32) -> Option<V>
    decreases s.len(),
{
    if s.len() == 0 {
        None
    } else if s[0].0 == pid {
        Some(s[0].1)
    } else {
        lookup(s.subrange(1, s.len() as int), pid)
    }
}

/// The children of `pid` in a snapshot.
pub open spec fn children_in(children_of: Seq<(u32, Vec<u32>)>, pid: u32) -> Seq<u32> {
    match lookup(children_of, pid) {
        Some(v) => v@,
        None => Seq::empty(),
    }
}

proof fn lemma_lookup_push<V>(s: Seq<(u32, V)>, x: (u32, V), k: u32)
    ensures
        lookup(s.push(x), k) == (match lookup(s, k) {
            Some(v) => Some(v),
            None => if x.0 == k { Some(x.1) } else { None },
        }),
    decreases s.len(),
{
    let t = s.push(x);
    if s.len() > 0 {
        assert(t.subrange(1, t.len() as int) =~= s.subrange(1, s.len() as int).push(x));
        lemma_lookup_push(s.subrange(1, s.len() as int), x, k);
        assert(t[0] == s[0]);
    } else {
        assert(t.subrange(1, t.len() as int) =~= Seq::<(u32, V)>::empty());
        assert(lookup(Seq::<(u32, V)>::empty(), k) is None);
        assert(t[0] == x);
    }
}

proof fn lemma_lookup_update<V>(s: Seq<(u32, V)>, i: int, key: u32, v: V, k: u32)
    requires
        0 <= i < s.len(),
        s[i].0 == key,
        forall|j: int| 0 <= j < i ==> s[j].0 != key,
    ensures
        lookup(s.update(i, (key, v)), k) == if k == key { Some(v) } else { lookup(s, k) },
    decreases i,
{
    let t = s.update(i, (key, v));
    if i > 0 {
        assert(t.subrange(1, t.len() as int) =~= s.subrange(1, s.len() as int).update(i - 1, (key, v)));
        lemma_lookup_update(s.subrange(1, s.len() as int), i - 1, key, v, k);
    } else {
        assert(t.subrange(1, t.len() as int) =~= s.subrange(1, s.len() as int));
    }
}

/// The index of the entry listed first for `pid`.
pub(crate) fn find_entry<V>(s: &Vec<(u32, V)>, pid: u32) -> (r: Option<usize>)
    ensures
        r matches Some(i) ==> i < s@.len() && lookup(s@, pid) == Some(s@[i as int].1) && s@[i as int].0 == pid
            && forall|j: int| 0 <= j < i ==> s@[j].0 != pid,
        r is None ==> lookup(s@, pid) is None,
{
    let mut i: usize = 0;
    assert(s@.subrange(0, s@.len() as int) =~= s@);
    while i < s.len()
        invariant
            i <= s@.len(),
            lookup(s@, pid) == lookup(s@.subrange(i as int, s@.len() as int), pid),
            forall|j: int| 0 <= j < i ==> s@[j].0 != pid,
        decreases s.len() - i,
    {
        let ghost rest = s@.subrange(i as int, s@.len() as int);
        assert(rest.subrange(1, rest.len() as int) =~= s@.subrange(i + 1, s@.len() as int));
        if s[i].0 == pid {
            return Some(i);
        }
        i = i + 1;
    }
    None
}

/// Whether `v` lists `pid`.
pub fn pid_listed(v: &Vec<u32>, pid: u32) -> (r: bool)
    ensures
        r == v@.contains(pid),
{
    let mut i: usize = 0;
    while i < v.len()
        invariant
            i <= v@.len(),
            forall|k: int| 0 <= k < i ==> v@[k] != pid,
        decreases v.len() - i,
    {
        if v[i] == pid {
            return true;
        }
        i = i + 1;
    }
    false
}

/// How many process ids a list does not hold yet.
pub(crate) open spec fn unvisited(pids: Seq<u32>) -> nat {
    (Set::<u32>::full() - pids.to_set()).len()
}

pub(crate) proof fn lemma_unvisited_push(pids: Seq<u32>, c: u32)
    requires
        !pids.contains(c),
    ensures
        unvisited(pids.push(c)) + 1 == unvisited(pids),
{
    let full = Set::<u32>::full();
    broadcast use vstd::set_lib::full_set_properties;
    assert(full.finite());
    let d = full - pids.to_set();
    assert(d.contains(c));
    assert forall|x: u32| (full - pids.push(c).to_set()).contains(x) <==> d.remove(c).contains(x) by {
        if x == c {
            assert(pids.push(c)[pids.len() as int] == c);
        } else if pids.contains(x) {
            let k = choose|k: int| 0 <= k < pids.len() && pids[k] == x;
            assert(pids.push(c)[k] == x);
        } else {
            assert forall|k: int| 0 <= k < pids.push(c).len() implies pids.push(c)[k] != x by {
                if k < pids.len() {
                    assert(pids.push(c)[k] == pids[k]);
                }
            }
        }
    }
    assert(full - pids.push(c).to_set() =~= d.remove(c));
}

/// Sets the value of `key`: read through `lookup`, `key` then gives `val` and every other key
/// what it gave before.
fn set_entry<V>(s: &mut Vec<(u32, V)>, key: u32, val: V)
    ensures
        forall|k: u32| #[trigger] lookup(final(s)@, k) == if k == key { Some(val) } else { lookup(old(s)@, k) },
{
    match find_entry(s, key) {
        Some(i) => {
            let ghost s0 = s@;
            s.set(i, (key, val));
            proof {
                assert forall|k: u32| #[trigger] lookup(s@, k) == if k == key { Some(val) } else { lookup(s0, k) } by {
                    lemma_lookup_update(s0, i as int, key, val, k);
                }
            }
        },
        None => {
            let ghost s0 = s@;
            s.push((key, val));
            proof {
                assert forall|k: u32| #[trigger] lookup(s@, k) == if k == key { Some(val) } else { lookup(s0, k) } by {
                    lemma_lookup_push(s0, (key, val), k);
                }
            }
        },
    }
}

/// The parent the last entry for `pid` names (the idle process, pid 0, is left out).
pub open spec fn last_parent(entries: Seq<ProcessEntry>, pid: u32) -> Option<u32>
    decreases entries.len(),
{
    if entries.len() == 0 {
        None
    } else if entries.last().pid == pid && pid != 0 {
        Some(entries.last().parent_pid)
    } else {
        last_parent(entries.drop_last(), pid)
    }
}

/// The executable name the last entry for `pid` gives (the idle process is left out).
pub open spec fn last_name(entries: Seq<ProcessEntry>, pid: u32) -> Option<Seq<char>>
    decreases entries.len(),
{
    if entries.len() == 0 {
        None
    } else if entries.last().pid == pid && pid != 0 {
        Some(entries.last().exe_file@)
    } else {
        last_name(entries.drop_last(), pid)
    }
}

/// The processes whose entries name `parent` as their parent, in the entries' order (the
/// idle process is left out).
pub open spec fn listed_children(entries: Seq<ProcessEntry>, parent: u32) -> Seq<u32>
    decreases entries.len(),
{
    if entries.len() == 0 {
        Seq::empty()
    } else {
        let before = listed_children(entries.drop_last(), parent);
        let e = entries.last();
        if e.pid != 0 && e.parent_pid == parent {
            before.push(e.pid)
        } else {
            before
        }
    }
}

/// The name a tree gives to `pid`.
pub open spec fn name_in(names: Seq<(u32, String)>, pid: u32) -> Option<Seq<char>> {
    match lookup(names, pid) {
        Some(n) => Some(n@),
        None => None,
    }
}

impl ProcessTree {
    /// A tree with no process.
    pub fn new() -> (r: ProcessTree)
        ensures
            r.parent_of@.len() == 0,
            r.children_of@.len() == 0,
            r.names@.len() == 0,
    {
        ProcessTree { parent_of: Vec::new(), children_of: Vec::new(), names: Vec::new() }
    }

    /// Records one process: its parent, its place at the end of its parent's children and its
    /// name.
    pub fn record(&mut self, pid: u32, parent_pid: u32, name: String)
        ensures
            forall|p: u32| #[trigger] lookup(final(self).parent_of@, p)
                == if p == pid { Some(parent_pid) } else { lookup(old(self).parent_of@, p) },
            forall|p: u32| #[trigger] children_in(final(self).children_of@, p)
                == if p == parent_pid { children_in(old(self).children_of@, p).push(pid) } else {
                    children_in(old(self).children_of@, p)
                },
            forall|p: u32| #[trigger] name_in(final(self).names@, p)
                == if p == pid { Some(name@) } else { name_in(old(self).names@, p) },
    {
        set_entry(&mut self.parent_of, pid, parent_pid);
        let ghost n0 = self.names@;
        let ghost nm = name;
        set_entry(&mut self.names, pid, name);
        assert forall|p: u32| #[trigger] name_in(self.names@, p)
            == if p == pid { Some(nm@) } else { name_in(n0, p) } by {
            assert(lookup(self.names@, p) == if p == pid { Some(nm) } else { lookup(n0, p) });
        }
        let ghost c0 = self.children_of@;
        let kids = match find_entry(&self.children_of, parent_pid) {
            Some(i) => {
                let mut v = clone_pid_list(&self.children_of[i].1);
                v.push(pid);
                v
            },
            None => {
                let mut v: Vec<u32> = Vec::new();
                v.push(pid);
                v
            },
        };
        assert(kids@ == children_in(c0, parent_pid).push(pid));
        let ghost kv = kids;
        set_entry(&mut self.children_of, parent_pid, kids);
        assert forall|p: u32| #[trigger] children_in(self.children_of@, p)
            == if p == parent_pid { children_in(c0, p).push(pid) } else { children_in(c0, p) } by {
            assert(lookup(self.children_of@, p) == if p == parent_pid { Some(kv) } else { lookup(c0, p) });
        }
    }

    /// Builds the tree of a system snapshot's entries, leaving out the idle process (pid 0).
    pub fn from_entries(entries: &Vec<ProcessEntry>) -> (r: ProcessTree)
        ensures
            forall|p: u32| #[trigger] lookup(r.parent_of@, p) == last_parent(entries@, p),
            forall|p: u32| #[trigger] children_in(r.children_of@, p) == listed_children(entries@, p),
            forall|p: u32| #[trigger] name_in(r.names@, p) == last_name(entries@, p),
    {
        let mut tree = ProcessTree::new();
        let mut i: usize = 0;
        while i < entries.len()
            invariant
                i <= entries@.len(),
                forall|p: u32| #[trigger] lookup(tree.parent_of@, p) == last_parent(entries@.take(i as int), p),
                forall|p: u32| #[trigger] children_in(tree.children_of@, p) == listed_children(entries@.take(i as int), p),
                forall|p: u32| #[trigger] name_in(tree.names@, p) == last_name(entries@.take(i as int), p),
            decreases entries.len() - i,
        {
            let e = &entries[i];
            let ghost t = entries@.take(i + 1);
            assert(t.drop_last() =~= entries@.take(i as int));
            assert(t.last() == entries@[i as int]);
            if e.pid != 0 {
                let name = e.exe_file.clone();
                tree.record(e.pid, e.parent_pid, name);
            }
            i = i + 1;
        }
        assert(entries@.take(i as int) =~= entries@);
        tree
    }
}

/// The children of `parent` in a snapshot, in the order the snapshot listed them.
pub fn find_child_pids(tree: &ProcessTree, parent: u32) -> (r: Vec<u32>)
    ensures
        r@ == children_in(tree.children_of@, parent),
{
    match find_entry(&tree.children_of, parent) {
        Some(i) => clone_pid_list(&tree.children_of[i].1),
        None => Vec::new(),
    }
}

/// The parent a snapshot gives for `pid`.
pub fn get_parent_pid(tree: &ProcessTree, pid: u32) -> (r: Option<u32>)
    ensures
        r == lookup(tree.parent_of@, pid),
{
    match find_entry(&tree.parent_of, pid) {
        Some(i) => Some(tree.parent_of[i].1),
        None => None,
    }
}

/// `path` runs down the tree: each process in it after the first is a child of the one before.
pub open spec fn is_child_path(children_of: Seq<(u32, Vec<u32>)>, path: Seq<u32>) -> bool {
    forall|k: int| 0 <= k < path.len() - 1 ==> #[trigger] children_in(children_of, path[k]).contains(path[k + 1])
}

/// `pid` lies below `ancestor` in the tree: a path of one step or more leads down to it.
pub open spec fn descends_from(children_of: Seq<(u32, Vec<u32>)>, ancestor: u32, pid: u32) -> bool {
    exists|path: Seq<u32>|
        #![trigger is_child_path(children_of, path), path.last()]
        path.len() >= 2 && path[0] == ancestor && path.last() == pid && is_child_path(children_of, path)
}

/// The path down to the process at `i` of a discovery list, following each process's finder.
spec fn finder_chain(queue: Seq<u32>, finder: Seq<int>, i: int) -> Seq<u32>
    decreases i,
{
    if 0 < i < finder.len() && 0 <= finder[i] < i {
        finder_chain(queue, finder, finder[i]).push(queue[i])
    } else {
        seq![queue[0]]
    }
}

proof fn lemma_finder_chain(co: Seq<(u32, Vec<u32>)>, queue: Seq<u32>, finder: Seq<int>, i: int)
    requires
        0 <= i < queue.len(),
        finder.len() == queue.len(),
        forall|j: int| 0 < j < queue.len() ==> 0 <= #[trigger] finder[j] < j && children_in(co, queue[finder[j]]).contains(queue[j]),
    ensures
        finder_chain(queue, finder, i).len() >= 1,
        finder_chain(queue, finder, i)[0] == queue[0],
        finder_chain(queue, finder, i).last() == queue[i],
        i > 0 ==> finder_chain(queue, finder, i).len() >= 2,
        is_child_path(co, finder_chain(queue, finder, i)),
    decreases i,
{
    if i > 0 {
        let f = finder[i];
        lemma_finder_chain(co, queue, finder, f);
        let c0 = finder_chain(queue, finder, f);
        let c = c0.push(queue[i]);
        assert(finder_chain(queue, finder, i) == c);
        assert forall|k: int| 0 <= k < c.len() - 1 implies #[trigger] children_in(co, c[k]).contains(c[k + 1]) by {
            if k < c0.len() - 1 {
                assert(c[k] == c0[k] && c[k + 1] == c0[k + 1]);
            } else {
                assert(c[k] == c0.last());
            }
        }
    }
}

proof fn lemma_closed_path(co: Seq<(u32, Vec<u32>)>, queue: Seq<u32>, path: Seq<u32>, k: int)
    requires
        0 <= k < path.len(),
        queue.contains(path[0]),
        is_child_path(co, path),
        forall|p: u32, c: u32| queue.contains(p) && #[trigger] children_in(co, p).contains(c) ==> queue.contains(c),
    ensures
        queue.contains(path[k]),
    decreases k,
{
    if k > 0 {
        lemma_closed_path(co, queue, path, k - 1);
        let j = k - 1;
        assert(children_in(co, path[j]).contains(path[j + 1]));
    }
}

/// The list and stack after the children `children` of a process were looked at: each child
/// not yet listed is listed and stacked, in order.
pub open spec fn push_unseen(list: Seq<u32>, stack: Seq<u32>, children: Seq<u32>) -> (Seq<u32>, Seq<u32>)
    decreases children.len(),
{
    if children.len() == 0 {
        (list, stack)
    } else {
        let (l, st) = push_unseen(list, stack, children.drop_last());
        let c = children.last();
        if l.contains(c) {
            (l, st)
        } else {
            (l.push(c), st.push(c))
        }
    }
}

/// One step of a depth-first walk: the process on top of the stack is taken off and its
/// children are looked at (see `push_unseen`); an empty stack stays as it is.
pub open spec fn walk_step(children_of: Seq<(u32, Vec<u32>)>, state: (Seq<u32>, Seq<u32>)) -> (Seq<u32>, Seq<u32>) {
    if state.1.len() == 0 {
        state
    } else {
        push_unseen(state.0, state.1.drop_last(), children_in(children_of, state.1.last()))
    }
}

/// The list and stack after `n` steps of the depth-first walk from `state`.
pub open spec fn walk_from(children_of: Seq<(u32, Vec<u32>)>, state: (Seq<u32>, Seq<u32>), n: nat) -> (
    Seq<u32>,
    Seq<u32>,
)
    decreases n,
{
    if n == 0 {
        state
    } else {
        walk_step(children_of, walk_from(children_of, state, (n - 1) as nat))
    }
}

/// The processes listed and queued after the children `children` of a process were looked
/// at in a breadth-first walk: each child not queued yet is queued, and listed unless it is
/// listed already.
pub open spec fn queue_unseen(list: Seq<u32>, queue: Seq<u32>, children: Seq<u32>) -> (Seq<u32>, Seq<u32>)
    decreases children.len(),
{
    if children.len() == 0 {
        (list, queue)
    } else {
        let (l, q) = queue_unseen(list, queue, children.drop_last());
        let c = children.last();
        if q.contains(c) {
            (l, q)
        } else if l.contains(c) {
            (l, q.push(c))
        } else {
            (l.push(c), q.push(c))
        }
    }
}

/// One step of a breadth-first walk: the process at the head of the queue is looked at (see
/// `queue_unseen`) and the head moves on; a walk whose head reached the queue's end stays.
pub open spec fn bfs_step(children_of: Seq<(u32, Vec<u32>)>, state: (Seq<u32>, Seq<u32>, nat)) -> (
    Seq<u32>,
    Seq<u32>,
    nat,
) {
    if state.2 >= state.1.len() {
        state
    } else {
        let (l, q) = queue_unseen(state.0, state.1, children_in(children_of, state.1[state.2 as int]));
        (l, q, state.2 + 1)
    }
}

/// The list, queue and head after `n` steps of the breadth-first walk from `state`.
pub open spec fn bfs_from(children_of: Seq<(u32, Vec<u32>)>, state: (Seq<u32>, Seq<u32>, nat), n: nat) -> (
    Seq<u32>,
    Seq<u32>,
    nat,
)
    decreases n,
{
    if n == 0 {
        state
    } else {
        bfs_step(children_of, bfs_from(children_of, state, (n - 1) as nat))
    }
}

/// `ext` is the list that the breadth-first walk from `parent_pid` (queued first, with `old`
/// listed) ends with, once every queued process was looked at (see `bfs_from`).
pub open spec fn found_breadth_first(children_of: Seq<(u32, Vec<u32>)>, parent_pid: u32, old: Seq<u32>, ext: Seq<u32>) -> bool {
    exists|n: nat|
        #![trigger bfs_from(children_of, (old, seq![parent_pid], 0nat), n)]
        bfs_from(children_of, (old, seq![parent_pid], 0nat), n).0 == ext && bfs_from(
            children_of,
            (old, seq![parent_pid], 0nat),
            n,
        ).2 == bfs_from(children_of, (old, seq![parent_pid], 0nat), n).1.len()
}

/// `ext` is the list that the depth-first walk from `parent_pid` (stacked first, with `old`
/// listed) ends with, once its stack is empty (see `walk_from`).
pub open spec fn found_depth_first(children_of: Seq<(u32, Vec<u32>)>, parent_pid: u32, old: Seq<u32>, ext: Seq<u32>) -> bool {
    exists|n: nat| #[trigger] walk_from(children_of, (old, seq![parent_pid]), n) == (ext, Seq::<u32>::empty())
}

/// Adds to `descendants` every process below `parent_pid` in `tree` that it does not list yet,
/// in the order a breadth-first walk from `parent_pid` finds them; what `descendants` held
/// stays at its head.
pub fn find_all_descendants_with_tree(parent_pid: u32, descendants: &mut Vec<u32>, tree: &ProcessTree)
    ensures
        old(descendants)@.len() <= final(descendants)@.len(),
        final(descendants)@.take(old(descendants)@.len() as int) == old(descendants)@,
        forall|i: int| old(descendants)@.len() <= i < final(descendants)@.len() ==> {
            &&& !old(descendants)@.contains(#[trigger] final(descendants)@[i])
            &&& !final(descendants)@.take(i).contains(final(descendants)@[i])
            &&& final(descendants)@[i] != parent_pid
            &&& descends_from(tree.children_of@, parent_pid, final(descendants)@[i])
        },
        forall|c: u32| #[trigger] descends_from(tree.children_of@, parent_pid, c) && c != parent_pid
            ==> final(descendants)@.contains(c),
        found_breadth_first(tree.children_of@, parent_pid, old(descendants)@, final(descendants)@),
{
    let ghost co = tree.children_of@;
    let ghost d0 = descendants@;
    let mut queue: Vec<u32> = Vec::new();
    queue.push(parent_pid);
    let ghost mut finder: Seq<int> = seq![0int];
    let mut head: usize = 0;
    let ghost mut steps: nat = 0;
    assert(queue@ =~= seq![parent_pid]);
    while head < queue.len()
        invariant
            bfs_from(co, (d0, seq![parent_pid], 0nat), steps) == (descendants@, queue@, head as nat),
            co == tree.children_of@,
            1 <= queue@.len(),
            queue@[0] == parent_pid,
            head <= queue@.len(),
            forall|i: int| 0 <= i < queue@.len() ==> !#[trigger] queue@.take(i).contains(queue@[i]),
            finder.len() == queue@.len(),
            forall|j: int| 0 < j < queue@.len() ==> 0 <= #[trigger] finder[j] < j && children_in(co, queue@[finder[j]]).contains(queue@[j]),
            forall|k: int, c: u32| 0 <= k < head && #[trigger] children_in(co, queue@[k]).contains(c) ==> queue@.contains(c),
            d0.len() <= descendants@.len(),
            descendants@.take(d0.len() as int) == d0,
            forall|i: int| d0.len() <= i < descendants@.len() ==> {
                &&& !d0.contains(#[trigger] descendants@[i])
                &&& !descendants@.take(i).contains(descendants@[i])
                &&& queue@.contains(descendants@[i])
                &&& descendants@[i] != parent_pid
            },
            forall|x: u32| #[trigger] queue@.contains(x) && x != parent_pid ==> descendants@.contains(x),
        decreases 2 * unvisited(queue@) + (queue@.len() - head),
    {
        let current = queue[head];
        let ghost measure = 2 * unvisited(queue@) + (queue@.len() - head);
        let ghost at = head as int;
        let ghost l0 = descendants@;
        let ghost qs = queue@;
        head = head + 1;
        match find_entry(&tree.children_of, current) {
            Some(e) => {
                let children = &tree.children_of[e].1;
                assert(children_in(co, current) == children@);
                let mut j: usize = 0;
                assert(children@.take(0) =~= Seq::<u32>::empty());
                while j < children.len()
                    invariant
                        queue_unseen(l0, qs, children@.take(j as int)) == (descendants@, queue@),
                        j <= children@.len(),
                        children_in(co, current) == children@,
                        co == tree.children_of@,
                        at == head - 1,
                        0 <= at < queue@.len(),
                        queue@[at] == current,
                        1 <= queue@.len(),
                        queue@[0] == parent_pid,
                        head <= queue@.len(),
                        forall|i: int| 0 <= i < queue@.len() ==> !#[trigger] queue@.take(i).contains(queue@[i]),
                        finder.len() == queue@.len(),
                        forall|jj: int| 0 < jj < queue@.len() ==> 0 <= #[trigger] finder[jj] < jj && children_in(co, queue@[finder[jj]]).contains(queue@[jj]),
                        forall|k: int, c: u32| 0 <= k < at && #[trigger] children_in(co, queue@[k]).contains(c) ==> queue@.contains(c),
                        forall|k: int| 0 <= k < j ==> queue@.contains(#[trigger] children@[k]),
                        d0.len() <= descendants@.len(),
                        descendants@.take(d0.len() as int) == d0,
                        forall|i: int| d0.len() <= i < descendants@.len() ==> {
                            &&& !d0.contains(#[trigger] descendants@[i])
                            &&& !descendants@.take(i).contains(descendants@[i])
                            &&& queue@.contains(descendants@[i])
                            &&& descendants@[i] != parent_pid
                        },
                        forall|x: u32| #[trigger] queue@.contains(x) && x != parent_pid ==> descendants@.contains(x),
                        2 * unvisited(queue@) + (queue@.len() - head) + 1 <= measure,
                    decreases children.len() - j,
                {
                    let child = children[j];
                    assert(children@.take(j + 1).drop_last() =~= children@.take(j as int));
                    assert(children@.take(j + 1).last() == child);
                    if !pid_listed(&queue, child) {
                        let ghost q0 = queue@;
                        let ghost dd0 = descendants@;
                        proof {
                            lemma_unvisited_push(q0, child);
                        }
                        if !pid_listed(descendants, child) {
                            descendants.push(child);
                            proof {
                                assert(descendants@.take(d0.len() as int) =~= dd0.take(d0.len() as int));
                                assert(!d0.contains(child)) by {
                                    if d0.contains(child) {
                                        let w = choose|w: int| 0 <= w < d0.len() && d0[w] == child;
                                        assert(dd0.take(d0.len() as int)[w] == child);
                                        assert(dd0[w] == child);
                                    }
                                }
                                assert(descendants@.take(dd0.len() as int) =~= dd0);
                            }
                        }
                        queue.push(child);
                        proof {
                            finder = finder.push(at);
                            assert(queue@.take(q0.len() as int) =~= q0);
                            assert(child != parent_pid) by {
                                assert(q0[0] == parent_pid);
                            }
                            assert forall|i: int| 0 <= i < queue@.len() implies !#[trigger] queue@.take(i).contains(queue@[i]) by {
                                if i < q0.len() {
                                    assert(queue@.take(i) =~= q0.take(i));
                                    assert(queue@[i] == q0[i]);
                                }
                            }
                            assert forall|jj: int| 0 < jj < queue@.len() implies 0 <= #[trigger] finder[jj] < jj && children_in(co, queue@[finder[jj]]).contains(queue@[jj]) by {
                                if jj < q0.len() {
                                    assert(queue@[finder[jj]] == q0[finder[jj]]);
                                    assert(queue@[jj] == q0[jj]);
                                } else {
                                    assert(queue@[jj] == child);
                                    assert(queue@[at] == current);
                                    assert(children@[j as int] == child);
                                }
                            }
                            assert forall|x: u32| q0.contains(x) implies #[trigger] queue@.contains(x) by {
                                let w = choose|w: int| 0 <= w < q0.len() && q0[w] == x;
                                assert(queue@[w] == x);
                            }
                            assert(queue@[q0.len() as int] == child);
                            assert forall|x: u32| dd0.contains(x) implies #[trigger] descendants@.contains(x) by {
                                let w = choose|w: int| 0 <= w < dd0.len() && dd0[w] == x;
                                assert(descendants@.take(dd0.len() as int)[w] == x);
                            }
                            assert forall|i: int| d0.len() <= i < descendants@.len() implies {
                                &&& !d0.contains(#[trigger] descendants@[i])
                                &&& !descendants@.take(i).contains(descendants@[i])
                                &&& queue@.contains(descendants@[i])
                                &&& descendants@[i] != parent_pid
                            } by {
                                if i < dd0.len() {
                                    assert(descendants@[i] == dd0[i]);
                                    assert(descendants@.take(i) =~= dd0.take(i));
                                    assert(q0.contains(dd0[i]));
                                } else {
                                    assert(descendants@[i] == child);
                                    assert(descendants@.take(i) =~= dd0);
                                }
                            }
                            assert forall|x: u32| #[trigger] queue@.contains(x) && x != parent_pid implies descendants@.contains(x) by {
                                if x != child {
                                    let w = choose|w: int| 0 <= w < queue@.len() && queue@[w] == x;
                                    assert(w < q0.len());
                                    assert(q0[w] == x);
                                    assert(q0.contains(x));
                                    assert(dd0.contains(x));
                                } else if !dd0.contains(child) {
                                    assert(descendants@[dd0.len() as int] == child);
                                }
                            }
                            assert forall|k: int| 0 <= k < j + 1 implies queue@.contains(#[trigger] children@[k]) by {
                                if k < j {
                                    assert(q0.contains(children@[k]));
                                } else {
                                    assert(children@[k] == child);
                                }
                            }
                        }
                    } else {
                        proof {
                            assert forall|k: int| 0 <= k < j + 1 implies queue@.contains(#[trigger] children@[k]) by {
                                if k == j {
                                    assert(children@[k] == child);
                                }
                            }
                        }
                    }
                    j = j + 1;
                }
                assert(children@.take(j as int) =~= children@);
                proof {
                    assert forall|k: int, c: u32| 0 <= k < head && #[trigger] children_in(co, queue@[k]).contains(c) implies queue@.contains(c) by {
                        if k == at {
                            let w = choose|w: int| 0 <= w < children@.len() && children@[w] == c;
                            assert(queue@.contains(children@[w]));
                        }
                    }
                }
            },
            None => {
                proof {
                    assert(children_in(co, current) =~= Seq::<u32>::empty());
                    assert forall|k: int, c: u32| 0 <= k < head && #[trigger] children_in(co, queue@[k]).contains(c) implies queue@.contains(c) by {
                        if k == at {
                            assert(!children_in(co, current).contains(c));
                        }
                    }
                }
            },
        }
        proof {
            assert(qs[at] == current);
            assert(bfs_step(co, (l0, qs, at as nat)) == (descendants@, queue@, head as nat));
            steps = steps + 1;
        }
    }
    proof {
        assert(bfs_from(co, (d0, seq![parent_pid], 0nat), steps) == (descendants@, queue@, queue@.len()));
        let q = queue@;
        let dn = descendants@;
        assert forall|p: u32, c: u32| q.contains(p) && #[trigger] children_in(co, p).contains(c) implies q.contains(c) by {
            let w = choose|w: int| 0 <= w < q.len() && q[w] == p;
            assert(children_in(co, q[w]).contains(c));
        }
        assert forall|i: int| d0.len() <= i < dn.len() implies descends_from(co, parent_pid, #[trigger] dn[i]) by {
            let x = dn[i];
            let w = choose|w: int| 0 <= w < q.len() && q[w] == x;
            assert(w != 0);
            lemma_finder_chain(co, q, finder, w);
            let path = finder_chain(q, finder, w);
            assert(path.len() >= 2 && path[0] == parent_pid && path.last() == x && is_child_path(co, path));
        }
        assert forall|c: u32| #[trigger] descends_from(co, parent_pid, c) && c != parent_pid implies dn.contains(c) by {
            let path = choose|path: Seq<u32>|
                #![trigger is_child_path(co, path), path.last()]
                path.len() >= 2 && path[0] == parent_pid && path.last() == c && is_child_path(co, path);
            assert(q.contains(path[0])) by {
                assert(q[0] == parent_pid);
            }
            lemma_closed_path(co, q, path, path.len() - 1);
            assert(q.contains(c));
        }
    }
}

/// The part of an executable name before its first `.`.
pub open spec fn name_stem(s: Seq<char>) -> Seq<char> {
    s.take(first_dot(s))
}

fn stem_of(s: &str) -> (r: String)
    ensures
        r@ == name_stem(s@),
{
    let v = str_chars(s);
    let k = first_dot_exec(v.as_slice());
    proof {
        lemma_first_dot_bounds(v@);
    }
    let r = string_from_chars(v.as_slice(), 0, k);
    assert(v@.subrange(0, k as int) =~= v@.take(k as int));
    r
}

/// The processes of a Windows snapshot whose executable name, up to its first `.`, equals
/// `target` once ASCII letters are folded to lower case; none for an empty `target`.
pub open spec fn pids_named(entries: Seq<ProcessEntry>, target: Seq<char>) -> Seq<u32>
    decreases entries.len(),
{
    if entries.len() == 0 || target.len() == 0 {
        Seq::empty()
    } else {
        let before = pids_named(entries.drop_last(), target);
        if eq_ignore_ascii_case(name_stem(entries.last().exe_file@), target) {
            before.push(entries.last().pid)
        } else {
            before
        }
    }
}

/// Finds the processes of a Windows snapshot by name (see `pids_named`), in snapshot order.
pub fn find_pids_by_name(entries: &Vec<ProcessEntry>, target_name: &str) -> (r: Vec<u32>)
    ensures
        r@ == pids_named(entries@, target_name@),
{
    let mut pids: Vec<u32> = Vec::new();
    if str_chars(target_name).len() == 0 {
        proof {
            reveal_with_fuel(pids_named, 1);
        }
        return pids;
    }
    let mut i: usize = 0;
    while i < entries.len()
        invariant
            i <= entries@.len(),
            target_name@.len() > 0,
            pids@ == pids_named(entries@.take(i as int), target_name@),
        decreases entries.len() - i,
    {
        let ghost t = entries@.take(i + 1);
        assert(t.drop_last() =~= entries@.take(i as int));
        let stem = stem_of(entries[i].exe_file.as_str());
        if names_equal_ignoring_case(stem.as_str(), target_name) {
            pids.push(entries[i].pid);
        }
        i = i + 1;
    }
    assert(entries@.take(i as int) =~= entries@);
    pids
}

/// The processes of a tree's name list whose name stem, lower-cased, equals the stem of
/// `target` trimmed and lower-cased; none when `target` is blank. This is how the Linux build
/// looks processes up by name.
pub open spec fn pids_named_lowercase(names: Seq<(u32, String)>, target: Seq<char>) -> Seq<u32>
    decreases names.len(),
{
    if names.len() == 0 || trim_spec(target).len() == 0 {
        Seq::empty()
    } else {
        let before = pids_named_lowercase(names.drop_last(), target);
        let wanted = unicode_lowercase(trim_spec(name_stem(target)));
        if unicode_lowercase(name_stem(names.last().1@)) == wanted {
            before.push(names.last().0)
        } else {
            before
        }
    }
}

/// Finds processes by name in a tree's name list (see `pids_named_lowercase`), in list order.
pub fn find_pids_by_name_lowercase(tree: &ProcessTree, target_name: &str) -> (r: Vec<u32>)
    ensures
        r@ == pids_named_lowercase(tree.names@, target_name@),
{
    let mut pids: Vec<u32> = Vec::new();
    let trimmed = trim(target_name);
    if str_chars(trimmed.as_str()).len() == 0 {
        proof {
            reveal_with_fuel(pids_named_lowercase, 1);
        }
        return pids;
    }
    let target_stem = stem_of(target_name);
    let wanted_trim = trim(target_stem.as_str());
    let wanted = to_lowercase(wanted_trim.as_str());
    let wv = str_chars(wanted.as_str());
    let mut i: usize = 0;
    while i < tree.names.len()
        invariant
            i <= tree.names@.len(),
            trim_spec(target_name@).len() > 0,
            wv@ == unicode_lowercase(trim_spec(name_stem(target_name@))),
            pids@ == pids_named_lowercase(tree.names@.take(i as int), target_name@),
        decreases tree.names.len() - i,
    {
        let ghost t = tree.names@.take(i + 1);
        assert(t.drop_last() =~= tree.names@.take(i as int));
        let stem = stem_of(tree.names[i].1.as_str());
        let lower = to_lowercase(stem.as_str());
        let lv = str_chars(lower.as_str());
        if str_eq_chars(lv.as_slice(), wv.as_slice()) {
            pids.push(tree.names[i].0);
        }
        i = i + 1;
    }
    assert(tree.names@.take(i as int) =~= tree.names@);
    pids
}

/// `pid` lies below `ancestor` along a path whose processes between the two are none of
/// `skipped`.
pub open spec fn descends_avoiding(children_of: Seq<(u32, Vec<u32>)>, ancestor: u32, pid: u32, skipped: Seq<u32>) -> bool {
    exists|path: Seq<u32>|
        #![trigger is_child_path(children_of, path), path.last()]
        path.len() >= 2 && path[0] == ancestor && path.last() == pid && is_child_path(children_of, path) && forall|k: int|
            0 < k < path.len() - 1 ==> !skipped.contains(#[trigger] path[k])
}

/// The path down to the process at `i` of a list, following each process's finder (`-1` for
/// the ancestor the walk started from).
spec fn depth_chain(start: u32, found: Seq<u32>, finder: Seq<int>, i: int) -> Seq<u32>
    decreases i + 1,
{
    if 0 <= i < finder.len() && 0 <= finder[i] < i {
        depth_chain(start, found, finder, finder[i]).push(found[i])
    } else {
        seq![start, found[i]]
    }
}

proof fn lemma_depth_chain(co: Seq<(u32, Vec<u32>)>, start: u32, found: Seq<u32>, finder: Seq<int>, base: int, i: int)
    requires
        0 <= base <= i < found.len(),
        finder.len() == found.len(),
        forall|j: int| base <= j < found.len() ==> (#[trigger] finder[j] == -1 && children_in(co, start).contains(found[j]))
            || (base <= finder[j] < j && children_in(co, found[finder[j]]).contains(found[j])),
    ensures
        depth_chain(start, found, finder, i).len() >= 2,
        depth_chain(start, found, finder, i)[0] == start,
        depth_chain(start, found, finder, i).last() == found[i],
        is_child_path(co, depth_chain(start, found, finder, i)),
        forall|k: int| 0 < k < depth_chain(start, found, finder, i).len() ==> exists|j: int|
            base <= j <= i && #[trigger] depth_chain(start, found, finder, i)[k] == found[j],
    decreases i,
{
    let c = depth_chain(start, found, finder, i);
    if 0 <= finder[i] < i {
        let f = finder[i];
        lemma_depth_chain(co, start, found, finder, base, f);
        let c0 = depth_chain(start, found, finder, f);
        assert(c == c0.push(found[i]));
        assert forall|k: int| 0 <= k < c.len() - 1 implies #[trigger] children_in(co, c[k]).contains(c[k + 1]) by {
            if k < c0.len() - 1 {
                assert(c[k] == c0[k] && c[k + 1] == c0[k + 1]);
            } else {
                assert(c[k] == c0.last());
            }
        }
        assert forall|k: int| 0 < k < c.len() implies exists|j: int| base <= j <= i && #[trigger] c[k] == found[j] by {
            if k < c0.len() {
                assert(c[k] == c0[k]);
                let j = choose|j: int| base <= j <= f && #[trigger] c0[k] == found[j];
                assert(c[k] == found[j]);
            } else {
                assert(c[k] == found[i]);
            }
        }
    } else {
        assert(c == seq![start, found[i]]);
        assert forall|k: int| 0 <= k < c.len() - 1 implies #[trigger] children_in(co, c[k]).contains(c[k + 1]) by {
            assert(k == 0);
        }
        assert forall|k: int| 0 < k < c.len() implies exists|j: int| base <= j <= i && #[trigger] c[k] == found[j] by {
            assert(c[k] == found[i]);
        }
    }
}

proof fn lemma_avoiding_path(
    co: Seq<(u32, Vec<u32>)>,
    found: Seq<u32>,
    old: Seq<u32>,
    path: Seq<u32>,
    k: int,
)
    requires
        1 <= k < path.len(),
        is_child_path(co, path),
        forall|c: u32| #[trigger] children_in(co, path[0]).contains(c) ==> found.contains(c),
        forall|p: u32, c: u32| found.contains(p) && !old.contains(p) && #[trigger] children_in(co, p).contains(c)
            ==> found.contains(c),
        forall|m: int| 0 < m < path.len() - 1 ==> !old.contains(#[trigger] path[m]),
    ensures
        found.contains(path[k]),
    decreases k,
{
    let j = k - 1;
    assert(children_in(co, path[j]).contains(path[j + 1]));
    if k > 1 {
        lemma_avoiding_path(co, found, old, path, k - 1);
        assert(!old.contains(path[j]));
    }
}

/// Adds to `descendants` the processes below `parent_pid` in `tree` that it does not list
/// yet, walking depth first (the Linux build's way): a process that `descendants` already
/// listed is not walked into, and `parent_pid` itself is added when it lies below itself.
/// What `descendants` held stays at its head.
pub fn find_all_descendants_depth_first(parent_pid: u32, descendants: &mut Vec<u32>, tree: &ProcessTree)
    ensures
        old(descendants)@.len() <= final(descendants)@.len(),
        final(descendants)@.take(old(descendants)@.len() as int) == old(descendants)@,
        forall|i: int| old(descendants)@.len() <= i < final(descendants)@.len() ==> {
            &&& !old(descendants)@.contains(#[trigger] final(descendants)@[i])
            &&& !final(descendants)@.take(i).contains(final(descendants)@[i])
            &&& descends_from(tree.children_of@, parent_pid, final(descendants)@[i])
        },
        forall|c: u32| #[trigger] descends_avoiding(tree.children_of@, parent_pid, c, old(descendants)@)
            ==> final(descendants)@.contains(c),
        found_depth_first(tree.children_of@, parent_pid, old(descendants)@, final(descendants)@),
{
    let ghost co = tree.children_of@;
    let ghost d0 = descendants@;
    let mut stack: Vec<u32> = Vec::new();
    stack.push(parent_pid);
    assert(stack@[0] == parent_pid);
    let ghost mut finder: Seq<int> = Seq::new(d0.len(), |i: int| -1);
    let ghost mut root_done: bool = false;
    let ghost mut steps: nat = 0;
    assert(stack@ =~= seq![parent_pid]);
    while stack.len() > 0
        invariant
            walk_from(co, (d0, seq![parent_pid]), steps) == (descendants@, stack@),
            co == tree.children_of@,
            d0.len() <= descendants@.len(),
            descendants@.take(d0.len() as int) == d0,
            forall|i: int| d0.len() <= i < descendants@.len() ==> {
                &&& !d0.contains(#[trigger] descendants@[i])
                &&& !descendants@.take(i).contains(descendants@[i])
            },
            finder.len() == descendants@.len(),
            forall|j: int| d0.len() <= j < descendants@.len() ==> (#[trigger] finder[j] == -1 && children_in(co, parent_pid).contains(descendants@[j]))
                || (d0.len() <= finder[j] < j && children_in(co, descendants@[finder[j]]).contains(descendants@[j])),
            forall|k: int| 0 <= k < stack@.len() ==> #[trigger] stack@[k] == parent_pid || exists|j: int|
                d0.len() <= j < descendants@.len() && descendants@[j] == stack@[k],
            root_done || stack@.contains(parent_pid),
            root_done ==> forall|c: u32| #[trigger] children_in(co, parent_pid).contains(c) ==> descendants@.contains(c),
            forall|j: int, c: u32| d0.len() <= j < descendants@.len() && #[trigger] children_in(co, descendants@[j]).contains(c)
                ==> stack@.contains(descendants@[j]) || descendants@.contains(c),
        decreases 2 * unvisited(descendants@) + stack@.len(),
    {
        let ghost measure = 2 * unvisited(descendants@) + stack@.len();
        let ghost s0 = stack@;
        let current = stack.pop().unwrap();
        assert(s0.last() == current);
        assert(stack@ =~= s0.drop_last());
        let ghost cur_at: int = if current == parent_pid {
            -1
        } else {
            choose|j: int| d0.len() <= j < descendants@.len() && descendants@[j] == current
        };
        proof {
            assert(s0[s0.len() - 1] == current);
            if current != parent_pid {
                assert(exists|j: int| d0.len() <= j < descendants@.len() && descendants@[j] == s0[s0.len() - 1]);
            }
        }
        proof {
            if !root_done && current != parent_pid {
                let w = choose|w: int| 0 <= w < s0.len() && s0[w] == parent_pid;
                assert(w != s0.len() - 1);
                assert(stack@[w] == parent_pid);
            }
            assert forall|j: int, c: u32| d0.len() <= j < descendants@.len() && #[trigger] children_in(co, descendants@[j]).contains(c)
                && descendants@[j] != current implies stack@.contains(descendants@[j]) || descendants@.contains(c) by {
                if s0.contains(descendants@[j]) {
                    let w = choose|w: int| 0 <= w < s0.len() && s0[w] == descendants@[j];
                    assert(w != s0.len() - 1);
                    assert(stack@[w] == descendants@[j]);
                }
            }
            assert forall|m: int| 0 <= m < stack@.len() implies #[trigger] stack@[m] == parent_pid || exists|j: int|
                d0.len() <= j < descendants@.len() && descendants@[j] == stack@[m] by {
                assert(stack@[m] == s0[m]);
            }
        }
        let ghost dd_start = descendants@;
        let ghost after_pop = stack@;
        match find_entry(&tree.children_of, current) {
            Some(e) => {
                let children = &tree.children_of[e].1;
                assert(children_in(co, current) == children@);
                let mut k: usize = 0;
                assert(children@.take(0) =~= Seq::<u32>::empty());
                while k < children.len()
                    invariant
                        push_unseen(dd_start, after_pop, children@.take(k as int)) == (descendants@, stack@),
                        k <= children@.len(),
                        children_in(co, current) == children@,
                        co == tree.children_of@,
                        current == parent_pid ==> cur_at == -1,
                        current != parent_pid ==> d0.len() <= cur_at < dd_start.len() && dd_start[cur_at] == current,
                        dd_start.len() <= descendants@.len(),
                        descendants@.take(dd_start.len() as int) == dd_start,
                        d0.len() <= dd_start.len(),
                        descendants@.take(d0.len() as int) == d0,
                        forall|i: int| d0.len() <= i < descendants@.len() ==> {
                            &&& !d0.contains(#[trigger] descendants@[i])
                            &&& !descendants@.take(i).contains(descendants@[i])
                        },
                        finder.len() == descendants@.len(),
                        forall|j: int| d0.len() <= j < descendants@.len() ==> (#[trigger] finder[j] == -1 && children_in(co, parent_pid).contains(descendants@[j]))
                            || (d0.len() <= finder[j] < j && children_in(co, descendants@[finder[j]]).contains(descendants@[j])),
                        forall|m: int| 0 <= m < stack@.len() ==> #[trigger] stack@[m] == parent_pid || exists|j: int|
                            d0.len() <= j < descendants@.len() && descendants@[j] == stack@[m],
                        current == parent_pid || root_done || stack@.contains(parent_pid),
                        root_done ==> forall|c: u32| #[trigger] children_in(co, parent_pid).contains(c) ==> descendants@.contains(c),
                        forall|j: int, c: u32| d0.len() <= j < descendants@.len() && #[trigger] children_in(co, descendants@[j]).contains(c)
                            && descendants@[j] != current ==> stack@.contains(descendants@[j]) || descendants@.contains(c),
                        forall|m: int| 0 <= m < k ==> descendants@.contains(#[trigger] children@[m]),
                        2 * unvisited(descendants@) + stack@.len() + 1 <= measure,
                    decreases children.len() - k,
                {
                    let child = children[k];
                    assert(children@.take(k + 1).drop_last() =~= children@.take(k as int));
                    assert(children@.take(k + 1).last() == child);
                    if !pid_listed(descendants, child) {
                        let ghost t0 = descendants@;
                        let ghost st0 = stack@;
                        proof {
                            lemma_unvisited_push(t0, child);
                        }
                        descendants.push(child);
                        stack.push(child);
                        proof {
                            finder = finder.push(cur_at);
                            assert(descendants@.take(t0.len() as int) =~= t0);
                            assert(descendants@.take(d0.len() as int) =~= t0.take(d0.len() as int));
                            assert(descendants@.take(dd_start.len() as int) =~= t0.take(dd_start.len() as int));
                            assert(!d0.contains(child)) by {
                                if d0.contains(child) {
                                    let w = choose|w: int| 0 <= w < d0.len() && d0[w] == child;
                                    assert(t0.take(d0.len() as int)[w] == child);
                                    assert(t0[w] == child);
                                }
                            }
                            assert forall|x: u32| t0.contains(x) implies #[trigger] descendants@.contains(x) by {
                                let w = choose|w: int| 0 <= w < t0.len() && t0[w] == x;
                                assert(descendants@[w] == x);
                            }
                            assert(descendants@[t0.len() as int] == child);
                            assert forall|i: int| d0.len() <= i < descendants@.len() implies {
                                &&& !d0.contains(#[trigger] descendants@[i])
                                &&& !descendants@.take(i).contains(descendants@[i])
                            } by {
                                if i < t0.len() {
                                    assert(descendants@[i] == t0[i]);
                                    assert(descendants@.take(i) =~= t0.take(i));
                                } else {
                                    assert(descendants@.take(i) =~= t0);
                                }
                            }
                            assert forall|j: int| d0.len() <= j < descendants@.len() implies (#[trigger] finder[j] == -1 && children_in(co, parent_pid).contains(descendants@[j]))
                                || (d0.len() <= finder[j] < j && children_in(co, descendants@[finder[j]]).contains(descendants@[j])) by {
                                if j < t0.len() {
                                    assert(descendants@[j] == t0[j]);
                                    if d0.len() <= finder[j] < j {
                                        assert(descendants@[finder[j]] == t0[finder[j]]);
                                    }
                                } else {
                                    assert(descendants@[j] == child);
                                    assert(children@[k as int] == child);
                                    if current != parent_pid {
                                        assert(descendants@[cur_at] == dd_start[cur_at]) by {
                                            assert(descendants@.take(dd_start.len() as int)[cur_at] == dd_start[cur_at]);
                                        }
                                    }
                                }
                            }
                            assert forall|m: int| 0 <= m < stack@.len() implies #[trigger] stack@[m] == parent_pid || exists|j: int|
                                d0.len() <= j < descendants@.len() && descendants@[j] == stack@[m] by {
                                if m < st0.len() {
                                    assert(stack@[m] == st0[m]);
                                    if st0[m] != parent_pid {
                                        let j = choose|j: int| d0.len() <= j < t0.len() && t0[j] == st0[m];
                                        assert(descendants@[j] == t0[j]);
                                    }
                                } else {
                                    assert(stack@[m] == child);
                                    assert(descendants@[t0.len() as int] == child);
                                }
                            }
                            assert forall|x: u32| st0.contains(x) implies #[trigger] stack@.contains(x) by {
                                let w = choose|w: int| 0 <= w < st0.len() && st0[w] == x;
                                assert(stack@[w] == x);
                            }
                            assert(stack@[st0.len() as int] == child);
                            assert forall|j: int, c: u32| d0.len() <= j < descendants@.len() && #[trigger] children_in(co, descendants@[j]).contains(c)
                                && descendants@[j] != current implies stack@.contains(descendants@[j]) || descendants@.contains(c) by {
                                if j < t0.len() {
                                    assert(descendants@[j] == t0[j]);
                                    if st0.contains(t0[j]) {
                                    } else {
                                        assert(t0.contains(c));
                                    }
                                } else {
                                    assert(descendants@[j] == child);
                                }
                            }
                            assert forall|m: int| 0 <= m < k + 1 implies descendants@.contains(#[trigger] children@[m]) by {
                                if m < k {
                                    assert(t0.contains(children@[m]));
                                } else {
                                    assert(children@[m] == child);
                                }
                            }
                        }
                    } else {
                        proof {
                            assert forall|m: int| 0 <= m < k + 1 implies descendants@.contains(#[trigger] children@[m]) by {
                                if m == k {
                                    assert(children@[m] == child);
                                }
                            }
                        }
                    }
                    k = k + 1;
                }
                assert(children@.take(k as int) =~= children@);
                proof {
                    assert forall|c: u32| #[trigger] children_in(co, current).contains(c) implies descendants@.contains(c) by {
                        let w = choose|w: int| 0 <= w < children@.len() && children@[w] == c;
                        assert(descendants@.contains(children@[w]));
                    }
                }
            },
            None => {
                proof {
                    assert(children_in(co, current) =~= Seq::<u32>::empty());
                }
            },
        }
        proof {
            assert forall|c: u32| #[trigger] children_in(co, current).contains(c) implies descendants@.contains(c) by {
                if children_in(co, current).len() == 0 {
                    assert(!children_in(co, current).contains(c));
                }
            }
            if current == parent_pid {
                root_done = true;
            }
            assert(walk_step(co, (dd_start, s0)) == (descendants@, stack@));
            steps = steps + 1;
            assert forall|j: int, c: u32| d0.len() <= j < descendants@.len() && #[trigger] children_in(co, descendants@[j]).contains(c)
                implies stack@.contains(descendants@[j]) || descendants@.contains(c) by {
                if descendants@[j] == current {
                    assert(descendants@.contains(c));
                }
            }
        }
    }
    proof {
        assert(stack@ =~= Seq::<u32>::empty());
        assert(walk_from(co, (d0, seq![parent_pid]), steps) == (descendants@, Seq::<u32>::empty()));
        let dn = descendants@;
        assert forall|i: int| d0.len() <= i < dn.len() implies descends_from(co, parent_pid, #[trigger] dn[i]) by {
            lemma_depth_chain(co, parent_pid, dn, finder, d0.len() as int, i);
            let path = depth_chain(parent_pid, dn, finder, i);
            assert(path.len() >= 2 && path[0] == parent_pid && path.last() == dn[i] && is_child_path(co, path));
        }
        assert forall|p: u32, c: u32| dn.contains(p) && !d0.contains(p) && #[trigger] children_in(co, p).contains(c)
            implies dn.contains(c) by {
            let w = choose|w: int| 0 <= w < dn.len() && dn[w] == p;
            if w < d0.len() {
                assert(dn.take(d0.len() as int)[w] == p);
                assert(d0[w] == p);
            }
            assert(children_in(co, dn[w]).contains(c));
        }
        assert forall|c: u32| #[trigger] descends_avoiding(co, parent_pid, c, d0) implies dn.contains(c) by {
            let path = choose|path: Seq<u32>|
                #![trigger is_child_path(co, path), path.last()]
                path.len() >= 2 && path[0] == parent_pid && path.last() == c && is_child_path(co, path) && forall|k: int|
                    0 < k < path.len() - 1 ==> !d0.contains(#[trigger] path[k]);
            lemma_avoiding_path(co, dn, d0, path, path.len() - 1);
        }
    }
}

} // verus!
