use cpu_affinity_tool::process_tree::{
    find_all_descendants_depth_first, find_all_descendants_with_tree, find_child_pids, find_pids_by_name,
    find_pids_by_name_lowercase, get_parent_pid, ProcessEntry, ProcessTree,
};

fn entry(pid: u32, parent_pid: u32, exe: &str) -> ProcessEntry {
    ProcessEntry { pid, parent_pid, exe_file: exe.to_string() }
}

#[test]
fn test_find_all_descendants_with_tree_preserves_no_duplicate_semantics() {
    let tree = ProcessTree {
        parent_of: vec![(2, 1), (3, 1), (4, 2), (5, 4)],
        children_of: vec![(1, vec![2, 3]), (2, vec![4]), (4, vec![5])],
        names: Vec::new(),
    };

    let mut descendants = vec![4];
    find_all_descendants_with_tree(1, &mut descendants, &tree);

    assert_eq!(descendants, vec![4, 2, 3, 5]);
}

#[test]
fn descendants_are_found_breadth_first() {
    let tree = ProcessTree {
        parent_of: Vec::new(),
        children_of: vec![(1, vec![2, 3]), (2, vec![4, 5]), (3, vec![6]), (4, vec![7])],
        names: Vec::new(),
    };
    let mut descendants = Vec::new();
    find_all_descendants_with_tree(1, &mut descendants, &tree);
    assert_eq!(descendants, vec![2, 3, 4, 5, 6, 7]);
}

#[test]
fn descendants_walk_survives_cycles_and_skips_the_root() {
    let tree = ProcessTree {
        parent_of: Vec::new(),
        children_of: vec![(1, vec![2]), (2, vec![1, 3]), (3, vec![2])],
        names: Vec::new(),
    };
    let mut descendants = vec![9];
    find_all_descendants_with_tree(1, &mut descendants, &tree);
    assert_eq!(descendants, vec![9, 2, 3]);
}

#[test]
fn descendants_of_a_leaf_leave_the_list_alone() {
    let tree = ProcessTree { parent_of: Vec::new(), children_of: vec![(1, vec![2])], names: Vec::new() };
    let mut descendants = vec![7, 7];
    find_all_descendants_with_tree(2, &mut descendants, &tree);
    assert_eq!(descendants, vec![7, 7]);
}

#[test]
fn tree_from_entries_skips_idle_and_keeps_order() {
    let entries = vec![
        entry(0, 0, "[System Process]"),
        entry(4, 0, "System"),
        entry(100, 4, "smss.exe"),
        entry(200, 4, "csrss.exe"),
        entry(300, 100, "app.exe"),
    ];
    let tree = ProcessTree::from_entries(&entries);
    assert_eq!(find_child_pids(&tree, 4), vec![100, 200]);
    assert_eq!(find_child_pids(&tree, 0), vec![4]);
    assert_eq!(find_child_pids(&tree, 100), vec![300]);
    assert_eq!(find_child_pids(&tree, 300), Vec::<u32>::new());
    assert!(tree.parent_of.contains(&(300, 100)));
    assert_eq!(get_parent_pid(&tree, 300), Some(100));
    assert_eq!(get_parent_pid(&tree, 0), None);
    assert!(!tree.parent_of.iter().any(|(pid, _)| *pid == 0));
    assert!(tree.names.contains(&(200, "csrss.exe".to_string())));
}

#[test]
fn tree_record_replaces_parent_and_name() {
    let mut tree = ProcessTree::new();
    tree.record(10, 1, "a.exe".to_string());
    tree.record(10, 2, "b.exe".to_string());
    assert_eq!(tree.parent_of, vec![(10, 2)]);
    assert_eq!(tree.names, vec![(10, "b.exe".to_string())]);
    assert_eq!(find_child_pids(&tree, 1), vec![10]);
    assert_eq!(find_child_pids(&tree, 2), vec![10]);
}

#[test]
fn pids_by_name_compare_stem_ignoring_ascii_case() {
    let entries = vec![
        entry(1, 0, "Spotify.exe"),
        entry(2, 0, "spotify.helper.exe"),
        entry(3, 0, "SpotifyHelper.exe"),
        entry(4, 0, "SPOTIFY"),
    ];
    assert_eq!(find_pids_by_name(&entries, "spotify"), vec![1, 2, 4]);
    assert_eq!(find_pids_by_name(&entries, ""), Vec::<u32>::new());
    assert_eq!(find_pids_by_name(&entries, "spotify.exe"), Vec::<u32>::new());
}

#[test]
fn pids_by_name_lowercase_trims_and_takes_stem_of_target() {
    let tree = ProcessTree {
        parent_of: Vec::new(),
        children_of: Vec::new(),
        names: vec![(5, "Firefox".to_string()), (6, "firefox-bin".to_string()), (7, "firefox.real".to_string())],
    };
    assert_eq!(find_pids_by_name_lowercase(&tree, "  FireFox.exe"), vec![5, 7]);
    assert_eq!(find_pids_by_name_lowercase(&tree, "   "), Vec::<u32>::new());
}

#[test]
fn depth_first_walk_does_not_enter_listed_processes() {
    let tree = ProcessTree {
        parent_of: Vec::new(),
        children_of: vec![(1, vec![2, 3]), (2, vec![4]), (4, vec![5])],
        names: Vec::new(),
    };
    let mut descendants = vec![4];
    find_all_descendants_depth_first(1, &mut descendants, &tree);
    assert_eq!(descendants, vec![4, 2, 3]);

    let mut fresh = Vec::new();
    find_all_descendants_depth_first(1, &mut fresh, &tree);
    assert_eq!(fresh, vec![2, 3, 4, 5]);
}

#[test]
fn depth_first_walk_follows_the_last_found_child_first() {
    let tree = ProcessTree {
        parent_of: Vec::new(),
        children_of: vec![(1, vec![2, 3]), (3, vec![6]), (2, vec![4])],
        names: Vec::new(),
    };
    let mut found = Vec::new();
    find_all_descendants_depth_first(1, &mut found, &tree);
    assert_eq!(found, vec![2, 3, 6, 4]);
}

#[test]
fn depth_first_walk_adds_a_parent_that_lies_below_itself() {
    let tree = ProcessTree { parent_of: Vec::new(), children_of: vec![(1, vec![2]), (2, vec![1])], names: Vec::new() };
    let mut found = Vec::new();
    find_all_descendants_depth_first(1, &mut found, &tree);
    assert_eq!(found, vec![2, 1]);
}

#[test]
fn breadth_first_and_depth_first_walks_find_descendants_in_their_orders() {
    let tree = ProcessTree {
        parent_of: vec![(2, 1), (3, 1), (4, 2), (5, 3)],
        children_of: vec![(1, vec![2, 3]), (2, vec![4]), (3, vec![5])],
        names: Vec::new(),
    };
    let mut breadth = Vec::new();
    find_all_descendants_with_tree(1, &mut breadth, &tree);
    assert_eq!(breadth, vec![2, 3, 4, 5]);
    let mut depth = Vec::new();
    find_all_descendants_depth_first(1, &mut depth, &tree);
    assert_eq!(depth, vec![2, 3, 5, 4]);
}
