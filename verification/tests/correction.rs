use cpu_affinity_tool::catalog::InstalledPackageRuntimeInfo;
use cpu_affinity_tool::correction::{
    attach_package_pids, correction_delay_ms, extend_with_descendants, post_launch_correction_poll,
    track_correction_outcome, PostLaunchCorrection, PostLaunchCorrectionOutcome,
    ProcessFacts,
};
use cpu_affinity_tool::ids::{GroupId, RuleId};
use cpu_affinity_tool::process_tree::ProcessTree;
use cpu_affinity_tool::launch::RuntimeRegistry;

const SPOTIFY: &str = "SpotifyAB.SpotifyMusic_zpdnekdrzrea0!Spotify";

fn names(entries: &[(u32, &str)]) -> Vec<(u32, String)> {
    entries.iter().map(|(pid, name)| (*pid, name.to_string())).collect()
}

fn app_ids(entries: &[(u32, &str)]) -> Vec<(u32, Result<Option<String>, String>)> {
    entries
        .iter()
        .map(|(pid, id)| (*pid, Ok(Some(id.to_string()))))
        .collect()
}

#[test]
fn test_post_launch_correction_poll_attaches_descendants_and_reapplies_settings() {
    let snapshot = ProcessTree {
        parent_of: Vec::new(),
        children_of: vec![(50, vec![51]), (51, vec![52])],
        names: names(&[(50, "Spotify.exe"), (51, "SpotifyHelper.exe"), (52, "SpotifyHelper.exe")]),
    };
    let facts = ProcessFacts {
        image_paths: Vec::new(),
        app_ids: app_ids(&[(50, SPOTIFY)]),
    };
    let mut tracked_pids = vec![50];

    let poll = post_launch_correction_poll(
        &snapshot,
        &facts,
        SPOTIFY,
        &mut tracked_pids,
        &vec![1, 3],
        None,
        &Vec::new(),
    );
    let outcome = poll.outcome.unwrap();

    assert_eq!(outcome.seed_pids, vec![50, 51, 52]);
    assert_eq!(outcome.managed_pids, vec![50, 51, 52]);
    assert!(outcome.no_identity_package_pids.is_empty());
    assert_eq!(outcome.new_managed_pids_added, 2);
    assert!(outcome.saw_identity_seed);
    assert_eq!(poll.mask, 10);
    assert_eq!(poll.apply_to, vec![50, 51, 52]);
    assert_eq!(tracked_pids, vec![50, 51, 52]);
}

#[test]
fn test_post_launch_correction_uses_background_host_as_seed_only() {
    let snapshot = ProcessTree {
        parent_of: Vec::new(),
        children_of: vec![(60, vec![61])],
        names: names(&[(60, "backgroundTaskHost.exe"), (61, "Spotify.exe")]),
    };
    let facts = ProcessFacts {
        image_paths: Vec::new(),
        app_ids: app_ids(&[(60, SPOTIFY), (61, SPOTIFY)]),
    };
    let mut seed_pids = vec![60];

    let poll = post_launch_correction_poll(
        &snapshot,
        &facts,
        SPOTIFY,
        &mut seed_pids,
        &vec![1, 3],
        None,
        &Vec::new(),
    );
    let outcome = poll.outcome.unwrap();

    assert_eq!(outcome.seed_pids, vec![60, 61]);
    assert_eq!(outcome.managed_pids, vec![61]);
    assert!(outcome.no_identity_package_pids.is_empty());
    assert_eq!(outcome.new_managed_pids_added, 1);
    assert!(outcome.saw_identity_seed);
    assert_eq!(poll.mask, 10);
    assert_eq!(poll.apply_to, vec![61]);
}

fn spotify_package() -> InstalledPackageRuntimeInfo {
    InstalledPackageRuntimeInfo {
        aumid: SPOTIFY.into(),
        package_family_name: "SpotifyAB.SpotifyMusic_zpdnekdrzrea0".into(),
        install_root: r"C:\Program Files\WindowsApps\Spotify".into(),
    }
}

#[test]
fn test_post_launch_correction_poll_attaches_only_new_package_local_pids() {
    let snapshot = ProcessTree {
        parent_of: Vec::new(),
        children_of: Vec::new(),
        names: names(&[
            (40, "Spotify.exe"),
            (41, "SpotifyLauncher.exe"),
            (42, "SpotifyHelper.exe"),
            (43, "SpotifyHelper.exe"),
            (44, "SpotifyHelper.exe"),
        ]),
    };
    let facts = ProcessFacts {
        image_paths: vec![
            (40, Some(r"C:\Program Files\WindowsApps\Spotify\Spotify.exe".to_string())),
            (41, Some(r"C:\Program Files\WindowsApps\Spotify\SpotifyLauncher.exe".to_string())),
            (42, Some(r"C:\Program Files\WindowsApps\Spotify\SpotifyHelper.exe".to_string())),
            (43, Some(r"C:\Other\SpotifyHelper.exe".to_string())),
            (44, Some(r"C:\Program Files\WindowsApps\Spotify\Widget.exe".to_string())),
        ],
        app_ids: app_ids(&[
            (40, SPOTIFY),
            (42, SPOTIFY),
            (44, "SpotifyAB.SpotifyMusic_zpdnekdrzrea0!Widget"),
        ]),
    };
    let mut tracked_pids = vec![40];
    let package_info = spotify_package();
    let prelaunch = vec![41];

    let poll = post_launch_correction_poll(
        &snapshot,
        &facts,
        SPOTIFY,
        &mut tracked_pids,
        &vec![0, 1],
        Some(&package_info),
        &prelaunch,
    );
    let outcome = poll.outcome.unwrap();

    assert_eq!(outcome.seed_pids, vec![40, 42]);
    assert_eq!(outcome.managed_pids, vec![40, 42]);
    assert_eq!(outcome.no_identity_package_pids, Vec::<u32>::new());
    assert_eq!(outcome.new_managed_pids_added, 1);
    assert!(outcome.saw_identity_seed);
    assert_eq!(poll.mask, 3);
    assert_eq!(poll.apply_to, vec![40, 42]);
}

#[test]
fn test_package_processes_without_identity_are_reported_and_hosts_left_out() {
    let snapshot = ProcessTree {
        parent_of: Vec::new(),
        children_of: Vec::new(),
        names: names(&[(70, "Spotify.exe"), (71, "Helper.exe"), (72, "backgroundTaskHost.exe"), (73, "Blank.exe")]),
    };
    let facts = ProcessFacts {
        image_paths: vec![
            (71, Some(r"C:\Program Files\WindowsApps\Spotify\Helper.exe".to_string())),
            (72, Some(r"C:\Program Files\WindowsApps\Spotify\host.exe".to_string())),
            (73, Some(r"C:\Program Files\WindowsApps\Spotify\Blank.exe".to_string())),
        ],
        app_ids: vec![(70, Ok(None)), (73, Ok(Some("   ".to_string())))],
    };
    let mut seeds = vec![70];
    let poll = post_launch_correction_poll(
        &snapshot,
        &facts,
        SPOTIFY,
        &mut seeds,
        &vec![2],
        Some(&spotify_package()),
        &Vec::new(),
    );
    let outcome = poll.outcome.unwrap();

    assert_eq!(outcome.seed_pids, vec![70]);
    assert_eq!(outcome.no_identity_package_pids, vec![71, 73]);
    assert!(!outcome.saw_identity_seed);
    assert_eq!(outcome.new_managed_pids_added, 0);
    assert_eq!(poll.mask, 4);
}

#[test]
fn test_failed_identity_query_while_gathering_package_ends_before_settings() {
    let snapshot = ProcessTree {
        parent_of: Vec::new(),
        children_of: vec![(80, vec![81])],
        names: names(&[(80, "Spotify.exe"), (82, "Helper.exe")]),
    };
    let facts = ProcessFacts {
        image_paths: vec![(82, Some(r"C:\Program Files\WindowsApps\Spotify\Helper.exe".to_string()))],
        app_ids: vec![(82, Err("access denied".to_string()))],
    };
    let mut seeds = vec![80];
    let poll = post_launch_correction_poll(
        &snapshot,
        &facts,
        SPOTIFY,
        &mut seeds,
        &vec![0],
        Some(&spotify_package()),
        &Vec::new(),
    );

    assert_eq!(poll.outcome, Err("access denied".to_string()));
    assert!(poll.apply_to.is_empty());
    assert_eq!(seeds, vec![80, 81]);
}

#[test]
fn test_failed_identity_query_on_seed_still_applies_settings() {
    let snapshot = ProcessTree {
        parent_of: Vec::new(),
        children_of: Vec::new(),
        names: names(&[(90, "Spotify.exe")]),
    };
    let facts = ProcessFacts {
        image_paths: Vec::new(),
        app_ids: vec![(90, Err("gone".to_string()))],
    };
    let mut seeds = vec![90];
    let poll = post_launch_correction_poll(&snapshot, &facts, SPOTIFY, &mut seeds, &vec![0], None, &Vec::new());

    assert_eq!(poll.outcome, Err("gone".to_string()));
    assert_eq!(poll.apply_to, vec![90]);
}

#[test]
fn test_extend_with_descendants_reaches_every_generation_once() {
    let snapshot = ProcessTree {
        parent_of: Vec::new(),
        children_of: vec![(1, vec![2, 3]), (2, vec![4, 1]), (3, vec![4]), (4, vec![5])],
        names: Vec::new(),
    };
    let mut pids = vec![1];
    extend_with_descendants(&snapshot, &mut pids);

    let mut sorted = pids.clone();
    sorted.sort();
    assert_eq!(sorted, vec![1, 2, 3, 4, 5]);
    assert_eq!(pids[0], 1);
    assert_eq!(pids.len(), 5);
}

#[test]
fn test_correction_waits_grow_and_stop_after_seven_looks() {
    let waits: Vec<Option<u64>> = (0..8).map(correction_delay_ms).collect();
    assert_eq!(
        waits,
        vec![Some(0), Some(100), Some(250), Some(500), Some(1000), Some(2000), Some(3500), None]
    );
}

fn outcome(seeds: Vec<u32>, managed: Vec<u32>, added: usize, saw: bool) -> PostLaunchCorrectionOutcome {
    PostLaunchCorrectionOutcome {
        seed_pids: seeds,
        managed_pids: managed,
        no_identity_package_pids: Vec::new(),
        new_managed_pids_added: added,
        saw_identity_seed: saw,
    }
}

#[test]
fn test_correction_ends_after_two_stable_looks_with_identity() {
    let mut correction = PostLaunchCorrection::new(10);
    assert_eq!(correction.next_delay_ms(), Some(0));

    correction.record_poll(Some(&outcome(vec![10, 11], vec![10, 11], 1, true)), &Vec::new());
    assert_eq!(correction.seed_pids, vec![10, 11]);
    assert!(!correction.finished);
    assert_eq!(correction.next_delay_ms(), Some(100));

    correction.record_poll(None, &Vec::new());
    assert_eq!(correction.stable_polls, 0);
    assert_eq!(correction.next_delay_ms(), Some(250));

    correction.record_poll(Some(&outcome(vec![10, 11], vec![10, 11], 0, false)), &Vec::new());
    assert_eq!(correction.stable_polls, 1);
    assert!(!correction.finished);

    correction.record_poll(Some(&outcome(vec![10, 11], vec![10, 11], 0, false)), &vec![12]);
    assert_eq!(correction.stable_polls, 0);
    assert_eq!(correction.seed_pids, vec![10, 11, 12]);

    correction.record_poll(Some(&outcome(vec![10, 11, 12], vec![10, 11], 0, false)), &Vec::new());
    correction.record_poll(Some(&outcome(vec![10, 11, 12], vec![10, 11], 0, false)), &Vec::new());
    assert!(correction.saw_identity_seed);
    assert!(correction.finished);
    assert_eq!(correction.next_delay_ms(), None);
}

#[test]
fn test_track_correction_outcome_starts_tracking_and_sets_ids() {
    let mut registry = RuntimeRegistry::new();
    track_correction_outcome(
        &mut registry,
        SPOTIFY,
        &GroupId("group-1".into()),
        &RuleId("rule-2".into()),
        &vec![61, 62, 61],
    );
    assert_eq!(registry.get_running_app_pids(SPOTIFY), Some(vec![61, 62]));
    assert_eq!(registry.apps[0].group_id, GroupId("group-1".into()));
    assert_eq!(registry.apps[0].rule_id, RuleId("rule-2".into()));

    track_correction_outcome(
        &mut registry,
        SPOTIFY,
        &GroupId("group-3".into()),
        &RuleId("rule-4".into()),
        &vec![63],
    );
    assert_eq!(registry.get_running_app_pids(SPOTIFY), Some(vec![61, 62, 63]));
    assert_eq!(registry.apps[0].group_id, GroupId("group-3".into()));

    let mut empty = RuntimeRegistry::new();
    track_correction_outcome(&mut empty, SPOTIFY, &GroupId("g".into()), &RuleId("r".into()), &Vec::new());
    assert!(empty.apps.is_empty());
}

#[test]
fn test_attach_package_pids_only_when_package_is_owned() {
    let mut registry = RuntimeRegistry::new();
    assert!(registry.add_running_app(SPOTIFY, 5, GroupId("g".into()), RuleId("r".into())));

    assert!(attach_package_pids(&mut registry, SPOTIFY, false, &vec![6]).is_empty());
    assert_eq!(registry.get_running_app_pids(SPOTIFY), Some(vec![5]));

    assert_eq!(attach_package_pids(&mut registry, SPOTIFY, true, &vec![5, 6, 7, 6]), vec![6, 7]);
    assert_eq!(registry.get_running_app_pids(SPOTIFY), Some(vec![5, 6, 7]));
}
