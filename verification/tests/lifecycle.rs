use omni_resources::clock::{RunClock, Timestamp};
use omni_resources::consumers::ConsumerSet;
use omni_resources::github_release::{GithubReleaseOperationCache, GithubReleases};
use omni_resources::registry::{
    is_removable, is_stale, release, require, InstalledResource, Registry, Removal, ResourceKind,
};
use omni_resources::homebrew::HomebrewOperationCache;
use omni_resources::store::{exclusive, time_of_change, CacheObject, Commit};

fn clock(nanos: i128) -> RunClock {
    RunClock::at(Timestamp { nanos })
}

fn ids(set: &ConsumerSet) -> Vec<String> {
    set.to_vec()
}

fn record(name: &str, owned: bool, consumers: &[&str], at: i128) -> InstalledResource {
    let all: Vec<String> = consumers.iter().map(|c| c.to_string()).collect();
    InstalledResource {
        kind: ResourceKind::Formula,
        name: name.to_string(),
        version: None,
        owned,
        required_by: ConsumerSet::from_vec(&all),
        last_required_at: Timestamp { nanos: at },
    }
}

fn names(registry: &Registry) -> Vec<String> {
    registry.records.iter().map(|r| r.name.clone()).collect()
}

#[test]
fn consumer_set_holds_each_id_once() {
    let mut set = ConsumerSet::new();
    assert!(set.is_empty());
    assert!(set.insert("a"));
    assert!(set.insert("b"));
    assert!(!set.insert("a"));
    assert_eq!(set.len(), 2);
    assert!(set.contains("a"));
    assert!(!set.contains("c"));
    assert!(set.remove("a"));
    assert!(!set.remove("a"));
    assert_eq!(ids(&set), vec!["b".to_string()]);
    let again = ConsumerSet::from_vec(&vec!["y".to_string(), "x".to_string(), "y".to_string()]);
    assert_eq!(ids(&again), vec!["x".to_string(), "y".to_string()]);
    assert_eq!(ids(&again.clone()), ids(&again));
}

#[test]
fn required_by_follows_the_most_recent_call() {
    let run = clock(100);
    let mut set = ConsumerSet::new();
    let mut last = Timestamp::origin();
    assert!(require(&mut set, &mut last, "a", &run));
    assert!(require(&mut set, &mut last, "b", &run));
    assert!(release(&mut set, "a"));
    assert!(require(&mut set, &mut last, "c", &run));
    assert!(release(&mut set, "c"));
    assert!(!release(&mut set, "c"));
    assert!(require(&mut set, &mut last, "a", &run));
    let mut held = ids(&set);
    held.sort();
    assert_eq!(held, vec!["a".to_string(), "b".to_string()]);
}

#[test]
fn require_refreshes_only_when_something_changes() {
    let run = clock(100);
    let mut set = ConsumerSet::new();
    let mut last = Timestamp { nanos: 50 };
    assert!(is_stale(&last, &run));
    assert!(require(&mut set, &mut last, "a", &run));
    assert_eq!(last, Timestamp { nanos: 100 });
    assert!(!is_stale(&last, &run));
    assert!(!require(&mut set, &mut last, "a", &run));
    assert_eq!(last, Timestamp { nanos: 100 });

    let mut old = Timestamp { nanos: 99 };
    assert!(require(&mut set, &mut old, "a", &run));
    assert_eq!(old, Timestamp { nanos: 100 });

    let mut later = Timestamp { nanos: 200 };
    assert!(!require(&mut set, &mut later, "a", &run));
    assert_eq!(later, Timestamp { nanos: 200 });
    assert!(require(&mut set, &mut later, "b", &run));
    assert_eq!(later, Timestamp { nanos: 100 });
}

#[test]
fn removable_needs_no_consumer_and_ownership() {
    let empty = ConsumerSet::new();
    let held = ConsumerSet::from_vec(&vec!["a".to_string()]);
    assert!(is_removable(&empty, true));
    assert!(!is_removable(&empty, false));
    assert!(!is_removable(&held, true));
    assert!(!is_removable(&held, false));
}

#[test]
fn clock_start_reads_a_plausible_time() {
    let run = RunClock::start();
    assert!(run.now.nanos > 1_500_000_000_000_000_000);
    assert!(Timestamp::origin().is_origin());
    assert!(Timestamp::origin().precedes(&run.now));
    assert!(run.predates_run(&Timestamp::origin()));
}

#[test]
fn github_cache_tracks_installed_releases() {
    let run = clock(1_000);
    let mut cache = GithubReleaseOperationCache::new_empty();
    assert!(cache.is_empty());
    assert!(cache.add_installed("wd1", "owner/repo", "1.2.3", &run));
    assert_eq!(cache.updated_at, Timestamp { nanos: 1_000 });
    assert!(!cache.add_installed("wd1", "owner/repo", "1.2.3", &run));
    assert!(cache.add_installed("wd2", "owner/repo", "1.2.3", &run));
    assert!(cache.add_installed("wd1", "owner/repo", "2.0.0", &run));
    assert_eq!(cache.installed.len(), 2);
    assert_eq!(cache.installed[0].required_by.len(), 2);
    assert_eq!(cache.installed[1].version, "2.0.0");
    assert!(!cache.installed[0].stale(&run));
    assert!(cache.installed[0].stale(&clock(1_001)));
    assert_eq!(cache.find_installed("owner/repo", "2.0.0"), Some(1));
    assert_eq!(cache.find_installed("owner/repo", "3.0.0"), None);

    let later = clock(2_000);
    assert!(cache.add_installed("wd1", "owner/repo", "1.2.3", &later));
    assert_eq!(cache.installed[0].last_required_at, Timestamp { nanos: 2_000 });
    assert_eq!(cache.updated_at, Timestamp { nanos: 2_000 });
    assert!(!cache.is_empty());
}

#[test]
fn github_cache_holds_release_lists_by_repository() {
    let run = clock(5);
    let mut cache = GithubReleaseOperationCache::new_empty();
    assert!(cache.get_releases("a/b").is_none());
    assert!(cache.add_releases("a/b", GithubReleases::new(vec![], Timestamp { nanos: 1 }), &run));
    assert!(cache.add_releases("c/d", GithubReleases::new(vec![], Timestamp { nanos: 2 }), &run));
    assert!(cache.add_releases("a/b", GithubReleases::new(vec![], Timestamp { nanos: 3 }), &run));
    assert_eq!(cache.get_releases("a/b").unwrap().fetched_at, Timestamp { nanos: 3 });
    assert_eq!(cache.get_releases("c/d").unwrap().fetched_at, Timestamp { nanos: 2 });
    assert_eq!(cache.releases.keys(), vec!["a/b".to_string(), "c/d".to_string()]);
    assert_eq!(cache.updated_at, Timestamp { nanos: 5 });
    cache.updated(Timestamp { nanos: 9 });
    assert_eq!(cache.updated_at, Timestamp { nanos: 9 });
}

#[test]
fn registry_add_finds_or_creates() {
    let run = clock(10);
    let mut registry = Registry::new();
    assert!(registry.add("wd1", ResourceKind::Formula, "jq", None, false, &run));
    assert!(!registry.add("wd1", ResourceKind::Formula, "jq", None, false, &run));
    assert!(registry.add("wd1", ResourceKind::Formula, "jq", None, true, &run));
    assert!(!registry.add("wd1", ResourceKind::Formula, "jq", None, false, &run));
    assert!(registry.records[0].owned);
    assert!(registry.add("wd1", ResourceKind::Cask, "jq", None, false, &run));
    assert!(registry.add("wd1", ResourceKind::Formula, "jq", Some("1.7".to_string()), true, &run));
    assert_eq!(registry.records.len(), 3);
    assert_eq!(registry.find(ResourceKind::Formula, "jq", &Some("1.7".to_string())), Some(2));
    assert_eq!(registry.find(ResourceKind::Tap, "jq", &None), None);
    assert!(!registry.records[2].stale(&run));
}

#[test]
fn registry_release_keeps_the_records() {
    let mut registry = Registry {
        records: vec![
            record("a", true, &["wd1", "wd2"], 5),
            record("b", true, &["wd2"], 50),
            record("c", true, &["wd1"], 50),
        ],
    };
    assert!(registry.release_stale("wd1", &clock(10)));
    assert_eq!(ids(&registry.records[0].required_by), vec!["wd2".to_string()]);
    assert_eq!(ids(&registry.records[2].required_by), vec!["wd1".to_string()]);
    assert!(!registry.release_stale("wd1", &clock(10)));
    assert!(registry.release("wd1"));
    assert!(registry.records[2].required_by.is_empty());
    assert!(!registry.release("wd1"));
    assert_eq!(registry.records.len(), 3);
}

#[test]
fn sweep_removes_what_uninstalls_and_keeps_the_required() {
    let mut registry = Registry {
        records: vec![
            record("kept", true, &["wd"], 0),
            record("gone", true, &[], 0),
            record("leftover", false, &[], 0),
            record("observed", false, &["wd"], 0),
            record("skipped", true, &[], 0),
        ],
    };
    assert_eq!(registry.next_removable(5), Some(4));
    assert_eq!(registry.next_removable(4), Some(1));
    assert_eq!(registry.next_removable(1), None);
    assert_eq!(registry.next_removable(99), Some(4));
    let report = registry.sweep(|record: &InstalledResource| -> Removal<String> {
        if record.name == "skipped" {
            Removal::Skipped
        } else {
            Removal::Removed
        }
    });
    assert!(report.error.is_none());
    assert!(report.changed);
    assert_eq!(report.handled, vec!["gone".to_string()]);
    assert_eq!(names(&registry), vec!["kept".to_string(), "observed".to_string()]);
}

#[test]
fn sweep_halts_at_a_failed_removal() {
    let mut registry = Registry {
        records: vec![
            record("first", true, &[], 0),
            record("leftover", false, &[], 0),
            record("stuck", true, &[], 0),
            record("last", true, &[], 0),
        ],
    };
    let report = registry.sweep(|record: &InstalledResource| -> Removal<String> {
        if record.name == "stuck" {
            Removal::Failed("no".to_string())
        } else {
            Removal::Removed
        }
    });
    assert_eq!(report.error, Some("no".to_string()));
    assert!(report.changed);
    assert_eq!(report.handled, vec!["last".to_string()]);
    assert_eq!(
        names(&registry),
        vec!["first".to_string(), "leftover".to_string(), "stuck".to_string()]
    );
}

#[test]
fn sweep_of_nothing_changes_nothing() {
    let mut registry = Registry { records: vec![record("kept", true, &["wd"], 0)] };
    let report = registry.sweep(|_: &InstalledResource| -> Removal<String> { Removal::Removed });
    assert!(!report.changed);
    assert!(report.handled.is_empty());
    assert_eq!(names(&registry), vec!["kept".to_string()]);
}

#[test]
fn remove_takes_only_removable_records() {
    let mut registry = Registry {
        records: vec![record("kept", true, &["wd"], 0), record("gone", true, &[], 0)],
    };
    assert!(registry.remove(0).is_none());
    assert!(registry.remove(7).is_none());
    assert_eq!(registry.remove(1).unwrap().name, "gone");
    assert_eq!(names(&registry), vec!["kept".to_string()]);
}

#[test]
fn prune_drops_what_nobody_owns_or_requires() {
    let mut registry = Registry {
        records: vec![
            record("a", false, &[], 0),
            record("b", true, &[], 0),
            record("c", false, &["wd"], 0),
            record("d", false, &[], 0),
        ],
    };
    assert!(registry.prune());
    assert_eq!(names(&registry), vec!["b".to_string(), "c".to_string()]);
    assert!(!registry.prune());
}

#[test]
fn consumers_are_held_in_ascending_order() {
    let mut set = ConsumerSet::new();
    for id in ["wd-b", "wd-a", "wd-c", "wd", "Wd", "wd-a", "é", "z"] {
        set.insert(id);
    }
    let expected: Vec<String> =
        ["Wd", "wd", "wd-a", "wd-b", "wd-c", "z", "é"].iter().map(|s| s.to_string()).collect();
    assert_eq!(ids(&set), expected);
    let mut sorted = expected.clone();
    sorted.sort();
    assert_eq!(expected, sorted);
    assert!(set.remove("wd-b"));
    assert_eq!(ids(&set).len(), 6);
    assert_eq!(ids(&set)[3], "wd-c");

    let run = clock(1);
    let mut cache = GithubReleaseOperationCache::new_empty();
    cache.add_installed("wd2", "o/r", "1", &run);
    cache.add_installed("wd1", "o/r", "1", &run);
    cache.add_installed("wd3", "o/r", "1", &run);
    assert_eq!(
        ids(&cache.installed[0].required_by),
        vec!["wd1".to_string(), "wd2".to_string(), "wd3".to_string()]
    );
}

#[test]
fn every_committed_change_moves_the_time_on() {
    let at = |nanos: i128| Timestamp { nanos };
    assert_eq!(time_of_change(at(5), at(9)), at(9));
    assert_eq!(time_of_change(at(5), at(5)), at(6));
    assert_eq!(time_of_change(at(5), at(1)), at(6));
    assert_eq!(time_of_change(at(i128::MAX), at(1)), at(i128::MAX));

    let mut document = HomebrewOperationCache::new_empty();
    document.updated_at = at(50);
    let commit = exclusive(Some(document), at(10), |mut doc: HomebrewOperationCache| {
        let changed = doc.add_tap("wd", "a/b", true, &clock(3));
        (doc, changed)
    });
    match commit {
        Commit::Persist(doc) => assert_eq!(doc.updated_at, at(51)),
        Commit::Discard => panic!("the change was to be persisted"),
    }
}
