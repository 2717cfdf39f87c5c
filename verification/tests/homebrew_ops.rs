use omni_resources::clock::{RunClock, Timestamp};
use omni_resources::homebrew::{
    cleanup_result, count_outcomes, names_reported, write_counts, write_removal_part,
    write_summary, write_summary_part, HomebrewHandled, HomebrewInstall, HomebrewInstallType,
    HomebrewOperationCache, HomebrewTap, LocalTapStep, UpConfigHomebrew, UpError,
};
use omni_resources::homebrew_checks::{install_key, HomebrewOperationUpdateCache};
use omni_resources::registry::{InstalledResource, Removal, ResourceKind};
use omni_resources::store::{exclusive, shared, CacheHandle, CacheObject, Commit};
use omni_resources::text::{decimal_text, join, without};

fn clock(nanos: i128) -> RunClock {
    RunClock::at(Timestamp { nanos })
}

fn strings(items: &[&str]) -> Vec<String> {
    items.iter().map(|s| s.to_string()).collect()
}

fn install(name: &str, version: Option<&str>, cask: bool) -> HomebrewInstall {
    HomebrewInstall {
        install_type: if cask { HomebrewInstallType::Cask } else { HomebrewInstallType::Formula },
        name: name.to_string(),
        version: version.map(|v| v.to_string()),
    }
}

fn removed(_: &InstalledResource) -> Removal<UpError> {
    Removal::Removed
}

#[test]
fn decimal_text_writes_numbers() {
    assert_eq!(decimal_text(0), "0");
    assert_eq!(decimal_text(7), "7");
    assert_eq!(decimal_text(10), "10");
    assert_eq!(decimal_text(12345), "12345");
    assert_eq!(decimal_text(u64::MAX), u64::MAX.to_string());
}

#[test]
fn join_and_without_work_on_text() {
    assert_eq!(join(&strings(&[]), ", "), "");
    assert_eq!(join(&strings(&["a"]), ", "), "a");
    assert_eq!(join(&strings(&["a", "b", "c"]), ", "), "a, b, c");
    assert_eq!(without("aXbXXc", "X"), "abc");
    assert_eq!(without("aaa", "aa"), "a");
    assert_eq!(without("abc", ""), "abc");
    assert_eq!(without("abc", "abcd"), "abc");
    assert_eq!(without("tool-1.2.3-1.2.3", "1.2.3"), "tool--");
}

#[test]
fn package_id_carries_the_version() {
    assert_eq!(install("jq", None, false).package_id(), "jq");
    assert_eq!(install("jq", Some("1.7"), false).package_id(), "jq@1.7");
    assert_eq!(HomebrewInstall::new_formula("jq").package_id(), "jq");
    assert!(!HomebrewInstall::new_formula("jq").is_cask());
    assert!(install("x", None, true).is_cask());
    assert_eq!(install("x", Some("2"), true).version(), Some("2".to_string()));
    assert_eq!(install("x", None, true).name(), "x");
    assert_eq!(install("x", None, true).kind(), ResourceKind::Cask);
    assert_eq!(install("x", None, false).kind(), ResourceKind::Formula);
}

#[test]
fn commands_are_spelled_for_the_package_manager() {
    let formula = install("jq", Some("1.7"), false);
    let cask = install("docker", None, true);
    assert_eq!(formula.install_arguments(false), strings(&["install", "--formula", "jq@1.7"]));
    assert_eq!(formula.install_arguments(true), strings(&["upgrade", "--formula", "jq@1.7"]));
    assert_eq!(cask.install_arguments(false), strings(&["install", "--cask", "docker"]));
    assert_eq!(cask.uninstall_arguments(), strings(&["uninstall", "--cask", "docker"]));
    assert_eq!(formula.list_arguments(), strings(&["list", "--formula", "jq@1.7"]));
    let tap = HomebrewTap { name: "a/b".to_string(), url: Some("https://x".to_string()) };
    assert_eq!(tap.tap_arguments(true), strings(&["tap", "a/b", "https://x"]));
    assert_eq!(HomebrewTap::from_name("a/b").tap_arguments(false), strings(&["untap", "a/b"]));
}

#[test]
fn outcomes_follow_what_was_found_and_done() {
    assert_eq!(HomebrewInstall::up_outcome(false, true), HomebrewHandled::Handled);
    assert_eq!(HomebrewInstall::up_outcome(false, false), HomebrewHandled::Noop);
    assert_eq!(HomebrewInstall::up_outcome(true, true), HomebrewHandled::Updated);
    assert_eq!(HomebrewInstall::up_outcome(true, false), HomebrewHandled::Noop);
    assert_eq!(HomebrewTap::up_outcome(true), HomebrewHandled::Noop);
    assert_eq!(HomebrewTap::up_outcome(false), HomebrewHandled::Handled);
    assert!(HomebrewInstall::was_handled(HomebrewHandled::Handled));
    assert!(!HomebrewInstall::was_handled(HomebrewHandled::Updated));
    assert!(install("jq", Some("1"), false).is_settled(true));
    assert!(!install("jq", None, false).is_settled(true));
    assert!(!install("jq", Some("1"), false).is_settled(false));
    assert!(HomebrewHandled::Noop.reported());
    assert!(!HomebrewHandled::Unhandled.reported());
}

#[test]
fn a_failed_upgrade_counts_only_where_asked() {
    assert!(matches!(HomebrewInstall::install_result(Ok(()), true), Ok(true)));
    assert!(matches!(HomebrewInstall::install_result(Ok(()), false), Ok(true)));
    let failed = || Err(UpError::Exec("boom".to_string()));
    assert!(matches!(HomebrewInstall::install_result(failed(), false), Ok(false)));
    match HomebrewInstall::install_result(failed(), true) {
        Err(UpError::Exec(message)) => assert_eq!(message, "boom"),
        _ => panic!("the failure was to be surfaced"),
    }
}

#[test]
fn errors_have_words() {
    assert_eq!(UpError::Exec("boom".to_string()).message(), "boom");
    assert_eq!(UpError::Cache("locked".to_string()).message(), "cache: locked");
    assert_eq!(UpError::HomebrewTapInUse.message(), "tap is still in use");
}

#[test]
fn summary_counts_and_names() {
    assert_eq!(write_counts(2, 1, 3), strings(&["+2", "^1", "3"]));
    assert_eq!(write_counts(0, 0, 12), strings(&["12"]));
    assert!(write_counts(0, 0, 0).is_empty());
    assert_eq!(
        write_summary_part("formula", 1, 0, 1, &strings(&["a", "b"])),
        Some("+1, 1 formulas (a, b)".to_string())
    );
    assert_eq!(
        write_summary_part("tap", 0, 1, 0, &strings(&["x/y"])),
        Some("^1 tap (x/y)".to_string())
    );
    assert_eq!(write_summary_part("tap", 1, 0, 0, &strings(&[])), None);
    assert_eq!(write_summary_part("tap", 0, 0, 0, &strings(&["a"])), None);
    assert_eq!(write_summary(None, None), "nothing done");
    assert_eq!(write_summary(Some("a".to_string()), None), "a");
    assert_eq!(write_summary(Some("a".to_string()), Some("b".to_string())), "a and b");
    let outcomes = vec![HomebrewHandled::Handled, HomebrewHandled::Noop, HomebrewHandled::Handled];
    assert_eq!(count_outcomes(&outcomes, HomebrewHandled::Handled), 2);
    assert_eq!(count_outcomes(&outcomes, HomebrewHandled::Updated), 0);
    let partly = vec![HomebrewHandled::Unhandled, HomebrewHandled::Noop];
    assert_eq!(names_reported(&strings(&["a", "b", "c"]), &partly), strings(&["b"]));
}

#[test]
fn up_message_sorts_the_names() {
    let config = UpConfigHomebrew {
        install: vec![
            install("zsh", None, false),
            install("jq", Some("1.7"), false),
            install("docker", None, true),
            install("never", None, false),
        ],
        tap: vec![HomebrewTap::from_name("b/tap"), HomebrewTap::from_name("a/tap")],
    };
    let message = config.get_up_message(
        &vec![HomebrewHandled::Noop, HomebrewHandled::Handled],
        &vec![
            HomebrewHandled::Handled,
            HomebrewHandled::Updated,
            HomebrewHandled::Noop,
            HomebrewHandled::Unhandled,
        ],
    );
    assert_eq!(
        message,
        "+1, 1 taps (a/tap, b/tap) and +1, ^1, 1 formulas (docker, jq@1.7, zsh)"
    );
    assert_eq!(config.get_up_message(&vec![], &vec![]), "nothing done");
    assert_eq!(
        config.get_up_message(&vec![], &vec![HomebrewHandled::Noop]),
        "1 formula (zsh)"
    );
}

#[test]
fn cleanup_result_puts_the_summary_before_the_failure() {
    assert!(matches!(cleanup_result(None, None), Ok(None)));
    match cleanup_result(Some("-1 tap (a)".to_string()), None) {
        Ok(Some(text)) => assert_eq!(text, "-1 tap (a)"),
        _ => panic!("a summary was expected"),
    }
    assert!(matches!(
        cleanup_result(None, Some(UpError::HomebrewTapInUse)),
        Err(UpError::HomebrewTapInUse)
    ));
    match cleanup_result(Some("-1 tap (a)".to_string()), Some(UpError::Exec("boom".to_string()))) {
        Err(UpError::Exec(message)) => assert_eq!(message, "-1 tap (a); boom"),
        _ => panic!("an error was expected"),
    }
    assert_eq!(write_removal_part("tap", &strings(&[])), None);
    assert_eq!(
        write_removal_part("formula", &strings(&["a", "b"])),
        Some("-2 formulas (a, b)".to_string())
    );
}

#[test]
fn homebrew_cache_counts_references() {
    let run = clock(100);
    let mut cache = HomebrewOperationCache::new_empty();
    assert!(cache.is_empty());
    assert!(cache.add_install("wd1", "jq", None, false, true, &run));
    assert!(!cache.add_install("wd1", "jq", None, false, true, &run));
    assert!(cache.add_install("wd2", "jq", None, false, false, &run));
    assert!(cache.add_install("wd1", "jq", None, true, false, &run));
    assert!(cache.add_tap("wd1", "a/b", true, &run));
    assert!(!cache.add_tap("wd1", "a/b", false, &run));
    assert_eq!(cache.installed.records.len(), 2);
    assert_eq!(cache.tapped.records.len(), 1);
    assert_eq!(cache.updated_at, Timestamp { nanos: 100 });
    assert_eq!(cache.installed.records[0].required_by.len(), 2);

    assert!(cache.down("wd1"));
    assert!(!cache.down("wd1"));
    assert_eq!(cache.installed.records.len(), 2);
    assert_eq!(cache.installed.records[0].required_by.to_vec(), strings(&["wd2"]));
    assert!(cache.tapped.records[0].required_by.is_empty());
}

#[test]
fn cleanup_releases_the_stale_and_sweeps() {
    let first = clock(100);
    let mut cache = HomebrewOperationCache::new_empty();
    cache.add_install("wd1", "old", None, false, true, &first);
    cache.add_install("wd1", "observed", None, false, false, &first);
    cache.add_install("wd2", "shared", None, false, true, &first);
    cache.add_install("wd1", "shared", None, false, true, &first);
    cache.add_tap("wd1", "z/tap", true, &first);
    cache.add_tap("wd1", "a/tap", true, &first);

    let second = clock(200);
    cache.add_install("wd1", "fresh", None, false, true, &second);
    let report = cache.cleanup("wd1", &second, removed, removed);
    assert!(report.changed);
    assert!(report.installs.error.is_none());
    assert_eq!(report.installs.handled, strings(&["old"]));
    assert_eq!(report.taps.as_ref().unwrap().handled, strings(&["a/tap", "z/tap"]));
    let left: Vec<String> = cache.installed.records.iter().map(|r| r.name.clone()).collect();
    assert_eq!(left, strings(&["shared", "fresh"]));
    assert_eq!(cache.installed.records[0].required_by.to_vec(), strings(&["wd2"]));
    assert!(cache.tapped.records.is_empty());
    match report.into_result() {
        Ok(Some(text)) => assert_eq!(text, "-2 taps (a/tap, z/tap) and -1 formula (old)"),
        _ => panic!("a summary was expected"),
    }

    let again = cache.cleanup("wd1", &second, removed, removed);
    assert!(!again.changed);
    assert!(matches!(again.into_result(), Ok(None)));
}

#[test]
fn cleanup_stops_at_a_package_that_cannot_be_removed() {
    let first = clock(100);
    let mut cache = HomebrewOperationCache::new_empty();
    cache.add_install("wd1", "a", None, false, true, &first);
    cache.add_install("wd1", "b", None, false, true, &first);
    cache.add_install("wd1", "c", None, false, true, &first);
    cache.add_tap("wd1", "t/ap", true, &first);
    let second = clock(200);
    let stuck = |record: &InstalledResource| -> Removal<UpError> {
        if record.name == "b" {
            Removal::Failed(UpError::Exec("brew failed".to_string()))
        } else {
            Removal::Removed
        }
    };
    let report = cache.cleanup("wd1", &second, stuck, removed);
    assert!(report.changed);
    assert!(report.taps.is_none());
    let left: Vec<String> = cache.installed.records.iter().map(|r| r.name.clone()).collect();
    assert_eq!(left, strings(&["a", "b"]));
    assert_eq!(cache.tapped.records.len(), 1);
    match report.into_result() {
        Err(UpError::Exec(message)) => assert_eq!(message, "-1 formula (c); brew failed"),
        _ => panic!("an error was expected"),
    }
}

#[test]
fn a_tap_in_use_is_given_up_without_being_counted() {
    let first = clock(100);
    let mut cache = HomebrewOperationCache::new_empty();
    cache.add_tap("wd1", "busy/tap", true, &first);
    let in_use = |_: &InstalledResource| -> Removal<UpError> { Removal::Skipped };
    let report = cache.cleanup("wd1", &clock(200), removed, in_use);
    assert!(report.changed);
    assert!(cache.tapped.records.is_empty());
    assert!(matches!(report.into_result(), Ok(None)));
}

#[test]
fn exclusive_commits_only_a_change() {
    let now = Timestamp { nanos: 500 };
    let run = clock(100);
    let unchanged = exclusive(None, now, |doc: HomebrewOperationCache| (doc, false));
    assert!(matches!(unchanged, Commit::Discard));

    let changed = exclusive(None, now, |mut doc: HomebrewOperationCache| {
        let changed = doc.add_install("wd1", "jq", None, false, true, &run);
        (doc, changed)
    });
    let persisted = match changed {
        Commit::Persist(doc) => doc,
        Commit::Discard => panic!("the change was to be persisted"),
    };
    assert_eq!(persisted.updated_at, now);
    assert_eq!(persisted.installed.records.len(), 1);

    let mut first = CacheHandle::load(None::<HomebrewOperationCache>);
    assert!(first.get().is_empty());
    assert!(!first.refresh(Commit::Discard));
    assert!(first.get().is_empty());
    assert!(first.refresh(Commit::Persist(persisted)));
    assert_eq!(first.get().installed.records.len(), 1);

    let again = exclusive(Some(first.snapshot), Timestamp { nanos: 900 }, |mut doc| {
        let changed = doc.add_install("wd1", "jq", None, false, true, &run);
        (doc, changed)
    });
    assert!(matches!(again, Commit::Discard));

    let fallback: HomebrewOperationCache = shared(None);
    assert!(fallback.is_empty());
    assert!(fallback.updated_at.is_origin());
}

#[test]
fn from_cache_reads_the_kind() {
    let run = clock(1);
    let mut cache = HomebrewOperationCache::new_empty();
    cache.add_install("wd", "docker", Some("4".to_string()), true, true, &run);
    cache.add_install("wd", "jq", None, false, true, &run);
    let cask = HomebrewInstall::from_cache(&cache.installed.records[0]);
    assert!(cask.is_cask());
    assert_eq!(cask.package_id(), "docker@4");
    assert!(!HomebrewInstall::from_cache(&cache.installed.records[1]).is_cask());
}

#[test]
fn tap_and_package_drivers_call_only_when_needed() {
    let tap = HomebrewTap::from_name("a/b");
    let never = || -> Result<(), UpError> { panic!("nothing was to be run") };
    let not_asked = || -> bool { panic!("nothing was to be asked") };
    assert!(matches!(tap.up(true, never), Ok(HomebrewHandled::Noop)));
    assert!(matches!(tap.up(false, || Ok(())), Ok(HomebrewHandled::Handled)));
    assert!(matches!(tap.up(false, || Err(UpError::Exec("x".to_string()))), Err(UpError::Exec(_))));
    assert!(matches!(tap.down(false, not_asked, never), Removal::Skipped));
    assert!(matches!(tap.down(true, || true, never), Removal::Skipped));
    assert!(matches!(tap.down(true, || false, || Ok(())), Removal::Removed));
    assert!(matches!(
        tap.down(true, || false, || Err(UpError::HomebrewTapInUse)),
        Removal::Failed(UpError::HomebrewTapInUse)
    ));

    let pinned = install("jq", Some("1.7"), false);
    let floating = install("jq", None, false);
    let unused = |_: bool| -> Result<bool, UpError> { panic!("nothing was to be installed") };
    assert!(matches!(pinned.up(true, unused), Ok(HomebrewHandled::Noop)));
    assert!(matches!(pinned.up(false, |_| Ok(true)), Ok(HomebrewHandled::Handled)));
    assert!(matches!(pinned.up(false, |_| Ok(false)), Ok(HomebrewHandled::Noop)));
    assert!(matches!(floating.up(true, |_| Ok(true)), Ok(HomebrewHandled::Updated)));
    assert!(matches!(floating.up(true, |_| Ok(false)), Ok(HomebrewHandled::Noop)));
    assert!(matches!(floating.up(true, |_| Err(UpError::HomebrewTapInUse)), Err(_)));
}

#[test]
fn a_failed_install_that_is_not_surfaced_is_no_installation() {
    let package = install("jq", None, false);
    let failing = |_: Vec<String>| -> Result<(), UpError> { Err(UpError::Exec("no".to_string())) };
    let outcome = package
        .up(false, |installed| package.install(installed, true, true, false, || Ok(()), failing))
        .unwrap();
    assert_eq!(outcome, HomebrewHandled::Noop);
    assert!(!HomebrewInstall::was_handled(outcome));

    let mut cache = HomebrewOperationCache::new_empty();
    assert!(package.update_cache(&mut cache, Some("wd"), outcome, &clock(10)));
    assert!(!cache.installed.records[0].owned);
    assert!(!package.update_cache(&mut cache, None, HomebrewHandled::Handled, &clock(10)));
    assert_eq!(cache.installed.records.len(), 1);
    assert!(!cache.installed.records[0].owned);

    let config = UpConfigHomebrew { install: vec![install("jq", None, false)], tap: vec![] };
    assert_eq!(config.get_up_message(&vec![], &vec![outcome]), "1 formula (jq)");

    let tap = HomebrewTap::from_name("a/b");
    assert!(tap.update_cache(&mut cache, Some("wd"), HomebrewHandled::Handled, &clock(10)));
    assert!(cache.tapped.records[0].owned);
    assert!(!tap.update_cache(&mut cache, None, HomebrewHandled::Handled, &clock(10)));
}

#[test]
fn package_down_leaves_the_local_tap() {
    let pinned = install("jq", Some("1.7"), false);
    let never = || -> Result<(), UpError> { panic!("nothing was to be run") };
    let no_file = || -> Option<String> { panic!("no file was to be asked for") };
    let no_step = |_: LocalTapStep| -> Result<bool, UpError> { panic!("no step was to be run") };
    assert!(matches!(pinned.down(false, never, no_file, no_step), Removal::Skipped));
    assert!(matches!(
        pinned.down(true, || Err(UpError::HomebrewTapInUse), no_file, no_step),
        Removal::Failed(UpError::HomebrewTapInUse)
    ));
    assert!(matches!(pinned.down(true, || Ok(()), || None, no_step), Removal::Removed));
    let elsewhere = || Some("/x/other/homebrew-tap/Formula/jq@1.7.rb".to_string());
    assert!(matches!(pinned.down(true, || Ok(()), elsewhere, no_step), Removal::Removed));

    let local = || Some("/x/omni/homebrew-local/Formula/jq@1.7.rb".to_string());
    let seen = std::cell::RefCell::new(Vec::new());
    let unused_tap = |step: LocalTapStep| -> Result<bool, UpError> {
        seen.borrow_mut().push(step);
        Ok(!matches!(step, LocalTapStep::AskInUse))
    };
    assert!(matches!(pinned.down(true, || Ok(()), local, unused_tap), Removal::Removed));
    assert_eq!(
        *seen.borrow(),
        vec![LocalTapStep::RemoveFile, LocalTapStep::AskInUse, LocalTapStep::Untap]
    );

    let file = "/x/omni/homebrew-local/Formula/jq@1.7.rb";
    let in_use = |step: LocalTapStep| -> Result<bool, UpError> {
        assert!(!matches!(step, LocalTapStep::Untap));
        Ok(true)
    };
    assert!(pinned.leave_local_tap(Some(file), in_use).is_ok());
    let stuck = |_: LocalTapStep| -> Result<bool, UpError> { Ok(false) };
    match pinned.leave_local_tap(Some(file), stuck) {
        Err(UpError::Exec(message)) => assert_eq!(message, "failed to remove formula from local tap"),
        _ => panic!("the file was to fail the removal"),
    }
    let untap_fails = |step: LocalTapStep| -> Result<bool, UpError> {
        match step {
            LocalTapStep::RemoveFile => Ok(true),
            LocalTapStep::AskInUse => Ok(false),
            _ => Err(UpError::Exec("untap failed".to_string())),
        }
    };
    assert!(matches!(pinned.leave_local_tap(Some(file), untap_fails), Err(UpError::Exec(_))));
    assert!(pinned.leave_local_tap(None, no_step).is_ok());
    assert_eq!(LocalTapStep::RemoveFile.next(true), LocalTapStep::AskInUse);
    assert_eq!(LocalTapStep::Untap.next(false), LocalTapStep::Done);
    assert!(LocalTapStep::Done.is_final());
}

#[test]
fn questions_are_spared_where_the_cache_answers() {
    let never = || -> bool { panic!("the package manager was not to be asked") };
    assert!(HomebrewInstall::is_installed(true, false, never));
    assert!(!HomebrewInstall::is_installed(true, true, || false));
    assert!(HomebrewInstall::is_installed(false, false, || true));

    let nothing = || -> Option<String> { panic!("nothing was to be looked up") };
    assert_eq!(
        HomebrewInstall::brew_bin_path(true, Some("/b".to_string()), nothing),
        (Some("/b".to_string()), false)
    );
    assert_eq!(
        HomebrewInstall::brew_bin_path(true, Some(String::new()), || Some("/c".to_string())),
        (Some("/c".to_string()), true)
    );
    assert_eq!(HomebrewInstall::brew_bin_path(false, Some("/b".to_string()), || None), (None, false));
    let no_paths = || -> Vec<String> { panic!("nothing was to be looked up") };
    assert_eq!(
        HomebrewInstall::bin_paths(true, Some(strings(&["/a"])), no_paths),
        (strings(&["/a"]), false)
    );
    assert_eq!(HomebrewInstall::bin_paths(true, None, || strings(&["/b"])), (strings(&["/b"]), true));
    assert_eq!(
        HomebrewInstall::bin_paths(false, Some(strings(&["/a"])), || strings(&[])),
        (strings(&[]), true)
    );
}

#[test]
fn update_cache_remembers_and_forgets() {
    let second = 1_000_000_000i128;
    let at = |seconds: i128| Timestamp { nanos: seconds * second };
    assert_eq!(install_key(false, "jq", &None), "formula:jq");
    assert_eq!(install_key(true, "app", &Some("2".to_string())), "cask:app@2");

    let mut cache = HomebrewOperationUpdateCache::new();
    assert!(cache.is_empty());
    assert!(cache.should_update_homebrew(60, &at(100)));
    cache.updated_homebrew(at(100));
    assert!(!cache.should_update_homebrew(60, &at(160)));
    assert!(cache.should_update_homebrew(60, &at(161)));
    assert_eq!(cache.homebrew_bin_path(), None);
    cache.set_homebrew_bin_path("/opt/bin".to_string());
    assert_eq!(cache.homebrew_bin_path(), Some("/opt/bin".to_string()));

    let none = None;
    assert!(cache.should_check_install("jq", &none, false, 10, &at(0)));
    assert!(cache.should_update_install("jq", &none, false, 10, &at(0)));
    cache.checked_install("jq", &none, false, at(200));
    assert!(!cache.should_check_install("jq", &none, false, 10, &at(210)));
    assert!(cache.should_check_install("jq", &none, false, 10, &at(211)));
    assert!(cache.should_update_install("jq", &none, false, 10, &at(11)));
    assert!(!cache.should_update_install("jq", &none, false, 10, &at(10)));
    cache.updated_install("jq", &none, false, at(300));
    assert!(!cache.should_update_install("jq", &none, false, 10, &at(310)));
    assert!(!cache.should_check_install("jq", &none, false, 10, &at(310)));
    cache.checked_install("jq", &none, false, at(400));
    assert!(cache.should_update_install("jq", &none, false, 10, &at(311)));
    assert!(cache.should_check_install("jq", &none, true, 10, &at(311)));

    assert_eq!(cache.homebrew_install_bin_paths("jq", &none, false), None);
    cache.set_homebrew_install_bin_paths("jq", &none, false, strings(&["/a/bin"]));
    assert_eq!(cache.homebrew_install_bin_paths("jq", &none, false), Some(strings(&["/a/bin"])));
    cache.removed_homebrew_install("jq", &none, false);
    assert_eq!(cache.homebrew_install_bin_paths("jq", &none, false), None);
    assert!(cache.should_check_install("jq", &none, false, 10, &at(0)));
    assert!(!cache.is_empty());
}

#[test]
fn cleanup_forgets_the_packages_that_left() {
    let first = clock(100);
    let mut cache = HomebrewOperationCache::new_empty();
    cache.add_install("wd1", "old", None, false, true, &first);
    cache.add_install("wd2", "kept", None, false, true, &first);
    cache.update_cache.updated_install("old", &None, false, Timestamp { nanos: 5 });
    cache.update_cache.updated_install("kept", &None, false, Timestamp { nanos: 5 });
    cache.update_cache.set_homebrew_install_bin_paths("old", &None, false, strings(&["/x"]));
    let report = cache.cleanup("wd1", &clock(200), removed, removed);
    assert_eq!(report.installs.removed.len(), 1);
    assert_eq!(report.installs.removed[0].name, "old");
    assert_eq!(cache.update_cache.installs.keys(), strings(&["formula:kept"]));
    assert!(cache.update_cache.bin_paths.is_empty());
}

#[test]
fn nothing_is_cleaned_up_without_a_working_directory_id() {
    let first = clock(100);
    let mut cache = HomebrewOperationCache::new_empty();
    cache.add_install("wd1", "old", None, false, true, &first);
    let untouched = |_: &InstalledResource| -> Removal<UpError> {
        panic!("nothing was to be removed")
    };
    let (changed, outcome) =
        UpConfigHomebrew::cleanup(&mut cache, None, &clock(200), untouched, untouched);
    assert!(!changed);
    match outcome {
        Err(UpError::Exec(message)) => assert_eq!(message, "failed to get workdir id"),
        _ => panic!("the missing id was to be an error"),
    }
    assert_eq!(cache.installed.records.len(), 1);
    assert_eq!(cache.installed.records[0].required_by.to_vec(), strings(&["wd1"]));
    assert!(!UpConfigHomebrew::down(&mut cache, None));
    assert_eq!(cache.installed.records[0].required_by.to_vec(), strings(&["wd1"]));
}

#[test]
fn project_up_stops_at_the_first_failure() {
    let config = UpConfigHomebrew {
        install: vec![install("b", None, false), install("a", None, false)],
        tap: vec![HomebrewTap::from_name("t/ap")],
    };
    let message = config
        .up(|_: &HomebrewTap| Ok(HomebrewHandled::Noop), |_: &HomebrewInstall| Ok(HomebrewHandled::Handled))
        .unwrap();
    assert_eq!(message, "1 tap (t/ap) and +2 formulas (a, b)");

    let failed = config.up(
        |_: &HomebrewTap| Ok(HomebrewHandled::Noop),
        |install: &HomebrewInstall| {
            if install.name == "a" {
                Err(UpError::Exec("a failed".to_string()))
            } else {
                Ok(HomebrewHandled::Handled)
            }
        },
    );
    match failed {
        Err(UpError::Exec(message)) => assert_eq!(message, "a failed"),
        _ => panic!("the failure was to end the run"),
    }
    let no_tap = config.up(
        |_: &HomebrewTap| Err(UpError::HomebrewTapInUse),
        |_: &HomebrewInstall| -> Result<HomebrewHandled, UpError> {
            panic!("no package was to be reached")
        },
    );
    assert!(matches!(no_tap, Err(UpError::HomebrewTapInUse)));
}

#[test]
fn project_cleanup_reports_through_the_cache() {
    let first = clock(100);
    let mut cache = HomebrewOperationCache::new_empty();
    cache.add_install("wd1", "old", None, false, true, &first);
    let (changed, outcome) =
        UpConfigHomebrew::cleanup(&mut cache, Some("wd1"), &clock(200), removed, removed);
    assert!(changed);
    match outcome {
        Ok(Some(text)) => assert_eq!(text, "-1 formula (old)"),
        _ => panic!("a summary was expected"),
    }
    assert!(cache.is_empty());
    cache.add_tap("wd1", "t/ap", false, &first);
    assert!(UpConfigHomebrew::down(&mut cache, Some("wd1")));
    assert!(!UpConfigHomebrew::down(&mut cache, Some("wd1")));
}
