use omni_resources::config_value::{ConfigEntry, ConfigValue};
use omni_resources::homebrew::{
    has_hidden_component, is_command_name, ExtractOptions, ExtractStep, HomebrewInstall,
    HomebrewInstallType, HomebrewTap, InstallPlan, UpConfigHomebrew, UpError,
};
use omni_resources::path_repo_updates::{
    parse_duration_or_default, read_self_update, self_update_from_word, PathRepoUpdatesConfig,
    PathRepoUpdatesPerRepoConfig, PathRepoUpdatesSelfUpdateEnum,
};
use omni_resources::text::{ends_with, integer_text, same_text, strip_suffix};

fn text(value: &str) -> ConfigValue {
    ConfigValue::String(value.to_string())
}

fn table(entries: Vec<(&str, ConfigValue)>) -> ConfigValue {
    ConfigValue::Table(
        entries
            .into_iter()
            .map(|(key, value)| ConfigEntry { key: key.to_string(), value })
            .collect(),
    )
}

fn no_durations(_: &str) -> Option<u64> {
    None
}

fn minutes(written: &str) -> Option<u64> {
    written.strip_suffix('m').and_then(|n| n.parse::<u64>().ok()).map(|n| n * 60)
}

fn described(installs: &[HomebrewInstall]) -> Vec<(bool, String, Option<String>)> {
    installs.iter().map(|i| (i.is_cask(), i.name(), i.version())).collect()
}

fn taps(list: &[HomebrewTap]) -> Vec<(String, Option<String>)> {
    list.iter().map(|t| (t.name.clone(), t.url.clone())).collect()
}

#[test]
fn text_helpers_compare_ends() {
    assert!(same_text("abc", "abc"));
    assert!(!same_text("abc", "abd"));
    assert!(ends_with("tool.exe", ".exe"));
    assert!(!ends_with("exe", ".exe"));
    assert_eq!(strip_suffix("tool.zip", ".zip"), Some("tool".to_string()));
    assert_eq!(strip_suffix("tool.zip", ".tgz"), None);
    assert_eq!(strip_suffix("héllo.zip", ".zip"), Some("héllo".to_string()));
    assert_eq!(integer_text(0), "0");
    assert_eq!(integer_text(-17), "-17");
    assert_eq!(integer_text(i64::MIN), i64::MIN.to_string());
    assert_eq!(integer_text(i64::MAX), i64::MAX.to_string());
}

#[test]
fn config_values_answer_by_type() {
    let value = table(vec![
        ("name", text("x")),
        ("on", ConfigValue::Bool(true)),
        ("n", ConfigValue::Integer(3)),
        ("name", text("second")),
    ]);
    assert_eq!(value.get_as_str("name"), Some("x".to_string()));
    assert_eq!(value.get_as_bool("on"), Some(true));
    assert_eq!(value.get_as_integer("n"), Some(3));
    assert_eq!(value.get_as_str("on"), None);
    assert_eq!(value.get_as_bool("missing"), None);
    assert!(value.get("missing").is_none());
    assert!(value.as_table().is_some());
    assert!(value.as_array().is_none());
    assert!(text("x").is_str());
    assert_eq!(text("x").as_str(), Some("x"));
    assert!(text("x").get("name").is_none());
    assert_eq!(ConfigValue::Float("1.5".to_string()).as_float(), Some("1.5"));
    assert_eq!(ConfigValue::Null.as_bool(), None);
    assert_eq!(ConfigValue::Array(vec![]).as_array().map(|a| a.len()), Some(0));
}

#[test]
fn self_update_is_read_from_words_booleans_and_numbers() {
    assert_eq!(self_update_from_word("yes"), PathRepoUpdatesSelfUpdateEnum::True);
    assert_eq!(self_update_from_word("n"), PathRepoUpdatesSelfUpdateEnum::False);
    assert_eq!(self_update_from_word("nocheck"), PathRepoUpdatesSelfUpdateEnum::NoCheck);
    assert_eq!(self_update_from_word("ask"), PathRepoUpdatesSelfUpdateEnum::Ask);
    assert_eq!(self_update_from_word("YES"), PathRepoUpdatesSelfUpdateEnum::Ask);
    let read = |value: ConfigValue| read_self_update(&table(vec![("self_update", value)]));
    assert_eq!(read(text("YES")), PathRepoUpdatesSelfUpdateEnum::True);
    assert_eq!(read(text("NoCheck")), PathRepoUpdatesSelfUpdateEnum::NoCheck);
    assert_eq!(read(text("whatever")), PathRepoUpdatesSelfUpdateEnum::Ask);
    assert_eq!(read(ConfigValue::Bool(false)), PathRepoUpdatesSelfUpdateEnum::False);
    assert_eq!(read(ConfigValue::Bool(true)), PathRepoUpdatesSelfUpdateEnum::True);
    assert_eq!(read(ConfigValue::Integer(0)), PathRepoUpdatesSelfUpdateEnum::False);
    assert_eq!(read(ConfigValue::Integer(1)), PathRepoUpdatesSelfUpdateEnum::True);
    assert_eq!(read(ConfigValue::Integer(2)), PathRepoUpdatesSelfUpdateEnum::Ask);
    assert_eq!(read(ConfigValue::Null), PathRepoUpdatesSelfUpdateEnum::Ask);
    assert_eq!(read_self_update(&table(vec![])), PathRepoUpdatesSelfUpdateEnum::Ask);
}

#[test]
fn self_update_answers_depend_on_the_shell() {
    assert!(PathRepoUpdatesSelfUpdateEnum::NoCheck.do_not_check());
    assert!(!PathRepoUpdatesSelfUpdateEnum::Ask.do_not_check());
    assert!(PathRepoUpdatesSelfUpdateEnum::False.is_false(true));
    assert!(PathRepoUpdatesSelfUpdateEnum::False.is_false(false));
    assert!(PathRepoUpdatesSelfUpdateEnum::Ask.is_false(false));
    assert!(!PathRepoUpdatesSelfUpdateEnum::Ask.is_false(true));
    assert!(!PathRepoUpdatesSelfUpdateEnum::True.is_false(false));
    assert!(PathRepoUpdatesSelfUpdateEnum::Ask.is_ask(true));
    assert!(!PathRepoUpdatesSelfUpdateEnum::Ask.is_ask(false));
    assert!(!PathRepoUpdatesSelfUpdateEnum::NoCheck.is_ask(true));
}

#[test]
fn durations_are_numbers_or_parsed_texts() {
    assert_eq!(parse_duration_or_default(None, 7, &minutes), 7);
    assert_eq!(parse_duration_or_default(Some(&ConfigValue::Integer(30)), 7, &minutes), 30);
    assert_eq!(parse_duration_or_default(Some(&ConfigValue::Integer(-1)), 7, &minutes), 7);
    assert_eq!(parse_duration_or_default(Some(&text("2m")), 7, &minutes), 120);
    assert_eq!(parse_duration_or_default(Some(&text("soon")), 7, &minutes), 7);
    assert_eq!(parse_duration_or_default(Some(&ConfigValue::Bool(true)), 7, &minutes), 7);
}

#[test]
fn path_repo_updates_default_when_not_configured() {
    let config = PathRepoUpdatesConfig::from_config_value(None, no_durations);
    assert!(config.enabled);
    assert_eq!(config.self_update, PathRepoUpdatesSelfUpdateEnum::Ask);
    assert!(config.pre_auth);
    assert_eq!(config.pre_auth_timeout, 120);
    assert!(config.background_updates);
    assert_eq!(config.background_updates_timeout, 3600);
    assert_eq!(config.interval, 43200);
    assert_eq!(config.ref_type, "branch");
    assert_eq!(config.ref_match, None);
    assert!(config.per_repo_config.is_empty());
    let plain = PathRepoUpdatesConfig::default();
    assert_eq!(plain.interval, 43200);
    assert_eq!(plain.update_config("any"), (true, "branch".to_string(), None));
}

#[test]
fn path_repo_updates_are_read_from_the_configuration() {
    let value = table(vec![
        ("enabled", ConfigValue::Bool(false)),
        ("self_update", text("No")),
        ("pre_auth", ConfigValue::Bool(false)),
        ("pre_auth_timeout", ConfigValue::Integer(5)),
        ("background_updates_timeout", text("3m")),
        ("interval", text("never")),
        ("ref_type", text("tag")),
        ("ref_match", text("^v")),
        (
            "per_repo_config",
            table(vec![
                ("a/b", table(vec![("enabled", ConfigValue::Bool(true)), ("ref_type", text("branch"))])),
                ("c/d", table(vec![("ref_match", text("main"))])),
                ("a/b", table(vec![("ref_type", text("tag"))])),
            ]),
        ),
    ]);
    let config = PathRepoUpdatesConfig::from_config_value(Some(&value), minutes);
    assert!(!config.enabled);
    assert_eq!(config.self_update, PathRepoUpdatesSelfUpdateEnum::False);
    assert!(!config.pre_auth);
    assert_eq!(config.pre_auth_timeout, 5);
    assert!(config.background_updates);
    assert_eq!(config.background_updates_timeout, 180);
    assert_eq!(config.interval, 43200);
    assert_eq!(config.ref_type, "tag");
    assert_eq!(config.ref_match, Some("^v".to_string()));
    assert_eq!(config.update_config("a/b"), (true, "tag".to_string(), None));
    assert_eq!(config.update_config("c/d"), (true, "branch".to_string(), Some("main".to_string())));
    assert_eq!(config.update_config("x/y"), (false, "tag".to_string(), Some("^v".to_string())));

    let one = PathRepoUpdatesPerRepoConfig::from_config_value(&table(vec![
        ("enabled", ConfigValue::Bool(false)),
        ("ref_type", ConfigValue::Integer(1)),
    ]));
    assert!(!one.enabled);
    assert_eq!(one.ref_type, "branch");
    assert_eq!(one.clone().ref_match, None);
}

#[test]
fn update_runs_only_where_enabled() {
    let value = table(vec![(
        "per_repo_config",
        table(vec![("off", table(vec![("enabled", ConfigValue::Bool(false))]))]),
    )]);
    let config = PathRepoUpdatesConfig::from_config_value(Some(&value), no_durations);
    assert!(!config.update("off", |_: &str, _: String, _: Option<String>| -> Option<bool> {
        panic!("a disabled repository is not to be updated")
    }));
    assert!(config.update("on", |repo: &str, ref_type: String, ref_match: Option<String>| {
        assert_eq!(repo, "on");
        assert_eq!(ref_type, "branch");
        assert_eq!(ref_match, None);
        Some(true)
    }));
    assert!(!config.update("on", |_: &str, _: String, _: Option<String>| Some(false)));
    assert!(!config.update("on", |_: &str, _: String, _: Option<String>| None));
    assert!(PathRepoUpdatesConfig::update_outcome(Some(true)));
    assert!(!PathRepoUpdatesConfig::update_outcome(None));
}

#[test]
fn packages_are_read_in_every_spelling() {
    let formulae = ConfigValue::Array(vec![
        text("jq"),
        table(vec![("formula", text("ripgrep")), ("version", text("13.0"))]),
        table(vec![("cask", text("docker")), ("version", ConfigValue::Integer(4))]),
        table(vec![("node", text("18"))]),
        table(vec![("go", table(vec![("version", ConfigValue::Float("1.21".to_string()))]))]),
        table(vec![("python", ConfigValue::Null)]),
        table(vec![("a", text("1")), ("b", text("2"))]),
        table(vec![("formula", ConfigValue::Integer(3))]),
        ConfigValue::Integer(9),
    ]);
    let installs = HomebrewInstall::parse_formulae(&formulae);
    assert_eq!(
        described(&installs),
        vec![
            (false, "jq".to_string(), None),
            (false, "ripgrep".to_string(), Some("13.0".to_string())),
            (true, "docker".to_string(), Some("4".to_string())),
            (false, "node".to_string(), Some("18".to_string())),
            (false, "go".to_string(), Some("1.21".to_string())),
            (false, "python".to_string(), None),
        ]
    );
    assert_eq!(installs[2].install_type, HomebrewInstallType::Cask);
    assert_eq!(
        described(&HomebrewInstall::parse_formulae(&text("jq"))),
        vec![(false, "jq".to_string(), None)]
    );
    assert!(HomebrewInstall::parse_formulae(&ConfigValue::Null).is_empty());
    assert!(HomebrewInstall::parse_formula(&ConfigValue::Bool(true)).is_none());
    assert!(HomebrewInstall::from_config_value(None).is_empty());
    assert!(HomebrewInstall::from_config_value(Some(&table(vec![("tap", text("a/b"))]))).is_empty());
    assert_eq!(
        described(&HomebrewInstall::from_config_value(Some(&ConfigValue::Array(vec![text("jq")])))),
        vec![(false, "jq".to_string(), None)]
    );
}

#[test]
fn taps_are_read_in_every_spelling() {
    let listed = ConfigValue::Array(vec![
        text("z/tap"),
        table(vec![("repo", text("a/tap")), ("url", text("https://a"))]),
        table(vec![("b/tap", text("https://b"))]),
        table(vec![("c/tap", table(vec![("url", text("https://c"))]))]),
        table(vec![("repo", ConfigValue::Integer(1))]),
        table(vec![("x", text("1")), ("y", text("2"))]),
        ConfigValue::Integer(5),
    ]);
    assert_eq!(
        taps(&HomebrewTap::parse_taps(&listed)),
        vec![
            ("z/tap".to_string(), None),
            ("a/tap".to_string(), Some("https://a".to_string())),
            ("b/tap".to_string(), Some("https://b".to_string())),
            ("c/tap".to_string(), Some("https://c".to_string())),
        ]
    );
    let by_key = table(vec![("k/tap", text("https://k")), ("l/tap", ConfigValue::Null)]);
    assert_eq!(
        taps(&HomebrewTap::parse_taps(&by_key)),
        vec![("k/tap".to_string(), Some("https://k".to_string())), ("l/tap".to_string(), None)]
    );
    assert_eq!(taps(&HomebrewTap::parse_taps(&text("one/tap"))), vec![("one/tap".to_string(), None)]);
    assert!(HomebrewTap::parse_taps(&ConfigValue::Bool(true)).is_empty());
    let named = HomebrewTap::parse_tap(Some("given".to_string()), &text("https://g")).unwrap();
    assert_eq!(named.name, "given");
    assert_eq!(named.url, Some("https://g".to_string()));
    assert_eq!(HomebrewTap::parse_config("n".to_string(), &ConfigValue::Null).url, None);
}

#[test]
fn package_names_imply_their_tap() {
    assert_eq!(HomebrewTap::implied_by("a/b/c"), Some("a/b".to_string()));
    assert_eq!(HomebrewTap::implied_by("a/b"), None);
    assert_eq!(HomebrewTap::implied_by("jq"), None);
    assert_eq!(HomebrewTap::implied_by("a/b/c/d"), None);
    assert_eq!(HomebrewTap::implied_by("//"), Some("/".to_string()));
    assert_eq!(HomebrewTap::implied_by(""), None);
}

#[test]
fn project_taps_are_unique_and_sorted() {
    let value = table(vec![
        (
            "install",
            ConfigValue::Array(vec![text("z/tap/tool"), text("jq"), text("b/tap/other"), text("m/n/o")]),
        ),
        (
            "tap",
            ConfigValue::Array(vec![
                text("z/tap"),
                table(vec![("b/tap", text("https://b"))]),
                table(vec![("z/tap", text("https://late"))]),
            ]),
        ),
    ]);
    let config = UpConfigHomebrew::from_config_value(Some(&value));
    assert_eq!(config.install.len(), 4);
    assert_eq!(
        taps(&config.tap),
        vec![
            ("b/tap".to_string(), Some("https://b".to_string())),
            ("m/n".to_string(), None),
            ("z/tap".to_string(), None),
        ]
    );
    let bare = UpConfigHomebrew::from_config_value(None);
    assert!(bare.install.is_empty());
    assert!(bare.tap.is_empty());
    let listed = HomebrewTap::from_name("m/n");
    assert!(listed.is_listed(&vec!["a/b".to_string(), "m/n".to_string()]));
    assert!(!listed.is_listed(&vec!["a/b".to_string()]));
}

#[test]
fn extraction_walks_its_steps() {
    let fresh = ExtractOptions { needs_update: true, updated: None };
    let cached = ExtractOptions { needs_update: false, updated: None };
    let failed_before = ExtractOptions { needs_update: true, updated: Some(false) };
    let done_before = ExtractOptions { needs_update: true, updated: Some(true) };
    assert_eq!(ExtractStep::CheckFormula.next(true, &fresh), ExtractStep::Finished);
    assert_eq!(ExtractStep::CheckFormula.next(false, &fresh), ExtractStep::CheckLocalTap);
    assert_eq!(ExtractStep::CheckLocalTap.next(false, &fresh), ExtractStep::CreateLocalTap);
    assert_eq!(ExtractStep::CheckLocalTap.next(true, &fresh), ExtractStep::UpdateHomebrew);
    assert_eq!(ExtractStep::CheckLocalTap.next(true, &cached), ExtractStep::Extract);
    assert_eq!(ExtractStep::CheckLocalTap.next(true, &failed_before), ExtractStep::Failed);
    assert_eq!(ExtractStep::CreateLocalTap.next(true, &done_before), ExtractStep::Extract);
    assert_eq!(ExtractStep::CreateLocalTap.next(false, &fresh), ExtractStep::Failed);
    assert_eq!(ExtractStep::UpdateHomebrew.next(true, &fresh), ExtractStep::Extract);
    assert_eq!(ExtractStep::UpdateHomebrew.next(false, &fresh), ExtractStep::Failed);
    assert_eq!(ExtractStep::Extract.next(true, &fresh), ExtractStep::Finished);
    assert_eq!(ExtractStep::Extract.next(false, &fresh), ExtractStep::Failed);
    assert_eq!(ExtractStep::Finished.next(false, &fresh), ExtractStep::Finished);
    assert!(ExtractStep::Failed.is_final());
    assert!(!ExtractStep::Extract.is_final());

    let versioned = HomebrewInstall {
        install_type: HomebrewInstallType::Formula,
        name: "jq".to_string(),
        version: Some("1.6".to_string()),
    };
    assert_eq!(versioned.first_extract_step(), ExtractStep::CheckFormula);
    assert_eq!(HomebrewInstall::new_formula("jq").first_extract_step(), ExtractStep::Finished);
    assert_eq!(
        versioned.extract_arguments(),
        Some(vec![
            "extract".to_string(),
            "--version".to_string(),
            "1.6".to_string(),
            "jq".to_string(),
            "omni/local".to_string(),
        ])
    );
    assert_eq!(HomebrewInstall::new_formula("jq").extract_arguments(), None);
    assert_eq!(versioned.version_or_latest(), "1.6");
    assert_eq!(HomebrewInstall::new_formula("jq").version_or_latest(), "latest");
}

#[test]
fn install_plans_and_local_tap() {
    assert_eq!(HomebrewInstall::plan(false, true, false), InstallPlan::Install);
    assert_eq!(HomebrewInstall::plan(true, true, false), InstallPlan::UpToDate);
    assert_eq!(HomebrewInstall::plan(true, true, true), InstallPlan::Upgrade);
    assert_eq!(HomebrewInstall::plan(true, false, false), InstallPlan::Upgrade);
    let versioned = HomebrewInstall {
        install_type: HomebrewInstallType::Formula,
        name: "jq".to_string(),
        version: Some("1.6".to_string()),
    };
    let file = "/opt/homebrew/Library/Taps/omni/homebrew-local/Formula/jq@1.6.rb";
    assert!(versioned.is_in_local_tap(Some(file)));
    assert!(!versioned.is_in_local_tap(Some("/opt/homebrew/Library/Taps/x/homebrew-y/Formula/jq@1.6.rb")));
    assert!(!versioned.is_in_local_tap(None));
    assert!(!HomebrewInstall::new_formula("jq")
        .is_in_local_tap(Some("/x/omni/homebrew-local/Formula/jq.rb")));
    let cask = HomebrewInstall {
        install_type: HomebrewInstallType::Cask,
        name: "app".to_string(),
        version: Some("2".to_string()),
    };
    assert!(cask.is_in_local_tap(Some("omni/homebrew-local/Cask/app@2.rb")));
    assert!(!cask.is_in_local_tap(Some("omni/homebrew-local/Formula/app@2.rb")));
}

#[test]
fn hidden_directories_and_dotted_files_are_told_apart() {
    assert!(has_hidden_component(".git/bin"));
    assert!(has_hidden_component("a/.cache/bin"));
    assert!(!has_hidden_component("a/b.c/bin"));
    assert!(!has_hidden_component("bin"));
    assert!(!has_hidden_component(""));
    assert!(is_command_name("tool"));
    assert!(!is_command_name("tool.sh"));
}

#[test]
fn extraction_driver_runs_until_done_or_failed() {
    let versioned = HomebrewInstall {
        install_type: HomebrewInstallType::Formula,
        name: "jq".to_string(),
        version: Some("1.6".to_string()),
    };
    let fresh = ExtractOptions { needs_update: true, updated: None };
    let seen = std::cell::RefCell::new(Vec::new());
    let all_missing = |step: ExtractStep| -> Result<bool, UpError> {
        seen.borrow_mut().push(step);
        Ok(!matches!(step, ExtractStep::CheckFormula | ExtractStep::CheckLocalTap))
    };
    assert!(versioned.extract_package(&fresh, all_missing).is_ok());
    assert_eq!(
        *seen.borrow(),
        vec![
            ExtractStep::CheckFormula,
            ExtractStep::CheckLocalTap,
            ExtractStep::CreateLocalTap,
            ExtractStep::UpdateHomebrew,
            ExtractStep::Extract,
        ]
    );

    let available = |step: ExtractStep| -> Result<bool, UpError> {
        assert_eq!(step, ExtractStep::CheckFormula);
        Ok(true)
    };
    assert!(versioned.extract_package(&fresh, available).is_ok());

    let no_update = |step: ExtractStep| -> Result<bool, UpError> {
        Ok(!matches!(step, ExtractStep::CheckFormula | ExtractStep::UpdateHomebrew))
    };
    match versioned.extract_package(&fresh, no_update) {
        Err(UpError::Exec(message)) => assert_eq!(message, "failed to update homebrew"),
        _ => panic!("the update was to fail the extraction"),
    }

    let broken = |step: ExtractStep| -> Result<bool, UpError> {
        match step {
            ExtractStep::CheckFormula => Ok(false),
            ExtractStep::CheckLocalTap => Ok(false),
            _ => Err(UpError::Exec("tap-new failed".to_string())),
        }
    };
    match versioned.extract_package(&fresh, broken) {
        Err(UpError::Exec(message)) => assert_eq!(message, "tap-new failed"),
        _ => panic!("the failed command was to end the extraction"),
    }

    let never = |_: ExtractStep| -> Result<bool, UpError> { panic!("there was nothing to do") };
    assert!(HomebrewInstall::new_formula("jq").extract_package(&fresh, never).is_ok());
}

#[test]
fn install_driver_extracts_then_runs_the_command() {
    let versioned = HomebrewInstall {
        install_type: HomebrewInstallType::Cask,
        name: "app".to_string(),
        version: Some("2".to_string()),
    };
    let expect = |command: &'static str| {
        move |arguments: Vec<String>| -> Result<(), UpError> {
            assert_eq!(arguments, vec![command.to_string(), "--cask".to_string(), "app@2".to_string()]);
            Ok(())
        }
    };
    let no_extract = || -> Result<(), UpError> { panic!("nothing was to be extracted") };
    let no_run = |_: Vec<String>| -> Result<(), UpError> { panic!("nothing was to be run") };
    assert!(matches!(
        versioned.install(false, true, false, true, || Ok(()), expect("install")),
        Ok(true)
    ));
    assert!(matches!(
        versioned.install(true, false, false, true, no_extract, expect("upgrade")),
        Ok(true)
    ));
    assert!(matches!(versioned.install(true, true, false, true, no_extract, no_run), Ok(false)));
    assert!(matches!(
        versioned.install(false, true, true, true, || Err(UpError::HomebrewTapInUse), no_run),
        Err(UpError::HomebrewTapInUse)
    ));
    let failing = |_: Vec<String>| -> Result<(), UpError> { Err(UpError::Exec("no".to_string())) };
    assert!(matches!(versioned.install(true, true, true, false, no_extract, failing), Ok(false)));
    assert!(matches!(versioned.install(true, true, true, true, no_extract, failing), Err(_)));
}
