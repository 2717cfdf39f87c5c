use omni_resources::clock::Timestamp;
use omni_resources::github_release::{
    best_candidate, version_from_capture, GithubReleaseAsset, GithubReleaseAssetType,
    GithubReleaseVersion, GithubReleases,
};
use omni_resources::pattern::Platform;
use omni_resources::version::{at_most, rank};

fn asset(name: &str) -> GithubReleaseAsset {
    GithubReleaseAsset {
        name: name.to_string(),
        browser_download_url: format!("https://example.com/{}", name),
        state: "uploaded".to_string(),
        content_type: "application/octet-stream".to_string(),
        size: 42,
    }
}

fn release(tag: &str, draft: bool, prerelease: bool, assets: &[&str]) -> GithubReleaseVersion {
    GithubReleaseVersion {
        tag_name: tag.to_string(),
        name: tag.to_string(),
        draft,
        prerelease,
        assets: assets.iter().map(|name| asset(name)).collect(),
    }
}

fn linux_amd64() -> Platform {
    Platform::new(
        vec!["linux".to_string()],
        vec!["amd64".to_string(), "x86_64".to_string()],
    )
    .unwrap()
}

fn any_version(_constraint: &str, _version: &str, _prerelease: bool) -> bool {
    true
}

#[test]
fn version_is_read_off_the_tag() {
    assert_eq!(release("v1.2.3", false, false, &[]).version(), "1.2.3");
    assert_eq!(release("release-10", false, false, &[]).version(), "10");
    assert_eq!(release("nightly", false, false, &[]).version(), "nightly");
    assert_eq!(release("v1.2.3-rc1", false, false, &[]).version(), "1.2.3-rc1");
    assert_eq!(release("1.0", false, false, &[]).version(), "1.0");
    assert_eq!(release("", false, false, &[]).version(), "");
}

#[test]
fn version_from_capture_prefers_the_capture() {
    assert_eq!(version_from_capture("v1.2.3", Some("1.2.3".to_string())), "1.2.3");
    assert_eq!(version_from_capture("nightly", None), "nightly");
}

#[test]
fn assets_are_classified_by_name() {
    assert_eq!(
        asset("tool-linux-amd64.tar.gz").file_type(),
        Some((GithubReleaseAssetType::TarGz, "tool-linux-amd64".to_string()))
    );
    assert_eq!(
        asset("tool.tgz").file_type(),
        Some((GithubReleaseAssetType::TarGz, "tool".to_string()))
    );
    assert_eq!(
        asset("tool.zip").file_type(),
        Some((GithubReleaseAssetType::Zip, "tool".to_string()))
    );
    assert_eq!(
        asset("tool.exe").file_type(),
        Some((GithubReleaseAssetType::Binary, "tool.exe".to_string()))
    );
    assert_eq!(
        asset("tool").file_type(),
        Some((GithubReleaseAssetType::Binary, "tool".to_string()))
    );
    assert_eq!(asset("tool.txt").file_type(), None);
    assert_eq!(asset(".tar.gz").file_type(), Some((GithubReleaseAssetType::TarGz, String::new())));
}

#[test]
fn asset_kinds_answer_for_themselves() {
    assert!(GithubReleaseAssetType::Zip.is_zip());
    assert!(!GithubReleaseAssetType::Zip.is_tgz());
    assert!(!GithubReleaseAssetType::Zip.is_binary());
    assert!(GithubReleaseAssetType::TarGz.is_tgz());
    assert!(!GithubReleaseAssetType::TarGz.is_zip());
    assert!(GithubReleaseAssetType::Binary.is_binary());
    assert!(!GithubReleaseAssetType::Binary.is_tgz());
}

#[test]
fn clean_name_strips_platform_version_and_separators() {
    let platform = Platform::new(vec!["linux".to_string()], vec!["amd64".to_string()]).unwrap();
    assert_eq!(
        asset("tool-linux-amd64-v1.2.3.tar").clean_name("1.2.3", &platform),
        "tool-v.tar"
    );
    assert_eq!(asset("tool-linux-amd64-1.2.3").clean_name("1.2.3", &platform), "tool");
    assert_eq!(asset("tool_Linux_AMD64").clean_name("1.2.3", &platform), "tool_Linux_AMD64");
    assert_eq!(asset("tool-Linux-AMD64").clean_name("9", &platform), "tool");
    assert_eq!(asset("--tool__x--").clean_name("", &platform), "tool-x");
}

#[test]
fn platform_words_are_matched_whole_and_in_any_case() {
    let platform = linux_amd64();
    assert!(platform.names_os("tool-Linux-amd64.tar.gz"));
    assert!(!platform.names_os("tool-linuxish-amd64.tar.gz"));
    assert!(platform.names_arch("tool-linux-X86_64.zip"));
    assert!(!platform.names_arch("tool-linux-arm64.zip"));
    assert!(asset("tool-linux-amd64.tar.gz").is_compatible(false, &platform));
    assert!(!asset("tool-linux-amd64").is_compatible(false, &platform));
    assert!(asset("tool-linux-amd64").is_compatible(true, &platform));
    assert!(!asset("tool-linux-amd64.txt").is_compatible(true, &platform));
    assert!(!asset("tool-darwin-amd64.tar.gz").is_compatible(true, &platform));
}

#[test]
fn platform_refuses_names_that_make_no_pattern() {
    assert!(Platform::new(vec!["li(nux".to_string()], vec!["amd64".to_string()]).is_none());
    assert!(Platform::new(vec!["linux".to_string()], vec!["amd64)".to_string()]).is_none());
    assert!(Platform::new(vec![], vec![]).is_some());
}

#[test]
fn versions_are_ranked_by_numeric_segments() {
    assert_eq!(rank("2.10", "2.9"), 1);
    assert_eq!(rank("2.9", "2.10"), -1);
    assert_eq!(rank("1.2.3", "1.2.3"), 0);
    assert_eq!(rank("1.02", "1.2"), 0);
    assert_eq!(rank("1.2", "1.2.0"), -1);
    assert_eq!(rank("1.2.3", "1.2.3-rc1"), 1);
    assert_eq!(rank("1.2.3-rc1", "1.2.3-rc2"), -1);
    assert_eq!(rank("1.2.3-rc1", "1.2.2"), 1);
    assert_eq!(rank("nightly", "0.1"), -1);
    assert_eq!(rank("alpha", "beta"), -1);
    assert_eq!(rank("10", "9"), 1);
    assert_eq!(rank("99999999999999999999999", "18446744073709551615"), 0);
    assert_eq!(rank("18446744073709551614", "18446744073709551615"), -1);
    assert!(at_most("2.9", "2.10"));
    assert!(!at_most("2.10", "2.9"));
    assert!(at_most("2.10", "2.10"));
}

#[test]
fn best_candidate_is_the_highest_and_the_last_of_equals() {
    let versions = |items: &[Option<&str>]| -> Vec<Option<String>> {
        items.iter().map(|v| v.map(|s| s.to_string())).collect()
    };
    assert_eq!(best_candidate(&versions(&[])), None);
    assert_eq!(best_candidate(&versions(&[None, None])), None);
    assert_eq!(best_candidate(&versions(&[Some("2.9"), Some("2.10"), Some("2.1")])), Some(1));
    assert_eq!(best_candidate(&versions(&[Some("1.0"), None, Some("1.0")])), Some(2));
    assert_eq!(best_candidate(&versions(&[Some("1.2"), Some("1.02"), Some("1.1")])), Some(1));
    assert_eq!(best_candidate(&versions(&[None, Some("0.1"), None])), Some(1));
}

#[test]
fn resolver_skips_drafts_and_prereleases() {
    let releases = GithubReleases::new(
        vec![
            release("v3.0.0", true, false, &["x-linux-amd64.tar.gz"]),
            release("v2.0.0-rc1", false, true, &["x-linux-amd64.tar.gz"]),
            release("v1.0.0", false, false, &["x-linux-amd64.tar.gz", "x-darwin-arm64.tar.gz"]),
        ],
        Timestamp { nanos: 0 },
    );
    let platform = linux_amd64();

    let (version, chosen) = releases.get("x", false, false, &platform, any_version).unwrap();
    assert_eq!(version, "1.0.0");
    assert_eq!(chosen.tag_name, "v1.0.0");
    assert_eq!(chosen.assets.len(), 1);
    assert_eq!(chosen.assets[0].name, "x-linux-amd64.tar.gz");

    let (version, chosen) = releases.get("x", true, false, &platform, any_version).unwrap();
    assert_eq!(version, "2.0.0-rc1");
    assert_eq!(chosen.tag_name, "v2.0.0-rc1");
    assert!(chosen.prerelease);
}

#[test]
fn resolver_asks_the_constraint_and_needs_a_fitting_asset() {
    let releases = GithubReleases::new(
        vec![
            release("v2.9", false, false, &["x-linux-amd64.zip"]),
            release("v2.10", false, false, &["x-linux-amd64.zip"]),
            release("v3.0", false, false, &["x-darwin-amd64.zip"]),
            release("v4.0", false, false, &["x-linux-amd64"]),
        ],
        Timestamp { nanos: 0 },
    );
    let platform = linux_amd64();

    let (version, _) = releases.get("2", false, false, &platform, any_version).unwrap();
    assert_eq!(version, "2.10");

    let (version, chosen) = releases.get("2", false, true, &platform, any_version).unwrap();
    assert_eq!(version, "4.0");
    assert_eq!(chosen.assets.len(), 1);

    let only_two_nine = |_: &str, version: &str, _: bool| version == "2.9";
    let (version, _) = releases.get("2.9", false, true, &platform, only_two_nine).unwrap();
    assert_eq!(version, "2.9");

    let none = |_: &str, _: &str, _: bool| false;
    assert!(releases.get("9", true, true, &platform, none).is_none());

    assert!(releases.select(&vec![], true, true, &platform).is_none());
    let (version, _) = releases.select(&vec![true, false, true, true], false, false, &platform).unwrap();
    assert_eq!(version, "2.9");
}

#[test]
fn release_list_goes_stale_after_its_ttl() {
    let releases = GithubReleases::new(vec![], Timestamp { nanos: 1_000_000_000 });
    assert!(!releases.is_stale(10, &Timestamp { nanos: 11_000_000_000 }));
    assert!(releases.is_stale(10, &Timestamp { nanos: 11_000_000_001 }));
    assert!(releases.is_stale(u64::MAX, &Timestamp { nanos: i128::MAX }));
    let late = GithubReleases::new(vec![], Timestamp { nanos: i128::MAX });
    assert!(!late.is_stale(1, &Timestamp { nanos: i128::MAX }));
}
