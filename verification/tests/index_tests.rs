use nosman::command::CommandError;
use nosman::index::{PackageReleaseEntry, RemoteIndex, rescan_cache};

fn entry(version: &str, platform: &str, url: &str) -> PackageReleaseEntry {
    PackageReleaseEntry {
        version: version.to_string(),
        url: url.to_string(),
        plugin_api_version: None,
        subsystem_api_version: None,
        release_date: None,
        dependencies: None,
        category: None,
        module_tags: None,
        release_tags: None,
        platform: Some(platform.to_string()),
        min_required_api_minor_version: None,
    }
}

#[test]
fn first_time_publish_requires_a_vendor() {
    let mut index = RemoteIndex::new();
    let e = index
        .fetch_add(false, &"mymod".to_string(), None, entry("1.0.0", "linux-x64", "u1"))
        .unwrap_err();
    assert!(matches!(e, CommandError::InvalidArgument { .. }));
    assert_eq!(index.modules.len(), 0);
}

#[test]
fn first_time_publish_records_the_vendor() {
    let mut index = RemoteIndex::new();
    let vendor = "acme".to_string();
    index
        .fetch_add(false, &"mymod".to_string(), Some(&vendor), entry("1.0.0", "linux-x64", "u1"))
        .unwrap();
    assert_eq!(index.modules.len(), 1);
    assert_eq!(index.modules[0].name, "mymod");
    assert_eq!(index.modules[0].vendor, "acme");
    assert_eq!(index.modules[0].releases.len(), 1);
}

#[test]
fn same_version_and_platform_overwrites_in_place() {
    let mut index = RemoteIndex::new();
    let vendor = "acme".to_string();
    let name = "mymod".to_string();
    index.fetch_add(false, &name, Some(&vendor), entry("1.0.0", "linux-x64", "u1")).unwrap();
    index.fetch_add(false, &name, None, entry("1.0.0", "linux-x64", "u2")).unwrap();
    assert_eq!(index.modules.len(), 1);
    assert_eq!(index.modules[0].releases.len(), 1);
    assert_eq!(index.modules[0].releases[0].url, "u2");
}

#[test]
fn other_platforms_and_versions_accumulate() {
    let mut index = RemoteIndex::new();
    let vendor = "acme".to_string();
    let name = "mymod".to_string();
    index.fetch_add(false, &name, Some(&vendor), entry("1.0.0", "linux-x64", "u1")).unwrap();
    index.fetch_add(false, &name, None, entry("1.0.0", "windows-x64", "u2")).unwrap();
    index.fetch_add(false, &name, None, entry("1.1.0", "linux-x64", "u3")).unwrap();
    assert_eq!(index.modules[0].releases.len(), 3);
}

#[test]
fn dry_run_leaves_the_catalog_untouched() {
    let mut index = RemoteIndex::new();
    let vendor = "acme".to_string();
    let name = "mymod".to_string();
    index.fetch_add(false, &name, Some(&vendor), entry("1.0.0", "linux-x64", "u1")).unwrap();
    index.fetch_add(true, &name, None, entry("2.0.0", "linux-x64", "u2")).unwrap();
    assert_eq!(index.modules.len(), 1);
    assert_eq!(index.modules[0].releases.len(), 1);
    assert_eq!(index.modules[0].releases[0].version, "1.0.0");
    // The vendor rule still applies on a dry run.
    let e = index
        .fetch_add(true, &"unknown".to_string(), None, entry("1.0.0", "linux-x64", "u3"))
        .unwrap_err();
    assert!(matches!(e, CommandError::InvalidArgument { .. }));
}

#[test]
fn remove_release_deletes_exactly_the_key() {
    let mut index = RemoteIndex::new();
    let vendor = "acme".to_string();
    let name = "mymod".to_string();
    index.fetch_add(false, &name, Some(&vendor), entry("1.0.0", "linux-x64", "u1")).unwrap();
    index.fetch_add(false, &name, None, entry("1.0.0", "windows-x64", "u2")).unwrap();
    index
        .remove_release(false, &name, &"1.0.0".to_string(), &Some("linux-x64".to_string()))
        .unwrap();
    assert_eq!(index.modules[0].releases.len(), 1);
    assert_eq!(index.modules[0].releases[0].platform.as_deref(), Some("windows-x64"));

    let e = index
        .remove_release(false, &name, &"9.9.9".to_string(), &Some("linux-x64".to_string()))
        .unwrap_err();
    assert!(matches!(e, CommandError::NotFound { .. }));

    // A dry run reports the decision but keeps the entry.
    index
        .remove_release(true, &name, &"1.0.0".to_string(), &Some("windows-x64".to_string()))
        .unwrap();
    assert_eq!(index.modules[0].releases.len(), 1);
}

#[test]
fn loaded_catalogs_are_checked_before_use() {
    let mut index = RemoteIndex::new();
    let vendor = "acme".to_string();
    index.fetch_add(false, &"mymod".to_string(), Some(&vendor), entry("1.0.0", "linux-x64", "u1")).unwrap();
    assert!(index.check_wf());
    let clash = index.modules[0].clone();
    index.modules.push(clash);
    assert!(!index.check_wf());
}

#[test]
fn rescan_replaces_the_cache_only_when_fetching() {
    let mut current = RemoteIndex::new();
    let vendor = "acme".to_string();
    current
        .fetch_add(false, &"mymod".to_string(), Some(&vendor), entry("1.0.0", "linux-x64", "u1"))
        .unwrap();
    let fetched = RemoteIndex::new();

    let kept = rescan_cache(current.clone(), false, fetched.clone());
    assert_eq!(kept.modules.len(), 1);

    let replaced = rescan_cache(current, true, fetched);
    assert_eq!(replaced.modules.len(), 0);
}
