use nosman::command::CommandError;
use nosman::resolver::{resolve, ResolvedSource};

fn strings(items: &[&str]) -> Vec<String> {
    items.iter().map(|s| s.to_string()).collect()
}

#[test]
fn exact_mode_rejects_latest() {
    let installed = strings(&["1.2.0"]);
    let remote = strings(&["1.3.0"]);
    let e = resolve("latest", true, &installed, &remote).unwrap_err();
    assert!(matches!(e, CommandError::InvalidArgument { .. }));
}

#[test]
fn range_mode_rejects_major_only() {
    let installed = strings(&["1.2.0"]);
    let remote = strings(&[]);
    let e = resolve("1", false, &installed, &remote).unwrap_err();
    assert!(matches!(e, CommandError::ImpreciseVersion { .. }));
}

#[test]
fn exact_mode_rejects_major_only_too() {
    // An exact lookup needs a version precise enough to be a literal key.
    let installed = strings(&["1"]);
    let remote = strings(&[]);
    let e = resolve("1", true, &installed, &remote).unwrap_err();
    assert!(matches!(e, CommandError::ImpreciseVersion { .. }));
}

#[test]
fn unparseable_token_is_invalid() {
    let installed = strings(&["1.2.0"]);
    let remote = strings(&[]);
    let e = resolve("not-a-version", false, &installed, &remote).unwrap_err();
    assert!(matches!(e, CommandError::InvalidArgument { .. }));
}

#[test]
fn range_mode_prefers_installed_maximum() {
    // Installed candidates cover the window, so the remote set is never the
    // source even when it holds a higher in-window version.
    let installed = strings(&["1.2.0", "1.2.5", "1.3.0", "2.0.0"]);
    let remote = strings(&["1.2.9"]);
    let r = resolve("1.2.1", false, &installed, &remote).unwrap();
    assert_eq!(r.version_text, "1.2.5");
    assert_eq!(r.source, ResolvedSource::Installed);
}

#[test]
fn range_mode_falls_through_to_remote() {
    let installed = strings(&["1.2.0"]);
    let remote = strings(&["1.3.2"]);
    let r = resolve("1.3.0", false, &installed, &remote).unwrap();
    assert_eq!(r.version_text, "1.3.2");
    assert_eq!(r.source, ResolvedSource::Remote);
}

#[test]
fn range_mode_honours_the_floor() {
    // 1.2.0 is in the requested major.minor but below the floor 1.2.1.
    let installed = strings(&["1.2.0"]);
    let remote = strings(&[]);
    let e = resolve("1.2.1", false, &installed, &remote).unwrap_err();
    assert!(matches!(e, CommandError::NotFound { .. }));
}

#[test]
fn range_mode_not_found_when_no_window_matches() {
    let installed = strings(&["1.2.0"]);
    let remote = strings(&["1.4.0"]);
    let e = resolve("1.3.0", false, &installed, &remote).unwrap_err();
    assert!(matches!(e, CommandError::NotFound { .. }));
}

#[test]
fn latest_selects_overall_maximum() {
    let installed = strings(&["1.2.0", "0.9.1"]);
    let remote = strings(&["2.0.0", "1.5.0"]);
    let r = resolve("latest", false, &installed, &remote).unwrap();
    assert_eq!(r.version_text, "2.0.0");
    assert_eq!(r.source, ResolvedSource::Remote);
}

#[test]
fn latest_prefers_installed_on_ties() {
    let installed = strings(&["2.0.0"]);
    let remote = strings(&["2.0.0"]);
    let r = resolve("latest", false, &installed, &remote).unwrap();
    assert_eq!(r.source, ResolvedSource::Installed);
}

#[test]
fn latest_with_no_candidates_is_not_found() {
    let installed = strings(&[]);
    let remote = strings(&["garbage"]);
    let e = resolve("latest", false, &installed, &remote).unwrap_err();
    assert!(matches!(e, CommandError::NotFound { .. }));
}

#[test]
fn exact_mode_matches_the_token_text() {
    let installed = strings(&["1.2.3"]);
    let remote = strings(&["1.2.4"]);
    let r = resolve("1.2.3", true, &installed, &remote).unwrap();
    assert_eq!(r.version_text, "1.2.3");
    assert_eq!(r.source, ResolvedSource::Installed);

    let r = resolve("1.2.4", true, &installed, &remote).unwrap();
    assert_eq!(r.source, ResolvedSource::Remote);

    let e = resolve("1.2.5", true, &installed, &remote).unwrap_err();
    assert!(matches!(e, CommandError::NotFound { .. }));
}
