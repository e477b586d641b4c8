use nosman::command::CommandError;
use nosman::index::{PackageIdentifier, PackageType};
use nosman::manifest::{join_path, replace_extension, ModuleManifest, PublishOptions};
use nosman::platform::{archive_format_for_host, ArchiveFormat, Platform};
use nosman::publish::{
    archive_file_name, final_version_text, make_tag, publish_step, release_url, PublishAction,
    PublishCommand, PublishEvent, PublishOutcome, PublishRequest, PublishState,
};

fn linux() -> Platform {
    Platform { os: "linux".to_string(), arch: "x64".to_string() }
}

fn request(dry_run: bool) -> PublishRequest {
    PublishRequest {
        dry_run,
        path_exists: true,
        path_is_dir: true,
        path_file_name: "pkg".to_string(),
        name: None,
        version: None,
        version_suffix: "".to_string(),
        package_type: None,
        vendor: Some("acme".to_string()),
        publisher_name: Some("robot".to_string()),
        publisher_email: None,
        release_tags: Vec::new(),
        target_platform: Some(linux()),
        host_platform: linux(),
        remote_url: Some("https://example/repo".to_string()),
    }
}

fn manifest(name: &str, version: &str) -> ModuleManifest {
    ModuleManifest {
        name: name.to_string(),
        version: version.to_string(),
        dependencies: vec![PackageIdentifier {
            name: "dep".to_string(),
            version: "1.0.0".to_string(),
        }],
        category: Some("tools".to_string()),
        module_tags: None,
        binary_path: None,
        additional_search_paths: Vec::new(),
    }
}

fn scanned(m: ModuleManifest) -> PublishEvent {
    PublishEvent::Scanned {
        options_found: None,
        has_plugin_manifest: true,
        has_subsystem_manifest: false,
        manifest: Some(m),
    }
}

fn now() -> String {
    "2024-01-01T00:00:00+00:00".to_string()
}

#[test]
fn name_validity_matches_the_character_class() {
    assert!(PublishCommand::is_name_valid(&"nos.sys_1".to_string()));
    assert!(PublishCommand::is_name_valid(&"abc012".to_string()));
    assert!(!PublishCommand::is_name_valid(&"".to_string()));
    assert!(!PublishCommand::is_name_valid(&"Upper".to_string()));
    assert!(!PublishCommand::is_name_valid(&"with-dash".to_string()));
    assert!(!PublishCommand::is_name_valid(&"with space".to_string()));
}

#[test]
fn formatting_helpers_render_the_documented_shapes() {
    assert_eq!(final_version_text("2.0.0", "-rc1"), "2.0.0-rc1");
    assert_eq!(make_tag("mymod", "1.2.3", "linux-x64"), "mymod-1.2.3-linux-x64");
    assert_eq!(archive_file_name("t", ArchiveFormat::Zip), "t.zip");
    assert_eq!(archive_file_name("t", ArchiveFormat::TarGz), "t.tar.gz");
    assert_eq!(
        release_url("https://example/repo", "mymod-1.2.3-linux-x64", "a.tar.gz"),
        "https://example/repo/releases/download/mymod-1.2.3-linux-x64/a.tar.gz"
    );
    assert_eq!(join_path("dir", "file"), "dir/file");
    assert_eq!(replace_extension("Binaries/mod.dll", "so"), "Binaries/mod.so");
    assert_eq!(replace_extension("dir.v1/mod", "so"), "dir.v1/mod.so");
    assert_eq!(archive_format_for_host(&"windows".to_string()), ArchiveFormat::Zip);
    assert_eq!(archive_format_for_host(&"linux".to_string()), ArchiveFormat::TarGz);
}

#[test]
fn platform_parses_and_formats_os_arch_tokens() {
    let p = Platform::from_str("windows-x64").unwrap();
    assert_eq!(p.os, "windows");
    assert_eq!(p.arch, "x64");
    assert_eq!(p.format(), "windows-x64");
    assert!(Platform::from_str("linux").is_none());
    assert_eq!(p.binary_extension(), "dll");
    assert_eq!(linux().binary_extension(), "so");
    assert_eq!(Platform::from_str("macos-arm64").unwrap().binary_extension(), "dylib");
}

#[test]
fn manifest_version_rewrite_keeps_everything_else() {
    let m = manifest("mymod", "2.0.0");
    let rewritten = m.with_version("2.0.0-rc1".to_string());
    assert_eq!(rewritten.version, "2.0.0-rc1");
    assert_eq!(rewritten.name, "mymod");
    assert_eq!(rewritten.dependencies.len(), 1);
    assert_eq!(rewritten.category, Some("tools".to_string()));
}

#[test]
fn publish_options_default_to_including_everything() {
    let (options, found) = PublishOptions::defaulted(None);
    assert!(!found);
    assert_eq!(options.release_globs, vec!["**".to_string()]);
    assert!(options.includes_platform(&"linux-x64".to_string()));

    let restricted = PublishOptions {
        release_globs: vec!["**".to_string()],
        additional_publish_triggering_globs: None,
        target_platforms: Some(vec!["windows-x64".to_string()]),
    };
    assert!(restricted.includes_platform(&"windows-x64".to_string()));
    assert!(!restricted.includes_platform(&"linux-x64".to_string()));
}

#[test]
fn happy_path_runs_scan_archive_register_upload() {
    let req = request(false);
    let now = now();

    let (state, action) = publish_step(&req, PublishState::Start, PublishEvent::Begin, &now);
    assert!(matches!(state, PublishState::AwaitScan { .. }));
    assert!(matches!(action, PublishAction::ScanPackage));

    let (state, action) = publish_step(&req, state, scanned(manifest("mymod", "1.2.3")), &now);
    assert!(matches!(state, PublishState::AwaitArchive { .. }));
    match &action {
        PublishAction::WriteArchive { globs, format, archive_file_name, manifest_version } => {
            assert_eq!(globs, &vec!["**".to_string()]);
            assert_eq!(*format, ArchiveFormat::TarGz);
            assert_eq!(archive_file_name, "mymod-1.2.3-linux-x64.tar.gz");
            assert_eq!(manifest_version.as_deref(), Some("1.2.3"));
        },
        other => panic!("expected an archive action, got {:?}", matches!(other, PublishAction::Report { .. })),
    }

    let (state, action) = publish_step(&req, state, PublishEvent::ArchiveWritten, &now);
    assert!(matches!(state, PublishState::AwaitRegister { .. }));
    match &action {
        PublishAction::RegisterRelease { module_name, vendor, publisher_name, entry, .. } => {
            assert_eq!(module_name, "mymod");
            assert_eq!(vendor.as_deref(), Some("acme"));
            assert_eq!(publisher_name.as_deref(), Some("robot"));
            assert_eq!(entry.version, "1.2.3");
            assert_eq!(
                entry.url,
                "https://example/repo/releases/download/mymod-1.2.3-linux-x64/mymod-1.2.3-linux-x64.tar.gz"
            );
            assert_eq!(entry.platform.as_deref(), Some("linux-x64"));
            assert_eq!(entry.release_date.as_deref(), Some(now.as_str()));
            assert!(entry.dependencies.is_some());
            assert!(entry.plugin_api_version.is_none());
        },
        _ => panic!("expected a register action"),
    }

    let (state, action) = publish_step(
        &req,
        state,
        PublishEvent::Registered { commit_ref: "abc123".to_string() },
        &now,
    );
    assert!(matches!(state, PublishState::AwaitUpload { .. }));
    match &action {
        PublishAction::UploadRelease { commit_ref, tag, artifact_name } => {
            assert_eq!(commit_ref, "abc123");
            assert_eq!(tag, "mymod-1.2.3-linux-x64");
            assert_eq!(artifact_name, "mymod-1.2.3-linux-x64.tar.gz");
        },
        _ => panic!("expected an upload action"),
    }

    let (state, _action) = publish_step(&req, state, PublishEvent::Uploaded, &now);
    assert!(matches!(state, PublishState::Done { outcome: PublishOutcome::Published }));
}

#[test]
fn probe_path_names_the_binary_and_symbols() {
    let req = request(false);
    let now = now();
    let (state, _) = publish_step(&req, PublishState::Start, PublishEvent::Begin, &now);
    let mut m = manifest("mymod", "1.2.3");
    m.binary_path = Some("Binaries/mymod.dll".to_string());
    let (state, action) = publish_step(&req, state, scanned(m), &now);
    assert!(matches!(state, PublishState::AwaitProbe { .. }));
    match &action {
        PublishAction::ProbeBinary { binary_file, api_symbol, min_symbol } => {
            assert_eq!(binary_file, "Binaries/mymod.so");
            assert_eq!(api_symbol, "nosGetPluginAPIVersion");
            assert_eq!(min_symbol, "nosGetMinimumRequiredPluginAPIMinorVersion");
        },
        _ => panic!("expected a probe action"),
    }

    let (state, action) = publish_step(
        &req,
        state,
        PublishEvent::Probed { major: 1, minor: 4, patch: 0, min_required_minor: Some(2) },
        &now,
    );
    assert!(matches!(state, PublishState::AwaitArchive { .. }));
    assert!(matches!(action, PublishAction::WriteArchive { .. }));

    let (_, action) = publish_step(&req, state, PublishEvent::ArchiveWritten, &now);
    match &action {
        PublishAction::RegisterRelease { entry, .. } => {
            let api = entry.plugin_api_version.as_ref().unwrap();
            assert_eq!((api.major, api.minor, api.patch), (1, Some(4), Some(0)));
            assert!(entry.subsystem_api_version.is_none());
            assert_eq!(entry.min_required_api_minor_version, Some(2));
        },
        _ => panic!("expected a register action"),
    }
}

#[test]
fn probe_failure_is_fatal() {
    let req = request(false);
    let now = now();
    let (state, _) = publish_step(&req, PublishState::Start, PublishEvent::Begin, &now);
    let mut m = manifest("mymod", "1.2.3");
    m.binary_path = Some("Binaries/mymod".to_string());
    let (state, _) = publish_step(&req, state, scanned(m), &now);
    let (state, _) = publish_step(
        &req,
        state,
        PublishEvent::ProbeFailed { message: "no such symbol".to_string() },
        &now,
    );
    match state {
        PublishState::Failed { error } => {
            assert!(matches!(error, CommandError::NativeProbeError { .. }))
        },
        _ => panic!("expected a failure"),
    }
}

#[test]
fn suffixed_version_fails_the_strict_parse_but_keeps_the_text() {
    // The suffix is kept verbatim in every rendered form, and precisely for
    // that reason the strict numeric parser rejects the final version, which
    // aborts the publish at the identity check before anything is written.
    let final_version = final_version_text("2.0.0", "-rc1");
    assert_eq!(final_version, "2.0.0-rc1");
    assert!(nosman::semver::SemVer::parse_from_string(&final_version).is_none());
    assert_eq!(
        make_tag("mymod", &final_version, "linux-x64"),
        "mymod-2.0.0-rc1-linux-x64"
    );
    let rewritten = manifest("mymod", "2.0.0").with_version(final_version.clone());
    assert_eq!(rewritten.version, "2.0.0-rc1");

    let mut req = request(false);
    req.version_suffix = "-rc1".to_string();
    let now = now();
    let (state, _) = publish_step(&req, PublishState::Start, PublishEvent::Begin, &now);
    let (state, action) = publish_step(&req, state, scanned(manifest("mymod", "2.0.0")), &now);
    match state {
        PublishState::Failed { error } => {
            assert!(matches!(error, CommandError::InvalidArgument { .. }))
        },
        _ => panic!("expected a failure"),
    }
    assert!(matches!(action, PublishAction::Report { .. }));
}

#[test]
fn ambiguous_manifests_fail_before_any_archive() {
    let req = request(false);
    let now = now();
    let (state, _) = publish_step(&req, PublishState::Start, PublishEvent::Begin, &now);
    let (state, action) = publish_step(
        &req,
        state,
        PublishEvent::Scanned {
            options_found: None,
            has_plugin_manifest: true,
            has_subsystem_manifest: true,
            manifest: Some(manifest("mymod", "1.0.0")),
        },
        &now,
    );
    match &state {
        PublishState::Failed { error } => {
            assert!(matches!(error, CommandError::AmbiguousManifest { .. }))
        },
        _ => panic!("expected a failure"),
    }
    assert!(matches!(action, PublishAction::Report { .. }));
    // The failed pipeline absorbs every further event without mutating.
    let (state, action) = publish_step(&req, state, PublishEvent::ArchiveWritten, &now);
    assert!(matches!(state, PublishState::Failed { .. }));
    assert!(matches!(action, PublishAction::Report { .. }));
}

#[test]
fn excluded_platform_is_a_no_op_not_an_error() {
    let req = request(false);
    let now = now();
    let (state, _) = publish_step(&req, PublishState::Start, PublishEvent::Begin, &now);
    let options = PublishOptions {
        release_globs: vec!["**".to_string()],
        additional_publish_triggering_globs: None,
        target_platforms: Some(vec!["windows-x64".to_string()]),
    };
    let (state, action) = publish_step(
        &req,
        state,
        PublishEvent::Scanned {
            options_found: Some(options),
            has_plugin_manifest: true,
            has_subsystem_manifest: false,
            manifest: Some(manifest("mymod", "1.0.0")),
        },
        &now,
    );
    assert!(matches!(state, PublishState::Done { outcome: PublishOutcome::SkippedPlatform }));
    assert!(matches!(action, PublishAction::Report { .. }));
}

#[test]
fn dry_run_emits_no_mutating_action() {
    let req = request(true);
    let now = now();
    let (state, action) = publish_step(&req, PublishState::Start, PublishEvent::Begin, &now);
    assert!(matches!(action, PublishAction::ScanPackage));
    let (state, action) = publish_step(&req, state, scanned(manifest("mymod", "1.2.3")), &now);
    assert!(matches!(state, PublishState::Done { outcome: PublishOutcome::DryRun }));
    assert!(matches!(action, PublishAction::Report { .. }));
}

#[test]
fn single_file_publish_registers_the_file_verbatim() {
    let mut req = request(false);
    req.path_is_dir = false;
    req.path_file_name = "tool.bin".to_string();
    req.name = Some("mytool".to_string());
    req.version = Some("0.1.0".to_string());
    req.package_type = Some(PackageType::Nodos);
    let now = now();
    let (state, action) = publish_step(&req, PublishState::Start, PublishEvent::Begin, &now);
    assert!(matches!(state, PublishState::AwaitRegister { .. }));
    match &action {
        PublishAction::RegisterRelease { module_name, entry, .. } => {
            assert_eq!(module_name, "mytool");
            assert_eq!(
                entry.url,
                "https://example/repo/releases/download/mytool-0.1.0-linux-x64/tool.bin"
            );
            assert!(entry.dependencies.is_none());
        },
        _ => panic!("expected a register action"),
    }
}

#[test]
fn missing_path_or_identity_is_invalid() {
    let mut req = request(false);
    req.path_exists = false;
    let now = now();
    let (state, _) = publish_step(&req, PublishState::Start, PublishEvent::Begin, &now);
    match state {
        PublishState::Failed { error } => {
            assert!(matches!(error, CommandError::InvalidArgument { .. }))
        },
        _ => panic!("expected a failure"),
    }

    // A directory scan that finds no manifest falls back to the request,
    // which carries no name here.
    let req = request(false);
    let (state, _) = publish_step(&req, PublishState::Start, PublishEvent::Begin, &now);
    let (state, _) = publish_step(
        &req,
        state,
        PublishEvent::Scanned {
            options_found: None,
            has_plugin_manifest: false,
            has_subsystem_manifest: false,
            manifest: None,
        },
        &now,
    );
    match state {
        PublishState::Failed { error } => {
            assert!(matches!(error, CommandError::InvalidArgument { .. }))
        },
        _ => panic!("expected a failure"),
    }
}

#[test]
fn backend_failures_surface_as_backend_errors() {
    let req = request(false);
    let now = now();
    let (state, _) = publish_step(&req, PublishState::Start, PublishEvent::Begin, &now);
    let (state, _) = publish_step(&req, state, scanned(manifest("mymod", "1.2.3")), &now);
    let (state, _) = publish_step(&req, state, PublishEvent::ArchiveWritten, &now);
    let (state, _) = publish_step(
        &req,
        state,
        PublishEvent::RegisterFailed { message: "push rejected".to_string() },
        &now,
    );
    match state {
        PublishState::Failed { error } => {
            assert!(matches!(error, CommandError::BackendError { .. }))
        },
        _ => panic!("expected a failure"),
    }
}

#[test]
fn failed_upload_rolls_the_registration_back() {
    let req = request(false);
    let now = now();
    let (state, _) = publish_step(&req, PublishState::Start, PublishEvent::Begin, &now);
    let (state, _) = publish_step(&req, state, scanned(manifest("mymod", "1.2.3")), &now);
    let (state, _) = publish_step(&req, state, PublishEvent::ArchiveWritten, &now);
    let (state, _) = publish_step(
        &req,
        state,
        PublishEvent::Registered { commit_ref: "abc123".to_string() },
        &now,
    );
    let (state, action) = publish_step(
        &req,
        state,
        PublishEvent::UploadFailed { message: "network down".to_string() },
        &now,
    );
    assert!(matches!(state, PublishState::AwaitRollback));
    match &action {
        PublishAction::RollbackRelease { module_name, version, platform } => {
            assert_eq!(module_name, "mymod");
            assert_eq!(version, "1.2.3");
            assert_eq!(platform, "linux-x64");
        },
        _ => panic!("expected a rollback action"),
    }
    let (state, _) = publish_step(&req, state, PublishEvent::RolledBack, &now);
    match state {
        PublishState::Failed { error } => {
            assert!(matches!(error, CommandError::BackendError { .. }))
        },
        _ => panic!("expected a failure"),
    }
}

#[test]
fn timestamps_are_never_empty() {
    let t = nosman::clock::current_timestamp();
    assert!(!t.is_empty());
    // An RFC 3339 date-time always carries the date-time separator.
    assert!(t.contains('T'));
}
