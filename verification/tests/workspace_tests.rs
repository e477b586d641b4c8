use nosman::command::{CommandError, InitCommand, ListCommand};
use nosman::index::PackageType;
use nosman::workspace::{InstalledModule, Remote, Workspace};

fn module(name: &str, version: &str) -> InstalledModule {
    InstalledModule {
        name: name.to_string(),
        version: version.to_string(),
        manifest_path: format!("{}/{}.json", name, version),
        package_type: PackageType::Plugin,
        dependencies: Vec::new(),
    }
}

#[test]
fn init_refuses_an_enclosing_workspace() {
    let cmd = InitCommand {};
    assert!(!cmd.needs_workspace());
    let e = cmd.run_init("/work/sub".to_string(), Some("/work".to_string())).unwrap_err();
    assert!(matches!(e, CommandError::AlreadyInWorkspace { .. }));
}

#[test]
fn init_creates_an_empty_registry() {
    let cmd = InitCommand {};
    let ws = cmd.run_init("/work".to_string(), None).unwrap();
    assert_eq!(ws.root, "/work");
    assert_eq!(ws.installed_modules.len(), 0);
    assert_eq!(ws.remotes.len(), 0);
}

#[test]
fn load_requires_the_marker() {
    let e = Workspace::load("/work".to_string(), false, Vec::new(), Vec::new()).unwrap_err();
    assert!(matches!(e, CommandError::NotAWorkspace { .. }));
}

#[test]
fn load_accepts_a_consistent_registry() {
    let mods = vec![module("a", "1.0.0"), module("a", "1.1.0"), module("b", "1.0.0")];
    let remotes = vec![Remote { name: "default".to_string(), url: "https://example".to_string() }];
    let ws = Workspace::load("/work".to_string(), true, mods, remotes).unwrap();
    assert_eq!(ws.installed_modules.len(), 3);
}

#[test]
fn load_rejects_colliding_entries() {
    let mods = vec![module("a", "1.0.0"), module("a", "1.0.0")];
    let e = Workspace::load("/work".to_string(), true, mods, Vec::new()).unwrap_err();
    assert!(matches!(e, CommandError::IOError { .. }));
}

#[test]
fn install_overwrites_the_same_name_and_version() {
    let mut ws = Workspace::new("/work".to_string());
    ws.install_module(module("a", "1.0.0"), false);
    ws.install_module(module("b", "1.0.0"), false);
    let mut replacement = module("a", "1.0.0");
    replacement.manifest_path = "elsewhere.json".to_string();
    ws.install_module(replacement, false);
    assert_eq!(ws.installed_modules.len(), 2);
    assert_eq!(ws.installed_modules[0].manifest_path, "elsewhere.json");
}

#[test]
fn install_dry_run_changes_nothing() {
    let mut ws = Workspace::new("/work".to_string());
    ws.install_module(module("a", "1.0.0"), true);
    assert_eq!(ws.installed_modules.len(), 0);
}

#[test]
fn remove_deletes_exactly_the_entry() {
    let mut ws = Workspace::new("/work".to_string());
    ws.install_module(module("a", "1.0.0"), false);
    ws.install_module(module("a", "1.1.0"), false);
    ws.remove_module(&"a".to_string(), &"1.0.0".to_string(), false).unwrap();
    assert_eq!(ws.installed_modules.len(), 1);
    assert_eq!(ws.installed_modules[0].version, "1.1.0");
}

#[test]
fn remove_missing_is_not_found() {
    let mut ws = Workspace::new("/work".to_string());
    let e = ws.remove_module(&"a".to_string(), &"1.0.0".to_string(), false).unwrap_err();
    assert!(matches!(e, CommandError::NotFound { .. }));
}

#[test]
fn remove_dry_run_reports_but_keeps_the_entry() {
    let mut ws = Workspace::new("/work".to_string());
    ws.install_module(module("a", "1.0.0"), false);
    ws.remove_module(&"a".to_string(), &"1.0.0".to_string(), true).unwrap();
    assert_eq!(ws.installed_modules.len(), 1);
}

#[test]
fn find_remote_looks_up_by_name() {
    let mut ws = Workspace::new("/work".to_string());
    ws.remotes.push(Remote { name: "default".to_string(), url: "https://example".to_string() });
    let r = ws.find_remote(&"default".to_string()).unwrap();
    assert_eq!(r.url, "https://example");
    assert!(ws.find_remote(&"other".to_string()).is_none());
}

#[test]
fn installed_lookup_picks_the_window_maximum_of_one_name() {
    let mut ws = Workspace::new("/work".to_string());
    ws.install_module(module("a", "1.2.0"), false);
    ws.install_module(module("a", "1.2.5"), false);
    ws.install_module(module("b", "1.2.9"), false);
    let m = ws.get_latest_installed_module_for_version(&"a".to_string(), "1.2.1").unwrap();
    assert_eq!(m.version, "1.2.5");
}

#[test]
fn installed_lookup_reports_each_failure_kind() {
    let ws = Workspace::new("/work".to_string());
    let e = ws.get_latest_installed_module_for_version(&"a".to_string(), "latest").unwrap_err();
    assert!(matches!(e, CommandError::InvalidArgument { .. }));
    let e = ws.get_latest_installed_module_for_version(&"a".to_string(), "1").unwrap_err();
    assert!(matches!(e, CommandError::ImpreciseVersion { .. }));
    let e = ws.get_latest_installed_module_for_version(&"a".to_string(), "1.2.0").unwrap_err();
    assert!(matches!(e, CommandError::NotFound { .. }));
}

#[test]
fn list_renders_name_dash_version_lines() {
    let mut ws = Workspace::new("/work".to_string());
    ws.install_module(module("a", "1.2.0"), false);
    ws.install_module(module("b", "2.0.0"), false);
    let cmd = ListCommand {};
    assert!(cmd.needs_workspace());
    let lines = cmd.run_list(&ws);
    assert_eq!(lines, vec!["a-1.2.0".to_string(), "b-2.0.0".to_string()]);
}
