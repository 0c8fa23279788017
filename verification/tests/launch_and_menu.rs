use dsh_studio::launch::{
    backend_args, bundled_cli_path, bundled_node_path, loopback_url, node_exe, plan_launch, tooltip_for, LaunchPlan,
};
use dsh_studio::menu::{is_local, parse_menu_id, parse_tray_id, profile_menu, MenuCommand, NavTarget, TrayCommand};
use dsh_studio::probe::{next_probe, ProbeMove, PROBE_INTERVAL_MS};

#[test]
fn node_exe_by_platform() {
    assert_eq!(node_exe(true), "node.exe");
    assert_eq!(node_exe(false), "node");
}

#[test]
fn bundled_layout() {
    assert_eq!(bundled_node_path(false), vec!["backend", "node"]);
    assert_eq!(bundled_node_path(true), vec!["backend", "node.exe"]);
    assert_eq!(bundled_cli_path(), vec!["backend", "node_modules", "@deepseek-ai", "dsh", "lib", "bin.js"]);
}

#[test]
fn launch_plan_prefers_override_then_bundle_then_path() {
    match plan_launch(Some("/opt/dsh".to_string()), true) {
        LaunchPlan::Explicit { program } => assert_eq!(program, "/opt/dsh"),
        _ => panic!(),
    }
    assert!(matches!(plan_launch(None, true), LaunchPlan::Bundled));
    match plan_launch(None, false) {
        LaunchPlan::OnPath { program } => assert_eq!(program, "dsh"),
        _ => panic!(),
    }
}

#[test]
fn web_arguments_and_address() {
    assert_eq!(backend_args(5), vec!["web", "--host", "127.0.0.1", "--port", "5"]);
    assert_eq!(loopback_url(65535), "http://127.0.0.1:65535");
    assert_eq!(tooltip_for("http://127.0.0.1:1"), "DSH Studio — http://127.0.0.1:1");
}

#[test]
fn profile_choices() {
    let profiles = vec!["alpha".to_string(), "beta".to_string()];
    let items = profile_menu(&Some("beta".to_string()), &profiles);
    assert_eq!(items.len(), 3);
    assert_eq!(items[0].id, "profile:");
    assert_eq!(items[0].label, "Default (no profile)");
    assert!(!items[0].checked);
    assert_eq!(items[1].id, "profile:alpha");
    assert_eq!(items[1].label, "alpha");
    assert!(!items[1].checked);
    assert_eq!(items[2].id, "profile:beta");
    assert!(items[2].checked);

    let items = profile_menu(&None, &profiles);
    assert!(items[0].checked && !items[1].checked && !items[2].checked);

    let items = profile_menu(&Some("gone".to_string()), &profiles);
    assert!(items.iter().all(|i| !i.checked));
}

#[test]
fn choosing_a_profile_item_selects_it() {
    let profiles = vec!["alpha".to_string(), "beta".to_string()];
    let items = profile_menu(&None, &profiles);
    for (k, item) in items.iter().enumerate() {
        let selection = match parse_menu_id(&item.id) {
            MenuCommand::SelectProfile(p) => p,
            _ => panic!("a profile item"),
        };
        let expected = if k == 0 { None } else { Some(profiles[k - 1].clone()) };
        assert_eq!(selection, expected);
        let rebuilt = profile_menu(&selection, &profiles);
        for (j, it) in rebuilt.iter().enumerate() {
            assert_eq!(it.checked, j == k);
        }
    }
}

#[test]
fn menu_ids() {
    assert!(matches!(parse_menu_id("in"), MenuCommand::ZoomIn));
    assert!(matches!(parse_menu_id("out"), MenuCommand::ZoomOut));
    assert!(matches!(parse_menu_id("fit"), MenuCommand::ActualSize));
    assert!(matches!(parse_menu_id("reload"), MenuCommand::Reload));
    assert!(matches!(parse_menu_id("devtools"), MenuCommand::ToggleDevtools));
    assert!(matches!(parse_menu_id("restart-backend"), MenuCommand::RestartBackend));
    assert!(matches!(parse_menu_id("open-browser"), MenuCommand::OpenInBrowser));
    assert!(matches!(parse_menu_id("profile:"), MenuCommand::SelectProfile(None)));
    match parse_menu_id("profile:wörk") {
        MenuCommand::SelectProfile(Some(p)) => assert_eq!(p, "wörk"),
        _ => panic!(),
    }
    assert!(matches!(parse_menu_id("profile"), MenuCommand::Ignore));
    assert!(matches!(parse_menu_id("quit"), MenuCommand::Ignore));
    assert!(matches!(parse_menu_id(""), MenuCommand::Ignore));
}

#[test]
fn tray_ids() {
    assert!(matches!(parse_tray_id("show"), TrayCommand::Show));
    assert!(matches!(parse_tray_id("quit"), TrayCommand::Quit));
    assert!(matches!(parse_tray_id("in"), TrayCommand::Ignore));
}

fn nav(host: Option<&str>, scheme: &str) -> NavTarget {
    NavTarget { host: host.map(|h| h.to_string()), scheme: scheme.to_string() }
}

#[test]
fn local_pages_stay_in_the_window() {
    assert!(is_local(&nav(Some("127.0.0.1"), "http")));
    assert!(is_local(&nav(Some("localhost"), "http")));
    assert!(is_local(&nav(Some("tauri.localhost"), "https")));
    assert!(is_local(&nav(None, "tauri")));
    assert!(is_local(&nav(Some("example.com"), "tauri")));
    assert!(!is_local(&nav(Some("example.com"), "https")));
    assert!(!is_local(&nav(None, "about")));
    assert!(!is_local(&nav(Some("127.0.0.2"), "http")));
}

#[test]
fn probing_a_fresh_backend() {
    assert!(matches!(next_probe(0, 30_000, None), ProbeMove::Attempt));
    assert!(matches!(next_probe(29_999, 30_000, None), ProbeMove::Attempt));
    assert!(matches!(next_probe(30_000, 30_000, None), ProbeMove::TimedOut));
    assert!(matches!(next_probe(10, 30_000, Some(true)), ProbeMove::Listening));
    match next_probe(10, 30_000, Some(false)) {
        ProbeMove::Wait { millis } => assert_eq!(millis, PROBE_INTERVAL_MS),
        _ => panic!(),
    }
    assert_eq!(PROBE_INTERVAL_MS, 250);
}

/// Runs a whole probe over the times seen and the attempts' results.
fn probe(deadline_ms: u64, looks: &[(u64, bool)]) -> Option<bool> {
    for &(elapsed, connected) in looks {
        if let ProbeMove::TimedOut = next_probe(elapsed, deadline_ms, None) {
            return Some(false);
        }
        if let ProbeMove::Listening = next_probe(elapsed, deadline_ms, Some(connected)) {
            return Some(true);
        }
    }
    None
}

#[test]
fn whole_probe_succeeds_only_before_the_deadline() {
    assert_eq!(probe(1000, &[(0, false), (250, false), (500, true)]), Some(true));
    assert_eq!(probe(1000, &[(0, false), (999, true)]), Some(true));
    assert_eq!(probe(1000, &[(0, false), (1000, true)]), Some(false));
    assert_eq!(probe(1000, &[(0, false), (500, false)]), None);
}
