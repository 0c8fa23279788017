use dsh_studio::supervisor::{
    BackendEvent, Stage, Supervisor, SupervisorAction, SupervisorEvent, MAX_BACKOFF_SECS,
    MISSING_RETRY_SECS, PROBE_TIMEOUT_SECS, WATCH_INTERVAL_MS,
};

fn step(s: &mut Supervisor, e: SupervisorEvent) -> SupervisorAction {
    assert!(s.accepts(&e));
    s.step(e)
}

/// Runs a round from its start up to a backend that listens on `port`.
fn boot(s: &mut Supervisor, port: u16, profile: Option<&str>) -> (String, String) {
    assert!(matches!(step(s, SupervisorEvent::ExitChecked { exiting: false }), SupervisorAction::FindPort));
    assert!(matches!(step(s, SupervisorEvent::PortFound { port }), SupervisorAction::ResolveCommand));
    assert!(matches!(
        step(s, SupervisorEvent::CommandResolved { found: true }),
        SupervisorAction::Announce
    ));
    match step(s, SupervisorEvent::Announced { profile: profile.map(|p| p.to_string()) }) {
        SupervisorAction::Spawn { args, profile: p } => {
            let expected: Vec<String> =
                vec!["web".into(), "--host".into(), "127.0.0.1".into(), "--port".into(), port.to_string()];
            assert_eq!(args, expected);
            assert_eq!(p.as_deref(), profile);
        }
        _ => panic!("expected Spawn"),
    }
    match step(s, SupervisorEvent::Spawned) {
        SupervisorAction::Probe { port: p, timeout_secs } => {
            assert_eq!(p, port);
            assert_eq!(timeout_secs, PROBE_TIMEOUT_SECS);
            assert_eq!(timeout_secs, 30);
        }
        _ => panic!("expected Probe"),
    }
    match step(s, SupervisorEvent::Probed { listening: true }) {
        SupervisorAction::Serve { url, tooltip } => (url, tooltip),
        _ => panic!("expected Serve"),
    }
}

/// From watching a running backend: the backend dies; returns the reported wait.
fn crash(s: &mut Supervisor, log: &str) -> (Option<String>, u64) {
    let a = step(
        s,
        SupervisorEvent::Watched { exiting: false, restart_requested: false, child_running: false },
    );
    assert!(matches!(a, SupervisorAction::Reap));
    let a = step(s, SupervisorEvent::Reaped { exiting: false, log: log.to_string() });
    let r = match a {
        SupervisorAction::Report { event: BackendEvent::Crashed { note }, wait_secs } => (note, wait_secs),
        _ => panic!("expected a crash report"),
    };
    assert!(matches!(step(s, SupervisorEvent::Done), SupervisorAction::CheckExit));
    r
}

#[test]
fn starts_by_checking_exit() {
    let (s, a) = Supervisor::start();
    assert!(matches!(a, SupervisorAction::CheckExit));
    assert_eq!(s.backoff_secs(), 1);
    assert!(matches!(s.stage(), Stage::CheckingExit));
}

#[test]
fn boot_serves_on_loopback() {
    let (mut s, _) = Supervisor::start();
    let (url, tooltip) = boot(&mut s, 49152, Some("work"));
    assert_eq!(url, "http://127.0.0.1:49152");
    assert_eq!(tooltip, "DSH Studio — http://127.0.0.1:49152");
    assert!(matches!(step(&mut s, SupervisorEvent::Done), SupervisorAction::Watch));
}

#[test]
fn running_backend_is_watched_every_400_ms() {
    let (mut s, _) = Supervisor::start();
    boot(&mut s, 8080, None);
    step(&mut s, SupervisorEvent::Done);
    for _ in 0..3 {
        match step(
            &mut s,
            SupervisorEvent::Watched { exiting: false, restart_requested: false, child_running: true },
        ) {
            SupervisorAction::Pause { millis } => assert_eq!(millis, WATCH_INTERVAL_MS),
            _ => panic!("expected Pause"),
        }
        assert_eq!(WATCH_INTERVAL_MS, 400);
        assert!(matches!(step(&mut s, SupervisorEvent::Done), SupervisorAction::Watch));
    }
}

#[test]
fn crashes_back_off_from_one_to_thirty_seconds() {
    let (mut s, _) = Supervisor::start();
    boot(&mut s, 8080, None);
    step(&mut s, SupervisorEvent::Done);
    let (note, wait) = crash(&mut s, "boom\n");
    assert_eq!(note.as_deref(), Some("boom\n"));
    assert_eq!(wait, 1);
    let mut waits = vec![wait];
    // Each later boot fails to listen, so the backoff keeps growing.
    for _ in 0..6 {
        step(&mut s, SupervisorEvent::ExitChecked { exiting: false });
        step(&mut s, SupervisorEvent::PortFound { port: 9000 });
        step(&mut s, SupervisorEvent::CommandResolved { found: true });
        step(&mut s, SupervisorEvent::Announced { profile: None });
        step(&mut s, SupervisorEvent::Spawned);
        assert!(matches!(step(&mut s, SupervisorEvent::Probed { listening: false }), SupervisorAction::Abandon));
        assert!(matches!(step(&mut s, SupervisorEvent::Done), SupervisorAction::Watch));
        let (note, wait) = crash(&mut s, "");
        assert_eq!(note, None);
        waits.push(wait);
    }
    assert_eq!(waits, vec![1, 2, 4, 8, 16, 30, 30]);
    assert_eq!(s.backoff_secs(), MAX_BACKOFF_SECS);
}

#[test]
fn a_served_backend_resets_the_backoff() {
    let (mut s, _) = Supervisor::start();
    boot(&mut s, 8080, None);
    step(&mut s, SupervisorEvent::Done);
    crash(&mut s, "x");
    assert_eq!(s.backoff_secs(), 2);
    boot(&mut s, 8081, None);
    assert_eq!(s.backoff_secs(), 1);
    step(&mut s, SupervisorEvent::Done);
    let (_, wait) = crash(&mut s, "y");
    assert_eq!(wait, 1);
}

#[test]
fn restart_request_reaps_a_running_backend() {
    let (mut s, _) = Supervisor::start();
    boot(&mut s, 8080, None);
    step(&mut s, SupervisorEvent::Done);
    let a = step(
        &mut s,
        SupervisorEvent::Watched { exiting: false, restart_requested: true, child_running: true },
    );
    assert!(matches!(a, SupervisorAction::Reap));
}

#[test]
fn quitting_stops_supervision() {
    let (mut s, _) = Supervisor::start();
    assert!(matches!(step(&mut s, SupervisorEvent::ExitChecked { exiting: true }), SupervisorAction::Exit));
    assert!(matches!(s.stage(), Stage::Finished));
    assert!(!s.accepts(&SupervisorEvent::Done));
    assert!(!s.accepts(&SupervisorEvent::ExitChecked { exiting: false }));

    let (mut s, _) = Supervisor::start();
    boot(&mut s, 8080, None);
    step(&mut s, SupervisorEvent::Done);
    let a = step(
        &mut s,
        SupervisorEvent::Watched { exiting: true, restart_requested: false, child_running: true },
    );
    assert!(matches!(a, SupervisorAction::Reap));
    let a = step(&mut s, SupervisorEvent::Reaped { exiting: true, log: "bye".to_string() });
    assert!(matches!(a, SupervisorAction::Exit));
    assert!(matches!(s.stage(), Stage::Finished));
}

#[test]
fn quitting_while_reaping_stops_without_report() {
    let (mut s, _) = Supervisor::start();
    boot(&mut s, 8080, None);
    step(&mut s, SupervisorEvent::Done);
    step(&mut s, SupervisorEvent::Watched { exiting: false, restart_requested: false, child_running: false });
    let a = step(&mut s, SupervisorEvent::Reaped { exiting: true, log: "bye".to_string() });
    assert!(matches!(a, SupervisorAction::Exit));
    assert_eq!(s.backoff_secs(), 1);
}

#[test]
fn missing_backend_is_retried_after_five_seconds() {
    let (mut s, _) = Supervisor::start();
    step(&mut s, SupervisorEvent::ExitChecked { exiting: false });
    match step(&mut s, SupervisorEvent::PortFailed { reason: "no ports".to_string() }) {
        SupervisorAction::Report { event: BackendEvent::Missing { note }, wait_secs } => {
            assert_eq!(note.as_deref(), Some("no ports"));
            assert_eq!(wait_secs, MISSING_RETRY_SECS);
            assert_eq!(wait_secs, 5);
        }
        _ => panic!("expected Missing"),
    }
    assert!(matches!(step(&mut s, SupervisorEvent::Done), SupervisorAction::CheckExit));

    step(&mut s, SupervisorEvent::ExitChecked { exiting: false });
    step(&mut s, SupervisorEvent::PortFound { port: 1 });
    match step(&mut s, SupervisorEvent::CommandResolved { found: false }) {
        SupervisorAction::Report { event: BackendEvent::Missing { note }, wait_secs } => {
            assert_eq!(note, None);
            assert_eq!(wait_secs, 5);
        }
        _ => panic!("expected Missing"),
    }
    step(&mut s, SupervisorEvent::Done);

    step(&mut s, SupervisorEvent::ExitChecked { exiting: false });
    step(&mut s, SupervisorEvent::PortFound { port: 1 });
    step(&mut s, SupervisorEvent::CommandResolved { found: true });
    step(&mut s, SupervisorEvent::Announced { profile: None });
    match step(&mut s, SupervisorEvent::SpawnFailed { reason: "not found".to_string() }) {
        SupervisorAction::Report { event: BackendEvent::Missing { note }, wait_secs } => {
            assert_eq!(note.as_deref(), Some("not found"));
            assert_eq!(wait_secs, 5);
        }
        _ => panic!("expected Missing"),
    }
    assert_eq!(s.backoff_secs(), 1);
}

#[test]
fn crash_note_keeps_the_last_900_characters() {
    let (mut s, _) = Supervisor::start();
    boot(&mut s, 8080, None);
    step(&mut s, SupervisorEvent::Done);
    let log: String = "a".repeat(100) + &"é".repeat(900);
    let (note, _) = crash(&mut s, &log);
    assert_eq!(note, Some("é".repeat(900)));
}

#[test]
fn mismatched_observation_is_not_accepted() {
    let (s, _) = Supervisor::start();
    assert!(!s.accepts(&SupervisorEvent::Done));
    assert!(!s.accepts(&SupervisorEvent::Spawned));
    assert!(s.accepts(&SupervisorEvent::ExitChecked { exiting: false }));
}

fn page_event(a: &SupervisorAction) -> Option<&'static str> {
    match a {
        SupervisorAction::Announce => Some("booting"),
        SupervisorAction::Serve { .. } => Some("ready"),
        SupervisorAction::Report { event: BackendEvent::Crashed { .. }, .. } => Some("crashed"),
        SupervisorAction::Report { event: BackendEvent::Missing { note: Some(_) }, .. } => Some("missing"),
        SupervisorAction::Report { event: BackendEvent::Missing { note: None }, .. } => Some("missing-without-note"),
        _ => None,
    }
}

#[test]
fn page_hears_of_boots_in_order() {
    let (mut s, _) = Supervisor::start();
    let events = vec![
        SupervisorEvent::ExitChecked { exiting: false },
        SupervisorEvent::PortFailed { reason: "busy".to_string() },
        SupervisorEvent::Done,
        SupervisorEvent::ExitChecked { exiting: false },
        SupervisorEvent::PortFound { port: 7 },
        SupervisorEvent::CommandResolved { found: true },
        SupervisorEvent::Announced { profile: None },
        SupervisorEvent::SpawnFailed { reason: "no dsh".to_string() },
        SupervisorEvent::Done,
        SupervisorEvent::ExitChecked { exiting: false },
        SupervisorEvent::PortFound { port: 7 },
        SupervisorEvent::CommandResolved { found: true },
        SupervisorEvent::Announced { profile: None },
        SupervisorEvent::Spawned,
        SupervisorEvent::Probed { listening: true },
        SupervisorEvent::Done,
        SupervisorEvent::Watched { exiting: false, restart_requested: false, child_running: false },
        SupervisorEvent::Reaped { exiting: false, log: String::new() },
        SupervisorEvent::Done,
        SupervisorEvent::ExitChecked { exiting: true },
    ];
    let mut page = Vec::new();
    for e in events {
        let a = step(&mut s, e);
        if let Some(p) = page_event(&a) {
            page.push(p);
        }
    }
    assert_eq!(page, vec!["missing", "booting", "missing", "booting", "ready", "crashed"]);
}
