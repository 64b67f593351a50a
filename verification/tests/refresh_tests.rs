use mutagui::mutagen::{Endpoint, SyncSession, SyncTime};
use mutagui::project::{attached_sessions, update_sync_times, Project, ProjectFile, SyncSpec, SyncSpecState};

fn make_session(name: &str, cycles: Option<u64>) -> SyncSession {
    SyncSession {
        name: name.to_string(),
        identifier: format!("id-{}", name),
        alpha: Endpoint {
            protocol: "local".to_string(),
            path: "/local".to_string(),
            host: None,
            connected: true,
            scanned: true,
            directories: None,
            files: None,
            symbolic_links: None,
            total_file_size: None,
        },
        beta: Endpoint {
            protocol: "ssh".to_string(),
            path: "/remote".to_string(),
            host: Some("server".to_string()),
            connected: true,
            scanned: true,
            directories: None,
            files: None,
            symbolic_links: None,
            total_file_size: None,
        },
        status: "Watching".to_string(),
        paused: false,
        mode: None,
        creation_time: None,
        successful_cycles: cycles,
        conflicts: Vec::new(),
        sync_time: SyncTime::Unknown,
    }
}

// On the first refresh every session's history is unknown.
#[test]
fn test_update_sync_times_first_refresh() {
    let fresh = vec![make_session("web", Some(5))];
    let old: Vec<SyncSession> = Vec::new();
    let updated = update_sync_times(fresh, &old, true, 1000);
    assert!(matches!(updated[0].sync_time, SyncTime::Unknown));
}

// A cycle-count increase marks a sync observed now.
#[test]
fn test_update_sync_times_cycle_increase() {
    let mut old_session = make_session("web", Some(5));
    old_session.sync_time = SyncTime::Never;
    let old = vec![old_session];
    let fresh = vec![make_session("web", Some(6))];
    let updated = update_sync_times(fresh, &old, false, 1000);
    assert!(matches!(updated[0].sync_time, SyncTime::At(1000)));
}

// An unchanged cycle count keeps the previous sync time.
#[test]
fn test_update_sync_times_cycle_unchanged() {
    let mut old_session = make_session("web", Some(5));
    old_session.sync_time = SyncTime::At(400);
    let old = vec![old_session];
    let fresh = vec![make_session("web", Some(5))];
    let updated = update_sync_times(fresh, &old, false, 1000);
    assert!(matches!(updated[0].sync_time, SyncTime::At(400)));
}

// A session first seen after the first refresh starts as synced or never,
// by its cycle count.
#[test]
fn test_update_sync_times_newly_discovered() {
    let old: Vec<SyncSession> = Vec::new();
    let fresh = vec![make_session("new-active", Some(2)), make_session("new-idle", None)];
    let updated = update_sync_times(fresh, &old, false, 1000);
    assert!(matches!(updated[0].sync_time, SyncTime::At(1000)));
    assert!(matches!(updated[1].sync_time, SyncTime::Never));
}

// Collecting attached sessions walks every project's specs in order.
#[test]
fn test_attached_sessions() {
    let project = Project {
        file: ProjectFile {
            path: "/p/mutagen.yml".to_string(),
            target_name: None,
            sessions: Vec::new(),
            defaults_ignore: None,
        },
        specs: vec![
            SyncSpec {
                name: "a".to_string(),
                state: SyncSpecState::RunningTwoWay,
                running_session: Some(make_session("a", Some(1))),
            },
            SyncSpec {
                name: "b".to_string(),
                state: SyncSpecState::NotRunning,
                running_session: None,
            },
            SyncSpec {
                name: "c".to_string(),
                state: SyncSpecState::RunningTwoWay,
                running_session: Some(make_session("c", Some(1))),
            },
        ],
        folded: false,
    };
    let collected = attached_sessions(&vec![project]);
    let names: Vec<String> = collected.iter().map(|s| s.name.clone()).collect();
    assert_eq!(names, vec!["a", "c"]);
}
