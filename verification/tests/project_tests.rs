use mutagui::mutagen::{Endpoint, SyncSession, SyncTime};
use mutagui::project::{
    build_sync_specs, carry_over_fold_state, correlate_projects_with_sessions,
    extract_target_name, should_auto_unfold_specs, should_exclude,
    project_conflict_count, project_is_active, sort_projects_by_display_name, IgnoreRules,
    Project, ProjectFile, SessionDefinition, SyncSpec, SyncSpecState,
};
use mutagui::selection::{SelectableItem, SelectionManager};

// ============ extract_target_name tests ============

#[test]
fn test_extract_target_name_standard() {
    let path = "/some/dir/mutagen-cool30.yml";
    assert_eq!(extract_target_name(path), Some("cool30".to_string()));
}

#[test]
fn test_extract_target_name_hidden() {
    let path = "/some/dir/.mutagen-server.yml";
    assert_eq!(extract_target_name(path), Some("server".to_string()));
}

#[test]
fn test_extract_target_name_plain_mutagen() {
    let path = "/some/dir/mutagen.yml";
    assert_eq!(extract_target_name(path), None);
}

#[test]
fn test_extract_target_name_hidden_plain() {
    let path = "/some/dir/.mutagen.yml";
    assert_eq!(extract_target_name(path), None);
}

#[test]
fn test_extract_target_name_not_yml() {
    let path = "/some/dir/mutagen-test.yaml";
    assert_eq!(extract_target_name(path), None);
}

// ============ ProjectFile tests ============

#[test]
fn test_project_file_display_name_with_target() {
    let project = ProjectFile {
        path: "/test/mutagen-cool30.yml".to_string(),
        target_name: Some("cool30".to_string()),
        sessions: Vec::new(),
        defaults_ignore: None,
    };
    assert_eq!(project.display_name(), "mutagen-cool30");
}

#[test]
fn test_project_file_display_name_without_target() {
    let project = ProjectFile {
        path: "/test/mutagen.yml".to_string(),
        target_name: None,
        sessions: Vec::new(),
        defaults_ignore: None,
    };
    assert_eq!(project.display_name(), "mutagen");
}

// ============ SessionDefinition tests ============

#[test]
fn test_session_definition_get_ignore_patterns_simple_list() {
    let session = SessionDefinition {
        alpha: "/local/path".to_string(),
        beta: "server:/remote/path".to_string(),
        mode: None,
        ignore: Some(IgnoreRules::Patterns(vec![
            "*.log".to_string(),
            ".git".to_string(),
        ])),
    };
    let patterns = session.get_ignore_patterns(None);
    assert_eq!(patterns, vec!["*.log", ".git"]);
}

#[test]
fn test_session_definition_get_ignore_patterns_object_format() {
    let session = SessionDefinition {
        alpha: "/local/path".to_string(),
        beta: "server:/remote/path".to_string(),
        mode: None,
        ignore: Some(IgnoreRules::Options {
            vcs: true,
            paths: vec!["node_modules".to_string(), "target".to_string()],
        }),
    };
    let patterns = session.get_ignore_patterns(None);

    // Should include VCS directories and custom paths
    assert!(patterns.contains(&".git".to_string()));
    assert!(patterns.contains(&".svn".to_string()));
    assert!(patterns.contains(&"node_modules".to_string()));
    assert!(patterns.contains(&"target".to_string()));
}

#[test]
fn test_session_definition_get_ignore_patterns_with_defaults() {
    let session = SessionDefinition {
        alpha: "/local/path".to_string(),
        beta: "server:/remote/path".to_string(),
        mode: None,
        ignore: Some(IgnoreRules::Patterns(vec!["session_specific".to_string()])),
    };

    let defaults = IgnoreRules::Patterns(vec!["from_defaults".to_string()]);

    let patterns = session.get_ignore_patterns(Some(&defaults));

    // Should include both default and session-specific patterns
    assert!(patterns.contains(&"from_defaults".to_string()));
    assert!(patterns.contains(&"session_specific".to_string()));
}

// A pattern both blocks name is added only once.
#[test]
fn test_get_ignore_patterns_deduplicates() {
    let session = SessionDefinition {
        alpha: "/a".to_string(),
        beta: "b:/c".to_string(),
        mode: None,
        ignore: Some(IgnoreRules::Patterns(vec![
            "shared".to_string(),
            "own".to_string(),
        ])),
    };
    let defaults = IgnoreRules::Patterns(vec!["shared".to_string()]);
    let patterns = session.get_ignore_patterns(Some(&defaults));
    assert_eq!(patterns, vec!["shared", "own"]);
}

// ============ correlate_projects_with_sessions tests ============

fn make_test_session(name: &str, alpha_path: &str, beta_path: &str) -> SyncSession {
    SyncSession {
        name: name.to_string(),
        identifier: format!("id-{}", name),
        alpha: Endpoint {
            protocol: "local".to_string(),
            path: alpha_path.to_string(),
            host: None,
            connected: true,
            scanned: true,
            directories: None,
            files: None,
            symbolic_links: None,
            total_file_size: None,
        },
        beta: Endpoint {
            protocol: "ssh".to_string(),
            path: beta_path.to_string(),
            host: Some("server".to_string()),
            connected: true,
            scanned: true,
            directories: None,
            files: None,
            symbolic_links: None,
            total_file_size: None,
        },
        status: "Watching for changes".to_string(),
        paused: false,
        mode: None,
        creation_time: None,
        successful_cycles: None,
        conflicts: vec![],
        sync_time: SyncTime::Unknown,
    }
}

fn make_definition() -> SessionDefinition {
    SessionDefinition {
        alpha: "/local/path".to_string(),
        beta: "server:/remote/path".to_string(),
        mode: None,
        ignore: None,
    }
}

#[test]
fn test_correlate_by_session_name() {
    let project_file = ProjectFile {
        path: "/test/mutagen.yml".to_string(),
        target_name: None,
        sessions: vec![("my-session".to_string(), make_definition())],
        defaults_ignore: None,
    };

    let running_session = make_test_session("my-session", "/different/local", "/different/remote");

    let projects = correlate_projects_with_sessions(vec![project_file], &[running_session]);

    assert_eq!(projects.len(), 1);
    assert_eq!(projects[0].specs.len(), 1);
    assert_eq!(projects[0].specs[0].name, "my-session");
    assert!(projects[0].specs[0].is_running());
    assert_eq!(projects[0].specs[0].state, SyncSpecState::RunningTwoWay);
}

#[test]
fn test_correlate_by_push_session_name() {
    let project_file = ProjectFile {
        path: "/test/mutagen.yml".to_string(),
        target_name: None,
        sessions: vec![("my-session".to_string(), make_definition())],
        defaults_ignore: None,
    };

    // Push sessions have "-push" suffix and mode "one-way-replica"
    let mut running_session =
        make_test_session("my-session-push", "/different/local", "/different/remote");
    running_session.mode = Some("one-way-replica".to_string());

    let projects = correlate_projects_with_sessions(vec![project_file], &[running_session]);

    assert_eq!(projects.len(), 1);
    assert_eq!(projects[0].specs.len(), 1);
    assert_eq!(projects[0].specs[0].name, "my-session");
    assert!(projects[0].specs[0].is_running());
    assert_eq!(projects[0].specs[0].state, SyncSpecState::RunningPush);
}

#[test]
fn test_correlate_no_match() {
    let project_file = ProjectFile {
        path: "/test/mutagen.yml".to_string(),
        target_name: None,
        sessions: vec![("project-session".to_string(), make_definition())],
        defaults_ignore: None,
    };

    // Different session name and paths
    let running_session = make_test_session("unrelated-session", "/other/local", "/other/remote");

    let projects = correlate_projects_with_sessions(vec![project_file], &[running_session]);

    assert_eq!(projects.len(), 1);
    assert_eq!(projects[0].specs.len(), 1);
    assert_eq!(projects[0].specs[0].name, "project-session");
    assert!(!projects[0].specs[0].is_running());
    assert_eq!(projects[0].specs[0].state, SyncSpecState::NotRunning);
}

#[test]
fn test_correlate_sorts_sessions_alphabetically() {
    let project_file = ProjectFile {
        path: "/test/mutagen.yml".to_string(),
        target_name: None,
        sessions: vec![
            ("zebra".to_string(), make_definition()),
            ("alpha".to_string(), make_definition()),
        ],
        defaults_ignore: None,
    };

    let sessions = vec![
        make_test_session("zebra", "/local", "/remote"),
        make_test_session("alpha", "/local", "/remote"),
    ];

    let projects = correlate_projects_with_sessions(vec![project_file], &sessions);

    assert_eq!(projects[0].specs.len(), 2);
    assert_eq!(projects[0].specs[0].name, "alpha");
    assert_eq!(projects[0].specs[1].name, "zebra");
}

// A two-way session under the exact name wins over a coexisting push
// session: two-way precedence.
#[test]
fn test_two_way_precedence_over_push() {
    let project_file = ProjectFile {
        path: "/test/mutagen.yml".to_string(),
        target_name: None,
        sessions: vec![("web".to_string(), make_definition())],
        defaults_ignore: None,
    };

    let two_way = make_test_session("web", "/local", "/remote");
    let mut push = make_test_session("web-push", "/local", "/remote");
    push.mode = Some("one-way-replica".to_string());

    let specs = build_sync_specs(&project_file, &[push, two_way]);
    assert_eq!(specs.len(), 1);
    assert_eq!(specs[0].state, SyncSpecState::RunningTwoWay);
    assert_eq!(specs[0].running_session.as_ref().unwrap().name, "web");
}

// A one-way session under the exact name does not match as two-way.
#[test]
fn test_one_way_session_under_exact_name_ignored() {
    let project_file = ProjectFile {
        path: "/test/mutagen.yml".to_string(),
        target_name: None,
        sessions: vec![("web".to_string(), make_definition())],
        defaults_ignore: None,
    };

    let mut one_way = make_test_session("web", "/local", "/remote");
    one_way.mode = Some("one-way-replica".to_string());

    let specs = build_sync_specs(&project_file, &[one_way]);
    assert_eq!(specs[0].state, SyncSpecState::NotRunning);
    assert!(specs[0].running_session.is_none());
}

// ============ Project tests ============

#[test]
fn test_project_is_active() {
    let session = make_test_session("test", "/local", "/remote");
    let spec = SyncSpec {
        name: "test".to_string(),
        state: SyncSpecState::RunningTwoWay,
        running_session: Some(session),
    };

    let project = Project {
        file: ProjectFile {
            path: "/test/mutagen.yml".to_string(),
            target_name: None,
            sessions: Vec::new(),
            defaults_ignore: None,
        },
        specs: vec![spec],
        folded: false,
    };
    assert!(project.specs.iter().any(|s| s.is_running()));
}

#[test]
fn test_project_is_inactive() {
    let spec = SyncSpec {
        name: "test".to_string(),
        state: SyncSpecState::NotRunning,
        running_session: None,
    };

    let project = Project {
        file: ProjectFile {
            path: "/test/mutagen.yml".to_string(),
            target_name: None,
            sessions: Vec::new(),
            defaults_ignore: None,
        },
        specs: vec![spec],
        folded: false,
    };
    assert!(!project.specs.iter().any(|s| s.is_running()));
}

// ============ auto-unfold tests ============

fn quiet_spec(name: &str) -> SyncSpec {
    SyncSpec {
        name: name.to_string(),
        state: SyncSpecState::NotRunning,
        running_session: None,
    }
}

fn running_spec(name: &str) -> SyncSpec {
    SyncSpec {
        name: name.to_string(),
        state: SyncSpecState::RunningTwoWay,
        running_session: Some(make_test_session(name, "/local", "/remote")),
    }
}

fn push_spec(name: &str) -> SyncSpec {
    let mut session = make_test_session(&format!("{}-push", name), "/local", "/remote");
    session.mode = Some("one-way-replica".to_string());
    SyncSpec {
        name: name.to_string(),
        state: SyncSpecState::RunningPush,
        running_session: Some(session),
    }
}

// One spec in conflict forces the unfold recommendation even if every
// other spec is quiescent and matched.
#[test]
fn test_auto_unfold_on_single_conflict() {
    let mut conflicted = running_spec("a");
    conflicted
        .running_session
        .as_mut()
        .unwrap()
        .conflicts
        .push(mutagui::mutagen::Conflict {
            root: "file.txt".to_string(),
            alpha_changes: Vec::new(),
            beta_changes: Vec::new(),
        });
    let specs = vec![conflicted, running_spec("b"), running_spec("c")];
    assert!(should_auto_unfold_specs(&specs));
}

// Three uniformly running two-way specs with no conflicts stay folded.
#[test]
fn test_auto_unfold_folded_when_uniform() {
    let specs = vec![running_spec("a"), running_spec("b"), running_spec("c")];
    assert!(!should_auto_unfold_specs(&specs));
}

// Mixed two-way and push sessions unfold.
#[test]
fn test_auto_unfold_on_mixed_modes() {
    let specs = vec![running_spec("a"), push_spec("b")];
    assert!(should_auto_unfold_specs(&specs));
}

// Some specs running and some not unfold.
#[test]
fn test_auto_unfold_on_mixed_running() {
    let specs = vec![running_spec("a"), quiet_spec("b")];
    assert!(should_auto_unfold_specs(&specs));
}

// All quiescent stays folded.
#[test]
fn test_auto_unfold_folded_when_all_idle() {
    let specs = vec![quiet_spec("a"), quiet_spec("b")];
    assert!(!should_auto_unfold_specs(&specs));
}

// ============ fold-state carryover tests ============

// A prior fold flag for the same file path wins over the fresh
// recommendation.
#[test]
fn test_fold_state_carryover_prefers_prior() {
    let prior = vec![Project {
        file: ProjectFile {
            path: "/a/mutagen.yml".to_string(),
            target_name: None,
            sessions: Vec::new(),
            defaults_ignore: None,
        },
        specs: Vec::new(),
        folded: true,
    }];

    // The fresh reconciliation recommends unfolded (mixed running states).
    let fresh = vec![Project {
        file: ProjectFile {
            path: "/a/mutagen.yml".to_string(),
            target_name: None,
            sessions: Vec::new(),
            defaults_ignore: None,
        },
        specs: vec![running_spec("a"), quiet_spec("b")],
        folded: false,
    }];

    let merged = carry_over_fold_state(&prior, fresh);
    assert!(merged[0].folded);
}

// A renamed file is a new project: the auto-computed default stands.
#[test]
fn test_fold_state_carryover_new_path_keeps_default() {
    let prior = vec![Project {
        file: ProjectFile {
            path: "/a/mutagen.yml".to_string(),
            target_name: None,
            sessions: Vec::new(),
            defaults_ignore: None,
        },
        specs: Vec::new(),
        folded: true,
    }];

    let fresh = vec![Project {
        file: ProjectFile {
            path: "/b/mutagen.yml".to_string(),
            target_name: None,
            sessions: Vec::new(),
            defaults_ignore: None,
        },
        specs: Vec::new(),
        folded: false,
    }];

    let merged = carry_over_fold_state(&prior, fresh);
    assert!(!merged[0].folded);
}

// ============ project sorting ============

#[test]
fn test_sort_projects_by_display_name() {
    let make = |target: &str| Project {
        file: ProjectFile {
            path: format!("/x/mutagen-{}.yml", target),
            target_name: Some(target.to_string()),
            sessions: Vec::new(),
            defaults_ignore: None,
        },
        specs: Vec::new(),
        folded: true,
    };
    let sorted = sort_projects_by_display_name(vec![make("zeta"), make("alpha"), make("mid")]);
    let names: Vec<String> = sorted.iter().map(|p| p.file.display_name()).collect();
    assert_eq!(names, vec!["mutagen-alpha", "mutagen-mid", "mutagen-zeta"]);
}

// ============ should_exclude tests ============

#[test]
fn test_should_exclude_by_component() {
    let patterns = vec!["node_modules".to_string()];
    assert!(should_exclude("/code/node_modules/mutagen.yml", &patterns));
    assert!(!should_exclude("/code/app/mutagen.yml", &patterns));
}

#[test]
fn test_should_exclude_wildcard_pattern() {
    let patterns = vec!["backup*".to_string()];
    assert!(should_exclude("/code/backup-2024/mutagen.yml", &patterns));
    assert!(!should_exclude("/code/current/mutagen.yml", &patterns));
}

#[test]
fn test_should_exclude_empty_patterns() {
    let patterns: Vec<String> = Vec::new();
    assert!(!should_exclude("/code/anything/mutagen.yml", &patterns));
}

// ============ end-to-end example ============

// Project "api" with specs {web: NotRunning, db: RunningTwoWay,
// cache: RunningTwoWay}: mixed running state recommends unfolding, the rows
// list the specs alphabetically, and four steps of select_next wrap back
// to the header row.
#[test]
fn test_end_to_end_api_project() {
    let project_file = ProjectFile {
        path: "/api/mutagen.yml".to_string(),
        target_name: None,
        sessions: vec![
            ("web".to_string(), make_definition()),
            ("db".to_string(), make_definition()),
            ("cache".to_string(), make_definition()),
        ],
        defaults_ignore: None,
    };

    let sessions = vec![
        make_test_session("db", "/local/db", "/remote/db"),
        make_test_session("cache", "/local/cache", "/remote/cache"),
    ];

    let projects = correlate_projects_with_sessions(vec![project_file], &sessions);
    assert_eq!(projects.len(), 1);
    let api = &projects[0];
    assert_eq!(api.specs.len(), 3);
    // Alphabetical spec order
    assert_eq!(api.specs[0].name, "cache");
    assert_eq!(api.specs[1].name, "db");
    assert_eq!(api.specs[2].name, "web");
    assert_eq!(api.specs[0].state, SyncSpecState::RunningTwoWay);
    assert_eq!(api.specs[1].state, SyncSpecState::RunningTwoWay);
    assert_eq!(api.specs[2].state, SyncSpecState::NotRunning);
    // Mixed running state: auto-unfold recommended, so the project starts
    // unfolded.
    assert!(!api.folded);

    let mut sel = SelectionManager::new();
    sel.rebuild_from_projects(&projects);
    assert_eq!(sel.total_items(), 4);
    assert_eq!(sel.items()[0], SelectableItem::Project { index: 0 });
    assert_eq!(
        sel.items()[1],
        SelectableItem::Spec {
            project_index: 0,
            spec_index: 0
        }
    );
    assert_eq!(
        sel.items()[2],
        SelectableItem::Spec {
            project_index: 0,
            spec_index: 1
        }
    );
    assert_eq!(
        sel.items()[3],
        SelectableItem::Spec {
            project_index: 0,
            spec_index: 2
        }
    );
    assert_eq!(sel.raw_index(), 0);
    sel.select_next();
    sel.select_next();
    sel.select_next();
    sel.select_next();
    assert_eq!(sel.raw_index(), 0);
}

// ============ conflict aggregation ============

#[test]
fn test_project_conflict_count() {
    let mut conflicted = running_spec("a");
    let session = conflicted.running_session.as_mut().unwrap();
    session.conflicts.push(mutagui::mutagen::Conflict {
        root: "x".to_string(),
        alpha_changes: Vec::new(),
        beta_changes: Vec::new(),
    });
    session.conflicts.push(mutagui::mutagen::Conflict {
        root: "y".to_string(),
        alpha_changes: Vec::new(),
        beta_changes: Vec::new(),
    });
    let project = Project {
        file: ProjectFile {
            path: "/p/mutagen.yml".to_string(),
            target_name: None,
            sessions: Vec::new(),
            defaults_ignore: None,
        },
        specs: vec![conflicted, quiet_spec("b"), running_spec("c")],
        folded: false,
    };
    assert_eq!(project_conflict_count(&project), 2);
    assert!(project_is_active(&project));

    let idle = Project {
        file: ProjectFile {
            path: "/q/mutagen.yml".to_string(),
            target_name: None,
            sessions: Vec::new(),
            defaults_ignore: None,
        },
        specs: vec![quiet_spec("a")],
        folded: false,
    };
    assert_eq!(project_conflict_count(&idle), 0);
    assert!(!project_is_active(&idle));
}
