use mutagui::project::{Project, ProjectFile, SessionDefinition, SyncSpec, SyncSpecState};
use mutagui::selection::{toggle_project_fold, SelectableItem, SelectionManager};

fn make_test_project(name: &str, spec_count: usize, folded: bool) -> Project {
    let mut sessions = Vec::new();
    let mut specs = Vec::new();

    for i in 0..spec_count {
        let spec_name = format!("spec-{}", i);
        sessions.push((
            spec_name.clone(),
            SessionDefinition {
                alpha: "/local".to_string(),
                beta: "server:/remote".to_string(),
                mode: None,
                ignore: None,
            },
        ));
        specs.push(SyncSpec {
            name: spec_name,
            state: SyncSpecState::NotRunning,
            running_session: None,
        });
    }

    Project {
        file: ProjectFile {
            path: format!("/test/{}.yml", name),
            target_name: None,
            sessions,
            defaults_ignore: None,
        },
        specs,
        folded,
    }
}

#[test]
fn test_new_selection_manager() {
    let sel = SelectionManager::new();
    assert_eq!(sel.raw_index(), 0);
    assert_eq!(sel.selected_item(), None);
}

#[test]
fn test_rebuild_from_projects_folded() {
    let mut sel = SelectionManager::new();
    let projects = vec![
        make_test_project("p1", 2, true), // Folded
        make_test_project("p2", 3, true), // Folded
    ];

    sel.rebuild_from_projects(&projects);

    // Only project headers should be in items
    assert_eq!(sel.total_items(), 2);
    assert_eq!(
        sel.selected_item(),
        Some(&SelectableItem::Project { index: 0 })
    );
}

#[test]
fn test_rebuild_from_projects_unfolded() {
    let mut sel = SelectionManager::new();
    let projects = vec![
        make_test_project("p1", 2, false), // Unfolded with 2 specs
        make_test_project("p2", 1, true),  // Folded with 1 spec
    ];

    sel.rebuild_from_projects(&projects);

    // p1 header + 2 specs + p2 header = 4 items
    assert_eq!(sel.total_items(), 4);

    // Items should be: Project(0), Spec(0,0), Spec(0,1), Project(1)
    assert_eq!(sel.items()[0], SelectableItem::Project { index: 0 });
    assert_eq!(
        sel.items()[1],
        SelectableItem::Spec {
            project_index: 0,
            spec_index: 0
        }
    );
    assert_eq!(
        sel.items()[2],
        SelectableItem::Spec {
            project_index: 0,
            spec_index: 1
        }
    );
    assert_eq!(sel.items()[3], SelectableItem::Project { index: 1 });
}

#[test]
fn test_select_next_wraps() {
    let mut sel = SelectionManager::new();
    let projects = vec![
        make_test_project("p1", 2, false), // 3 items total
    ];

    sel.rebuild_from_projects(&projects);

    // Start at 0
    assert_eq!(sel.raw_index(), 0);

    sel.select_next();
    assert_eq!(sel.raw_index(), 1);

    sel.select_next();
    assert_eq!(sel.raw_index(), 2);

    // Should wrap to 0
    sel.select_next();
    assert_eq!(sel.raw_index(), 0);
}

#[test]
fn test_select_previous_wraps() {
    let mut sel = SelectionManager::new();
    let projects = vec![make_test_project("p1", 2, false)];

    sel.rebuild_from_projects(&projects);

    // Start at 0, go backwards
    sel.select_previous();
    assert_eq!(sel.raw_index(), 2); // Wrapped to last item
}

#[test]
fn test_selected_project_index() {
    let mut sel = SelectionManager::new();
    let projects = vec![
        make_test_project("p1", 2, false),
        make_test_project("p2", 1, false),
    ];

    sel.rebuild_from_projects(&projects);

    // At project 0 header
    assert_eq!(sel.selected_project_index(), Some(0));

    sel.select_next(); // At spec 0,0
    assert_eq!(sel.selected_project_index(), Some(0)); // Still project 0

    sel.select_next(); // At spec 0,1
    assert_eq!(sel.selected_project_index(), Some(0)); // Still project 0

    sel.select_next(); // At project 1 header
    assert_eq!(sel.selected_project_index(), Some(1));
}

#[test]
fn test_selected_spec() {
    let mut sel = SelectionManager::new();
    let projects = vec![make_test_project("p1", 2, false)];

    sel.rebuild_from_projects(&projects);

    // At project header
    assert_eq!(sel.selected_spec(), None);

    sel.select_next(); // At spec 0,0
    assert_eq!(sel.selected_spec(), Some((0, 0)));

    sel.select_next(); // At spec 0,1
    assert_eq!(sel.selected_spec(), Some((0, 1)));
}

#[test]
fn test_is_project_selected() {
    let mut sel = SelectionManager::new();
    let projects = vec![make_test_project("p1", 1, false)];

    sel.rebuild_from_projects(&projects);

    assert!(sel.is_project_selected());
    assert!(!sel.is_spec_selected());

    sel.select_next();
    assert!(!sel.is_project_selected());
    assert!(sel.is_spec_selected());
}

#[test]
fn test_clamp_on_shrink() {
    let mut sel = SelectionManager::new();
    let projects = vec![make_test_project("p1", 5, false)];

    sel.rebuild_from_projects(&projects);
    sel.set_index(5); // Valid in 6-item list

    // Rebuild with fewer specs
    let projects = vec![make_test_project("p1", 2, false)];
    sel.rebuild_from_projects(&projects);

    assert_eq!(sel.raw_index(), 2); // Clamped to max
}

#[test]
fn test_empty_list_navigation() {
    let mut sel = SelectionManager::new();
    sel.rebuild_from_projects(&[]);

    // Navigation should not panic with empty lists
    sel.select_next();
    sel.select_previous();

    assert_eq!(sel.raw_index(), 0);
    assert_eq!(sel.selected_item(), None);
}

#[test]
fn test_rebuild_preserves_selection_where_possible() {
    let mut sel = SelectionManager::new();
    let projects = vec![make_test_project("p1", 3, false)];

    sel.rebuild_from_projects(&projects);
    sel.set_index(2); // Select spec 0,1

    // Rebuild with same structure
    sel.rebuild_from_projects(&projects);

    // Selection should still be at index 2
    assert_eq!(sel.raw_index(), 2);
    assert_eq!(sel.selected_spec(), Some((0, 1)));
}

// Folding a project above the cursor removes exactly its spec rows, and
// the cursor stays inside the new list.
#[test]
fn test_toggle_fold_removes_spec_rows() {
    let mut projects = vec![
        make_test_project("p1", 3, false),
        make_test_project("p2", 1, false),
    ];
    let mut sel = SelectionManager::new();
    sel.rebuild_from_projects(&projects);
    assert_eq!(sel.total_items(), 6);
    sel.set_index(5); // Last row

    toggle_project_fold(&mut projects, 0, &mut sel);
    assert!(projects[0].folded);
    // Folding p1 removes its 3 spec rows
    assert_eq!(sel.total_items(), 3);
    // Clamped cursor never exceeds len - 1
    assert_eq!(sel.raw_index(), 2);

    // Toggling back restores the rows
    toggle_project_fold(&mut projects, 0, &mut sel);
    assert!(!projects[0].folded);
    assert_eq!(sel.total_items(), 6);
}

// An out-of-range project index changes nothing.
#[test]
fn test_toggle_fold_out_of_range() {
    let mut projects = vec![make_test_project("p1", 2, false)];
    let mut sel = SelectionManager::new();
    sel.rebuild_from_projects(&projects);

    toggle_project_fold(&mut projects, 7, &mut sel);
    assert!(!projects[0].folded);
    assert_eq!(sel.total_items(), 3);
}
