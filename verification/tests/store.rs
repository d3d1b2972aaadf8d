use taskboard::store::Store;

#[test]
fn create_project_trims_name_and_appends() {
    let mut store = Store::new();
    store.create_project("  Alpha  ");
    assert_eq!(store.projects.len(), 1);
    assert_eq!(store.projects[0].name, "Alpha");
    assert_eq!(store.projects[0].tasks.len(), 0);
    assert!(store.selected.is_none());
}

#[test]
fn create_project_blank_name_is_noop() {
    let mut store = Store::new();
    store.create_project("   ");
    store.create_project("");
    store.create_project("\t\n");
    assert_eq!(store.projects.len(), 0);
}

#[test]
fn rename_project_blank_name_is_noop() {
    let mut store = Store::new();
    store.create_project("Alpha");
    store.rename_project(0, "   ");
    assert_eq!(store.projects[0].name, "Alpha");
    store.rename_project(0, " Beta ");
    assert_eq!(store.projects[0].name, "Beta");
}

#[test]
fn duplicate_names_are_permitted() {
    let mut store = Store::new();
    store.create_project("Same");
    store.create_project("Same");
    assert_eq!(store.projects.len(), 2);
    assert_eq!(store.projects[0].name, "Same");
    assert_eq!(store.projects[1].name, "Same");
}

#[test]
fn selection_stays_valid_through_creates_and_deletes() {
    let mut store = Store::new();
    let valid = |s: &Store| match s.selected {
        Some(i) => i < s.projects.len(),
        None => true,
    };
    store.create_project("A");
    assert!(valid(&store));
    store.create_project("B");
    assert!(valid(&store));
    store.select_project(Some(1));
    assert!(valid(&store));
    store.delete_project(0);
    assert!(valid(&store));
    store.delete_project(0);
    assert!(valid(&store));
    store.create_project("C");
    assert!(valid(&store));
    store.select_project(Some(0));
    store.delete_project(0);
    assert!(valid(&store));
    assert!(store.selected.is_none());
}

#[test]
fn delete_shifts_selection_of_later_sibling() {
    // projects [A, B, C], B selected; deleting A leaves [B, C] with the
    // selection following B to index 0.
    let mut store = Store::new();
    store.create_project("A");
    store.create_project("B");
    store.create_project("C");
    store.select_project(Some(1));
    store.delete_project(0);
    assert_eq!(store.projects.len(), 2);
    assert_eq!(store.projects[0].name, "B");
    assert_eq!(store.projects[1].name, "C");
    assert_eq!(store.selected, Some(0));
}

#[test]
fn delete_of_selected_project_moves_selection_to_previous() {
    // projects [A, B, C], C selected; deleting C leaves [A, B] with the
    // selection at B, not cleared: the adjustment rule does not special-case
    // deleting the selected entry.
    let mut store = Store::new();
    store.create_project("A");
    store.create_project("B");
    store.create_project("C");
    store.select_project(Some(2));
    store.delete_project(2);
    assert_eq!(store.projects.len(), 2);
    assert_eq!(store.projects[0].name, "A");
    assert_eq!(store.projects[1].name, "B");
    assert_eq!(store.selected, Some(1));
}

#[test]
fn delete_with_front_selection_clears_it() {
    let mut store = Store::new();
    store.create_project("A");
    store.create_project("B");
    store.select_project(Some(0));
    store.delete_project(1);
    assert_eq!(store.selected, None);
}

#[test]
fn task_crud_cycle() {
    let mut store = Store::new();
    store.create_project("Home");
    store.create_task(0, "  Buy milk  ");
    assert_eq!(store.projects[0].tasks.len(), 1);
    assert_eq!(store.projects[0].tasks[0].name, "Buy milk");
    assert!(!store.projects[0].tasks[0].done);
    store.toggle_task_done(0, 0);
    assert!(store.projects[0].tasks[0].done);
    store.toggle_task_done(0, 0);
    assert!(!store.projects[0].tasks[0].done);
    store.create_task(0, "Walk dog");
    store.delete_task(0, 0);
    assert_eq!(store.projects[0].tasks.len(), 1);
    assert_eq!(store.projects[0].tasks[0].name, "Walk dog");
}

#[test]
fn create_task_blank_name_is_noop() {
    let mut store = Store::new();
    store.create_project("Home");
    store.create_task(0, " \t ");
    assert_eq!(store.projects[0].tasks.len(), 0);
}

#[test]
fn rename_task_trims_and_keeps_done_flag() {
    let mut store = Store::new();
    store.create_project("Home");
    store.create_task(0, "Old");
    store.toggle_task_done(0, 0);
    store.rename_task(0, 0, "  New  ");
    assert_eq!(store.projects[0].tasks[0].name, "New");
    assert!(store.projects[0].tasks[0].done);
    store.rename_task(0, 0, "  ");
    assert_eq!(store.projects[0].tasks[0].name, "New");
}
