use taskboard::store::Store;
use taskboard::workflow::{decide_event, Dialog, DialogEvent, Workflow};

#[test]
fn new_project_dialog_commits_trimmed_name() {
    let mut store = Store::new();
    let mut w = Workflow::new();
    w.open_new_project();
    assert!(w.dialog == Dialog::NewProject);
    assert!(w.buffer.is_empty());
    w.set_buffer("  Alpha  ".to_string());
    w.confirm(&mut store);
    assert!(w.dialog == Dialog::Idle);
    assert!(w.buffer.is_empty());
    assert_eq!(store.projects.len(), 1);
    assert_eq!(store.projects[0].name, "Alpha");
}

#[test]
fn blank_confirm_closes_dialog_without_mutation() {
    let mut store = Store::new();
    store.create_project("Existing");
    let mut w = Workflow::new();
    w.open_new_project();
    w.set_buffer("   ".to_string());
    w.confirm(&mut store);
    assert!(w.dialog == Dialog::Idle);
    assert!(w.buffer.is_empty());
    assert_eq!(store.projects.len(), 1);
    assert_eq!(store.projects[0].name, "Existing");
}

#[test]
fn blank_confirm_of_task_dialogs_is_noop() {
    let mut store = Store::new();
    store.create_project("Home");
    store.create_task(0, "Task");
    store.select_project(Some(0));
    let mut w = Workflow::new();
    w.open_new_task(&store);
    w.set_buffer("\t".to_string());
    w.confirm(&mut store);
    assert!(w.dialog == Dialog::Idle);
    assert_eq!(store.projects[0].tasks.len(), 1);
    let mut w = Workflow::new();
    w.open_edit_task(&store, 0);
    w.set_buffer(" ".to_string());
    w.confirm(&mut store);
    assert!(w.dialog == Dialog::Idle);
    assert_eq!(store.projects[0].tasks[0].name, "Task");
}

#[test]
fn edit_project_dialog_prefills_and_renames() {
    let mut store = Store::new();
    store.create_project("Old name");
    let mut w = Workflow::new();
    w.open_edit_project(&store, 0);
    assert!(w.dialog == Dialog::EditProject(0));
    assert_eq!(w.buffer, "Old name");
    w.set_buffer(" New name ".to_string());
    w.confirm(&mut store);
    assert_eq!(store.projects[0].name, "New name");
    assert!(w.dialog == Dialog::Idle);
}

#[test]
fn new_task_dialog_adds_to_selected_project() {
    let mut store = Store::new();
    store.create_project("A");
    store.create_project("B");
    store.select_project(Some(1));
    let mut w = Workflow::new();
    w.open_new_task(&store);
    w.set_buffer("Task for B".to_string());
    w.confirm(&mut store);
    assert_eq!(store.projects[0].tasks.len(), 0);
    assert_eq!(store.projects[1].tasks.len(), 1);
    assert_eq!(store.projects[1].tasks[0].name, "Task for B");
    assert!(!store.projects[1].tasks[0].done);
}

#[test]
fn edit_task_dialog_prefills_and_renames() {
    let mut store = Store::new();
    store.create_project("Home");
    store.create_task(0, "Old task");
    store.select_project(Some(0));
    let mut w = Workflow::new();
    w.open_edit_task(&store, 0);
    assert!(w.dialog == Dialog::EditTask(0));
    assert_eq!(w.buffer, "Old task");
    w.set_buffer("Renamed".to_string());
    w.confirm(&mut store);
    assert_eq!(store.projects[0].tasks[0].name, "Renamed");
}

#[test]
fn cancel_discards_buffer_without_mutation() {
    let mut store = Store::new();
    let mut w = Workflow::new();
    w.open_new_project();
    w.set_buffer("Never created".to_string());
    w.cancel();
    assert!(w.dialog == Dialog::Idle);
    assert!(w.buffer.is_empty());
    assert_eq!(store.projects.len(), 0);
    store.create_project("check the store still works");
    assert_eq!(store.projects.len(), 1);
}

#[test]
fn commit_key_is_ignored_without_field_focus() {
    assert!(decide_event(false, true, false, false, false).is_none());
    assert!(decide_event(true, true, false, false, false) == Some(DialogEvent::Confirm));
}

#[test]
fn confirm_click_works_without_focus() {
    assert!(decide_event(false, false, false, true, false) == Some(DialogEvent::Confirm));
}

#[test]
fn dismiss_key_or_cancel_click_cancels() {
    assert!(decide_event(true, false, true, false, false) == Some(DialogEvent::Cancel));
    assert!(decide_event(false, false, false, false, true) == Some(DialogEvent::Cancel));
}

#[test]
fn only_one_event_fires_per_tick() {
    // A confirm and a cancel in the same tick yield the confirm alone.
    assert!(decide_event(true, true, true, false, true) == Some(DialogEvent::Confirm));
    assert!(decide_event(false, false, false, false, false).is_none());
}
