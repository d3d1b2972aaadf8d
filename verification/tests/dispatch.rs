use taskboard::dispatch::{dispatch, Intents};
use taskboard::store::Store;
use taskboard::workflow::{Dialog, Workflow};

fn no_intents() -> Intents {
    Intents { delete_selected: false, new_project: false, new_task: false, rename_selected: false }
}

#[test]
fn delete_intent_removes_selected_project() {
    let mut store = Store::new();
    store.create_project("A");
    store.create_project("B");
    store.select_project(Some(1));
    let mut w = Workflow::new();
    let intents = Intents { delete_selected: true, ..no_intents() };
    dispatch(&mut store, &mut w, intents);
    assert_eq!(store.projects.len(), 1);
    assert_eq!(store.projects[0].name, "A");
    assert_eq!(store.selected, Some(0));
    assert!(w.dialog == Dialog::Idle);
}

#[test]
fn delete_intent_without_selection_is_ignored() {
    let mut store = Store::new();
    store.create_project("A");
    let mut w = Workflow::new();
    let intents = Intents { delete_selected: true, ..no_intents() };
    dispatch(&mut store, &mut w, intents);
    assert_eq!(store.projects.len(), 1);
}

#[test]
fn new_project_intent_opens_dialog() {
    let mut store = Store::new();
    let mut w = Workflow::new();
    let intents = Intents { new_project: true, ..no_intents() };
    dispatch(&mut store, &mut w, intents);
    assert!(w.dialog == Dialog::NewProject);
    assert!(w.buffer.is_empty());
}

#[test]
fn new_task_intent_needs_a_selection() {
    let mut store = Store::new();
    store.create_project("A");
    let mut w = Workflow::new();
    let intents = Intents { new_task: true, ..no_intents() };
    dispatch(&mut store, &mut w, intents);
    assert!(w.dialog == Dialog::Idle);
    store.select_project(Some(0));
    dispatch(&mut store, &mut w, intents);
    assert!(w.dialog == Dialog::NewTask);
}

#[test]
fn rename_intent_opens_prefilled_dialog_for_selection() {
    let mut store = Store::new();
    store.create_project("First");
    store.create_project("Second");
    store.select_project(Some(1));
    let mut w = Workflow::new();
    let intents = Intents { rename_selected: true, ..no_intents() };
    dispatch(&mut store, &mut w, intents);
    assert!(w.dialog == Dialog::EditProject(1));
    assert_eq!(w.buffer, "Second");
}

#[test]
fn delete_and_rename_in_one_tick_use_post_delete_selection() {
    let mut store = Store::new();
    store.create_project("A");
    store.create_project("B");
    store.select_project(Some(1));
    let mut w = Workflow::new();
    let intents = Intents { delete_selected: true, rename_selected: true, ..no_intents() };
    dispatch(&mut store, &mut w, intents);
    assert_eq!(store.projects.len(), 1);
    assert_eq!(store.selected, Some(0));
    assert!(w.dialog == Dialog::EditProject(0));
    assert_eq!(w.buffer, "A");
}
