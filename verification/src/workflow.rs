//! The modal workflow: the state machine that governs the single active
//! create/rename dialog and its text buffer, and commits or discards the
//! buffer into the domain store.

use vstd::prelude::*;

use crate::store::Store;
use crate::text::trim_spec;

verus! {

/// Which dialog is active. At most one is active at a time; `Idle` means
/// none. The edit variants carry the positional index of their target.
#[derive(PartialEq, Eq, Structural, Clone, Copy)]
pub enum Dialog {
    Idle,
    NewProject,
    EditProject(usize),
    NewTask,
    EditTask(usize),
}

/// What a tick's dialog inputs amount to.
#[derive(PartialEq, Eq, Structural, Clone, Copy)]
pub enum DialogEvent {
    Confirm,
    Cancel,
}

/// The dialog state machine and its text-input buffer.
pub struct Workflow {
    pub dialog: Dialog,
    pub buffer: String,
}

/// Mathematical model of the workflow.
#[verifier::ext_equal]
pub struct WorkflowView {
    pub dialog: Dialog,
    pub buffer: Seq<char>,
}

impl View for Workflow {
    type V = WorkflowView;

    open spec fn view(&self) -> WorkflowView {
        WorkflowView { dialog: self.dialog, buffer: self.buffer@ }
    }
}

/// The dialog event a tick's raw inputs trigger: the commit key confirms
/// only while the text field holds focus, an explicit confirm action always
/// confirms, and otherwise a dismiss key or explicit cancel action cancels.
/// At most one event fires per tick.
pub open spec fn decide_event_spec(
    field_has_focus: bool,
    commit_key: bool,
    dismiss_key: bool,
    confirm_clicked: bool,
    cancel_clicked: bool,
) -> Option<DialogEvent> {
    if (commit_key && field_has_focus) || confirm_clicked {
        Some(DialogEvent::Confirm)
    } else if dismiss_key || cancel_clicked {
        Some(DialogEvent::Cancel)
    } else {
        None
    }
}

/// Decides which dialog event, if any, the tick's inputs trigger.
pub fn decide_event(
    field_has_focus: bool,
    commit_key: bool,
    dismiss_key: bool,
    confirm_clicked: bool,
    cancel_clicked: bool,
) -> (r: Option<DialogEvent>)
    ensures
        r == decide_event_spec(
            field_has_focus,
            commit_key,
            dismiss_key,
            confirm_clicked,
            cancel_clicked,
        ),
{
    if (commit_key && field_has_focus) || confirm_clicked {
        Some(DialogEvent::Confirm)
    } else if dismiss_key || cancel_clicked {
        Some(DialogEvent::Cancel)
    } else {
        None
    }
}

impl Workflow {
    /// No dialog active, empty buffer.
    pub fn new() -> (r: Workflow)
        ensures
            r@.dialog == Dialog::Idle,
            r@.buffer.len() == 0,
    {
        Workflow { dialog: Dialog::Idle, buffer: String::new() }
    }

    /// Opens the New Project dialog with a cleared buffer.
    pub fn open_new_project(&mut self)
        requires
            old(self)@.dialog == Dialog::Idle,
        ensures
            final(self)@.dialog == Dialog::NewProject,
            final(self)@.buffer.len() == 0,
    {
        self.dialog = Dialog::NewProject;
        self.buffer = String::new();
    }

    /// Opens the Edit Project dialog for the project at `index`, with the
    /// buffer pre-filled with that project's current name.
    pub fn open_edit_project(&mut self, store: &Store, index: usize)
        requires
            old(self)@.dialog == Dialog::Idle,
            index < store@.projects.len(),
        ensures
            final(self)@.dialog == Dialog::EditProject(index),
            final(self)@.buffer == store@.projects[index as int].name,
    {
        self.dialog = Dialog::EditProject(index);
        self.buffer = store.projects[index].name.clone();
    }

    /// Opens the New Task dialog with a cleared buffer; only reachable when
    /// a project is selected.
    pub fn open_new_task(&mut self, store: &Store)
        requires
            old(self)@.dialog == Dialog::Idle,
            store@.selected is Some,
        ensures
            final(self)@.dialog == Dialog::NewTask,
            final(self)@.buffer.len() == 0,
    {
        self.dialog = Dialog::NewTask;
        self.buffer = String::new();
    }

    /// Opens the Edit Task dialog for the task at `task_index` of the
    /// selected project, with the buffer pre-filled with the task's current
    /// name.
    pub fn open_edit_task(&mut self, store: &Store, task_index: usize)
        requires
            old(self)@.dialog == Dialog::Idle,
            store@.selection_valid(),
            store@.selected matches Some(p) && task_index < store@.projects[p].tasks.len(),
        ensures
            final(self)@.dialog == Dialog::EditTask(task_index),
            final(self)@.buffer == store@.projects[store@.selected->0].tasks[
                task_index as int
            ].name,
    {
        self.dialog = Dialog::EditTask(task_index);
        let p = match store.selected {
            Some(p) => p,
            None => 0,
        };
        self.buffer = store.projects[p].tasks[task_index].name.clone();
    }

    /// Replaces the buffer with the text the dialog's field currently holds.
    /// The dialog is unchanged.
    pub fn set_buffer(&mut self, text: String)
        ensures
            final(self)@.dialog == old(self)@.dialog,
            final(self)@.buffer == text@,
    {
        self.buffer = text;
    }

    /// Cancel: closes the dialog and clears the buffer without touching the
    /// store.
    pub fn cancel(&mut self)
        ensures
            final(self)@.dialog == Dialog::Idle,
            final(self)@.buffer.len() == 0,
    {
        self.dialog = Dialog::Idle;
        self.buffer = String::new();
    }

    /// Confirm: commits the trimmed buffer through the corresponding store
    /// operation and closes the dialog. A buffer that trims to empty
    /// commits nothing; the dialog closes and the buffer is cleared either
    /// way, and the selection is never changed.
    pub fn confirm(&mut self, store: &mut Store)
        requires
            old(self)@.dialog != Dialog::Idle,
            old(store)@.selection_valid(),
            old(self)@.dialog matches Dialog::EditProject(i) ==> i < old(store)@.projects.len(),
            old(self)@.dialog == Dialog::NewTask ==> old(store)@.selected is Some,
            old(self)@.dialog matches Dialog::EditTask(t) ==> old(store)@.selected matches Some(p)
                && t < old(store)@.projects[p].tasks.len(),
        ensures
            final(self)@.dialog == Dialog::Idle,
            final(self)@.buffer.len() == 0,
            final(store)@.selected == old(store)@.selected,
            final(store)@.selection_valid(),
            trim_spec(old(self)@.buffer).len() == 0 ==> final(store)@ == old(store)@,
            trim_spec(old(self)@.buffer).len() > 0 ==> final(store)@.projects == commit_effect(
                old(store)@.projects,
                old(store)@.selected,
                old(self)@.dialog,
                trim_spec(old(self)@.buffer),
            ),
    {
        match self.dialog {
            Dialog::Idle => {
            },
            Dialog::NewProject => {
                store.create_project(self.buffer.as_str());
            },
            Dialog::EditProject(i) => {
                store.rename_project(i, self.buffer.as_str());
            },
            Dialog::NewTask => {
                let p = match store.selected {
                    Some(p) => p,
                    None => 0,
                };
                store.create_task(p, self.buffer.as_str());
            },
            Dialog::EditTask(t) => {
                let p = match store.selected {
                    Some(p) => p,
                    None => 0,
                };
                store.rename_task(p, t, self.buffer.as_str());
            },
        }
        self.dialog = Dialog::Idle;
        self.buffer = String::new();
    }
}

/// The project list after committing a non-blank trimmed name `text` out of
/// dialog state `dialog`, against selection `selected`.
pub open spec fn commit_effect(
    projects: Seq<crate::domain::ProjectView>,
    selected: Option<int>,
    dialog: Dialog,
    text: Seq<char>,
) -> Seq<crate::domain::ProjectView> {
    match dialog {
        Dialog::Idle => projects,
        Dialog::NewProject => projects.push(
            crate::domain::ProjectView { name: text, tasks: Seq::empty() },
        ),
        Dialog::EditProject(i) => projects.update(
            i as int,
            crate::domain::ProjectView { name: text, tasks: projects[i as int].tasks },
        ),
        Dialog::NewTask => {
            let p = selected->0;
            projects.update(
                p,
                crate::domain::ProjectView {
                    name: projects[p].name,
                    tasks: projects[p].tasks.push(
                        crate::domain::TaskView { name: text, done: false },
                    ),
                },
            )
        },
        Dialog::EditTask(t) => {
            let p = selected->0;
            projects.update(
                p,
                crate::domain::ProjectView {
                    name: projects[p].name,
                    tasks: projects[p].tasks.update(
                        t as int,
                        crate::domain::TaskView {
                            name: text,
                            done: projects[p].tasks[t as int].done,
                        },
                    ),
                },
            )
        },
    }
}

} // verus!
