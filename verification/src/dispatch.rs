//! Command dispatch: maps the discrete keyboard intents of one tick to
//! domain-store and modal-workflow actions.

use vstd::prelude::*;

use crate::store::{selection_after_delete, Store};
use crate::workflow::{Dialog, Workflow};

verus! {

/// The keyboard intents one tick may trigger.
#[derive(PartialEq, Eq, Structural, Clone, Copy)]
pub struct Intents {
    pub delete_selected: bool,
    pub new_project: bool,
    pub new_task: bool,
    pub rename_selected: bool,
}

impl Intents {
    /// Whether any dialog-opening intent is set.
    pub open spec fn opens_dialog(self) -> bool {
        self.new_project || self.new_task || self.rename_selected
    }

    /// At most one dialog-opening intent is set: the presentation layer
    /// offers the opening commands one at a time.
    pub open spec fn at_most_one_open(self) -> bool {
        &&& !(self.new_project && self.new_task)
        &&& !(self.new_project && self.rename_selected)
        &&& !(self.new_task && self.rename_selected)
    }
}

/// Applies one tick's intents: a delete-selected intent removes the selected
/// project first; a dialog-opening intent then opens its dialog, judged
/// against the post-deletion selection. An intent whose precondition does
/// not hold (no project selected) is ignored.
pub fn dispatch(store: &mut Store, workflow: &mut Workflow, intents: Intents)
    requires
        old(store)@.selection_valid(),
        intents.at_most_one_open(),
        intents.opens_dialog() ==> old(workflow)@.dialog == Dialog::Idle,
    ensures
        final(store)@.selection_valid(),
        ({
            let deleted = intents.delete_selected && old(store)@.selected is Some;
            let projects1 = if deleted {
                old(store)@.projects.remove(old(store)@.selected->0)
            } else {
                old(store)@.projects
            };
            let selected1 = if deleted {
                selection_after_delete(old(store)@.selected)
            } else {
                old(store)@.selected
            };
            &&& final(store)@.projects == projects1
            &&& final(store)@.selected == selected1
            &&& if intents.new_project {
                final(workflow)@.dialog == Dialog::NewProject && final(workflow)@.buffer.len() == 0
            } else if intents.new_task && (selected1 is Some) {
                final(workflow)@.dialog == Dialog::NewTask && final(workflow)@.buffer.len() == 0
            } else if intents.rename_selected && (selected1 is Some) {
                (final(workflow)@.dialog matches Dialog::EditProject(i) && i as int == selected1->0)
                    && final(workflow)@.buffer == projects1[selected1->0].name
            } else {
                final(workflow)@ == old(workflow)@
            }
        }),
{
    if intents.delete_selected {
        if let Some(i) = store.selected {
            store.delete_project(i);
        }
    }
    if intents.new_project {
        workflow.open_new_project();
    } else if intents.new_task {
        if store.selected.is_some() {
            workflow.open_new_task(store);
        }
    } else if intents.rename_selected {
        if let Some(i) = store.selected {
            workflow.open_edit_project(store, i);
        }
    }
}

} // verus!
