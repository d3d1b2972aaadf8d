//! The domain store: the ordered project list and the selected-project
//! pointer, with every index-adjusting mutation centralized here.
//!
//! Every operation keeps the selection invariant: after it completes,
//! `selected` is `None` or a valid index into `projects`.

use vstd::prelude::*;

use crate::domain::{Project, ProjectView, Task, TaskView};
use crate::text::{chars_to_string, str_to_chars, trim_chars, trim_spec};

verus! {

/// The owner of all project and task state.
pub struct Store {
    pub projects: Vec<Project>,
    pub selected: Option<usize>,
}

/// Mathematical model of the store.
#[verifier::ext_equal]
pub struct StoreView {
    pub projects: Seq<ProjectView>,
    pub selected: Option<int>,
}

impl View for Store {
    type V = StoreView;

    open spec fn view(&self) -> StoreView {
        StoreView {
            projects: self.projects@.map_values(|p: Project| p@),
            selected: match self.selected {
                Some(i) => Some(i as int),
                None => None,
            },
        }
    }
}

impl StoreView {
    /// The selection invariant: `selected` is `None` or a valid index.
    pub open spec fn selection_valid(self) -> bool {
        match self.selected {
            Some(i) => 0 <= i < self.projects.len(),
            None => true,
        }
    }
}

/// The selection after deleting a project: the previous sibling when one
/// exists, `None` when the selection was at the front. The rule does not
/// depend on which index was deleted; this reproduces the store's literal
/// adjustment policy.
pub open spec fn selection_after_delete(sel: Option<int>) -> Option<int> {
    match sel {
        Some(s) => if s > 0 {
            Some(s - 1)
        } else {
            None
        },
        None => None,
    }
}

impl Store {
    /// An empty store: no projects, nothing selected.
    pub fn new() -> (r: Store)
        ensures
            r@.projects.len() == 0,
            r@.selected is None,
            r@.selection_valid(),
    {
        Store { projects: Vec::new(), selected: None }
    }

    /// A store seeded with loaded projects; nothing selected yet.
    pub fn from_projects(projects: Vec<Project>) -> (r: Store)
        ensures
            r@.projects == projects@.map_values(|p: Project| p@),
            r@.selected is None,
            r@.selection_valid(),
    {
        Store { projects, selected: None }
    }

    /// Appends a project named with the trimmed input, with no tasks; a name
    /// that trims to empty is a no-op. Selection is unchanged either way.
    pub fn create_project(&mut self, name: &str)
        requires
            old(self)@.selection_valid(),
        ensures
            final(self)@.selected == old(self)@.selected,
            trim_spec(name@).len() == 0 ==> final(self)@ == old(self)@,
            trim_spec(name@).len() > 0 ==> final(self)@.projects == old(self)@.projects.push(
                ProjectView { name: trim_spec(name@), tasks: Seq::empty() },
            ),
            final(self)@.selection_valid(),
    {
        let chars = str_to_chars(name);
        let trimmed = trim_chars(&chars);
        if trimmed.len() > 0 {
            let p = Project { name: chars_to_string(&trimmed), tasks: Vec::new() };
            proof {
                assert(p@.tasks =~~= Seq::<TaskView>::empty());
            }
            self.projects.push(p);
            proof {
                assert(self@.projects =~~= old(self)@.projects.push(
                    ProjectView { name: trim_spec(name@), tasks: Seq::empty() },
                ));
            }
        } else {
            proof {
                assert(self@ == old(self)@);
            }
        }
    }

    /// Overwrites the name of the project at `index` with the trimmed input;
    /// a name that trims to empty abandons the rename. Tasks and selection
    /// are unchanged.
    pub fn rename_project(&mut self, index: usize, name: &str)
        requires
            old(self)@.selection_valid(),
            index < old(self)@.projects.len(),
        ensures
            final(self)@.selected == old(self)@.selected,
            trim_spec(name@).len() == 0 ==> final(self)@ == old(self)@,
            trim_spec(name@).len() > 0 ==> final(self)@.projects == old(self)@.projects.update(
                index as int,
                ProjectView {
                    name: trim_spec(name@),
                    tasks: old(self)@.projects[index as int].tasks,
                },
            ),
            final(self)@.selection_valid(),
    {
        let chars = str_to_chars(name);
        let trimmed = trim_chars(&chars);
        if trimmed.len() > 0 {
            self.projects[index].name = chars_to_string(&trimmed);
            proof {
                assert(self@.projects =~~= old(self)@.projects.update(
                    index as int,
                    ProjectView {
                        name: trim_spec(name@),
                        tasks: old(self)@.projects[index as int].tasks,
                    },
                ));
            }
        } else {
            proof {
                assert(self@ == old(self)@);
            }
        }
    }

    /// Removes the project at `index`, shifting later projects down by one,
    /// and adjusts the selection to its previous sibling (or to `None` when
    /// the selection was at the front), regardless of which index was
    /// deleted.
    pub fn delete_project(&mut self, index: usize)
        requires
            old(self)@.selection_valid(),
            index < old(self)@.projects.len(),
        ensures
            final(self)@.projects == old(self)@.projects.remove(index as int),
            final(self)@.selected == selection_after_delete(old(self)@.selected),
            final(self)@.selection_valid(),
    {
        self.projects.remove(index);
        if let Some(sel) = self.selected {
            self.selected = if sel > 0 {
                Some(sel - 1)
            } else {
                None
            };
        }
        proof {
            assert(self@.projects =~~= old(self)@.projects.remove(index as int));
        }
    }

    /// Appends a task (trimmed name, not done) to the project at
    /// `project_index`; a name that trims to empty is a no-op.
    pub fn create_task(&mut self, project_index: usize, name: &str)
        requires
            old(self)@.selection_valid(),
            project_index < old(self)@.projects.len(),
        ensures
            final(self)@.selected == old(self)@.selected,
            trim_spec(name@).len() == 0 ==> final(self)@ == old(self)@,
            trim_spec(name@).len() > 0 ==> final(self)@.projects == old(self)@.projects.update(
                project_index as int,
                ProjectView {
                    name: old(self)@.projects[project_index as int].name,
                    tasks: old(self)@.projects[project_index as int].tasks.push(
                        TaskView { name: trim_spec(name@), done: false },
                    ),
                },
            ),
            final(self)@.selection_valid(),
    {
        let chars = str_to_chars(name);
        let trimmed = trim_chars(&chars);
        if trimmed.len() > 0 {
            let t = Task { name: chars_to_string(&trimmed), done: false };
            self.projects[project_index].tasks.push(t);
            proof {
                assert(self@.projects =~~= old(self)@.projects.update(
                    project_index as int,
                    ProjectView {
                        name: old(self)@.projects[project_index as int].name,
                        tasks: old(self)@.projects[project_index as int].tasks.push(
                            TaskView { name: trim_spec(name@), done: false },
                        ),
                    },
                ));
            }
        } else {
            proof {
                assert(self@ == old(self)@);
            }
        }
    }

    /// Overwrites the name of a task with the trimmed input; a name that
    /// trims to empty abandons the rename.
    pub fn rename_task(&mut self, project_index: usize, task_index: usize, name: &str)
        requires
            old(self)@.selection_valid(),
            project_index < old(self)@.projects.len(),
            task_index < old(self)@.projects[project_index as int].tasks.len(),
        ensures
            final(self)@.selected == old(self)@.selected,
            trim_spec(name@).len() == 0 ==> final(self)@ == old(self)@,
            trim_spec(name@).len() > 0 ==> final(self)@.projects == old(self)@.projects.update(
                project_index as int,
                ProjectView {
                    name: old(self)@.projects[project_index as int].name,
                    tasks: old(self)@.projects[project_index as int].tasks.update(
                        task_index as int,
                        TaskView {
                            name: trim_spec(name@),
                            done: old(
                                self,
                            )@.projects[project_index as int].tasks[task_index as int].done,
                        },
                    ),
                },
            ),
            final(self)@.selection_valid(),
    {
        let chars = str_to_chars(name);
        let trimmed = trim_chars(&chars);
        if trimmed.len() > 0 {
            self.projects[project_index].tasks[task_index].name = chars_to_string(&trimmed);
            proof {
                assert(self@.projects =~~= old(self)@.projects.update(
                    project_index as int,
                    ProjectView {
                        name: old(self)@.projects[project_index as int].name,
                        tasks: old(self)@.projects[project_index as int].tasks.update(
                            task_index as int,
                            TaskView {
                                name: trim_spec(name@),
                                done: old(
                                    self,
                                )@.projects[project_index as int].tasks[task_index as int].done,
                            },
                        ),
                    },
                ));
            }
        } else {
            proof {
                assert(self@ == old(self)@);
            }
        }
    }

    /// Flips the completion flag of a task in place.
    pub fn toggle_task_done(&mut self, project_index: usize, task_index: usize)
        requires
            old(self)@.selection_valid(),
            project_index < old(self)@.projects.len(),
            task_index < old(self)@.projects[project_index as int].tasks.len(),
        ensures
            final(self)@.selected == old(self)@.selected,
            final(self)@.projects == old(self)@.projects.update(
                project_index as int,
                ProjectView {
                    name: old(self)@.projects[project_index as int].name,
                    tasks: old(self)@.projects[project_index as int].tasks.update(
                        task_index as int,
                        TaskView {
                            name: old(
                                self,
                            )@.projects[project_index as int].tasks[task_index as int].name,
                            done: !old(
                                self,
                            )@.projects[project_index as int].tasks[task_index as int].done,
                        },
                    ),
                },
            ),
            final(self)@.selection_valid(),
    {
        let flag = self.projects[project_index].tasks[task_index].done;
        self.projects[project_index].tasks[task_index].done = !flag;
        proof {
            assert(self@.projects =~~= old(self)@.projects.update(
                project_index as int,
                ProjectView {
                    name: old(self)@.projects[project_index as int].name,
                    tasks: old(self)@.projects[project_index as int].tasks.update(
                        task_index as int,
                        TaskView {
                            name: old(
                                self,
                            )@.projects[project_index as int].tasks[task_index as int].name,
                            done: !old(
                                self,
                            )@.projects[project_index as int].tasks[task_index as int].done,
                        },
                    ),
                },
            ));
        }
    }

    /// Removes the task at `task_index`, shifting later task indices down by
    /// one. No selected-task pointer exists, so nothing is repaired.
    pub fn delete_task(&mut self, project_index: usize, task_index: usize)
        requires
            old(self)@.selection_valid(),
            project_index < old(self)@.projects.len(),
            task_index < old(self)@.projects[project_index as int].tasks.len(),
        ensures
            final(self)@.selected == old(self)@.selected,
            final(self)@.projects == old(self)@.projects.update(
                project_index as int,
                ProjectView {
                    name: old(self)@.projects[project_index as int].name,
                    tasks: old(self)@.projects[project_index as int].tasks.remove(
                        task_index as int,
                    ),
                },
            ),
            final(self)@.selection_valid(),
    {
        self.projects[project_index].tasks.remove(task_index);
        proof {
            assert(self@.projects =~~= old(self)@.projects.update(
                project_index as int,
                ProjectView {
                    name: old(self)@.projects[project_index as int].name,
                    tasks: old(self)@.projects[project_index as int].tasks.remove(task_index as int),
                },
            ));
        }
    }

    /// Sets the selection directly; the caller supplies a valid index or
    /// `None`.
    pub fn select_project(&mut self, selection: Option<usize>)
        requires
            old(self)@.selection_valid(),
            match selection {
                Some(i) => i < old(self)@.projects.len(),
                None => true,
            },
        ensures
            final(self)@.projects == old(self)@.projects,
            final(self)@.selected == match selection {
                Some(i) => Some(i as int),
                None => None::<int>,
            },
            final(self)@.selection_valid(),
    {
        self.selected = selection;
    }
}

} // verus!
