//! The domain data model: tasks and projects, with their mathematical views.

use vstd::prelude::*;

verus! {

/// A unit of work: a name and a completion flag.
pub struct Task {
    pub name: String,
    pub done: bool,
}

/// A named container of tasks. Task order is significant.
pub struct Project {
    pub name: String,
    pub tasks: Vec<Task>,
}

/// Mathematical model of a task.
#[verifier::ext_equal]
pub struct TaskView {
    pub name: Seq<char>,
    pub done: bool,
}

/// Mathematical model of a project.
#[verifier::ext_equal]
pub struct ProjectView {
    pub name: Seq<char>,
    pub tasks: Seq<TaskView>,
}

impl View for Task {
    type V = TaskView;

    open spec fn view(&self) -> TaskView {
        TaskView { name: self.name@, done: self.done }
    }
}

impl View for Project {
    type V = ProjectView;

    open spec fn view(&self) -> ProjectView {
        ProjectView { name: self.name@, tasks: self.tasks@.map_values(|t: Task| t@) }
    }
}

/// The models of a vector of projects.
pub open spec fn projects_view(ps: Seq<Project>) -> Seq<ProjectView> {
    ps.map_values(|p: Project| p@)
}

impl Clone for Task {
    /// A cloned task models the same value.
    fn clone(&self) -> (r: Self)
        ensures
            r@ == self@,
    {
        Task { name: self.name.clone(), done: self.done }
    }
}

} // verus!
