//! Core logic of a small project/task organizer: the domain store that owns
//! the ordered project list and the selected-project pointer, the modal
//! dialog workflow, the task filter engine, the command dispatch table, and
//! the JSON codec that persistence reads and writes.
//!
//! The surrounding presentation layer is expected to call in once per tick:
//! it surfaces intents and dialog input, the store and workflow mutate the
//! state, and the codec turns the project list into its persisted text and
//! back.

pub mod dispatch;
pub mod domain;
pub mod filter;
pub mod json;
pub mod store;
pub mod text;
pub mod workflow;
