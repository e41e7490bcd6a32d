//! Core of a task-management service: an in-memory relational store of users,
//! profiles, tasks, labels and task-label links, with filtered and paginated
//! listing, label reconciliation and all-or-nothing multi-row writes.
pub mod text;
pub mod pagination;
pub mod model;
pub mod error;
pub mod forms;
mod rows;
pub mod order;
pub mod query;
pub mod store;
pub mod serializer;
