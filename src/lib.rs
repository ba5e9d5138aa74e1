//! Workout tracking: the data model of sets, exercises and workouts, an
//! ordered store keyed by timestamp, and the protocol that replaces the
//! backing file's contents on save.

pub mod app;
pub mod persist;
pub mod popup;
pub mod store;
pub mod workout;
