//! Scheduling engine for recurring routines: recurrence evaluation, next-due
//! computation, agenda ordering and completion updates.

pub mod agenda;
pub mod completion;
pub mod config;
pub mod keyed;
pub mod laws;
pub mod listing;
pub mod order;
pub mod recurrence;
pub mod registry;
pub mod schedule_file;
pub mod scheduler;
