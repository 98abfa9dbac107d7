//! Core of a recurring-chore tracker: the store of chores and completion
//! events with its undo and redo ledger, the scheduling rules that rank and
//! classify chores by urgency, and the statistics of completion timeliness.

pub mod cache;
pub mod calendar;
pub mod db;
pub mod l10n;
pub mod manager;
pub mod order;
pub mod schedule;
pub mod stats;
pub mod text;
pub mod time;
