//! Verified core of a terminal dashboard for host administration.
//!
//! The crate models the cron management subsystem: a screen dispatcher, a
//! cron table controller, a multi-field job editor, a cron expression
//! engine, and a codec for the scheduler's directive text format. All
//! decision logic is verified; terminal rendering and the scheduler
//! subprocesses live outside the library and exchange plain values with it.

pub mod app;
pub mod config;
pub mod crontab;
pub mod editor;
pub mod engine;
pub mod event;
pub mod ftp;
pub mod job;
pub mod menu;
pub mod mysql;
pub mod schedule;
pub mod table;
pub mod text;
