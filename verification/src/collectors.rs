//! The activity collectors: what each one decides about the data it reads.

pub mod browser_history;
pub mod file_activity;
pub mod process_launch;
pub mod shell_activity;
pub mod window_focus;
