//! The tray side: reaching the core over its pipe, and the picker, status,
//! first-run and "open logs" logic the tray icon's menus run on.

pub mod ipc_client;
pub mod status;
pub mod picker;
pub mod first_run;
pub mod open_logs;
pub mod menu;
