//! First-run setup and uninstall: driver installation, the core's elevated
//! logon task, the tray's autostart entry, and their removal. Every system
//! change sits behind a trait; what is decided around those calls is here.

pub mod autostart;
pub mod scheduled_task;
pub mod driver_install;
pub mod uninstall;
