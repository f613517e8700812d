//! Verified core of a manager for a dedicated game server: rolling log
//! files, routing of log records to notifications, rendering of
//! notifications for the supported backends, and the probe of a server
//! installation.

pub mod config;
pub mod dedicatedserver;
pub mod discord;
pub mod logging;
pub mod notifications;
pub mod repl;
pub mod rotation;
pub mod text;
