//! Configuration of the manager, as the rest of the library consumes it.
//! Paths and addresses are held as text.

use vstd::prelude::*;
use crate::discord::DiscordBackend;
use crate::logging::LevelFilter;
use crate::notifications::{EventTable, NotificationLevel, NtfyBackend, NtfyPriority};

verus! {

/// Configuration options given on the command line.
pub struct CliConfiguration {
    pub manager: Option<CliManagerConfiguration>,
    pub server: Option<CliServerConfiguration>,
}

/// Options of the manager given on the command line.
pub struct CliManagerConfiguration {
    pub log_path: Option<String>,
    pub log_level: Option<LevelFilter>,
}

/// Options of the dedicated server given on the command line.
pub struct CliServerConfiguration {
    pub ds_path: Option<String>,
}

/// Configuration of the manager itself.
pub struct ManagerConfiguration {
    pub log_path: String,
    pub log_level: LevelFilter,
    pub log_file_level: LevelFilter,
}

/// Configuration of notifications.
pub enum NotificationConfiguration {
    /// No notifications are sent.
    Disabled,
    /// Notifications go to a topic of a topic-based push service.
    Ntfy {
        name: String,
        level: NotificationLevel,
        emojis: EventTable<String>,
        topic: String,
        server_url: String,
        priorities: EventTable<NtfyPriority>,
    },
    /// Notifications go to a chat webhook.
    Discord {
        name: String,
        level: NotificationLevel,
        emojis: EventTable<String>,
        colors: EventTable<u32>,
        webhook_url: String,
    },
}

/// The active notification backend, with the address it delivers to.
pub enum Backend {
    Ntfy { backend: NtfyBackend, server_url: String },
    Discord { backend: DiscordBackend, webhook_url: String },
}

impl NotificationConfiguration {
    /// Which log records are sent as notifications; with no backend, only
    /// server events would be.
    pub fn get_level(&self) -> (r: NotificationLevel)
        ensures
            r == match self {
                NotificationConfiguration::Disabled => NotificationLevel::Server,
                NotificationConfiguration::Ntfy { level, .. } => *level,
                NotificationConfiguration::Discord { level, .. } => *level,
            },
    {
        match self {
            NotificationConfiguration::Disabled => NotificationLevel::Server,
            NotificationConfiguration::Ntfy { level, .. } => *level,
            NotificationConfiguration::Discord { level, .. } => *level,
        }
    }

    /// The backend that this configuration selects, if any; `version` is the
    /// version of the application, shown by the webhook backend.
    pub fn into_backend(self, version: String) -> (r: Option<Backend>)
        ensures
            match self {
                NotificationConfiguration::Disabled => r is None,
                NotificationConfiguration::Ntfy { emojis, topic, server_url, priorities, .. } => r matches Some(
                    Backend::Ntfy { backend, server_url: u },
                ) && backend == (NtfyBackend { topic, emojis, priorities }) && u == server_url,
                NotificationConfiguration::Discord { emojis, colors, webhook_url, .. } => r matches Some(
                    Backend::Discord { backend, webhook_url: u },
                ) && backend == (DiscordBackend { emojis, colors, version }) && u == webhook_url,
            },
    {
        match self {
            NotificationConfiguration::Disabled => None,
            NotificationConfiguration::Ntfy { emojis, topic, server_url, priorities, .. } => Some(
                Backend::Ntfy { backend: NtfyBackend { topic, emojis, priorities }, server_url },
            ),
            NotificationConfiguration::Discord { emojis, colors, webhook_url, .. } => Some(
                Backend::Discord { backend: DiscordBackend { emojis, colors, version }, webhook_url },
            ),
        }
    }
}

} // verus!
