//! Commands of the console of the dedicated server.

use vstd::prelude::*;

verus! {

/// A command line of the local console.
pub struct LocalRepl {
    pub command: LocalCommand,
}

/// Commands of the local console.
pub enum LocalCommand {
    /// Shuts down the dedicated server and exits the manager.
    Shutdown,
    /// Restarts the server without quitting the manager.
    Restart,
    Common(CommonCommand),
}

/// A command line of a remote console.
pub struct RemoteRepl {
    pub command: RemoteCommand,
}

/// Commands of a remote console.
pub enum RemoteCommand {
    /// Disconnects from the remote server and exits the manager.
    Disconnect,
    Common(CommonCommand),
}

/// Commands of both consoles.
pub enum CommonCommand {
    /// Prints information about the dedicated server.
    Info,
    /// Kicks a player from the dedicated server.
    Kick(KickCommand),
    /// Manages the whitelist of the dedicated server.
    Whitelist(WhitelistCommand),
    /// Lists players currently connected to the server.
    List(ListCommand),
    /// Works with the savegames on the server.
    Savegame(SavegameCommand),
    /// Shows and modifies the categories of players.
    Player(PlayerCommand),
}

pub struct KickCommand {
    /// The GUID or name of the player to kick.
    pub player: String,
}

pub enum WhitelistCommand {
    Enable,
    Disable,
    Status,
}

/// Which players to list.
#[derive(Debug, Clone, Copy, PartialEq, Eq, PartialOrd, Ord, Structural)]
pub enum ListCategory {
    All,
    Whitelisted,
    Blacklisted,
    Unlisted,
    Admin,
    Owner,
}

pub struct ListCommand {
    pub category: ListCategory,
}

pub enum SavegameCommand {
    /// Loads an existing savegame.
    Load { save_name: String },
    /// Saves the currently loaded savegame, under another name where given.
    Save { save_name: Option<String> },
    /// Creates a new savegame.
    New { save_name: Option<String> },
    /// Lists all available savegames.
    List,
}

/// Category of a player.
#[derive(Debug, Clone, Copy, PartialEq, Eq, PartialOrd, Ord, Structural)]
pub enum PlayerCategory {
    Whitelisted,
    Blacklisted,
    Unlisted,
    Admin,
}

pub enum PlayerCommand {
    Assign { player: String, category: PlayerCategory },
    Get { player: String },
}

} // verus!
