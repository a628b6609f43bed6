//! The command surface, as plain data: what a caller asks the engine to do.
//! Argument parsing itself happens outside the library; these types carry
//! the parsed result.

use vstd::prelude::*;

verus! {

/// Top-level invocation.
pub struct Args {
    /// Emit raw JSON instead of tables.
    pub json: bool,
    pub command: Option<Command>,
}

/// One command.
pub enum Command {
    /// Look a player up by SteamID64 text.
    BySteamId { id: String },
    /// Look a player up by SteamID3 or raw account id text.
    BySteamId3 { id3: String },
    /// Look a player up by community vanity name.
    ByVanity { name: String },
    /// Look a player up by community URL.
    ByUrl { url: String },
    /// Run the storage migrations and stop.
    Migrate,
    Matches { cmd: MatchesSubcommand },
}

/// Record synchronization commands.
pub enum MatchesSubcommand {
    Sync {
        ids: Vec<i64>,
        from_account_id: Option<u32>,
        from_steamid: Option<String>,
        from_id3: Option<String>,
        since_id: Option<i64>,
        until_id: Option<i64>,
        limit: usize,
        batch_size: usize,
        include_info: bool,
        include_players: bool,
        dry_run: bool,
    },
    History {
        account_id: Option<u32>,
        steamid: Option<String>,
        id3: Option<String>,
        force_refetch: bool,
        only_stored_history: bool,
        dry_run: bool,
    },
}

/// The history command's two flags are mutually exclusive; both set at once
/// is rejected before any network or storage activity.
pub fn history_flags_ok(force_refetch: bool, only_stored_history: bool) -> (r: bool)
    ensures
        r == !(force_refetch && only_stored_history),
{
    !(force_refetch && only_stored_history)
}

} // verus!
