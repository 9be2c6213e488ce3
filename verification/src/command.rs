//! The four user intents and the rule that decides which of them change
//! the vault.

use vstd::prelude::*;

verus! {

/// What the user asked for.
#[derive(Debug)]
pub enum Command {
    /// Add a new entry, or replace the entry that has this id.
    Add { id: String, username: Option<String>, description: Option<String>, url: Option<String> },
    /// Disclose one entry's credential: on screen, or to the clipboard when
    /// `copy` is set.
    Get { id: String, copy: bool, show: bool },
    /// Delete an entry.
    Remove { id: String },
    /// List all entries; `verbose` adds the non-secret details.
    List { verbose: bool },
}

/// One invocation: a single command.
#[derive(Debug)]
pub struct Arg {
    pub command: Command,
}

impl Command {
    /// Whether the vault must be saved after this command: only adding and
    /// removing change it, while reading and listing never cause a write.
    pub fn is_update(&self) -> (update: bool)
        ensures
            update == (self is Add || self is Remove),
    {
        match self {
            Command::Add { .. } => true,
            Command::Remove { .. } => true,
            Command::Get { .. } => false,
            Command::List { .. } => false,
        }
    }
}

} // verus!
