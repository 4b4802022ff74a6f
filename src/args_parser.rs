//! The commands that the tool accepts, as plain values.

use vstd::prelude::*;

verus! {

/// A clipboard management tool: one command per invocation.
#[derive(Debug)]
pub struct RustyBoard {
    pub command: Commands,
}

/// One command.
#[derive(Debug)]
pub enum Commands {
    List(ListCommand),
    Store(StoreCommand),
    Get(GetCommand),
    Remove(RemoveCommand),
    Clear(ClearCommand),
}

/// List all stored clipboard items.
#[derive(Debug)]
pub struct ListCommand {}

/// Store a new clipboard item read from standard input.
#[derive(Debug)]
pub struct StoreCommand {}

/// Get a clipboard item by entry: `2`, or a listed line such as `2: some text`.
/// Positions start at 0, as `list` shows them.
#[derive(Debug)]
pub struct GetCommand {
    pub entry: Option<String>,
}

/// Remove a clipboard item by entry: `2`, or a listed line such as `2: some text`.
/// Positions start at 0, as `list` shows them.
#[derive(Debug)]
pub struct RemoveCommand {
    pub entry: Option<String>,
}

/// Clear all clipboard items.
#[derive(Debug)]
pub struct ClearCommand {}

} // verus!
