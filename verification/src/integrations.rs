//! The transport-side value types: what each adapter needs to connect.
//!
//! The adapters' delivery and ingress code lives outside the library with
//! the transports themselves; these types carry their configuration.

use vstd::prelude::*;

verus! {

/// The terminal transport: prints would-be messages to standard output.
/// Intended for debugging, but fully functional.
#[derive(Debug)]
pub struct TerminalAdapter;

impl TerminalAdapter {
    pub fn new() -> (r: TerminalAdapter) {
        TerminalAdapter
    }
}

/// A notifier that writes listings to the terminal.
#[derive(Debug)]
pub struct TerminalNotifier;

impl TerminalNotifier {
    pub fn new() -> (r: TerminalNotifier) {
        TerminalNotifier
    }
}

/// The Discord notifier's configuration: its bot token.
#[derive(Debug)]
pub struct DiscordAdapter {
    pub token: String,
}

impl DiscordAdapter {
    pub fn new(token: &str) -> (r: DiscordAdapter)
        ensures
            r.token@ == token@,
    {
        DiscordAdapter { token: token.to_owned() }
    }
}

/// The Discord ingress task's configuration: its bot token.
#[derive(Debug)]
pub struct DiscordController {
    pub token: String,
}

impl DiscordController {
    pub fn new(token: &str) -> (r: DiscordController)
        ensures
            r.token@ == token@,
    {
        DiscordController { token: token.to_owned() }
    }
}

} // verus!
