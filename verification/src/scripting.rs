//! The seam between the session core and user-level scripting: a closed
//! vocabulary of actions that hooks may produce, and the interface a script
//! engine implements. The core depends only on this vocabulary, never on a
//! concrete engine.

use vstd::prelude::*;

use crate::formatted_string::FormattedString;

verus! {

/// An action a user hook may ask the client to perform.
#[derive(Debug, Eq, PartialEq, Clone, Hash)]
pub enum ScriptAction {
    /// Re-read and re-evaluate the configuration file.
    ReloadConfig,
    /// Append the given text to the scrollback buffer.
    WriteScrollback(FormattedString),
    /// Send the given text to the server.
    SendInput(String),
    /// Drop the connection and establish it anew.
    Reconnect,
    /// Search the scrollback backwards for the given pattern.
    SearchBackwards(String),
}

/// What a script engine offers the client: hooks around sent input and
/// received data, and evaluation of configuration text. Implementations
/// live outside the core; nothing here constrains what a hook returns.
pub trait ScriptInterface {
    /// Run the hook for a line the user submits; the actions returned
    /// replace the default of sending the line as it is.
    fn send_hook(&mut self, input: &str) -> Result<Vec<ScriptAction>, String>;

    /// Run the hook for decoded server output; the actions returned replace
    /// the default of writing the text to the scrollback.
    fn recv_hook(&mut self, data: &FormattedString) -> Result<Vec<ScriptAction>, String>;

    /// Evaluate a piece of configuration text for its side effects.
    fn evaluate(&mut self, s: &str) -> Result<(), String>;
}

} // verus!
