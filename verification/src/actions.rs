//! From the action identifier of a trigger to the handler that runs it.

use vstd::prelude::*;
use crate::text::same_text;

verus! {

/// The handlers that an action identifier can name.
#[derive(Clone, Copy, Debug, PartialEq, Eq, Structural)]
pub enum Handler {
    /// A trace of the source number, for trying a trigger out.
    Test,
    /// A chat message of a player.
    PlayerMessage,
    /// A player joined the server.
    PlayerJoined,
    /// A player left the server.
    PlayerLeft,
    /// A player obtained an advancement.
    PlayerAdvancement,
    /// A player died.
    PlayerDeath,
    /// The identifier names no handler; the caller reports it and goes on.
    Unknown,
}

/// A handler together with what it is run on.
pub struct ActionCall {
    pub handler: Handler,
    pub line: String,
    pub serverlog_id: u32,
}

/// The handler that an identifier names.
pub open spec fn handler_named(function: Seq<char>) -> Handler {
    if function == "on_test"@ {
        Handler::Test
    } else if function == "on_player_message"@ {
        Handler::PlayerMessage
    } else if function == "on_player_joined"@ {
        Handler::PlayerJoined
    } else if function == "on_player_left"@ {
        Handler::PlayerLeft
    } else if function == "on_minecraft_player_advancement"@ {
        Handler::PlayerAdvancement
    } else if function == "on_player_death"@ {
        Handler::PlayerDeath
    } else {
        Handler::Unknown
    }
}

/// Looks up the handler that an identifier names.
pub fn handler_for(function: &str) -> (handler: Handler)
    ensures
        handler == handler_named(function@),
{
    if same_text(function, "on_test") {
        Handler::Test
    } else if same_text(function, "on_player_message") {
        Handler::PlayerMessage
    } else if same_text(function, "on_player_joined") {
        Handler::PlayerJoined
    } else if same_text(function, "on_player_left") {
        Handler::PlayerLeft
    } else if same_text(function, "on_minecraft_player_advancement") {
        Handler::PlayerAdvancement
    } else if same_text(function, "on_player_death") {
        Handler::PlayerDeath
    } else {
        Handler::Unknown
    }
}

/// Routes an action: names the handler of `function` and hands it the line
/// and the source number as they came. An identifier that names no handler
/// gives `Handler::Unknown`, never a failure.
pub fn dispatch(function: &str, line: &str, serverlog_id: u32) -> (call: ActionCall)
    ensures
        call.handler == handler_named(function@),
        call.line@ == line@,
        call.serverlog_id == serverlog_id,
{
    ActionCall { handler: handler_for(function), line: line.to_string(), serverlog_id }
}

/// A handler together with the line it is run on and the source of that
/// line, which is `None` for a file whose name gives no number.
pub struct LineCall {
    pub handler: Handler,
    pub line: String,
    pub source: Option<u32>,
}

/// Routes the action of a trigger that fired on a line, whether or not the
/// line's file has a source number: the handler is named by the identifier
/// alone, and line and source are handed through as they came.
pub fn dispatch_line(function: &str, line: &str, source: Option<u32>) -> (call: LineCall)
    ensures
        call.handler == handler_named(function@),
        call.line@ == line@,
        call.source == source,
{
    LineCall { handler: handler_for(function), line: line.to_string(), source }
}

} // verus!
