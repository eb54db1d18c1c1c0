//! Core of a terminal client for line-oriented network services: a two-layer
//! protocol decoder (telnet command framing, then ANSI SGR escape sequences)
//! that turns an incoming byte stream into styled text, together with the
//! buffer types that store the decoded output and the user's input history.

pub mod actions;
pub mod formatted_string;
pub mod indexed;
pub mod line_buffer;
pub mod parse_state;
pub mod ring_buffer;
pub mod scripting;
pub mod search;
pub mod server_data;
pub mod session;

pub use formatted_string::{Color, Format, FormattedString, Style};
pub use indexed::{HasLength, Indexed};
pub use line_buffer::LineBuffer;
pub use parse_state::ParseState;
pub use ring_buffer::RingBuffer;
pub use scripting::{ScriptAction, ScriptInterface};
pub use search::SearchResult;
pub use session::Session;
