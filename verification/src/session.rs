//! Per-connection state: the decoder states of both protocol layers, the
//! format in effect for the next plain character, the scrollback and
//! input-history buffers with their cursors, and the caret into the line
//! being edited.

use vstd::prelude::*;

use crate::formatted_string::{Format, FormattedString};
use crate::indexed::Indexed;
use crate::parse_state::{ParseState, ParseStateView};
use crate::ring_buffer::RingBuffer;
use crate::server_data::DecodeState;

verus! {

/// All state of one connection that the decoding pipeline and the editing
/// actions work on. The socket itself stays with the caller.
pub struct Session {
    pub telnet_state: ParseState,
    pub esc_seq_state: ParseState,
    pub char_format: Format,
    pub scrollback_buf: Indexed<RingBuffer<FormattedString>>,
    pub history: Indexed<RingBuffer<FormattedString>>,
    pub cursor_index: usize,
}

impl Session {
    /// The decoder-facing part of this session, as one value.
    pub open spec fn decode_state(&self) -> DecodeState {
        DecodeState {
            telnet: self.telnet_state@,
            esc: self.esc_seq_state@,
            format: self.char_format,
        }
    }

    /// The scrollback contents, line by line, as character sequences.
    pub open spec fn scrollback_lines(&self) -> Seq<Seq<(char, Format)>> {
        self.scrollback_buf.data@.map_values(|l: FormattedString| l@)
    }

    /// The line currently being edited: `history.index` lines back from the
    /// newest history entry.
    pub open spec fn current_input_line(&self) -> Seq<(char, Format)> {
        self.history.data@[self.history.data@.len() - 1 - self.history.index]@
    }

    /// Well-formed: both buffers are sound, hold at least one line each (so
    /// that the newest line can always be addressed), grow without bound,
    /// their cursors are clamped, and the caret stays within the line being
    /// edited.
    pub open spec fn wf(&self) -> bool {
        &&& self.scrollback_buf.data.wf()
        &&& self.scrollback_buf.data.capacity() is None
        &&& self.scrollback_buf.data@.len() >= 1
        &&& self.scrollback_buf.wf()
        &&& self.history.data.wf()
        &&& self.history.data.capacity() is None
        &&& self.history.data@.len() >= 1
        &&& self.history.wf()
        &&& self.cursor_index <= self.current_input_line().len()
    }

    /// A fresh session: both decoders inactive, default format, one empty
    /// line in scrollback and in history, all cursors at the newest position.
    pub fn new() -> (s: Session)
        ensures
            s.wf(),
            s.telnet_state@ is NotInProgress,
            s.esc_seq_state@ is NotInProgress,
            s.char_format == Format::spec_default(),
            s.scrollback_buf.data@.len() == 1,
            s.scrollback_buf.data@[0]@ == Seq::<(char, Format)>::empty(),
            s.scrollback_buf.index == 0,
            s.history.data@.len() == 1,
            s.history.data@[0]@ == Seq::<(char, Format)>::empty(),
            s.history.index == 0,
            s.cursor_index == 0,
    {
        let mut scrollback: RingBuffer<FormattedString> = RingBuffer::new(None);
        scrollback.push(FormattedString::new());
        let mut history: RingBuffer<FormattedString> = RingBuffer::new(None);
        history.push(FormattedString::new());
        Session {
            telnet_state: ParseState::NotInProgress,
            esc_seq_state: ParseState::NotInProgress,
            char_format: Format::default(),
            scrollback_buf: Indexed::new(scrollback),
            history: Indexed::new(history),
            cursor_index: 0,
        }
    }
}

} // verus!
