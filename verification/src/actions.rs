//! The editing and navigation operations on a `Session`: paging through
//! scrollback, walking the input history, and editing the input line at the
//! caret. Each returns `true` when the client should keep running, matching
//! the convention of the key-binding layer that drives them.

use vstd::prelude::*;

use crate::formatted_string::{self, Color, Format, FormattedString};
use crate::indexed::lemma_index_below_len;
use crate::session::Session;

verus! {

/// Page the scrollback one step toward older lines.
pub fn prev_page(session: &mut Session) -> (keep_going: bool)
    requires
        old(session).wf(),
    ensures
        keep_going == true,
        final(session).wf(),
        final(session).scrollback_buf.index == if old(session).scrollback_buf.index + 1 <= old(
            session,
        ).scrollback_buf.max_index() {
            old(session).scrollback_buf.index + 1
        } else {
            old(session).scrollback_buf.max_index() as int
        },
        final(session).scrollback_buf.data == old(session).scrollback_buf.data,
        final(session).scrollback_buf.limit == old(session).scrollback_buf.limit,
        final(session).history == old(session).history,
        final(session).cursor_index == old(session).cursor_index,
        final(session).telnet_state == old(session).telnet_state,
        final(session).esc_seq_state == old(session).esc_seq_state,
        final(session).char_format == old(session).char_format,
{
    session.scrollback_buf.increment_index(1);
    true
}

/// Page the scrollback one step back toward the newest lines.
pub fn next_page(session: &mut Session) -> (keep_going: bool)
    requires
        old(session).wf(),
    ensures
        keep_going == true,
        final(session).wf(),
        final(session).scrollback_buf.index == if old(session).scrollback_buf.index >= 1 {
            old(session).scrollback_buf.index - 1
        } else {
            0
        },
        final(session).scrollback_buf.data == old(session).scrollback_buf.data,
        final(session).scrollback_buf.limit == old(session).scrollback_buf.limit,
        final(session).history == old(session).history,
        final(session).cursor_index == old(session).cursor_index,
        final(session).telnet_state == old(session).telnet_state,
        final(session).esc_seq_state == old(session).esc_seq_state,
        final(session).char_format == old(session).char_format,
{
    session.scrollback_buf.decrement_index(1);
    true
}

/// Delete the character before the caret, if there is one.
pub fn backspace_input(session: &mut Session) -> (keep_going: bool)
    requires
        old(session).wf(),
    ensures
        keep_going == true,
        final(session).wf(),
        old(session).cursor_index == 0 ==> *final(session) == *old(session),
        old(session).cursor_index > 0 ==> {
            &&& final(session).cursor_index == old(session).cursor_index - 1
            &&& final(session).current_input_line() == old(session).current_input_line().remove(
                old(session).cursor_index - 1,
            )
            &&& final(session).history.data@.len() == old(session).history.data@.len()
            &&& forall|k: int|
                0 <= k < old(session).history.data@.len() && k != old(session).history.data@.len()
                    - 1 - old(session).history.index ==> final(session).history.data@[k] == old(
                    session,
                ).history.data@[k]
            &&& final(session).history.index == old(session).history.index
            &&& final(session).history.limit == old(session).history.limit
            &&& final(session).scrollback_buf == old(session).scrollback_buf
            &&& final(session).telnet_state == old(session).telnet_state
            &&& final(session).esc_seq_state == old(session).esc_seq_state
            &&& final(session).char_format == old(session).char_format
        },
{
    let cursor = session.cursor_index;
    if cursor > 0 {
        let index = session.history.index();
        proof {
            lemma_index_below_len(&session.history);
        }
        let mut line = session.history.data.replace_recent(index, FormattedString::new());
        line.remove(cursor - 1);
        let _ = session.history.data.replace_recent(index, line);
        session.cursor_index = cursor - 1;
    }
    true
}

/// Delete the character under the caret, if there is one.
pub fn delete_input_char(session: &mut Session) -> (keep_going: bool)
    requires
        old(session).wf(),
    ensures
        keep_going == true,
        final(session).wf(),
        old(session).cursor_index >= old(session).current_input_line().len() ==> *final(session)
            == *old(session),
        old(session).cursor_index < old(session).current_input_line().len() ==> {
            &&& final(session).cursor_index == old(session).cursor_index
            &&& final(session).current_input_line() == old(session).current_input_line().remove(
                old(session).cursor_index as int,
            )
            &&& final(session).history.data@.len() == old(session).history.data@.len()
            &&& forall|k: int|
                0 <= k < old(session).history.data@.len() && k != old(session).history.data@.len()
                    - 1 - old(session).history.index ==> final(session).history.data@[k] == old(
                    session,
                ).history.data@[k]
            &&& final(session).history.index == old(session).history.index
            &&& final(session).history.limit == old(session).history.limit
            &&& final(session).scrollback_buf == old(session).scrollback_buf
            &&& final(session).telnet_state == old(session).telnet_state
            &&& final(session).esc_seq_state == old(session).esc_seq_state
            &&& final(session).char_format == old(session).char_format
        },
{
    let index = session.history.index();
    proof {
        lemma_index_below_len(&session.history);
    }
    let input_len = session.history.data.get_recent(index).len();
    let cursor = session.cursor_index;
    if cursor < input_len {
        let mut line = session.history.data.replace_recent(index, FormattedString::new());
        line.remove(cursor);
        let _ = session.history.data.replace_recent(index, line);
    }
    true
}

/// Discard everything before the caret on the edited line.
pub fn delete_to_cursor(session: &mut Session) -> (keep_going: bool)
    requires
        old(session).wf(),
    ensures
        keep_going == true,
        final(session).wf(),
        final(session).cursor_index == 0,
        final(session).current_input_line() == old(session).current_input_line().subrange(
            old(session).cursor_index as int,
            old(session).current_input_line().len() as int,
        ),
        final(session).history.data@.len() == old(session).history.data@.len(),
        forall|k: int|
            0 <= k < old(session).history.data@.len() && k != old(session).history.data@.len() - 1
                - old(session).history.index ==> final(session).history.data@[k] == old(
                session,
            ).history.data@[k],
        final(session).history.index == old(session).history.index,
        final(session).history.limit == old(session).history.limit,
        final(session).scrollback_buf == old(session).scrollback_buf,
        final(session).telnet_state == old(session).telnet_state,
        final(session).esc_seq_state == old(session).esc_seq_state,
        final(session).char_format == old(session).char_format,
{
    let index = session.history.index();
    proof {
        lemma_index_below_len(&session.history);
    }
    let mut line = session.history.data.replace_recent(index, FormattedString::new());
    let tail = line.split_off(session.cursor_index);
    let _ = session.history.data.replace_recent(index, tail);
    session.cursor_index = 0;
    true
}

/// Insert a character at the caret with the default format, advancing the
/// caret past it.
pub fn insert_input_char(session: &mut Session, ch: char)
    requires
        old(session).wf(),
    ensures
        final(session).wf(),
        final(session).cursor_index == old(session).cursor_index + 1,
        final(session).current_input_line() == old(session).current_input_line().insert(
            old(session).cursor_index as int,
            (ch, Format::spec_default()),
        ),
        final(session).history.data@.len() == old(session).history.data@.len(),
        forall|k: int|
            0 <= k < old(session).history.data@.len() && k != old(session).history.data@.len() - 1
                - old(session).history.index ==> final(session).history.data@[k] == old(
                session,
            ).history.data@[k],
        final(session).history.index == old(session).history.index,
        final(session).history.limit == old(session).history.limit,
        final(session).scrollback_buf == old(session).scrollback_buf,
        final(session).telnet_state == old(session).telnet_state,
        final(session).esc_seq_state == old(session).esc_seq_state,
        final(session).char_format == old(session).char_format,
{
    let index = session.history.index();
    proof {
        lemma_index_below_len(&session.history);
    }
    let cursor = session.cursor_index;
    let mut line = session.history.data.replace_recent(index, FormattedString::new());
    line.insert(cursor, ch, Format::default());
    // Reading the length back establishes that the caret's new position
    // still fits in a usize.
    let _new_len = line.len();
    let _ = session.history.data.replace_recent(index, line);
    session.cursor_index = cursor + 1;
}

/// Move the caret one character toward the start of the line.
pub fn cursor_left(session: &mut Session) -> (keep_going: bool)
    requires
        old(session).wf(),
    ensures
        keep_going == true,
        final(session).wf(),
        final(session).cursor_index == if old(session).cursor_index >= 1 {
            old(session).cursor_index - 1
        } else {
            0
        },
        final(session).history == old(session).history,
        final(session).scrollback_buf == old(session).scrollback_buf,
        final(session).telnet_state == old(session).telnet_state,
        final(session).esc_seq_state == old(session).esc_seq_state,
        final(session).char_format == old(session).char_format,
{
    if session.cursor_index > 0 {
        session.cursor_index = session.cursor_index - 1;
    }
    true
}

/// Move the caret one character toward the end of the line.
pub fn cursor_right(session: &mut Session) -> (keep_going: bool)
    requires
        old(session).wf(),
    ensures
        keep_going == true,
        final(session).wf(),
        final(session).cursor_index == if old(session).cursor_index < old(
            session,
        ).current_input_line().len() {
            old(session).cursor_index + 1
        } else {
            old(session).cursor_index as int
        },
        final(session).history == old(session).history,
        final(session).scrollback_buf == old(session).scrollback_buf,
        final(session).telnet_state == old(session).telnet_state,
        final(session).esc_seq_state == old(session).esc_seq_state,
        final(session).char_format == old(session).char_format,
{
    let index = session.history.index();
    proof {
        lemma_index_below_len(&session.history);
    }
    let input_len = session.history.data.get_recent(index).len();
    if session.cursor_index < input_len {
        session.cursor_index = session.cursor_index + 1;
    }
    true
}

/// Step to the previous (older) history entry, placing the caret at its end.
pub fn history_prev(session: &mut Session) -> (keep_going: bool)
    requires
        old(session).wf(),
    ensures
        keep_going == true,
        final(session).wf(),
        final(session).history.index == if old(session).history.index + 1 <= old(
            session,
        ).history.max_index() {
            old(session).history.index + 1
        } else {
            old(session).history.max_index() as int
        },
        final(session).history.data == old(session).history.data,
        final(session).history.limit == old(session).history.limit,
        final(session).cursor_index == final(session).current_input_line().len(),
        final(session).scrollback_buf == old(session).scrollback_buf,
        final(session).telnet_state == old(session).telnet_state,
        final(session).esc_seq_state == old(session).esc_seq_state,
        final(session).char_format == old(session).char_format,
{
    session.history.increment_index(1);
    let index = session.history.index();
    proof {
        lemma_index_below_len(&session.history);
    }
    session.cursor_index = session.history.data.get_recent(index).len();
    true
}

/// Step to the next (newer) history entry, placing the caret at its end.
pub fn history_next(session: &mut Session) -> (keep_going: bool)
    requires
        old(session).wf(),
    ensures
        keep_going == true,
        final(session).wf(),
        final(session).history.index == if old(session).history.index >= 1 {
            old(session).history.index - 1
        } else {
            0
        },
        final(session).history.data == old(session).history.data,
        final(session).history.limit == old(session).history.limit,
        final(session).cursor_index == final(session).current_input_line().len(),
        final(session).scrollback_buf == old(session).scrollback_buf,
        final(session).telnet_state == old(session).telnet_state,
        final(session).esc_seq_state == old(session).esc_seq_state,
        final(session).char_format == old(session).char_format,
{
    session.history.decrement_index(1);
    let index = session.history.index();
    proof {
        lemma_index_below_len(&session.history);
    }
    session.cursor_index = session.history.data.get_recent(index).len();
    true
}

/// Walk up through the input history (the binding layer's name for it).
pub fn cursor_up(session: &mut Session) -> (keep_going: bool)
    requires
        old(session).wf(),
    ensures
        keep_going == true,
        final(session).wf(),
        final(session).history.index == if old(session).history.index + 1 <= old(
            session,
        ).history.max_index() {
            old(session).history.index + 1
        } else {
            old(session).history.max_index() as int
        },
        final(session).history.data == old(session).history.data,
        final(session).history.limit == old(session).history.limit,
        final(session).cursor_index == final(session).current_input_line().len(),
        final(session).scrollback_buf == old(session).scrollback_buf,
        final(session).telnet_state == old(session).telnet_state,
        final(session).esc_seq_state == old(session).esc_seq_state,
        final(session).char_format == old(session).char_format,
{
    history_prev(session)
}

/// Walk back down through the input history.
pub fn cursor_down(session: &mut Session) -> (keep_going: bool)
    requires
        old(session).wf(),
    ensures
        keep_going == true,
        final(session).wf(),
        final(session).history.index == if old(session).history.index >= 1 {
            old(session).history.index - 1
        } else {
            0
        },
        final(session).history.data == old(session).history.data,
        final(session).history.limit == old(session).history.limit,
        final(session).cursor_index == final(session).current_input_line().len(),
        final(session).scrollback_buf == old(session).scrollback_buf,
        final(session).telnet_state == old(session).telnet_state,
        final(session).esc_seq_state == old(session).esc_seq_state,
        final(session).char_format == old(session).char_format,
{
    history_next(session)
}

/// How writing decoded or echoed text into the scrollback changes its lines:
/// carriage returns are dropped, a newline opens a fresh line, and any other
/// character lands at the end of the newest line.
pub open spec fn scrollback_lines_after(
    lines: Seq<Seq<(char, Format)>>,
    s: Seq<(char, Format)>,
) -> Seq<Seq<(char, Format)>>
    recommends
        lines.len() >= 1,
    decreases s.len(),
{
    if s.len() == 0 {
        lines
    } else {
        let ch = s[0].0;
        let stepped = if ch == '\r' {
            lines
        } else if ch == '\n' {
            lines.push(Seq::empty())
        } else {
            lines.update(lines.len() - 1, lines.last().push(s[0]))
        };
        scrollback_lines_after(stepped, s.subrange(1, s.len() as int))
    }
}

/// Append formatted text to the scrollback buffer, line-aware.
pub fn write_scrollback(session: &mut Session, data: FormattedString)
    requires
        old(session).wf(),
    ensures
        final(session).wf(),
        final(session).scrollback_lines() == scrollback_lines_after(
            old(session).scrollback_lines(),
            data@,
        ),
        final(session).scrollback_buf.index == old(session).scrollback_buf.index,
        final(session).scrollback_buf.limit == old(session).scrollback_buf.limit,
        final(session).history == old(session).history,
        final(session).cursor_index == old(session).cursor_index,
        final(session).telnet_state == old(session).telnet_state,
        final(session).esc_seq_state == old(session).esc_seq_state,
        final(session).char_format == old(session).char_format,
{
    let n = data.len();
    proof {
        assert(data@.subrange(0, n as int) =~= data@);
    }
    let mut i: usize = 0;
    while i < n
        invariant
            i <= n == data@.len(),
            session.wf(),
            scrollback_lines_after(
                session.scrollback_lines(),
                data@.subrange(i as int, n as int),
            ) == scrollback_lines_after(old(session).scrollback_lines(), data@),
            session.scrollback_buf.index == old(session).scrollback_buf.index,
            session.scrollback_buf.limit == old(session).scrollback_buf.limit,
            session.history == old(session).history,
            session.cursor_index == old(session).cursor_index,
            session.telnet_state == old(session).telnet_state,
            session.esc_seq_state == old(session).esc_seq_state,
            session.char_format == old(session).char_format,
        decreases n - i,
    {
        let cf = data.get(i);
        let ghost rest = data@.subrange(i as int, n as int);
        let ghost lines_before = session.scrollback_lines();
        if cf.0 == '\r' {
            // Dropped.
        } else if cf.0 == '\n' {
            session.scrollback_buf.data.push(FormattedString::new());
            proof {
                assert(session.scrollback_lines() =~= lines_before.push(Seq::empty()));
            }
        } else {
            let mut line = session.scrollback_buf.data.replace_recent(0, FormattedString::new());
            line.push(cf.0, cf.1);
            let _ = session.scrollback_buf.data.replace_recent(0, line);
            proof {
                assert(session.scrollback_lines() =~= lines_before.update(
                    lines_before.len() - 1,
                    lines_before.last().push((cf.0, cf.1)),
                ));
            }
        }
        proof {
            assert(rest[0] == data@[i as int]);
            assert(rest.subrange(1, rest.len() as int) =~= data@.subrange(i + 1, n as int));
        }
        i = i + 1;
    }
    proof {
        assert(data@.subrange(n as int, n as int) =~= Seq::<(char, Format)>::empty());
    }
}

/// Submit the line under the history cursor: echo it into the scrollback in
/// yellow, enter it into the history with a fresh empty edit line after it,
/// reset the history position and the caret, and hand the caller the text
/// (with the line ending appended) to send to the server.
pub fn send_input(session: &mut Session) -> (send_data: String)
    requires
        old(session).wf(),
    ensures
        final(session).wf(),
        send_data@ == old(session).current_input_line().map_values(|cf: (char, Format)| cf.0)
            + seq!['\r', '\n'],
        final(session).scrollback_lines() == scrollback_lines_after(
            old(session).scrollback_lines(),
            Seq::new(
                send_data@.len(),
                |i: int|
                    (send_data@[i], Format { fg_color: Color::Yellow, ..Format::spec_default() }),
            ),
        ),
        final(session).history.index == 0,
        final(session).cursor_index == 0,
        final(session).history.data@.len() == old(session).history.data@.len() + 1,
        old(session).history.index > 0 ==> {
            &&& forall|k: int|
                0 <= k < old(session).history.data@.len() - 1
                    ==> final(session).history.data@[k] == old(session).history.data@[k]
            &&& final(session).history.data@[old(session).history.data@.len() - 1]@ == Seq::new(
                old(session).current_input_line().len(),
                |i: int|
                    (
                        old(session).current_input_line().map_values(|cf: (char, Format)| cf.0)[i],
                        Format::spec_default(),
                    ),
            )
            &&& final(session).history.data@[old(session).history.data@.len() as int]@
                == Seq::<(char, Format)>::empty()
        },
        old(session).history.index == 0 ==> {
            &&& forall|k: int|
                0 <= k < old(session).history.data@.len() ==> final(session).history.data@[k]
                    == old(session).history.data@[k]
            &&& final(session).history.data@[old(session).history.data@.len() as int]@
                == Seq::<(char, Format)>::empty()
        },
{
    let index = session.history.index();
    proof {
        lemma_index_below_len(&session.history);
    }

    // The text to send: the submitted line's characters, then the line
    // ending.
    let line_text = session.history.data.get_recent(index).to_str();
    let mut send_data = line_text.clone();
    formatted_string::push_char(&mut send_data, '\r');
    formatted_string::push_char(&mut send_data, '\n');

    // Echo what was sent into the scrollback.
    write_scrollback(session, formatted_string::with_color(send_data.as_str(), Color::Yellow));

    // Enter the line into the history.
    if index > 0 {
        // The history was scrolled back: reset it, record the submitted
        // text (without the line ending) over the abandoned edit line, and
        // open a fresh empty edit line after it.
        session.history.reset_index();
        let _ = session.history.data.replace_recent(
            0,
            formatted_string::with_format(line_text.as_str(), Format::default()),
        );
        session.history.data.push(FormattedString::new());
    } else {
        // The edit line already holds the text: just open a new one.
        session.history.data.push(FormattedString::new());
    }

    // Reset the caret.
    session.cursor_index = 0;
    send_data
}

} // verus!
