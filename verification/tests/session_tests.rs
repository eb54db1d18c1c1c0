use tome::actions::{
    backspace_input, cursor_left, cursor_right, delete_input_char, delete_to_cursor,
    history_next, history_prev, insert_input_char, next_page, prev_page, send_input,
    write_scrollback,
};
use tome::formatted_string::{from_markup, to_string, with_color, with_format, Color, Format,
    FormattedString, Style};
use tome::search::search_buffer;
use tome::{ParseState, RingBuffer, ScriptAction, Session};

fn type_line(session: &mut Session, text: &str) {
    for ch in text.chars() {
        insert_input_char(session, ch);
    }
}

#[test]
fn session_starts_empty() {
    let session = Session::new();
    assert_eq!(session.telnet_state, ParseState::NotInProgress);
    assert_eq!(session.esc_seq_state, ParseState::NotInProgress);
    assert_eq!(session.char_format, Format::default());
    assert_eq!(session.cursor_index, 0);
    assert_eq!(session.history.index(), 0);
    assert_eq!(session.scrollback_buf.index(), 0);
    assert_eq!(session.history.data.len(), 1);
    assert_eq!(session.scrollback_buf.data.len(), 1);
}

#[test]
fn insert_and_edit_input_line() {
    let mut session = Session::new();
    type_line(&mut session, "helo");
    assert_eq!(session.cursor_index, 4);
    cursor_left(&mut session);
    assert_eq!(session.cursor_index, 3);
    insert_input_char(&mut session, 'l');
    assert_eq!(to_string(session.history.data.get_recent(0)), "hello");
    assert_eq!(session.cursor_index, 4);
    cursor_right(&mut session);
    assert_eq!(session.cursor_index, 5);
    // At the end of the line the caret stays put.
    cursor_right(&mut session);
    assert_eq!(session.cursor_index, 5);
}

#[test]
fn backspace_removes_before_caret() {
    let mut session = Session::new();
    type_line(&mut session, "abc");
    backspace_input(&mut session);
    assert_eq!(to_string(session.history.data.get_recent(0)), "ab");
    assert_eq!(session.cursor_index, 2);
    cursor_left(&mut session);
    cursor_left(&mut session);
    // At the start of the line backspace is a no-op.
    backspace_input(&mut session);
    assert_eq!(to_string(session.history.data.get_recent(0)), "ab");
}

#[test]
fn delete_removes_under_caret() {
    let mut session = Session::new();
    type_line(&mut session, "abc");
    // At the end of the line delete is a no-op.
    delete_input_char(&mut session);
    assert_eq!(to_string(session.history.data.get_recent(0)), "abc");
    cursor_left(&mut session);
    cursor_left(&mut session);
    delete_input_char(&mut session);
    assert_eq!(to_string(session.history.data.get_recent(0)), "ac");
    assert_eq!(session.cursor_index, 1);
}

#[test]
fn delete_to_cursor_keeps_tail() {
    let mut session = Session::new();
    type_line(&mut session, "hello world");
    for _ in 0..5 {
        cursor_left(&mut session);
    }
    delete_to_cursor(&mut session);
    assert_eq!(to_string(session.history.data.get_recent(0)), "world");
    assert_eq!(session.cursor_index, 0);
}

#[test]
fn send_input_echoes_and_records_history() {
    let mut session = Session::new();
    type_line(&mut session, "look");
    let sent = send_input(&mut session);
    assert_eq!(sent, "look\r\n");
    assert_eq!(session.cursor_index, 0);
    assert_eq!(session.history.index(), 0);
    // The history now holds the sent line and a fresh empty edit line.
    assert_eq!(session.history.data.len(), 2);
    assert_eq!(to_string(session.history.data.get_recent(1)), "look");
    assert_eq!(to_string(session.history.data.get_recent(0)), "");
    // The echo went to the scrollback in yellow; the newline opened a line.
    assert_eq!(session.scrollback_buf.data.len(), 2);
    let echoed = session.scrollback_buf.data.get_recent(1);
    assert_eq!(to_string(echoed), "look");
    assert_eq!(echoed.get(0).1.fg_color, Color::Yellow);
}

#[test]
fn send_input_from_scrolled_back_history() {
    let mut session = Session::new();
    type_line(&mut session, "first");
    send_input(&mut session);
    // Recall the older entry and submit it again.
    history_prev(&mut session);
    assert_eq!(session.history.index(), 1);
    let sent = send_input(&mut session);
    assert_eq!(sent, "first\r\n");
    // The submitted text (without the line ending) replaces the abandoned
    // edit line, and a fresh empty edit line follows it.
    assert_eq!(session.history.data.len(), 3);
    assert_eq!(to_string(session.history.data.get_recent(2)), "first");
    assert_eq!(to_string(session.history.data.get_recent(1)), "first");
    assert_eq!(to_string(session.history.data.get_recent(0)), "");
    assert_eq!(session.history.index(), 0);
    assert_eq!(session.cursor_index, 0);
}

#[test]
fn history_navigation_moves_caret_to_line_end() {
    let mut session = Session::new();
    type_line(&mut session, "first");
    send_input(&mut session);
    type_line(&mut session, "second!");
    send_input(&mut session);
    history_prev(&mut session);
    assert_eq!(session.history.index(), 1);
    assert_eq!(
        to_string(session.history.data.get_recent(session.history.index())),
        "second!"
    );
    assert_eq!(session.cursor_index, 7);
    history_next(&mut session);
    assert_eq!(session.history.index(), 0);
    assert_eq!(session.cursor_index, 0);
}

#[test]
fn scrollback_paging_clamps() {
    let mut session = Session::new();
    write_scrollback(&mut session, with_format("a\nb\nc\n", Format::default()));
    assert_eq!(session.scrollback_buf.data.len(), 4);
    prev_page(&mut session);
    prev_page(&mut session);
    assert_eq!(session.scrollback_buf.index(), 2);
    for _ in 0..10 {
        prev_page(&mut session);
    }
    // Clamped below the number of lines.
    assert_eq!(session.scrollback_buf.index(), 3);
    next_page(&mut session);
    assert_eq!(session.scrollback_buf.index(), 2);
    for _ in 0..10 {
        next_page(&mut session);
    }
    assert_eq!(session.scrollback_buf.index(), 0);
}

#[test]
fn write_scrollback_is_line_aware() {
    let mut session = Session::new();
    write_scrollback(
        &mut session,
        with_color("one\r\ntwo\nthree", Color::Cyan),
    );
    assert_eq!(session.scrollback_buf.data.len(), 3);
    assert_eq!(to_string(session.scrollback_buf.data.get_recent(2)), "one");
    assert_eq!(to_string(session.scrollback_buf.data.get_recent(1)), "two");
    assert_eq!(to_string(session.scrollback_buf.data.get_recent(0)), "three");
    assert_eq!(
        session.scrollback_buf.data.get_recent(0).get(0).1.fg_color,
        Color::Cyan
    );
}

#[test]
fn search_buffer_finds_most_recent_match_first() {
    let mut buffer: RingBuffer<FormattedString> = RingBuffer::new(None);
    buffer.push(with_format("the dragon roars", Format::default()));
    buffer.push(with_format("a quiet room", Format::default()));
    buffer.push(with_format("the dragon sleeps", Format::default()));
    buffer.push(with_format("> ", Format::default()));

    let result = search_buffer(&buffer, "dragon", 0).unwrap().unwrap();
    assert_eq!(result.line_number, 1);
    assert_eq!(result.begin_index, 4);
    assert_eq!(result.end_index, 10);

    // Starting past the first match finds the older one.
    let result = search_buffer(&buffer, "dragon", 2).unwrap().unwrap();
    assert_eq!(result.line_number, 3);

    assert_eq!(search_buffer(&buffer, "unicorn", 0).unwrap(), None);

    // Starting past the oldest line there is nothing to scan.
    assert_eq!(search_buffer(&buffer, "dragon", 10).unwrap(), None);
    // ... but an invalid pattern is still an error.
    assert!(search_buffer(&buffer, "(oops", 10).is_err());
}

#[test]
fn search_buffer_rejects_invalid_pattern() {
    let mut buffer: RingBuffer<FormattedString> = RingBuffer::new(None);
    buffer.push(with_format("anything", Format::default()));
    assert!(search_buffer(&buffer, "(unclosed", 0).is_err());
}

#[test]
fn formatted_string_tests() {
    let mut str1 = FormattedString::new();
    assert_eq!(str1.to_str(), "");
    assert_eq!(str1.formats(), Vec::<Format>::new());
    str1.push('a', Format::with_fg(Color::Red));
    str1.push('b', Format::with_fg(Color::Blue));
    assert_eq!(str1.to_str(), "ab");
    assert_eq!(
        str1.formats(),
        vec![Format::with_fg(Color::Red), Format::with_fg(Color::Blue)]
    );

    let str2 = with_format("testing", Format::default());
    assert_eq!(str2.to_str(), "testing");
    assert_eq!(str2.formats(), vec![Format::default(); 7]);

    let str3 = with_color("hello world", Color::Green);
    assert_eq!(str3.to_str(), "hello world");
    assert_eq!(str3.formats(), vec![Format::with_fg(Color::Green); 11]);
}

#[test]
fn from_markup_reads_color_escapes() {
    let fs = from_markup("{rred{x and {{plain");
    assert_eq!(fs.to_str(), "red and {plain");
    assert_eq!(fs.get(0).1.fg_color, Color::Red);
    assert_eq!(fs.get(2).1.fg_color, Color::Red);
    // After the reset the default format applies again.
    assert_eq!(fs.get(3).1, Format::default());
    // The literal brace keeps the format in effect before it.
    assert_eq!(fs.get(8).1, Format::default());
}

#[test]
fn from_markup_standout_and_unknown_escape() {
    let fs = from_markup("{hbright{zq");
    assert_eq!(fs.to_str(), "brightq");
    assert_eq!(fs.get(0).1.style, Style::Standout);
    // The unknown escape character changed nothing and produced nothing.
    assert_eq!(fs.get(6).1.style, Style::Standout);
}

#[test]
fn set_format_rewrites_attribute_in_place() {
    let mut fs = with_format("ab", Format::default());
    fs.set_format(1, Format::with_fg(Color::Magenta));
    assert_eq!(fs.to_str(), "ab");
    assert_eq!(fs.get(0).1, Format::default());
    assert_eq!(fs.get(1).1, Format::with_fg(Color::Magenta));
}

#[test]
fn script_actions_compare_by_value() {
    let a = ScriptAction::SendInput("north".to_string());
    let b = ScriptAction::SendInput("north".to_string());
    assert_eq!(a, b);
    assert_ne!(a, ScriptAction::ReloadConfig);
    let fs = with_color("hi", Color::Red);
    assert_eq!(
        ScriptAction::WriteScrollback(fs.clone()),
        ScriptAction::WriteScrollback(fs)
    );
    assert_ne!(
        ScriptAction::SearchBackwards("a".to_string()),
        ScriptAction::Reconnect
    );
}
