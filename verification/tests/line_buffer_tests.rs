use tome::formatted_string::{with_format, Color, Format, FormattedString, Style};
use tome::LineBuffer;

#[test]
fn test_line_buffer_iter_no_wrap() {
    let mut buffer = LineBuffer::new(Some(4), None);
    buffer.push(&with_format("abc\ndef\nghi\n", Format::default()));

    let items = buffer.iter(0);
    assert_eq!(items.len(), 4);
    assert_eq!(items[0], &with_format("abc", Format::default()));
    assert_eq!(items[1], &with_format("def", Format::default()));
    assert_eq!(items[2], &with_format("ghi", Format::default()));
    assert_eq!(items[3], &with_format("", Format::default()));

    let items = buffer.iter(1);
    assert_eq!(items.len(), 3);
    assert_eq!(items[0], &with_format("def", Format::default()));
    assert_eq!(items[1], &with_format("ghi", Format::default()));
    assert_eq!(items[2], &with_format("", Format::default()));

    let items = buffer.iter(2);
    assert_eq!(items.len(), 2);
    assert_eq!(items[0], &with_format("ghi", Format::default()));
    assert_eq!(items[1], &with_format("", Format::default()));

    let items = buffer.iter(3);
    assert_eq!(items.len(), 1);
    assert_eq!(items[0], &with_format("", Format::default()));

    let items = buffer.iter(4);
    assert_eq!(items.len(), 0);
}

#[test]
fn test_line_buffer_iter_with_wrap() {
    // Buffer with wrapping.
    let mut buffer = LineBuffer::new(Some(3), None);
    buffer.push(&with_format("abc\ndef\nghi\njkl", Format::default()));

    let items = buffer.iter(0);
    assert_eq!(items.len(), 3);
    assert_eq!(items[0], &with_format("def", Format::default()));
    assert_eq!(items[1], &with_format("ghi", Format::default()));
    assert_eq!(items[2], &with_format("jkl", Format::default()));
}

#[test]
fn test_line_buffer_scrollback_no_wrap() {
    let mut buffer = LineBuffer::new(Some(4), None);
    buffer.push(&with_format("abc\ndef\nghi\n", Format::default()));

    let items = buffer.scrollback(0);
    assert_eq!(items.len(), 1);
    assert_eq!(items[0], &with_format("", Format::default()));

    let items = buffer.scrollback(1);
    assert_eq!(items.len(), 2);
    assert_eq!(items[0], &with_format("ghi", Format::default()));
    assert_eq!(items[1], &with_format("", Format::default()));

    let items = buffer.scrollback(2);
    assert_eq!(items.len(), 3);
    assert_eq!(items[0], &with_format("def", Format::default()));
    assert_eq!(items[1], &with_format("ghi", Format::default()));
    assert_eq!(items[2], &with_format("", Format::default()));

    let items = buffer.scrollback(3);
    assert_eq!(items.len(), 4);
    assert_eq!(items[0], &with_format("abc", Format::default()));
    assert_eq!(items[1], &with_format("def", Format::default()));
    assert_eq!(items[2], &with_format("ghi", Format::default()));
    assert_eq!(items[3], &with_format("", Format::default()));

    let items = buffer.scrollback(4);
    assert_eq!(items.len(), 4);
    assert_eq!(items[0], &with_format("abc", Format::default()));
    assert_eq!(items[1], &with_format("def", Format::default()));
    assert_eq!(items[2], &with_format("ghi", Format::default()));
    assert_eq!(items[3], &with_format("", Format::default()));
}

#[test]
fn test_line_buffer_scrollback_with_wrap() {
    // Buffer with wrapping.
    let mut buffer = LineBuffer::new(Some(3), None);
    buffer.push(&with_format("abc\ndef\nghi\njkl", Format::default()));

    let items = buffer.scrollback(1);
    assert_eq!(items.len(), 2);
    assert_eq!(items[0], &with_format("ghi", Format::default()));
    assert_eq!(items[1], &with_format("jkl", Format::default()));
}

#[test]
fn line_buffer_get_lines() {
    let mut line_buffer = LineBuffer::new(Some(3), None);
    let format = Format {
        style: Style::Normal,
        fg_color: Color::Default,
        bg_color: Color::Default,
    };
    let test_str = with_format("Hello\nworld\nthis\nis\na\ntest", format);
    line_buffer.push(&test_str);

    assert_eq!(line_buffer.get_lines(0, 1), vec![&with_format("test", format)]);
    assert_eq!(line_buffer.get_lines(1, 1), vec![&with_format("a", format)]);
    assert_eq!(line_buffer.get_lines(2, 1), vec![&with_format("is", format)]);
    assert_eq!(line_buffer.get_lines(3, 1), Vec::<&FormattedString>::new());

    assert_eq!(
        line_buffer.get_lines(0, 2),
        vec![&with_format("a", format), &with_format("test", format)]
    );
    assert_eq!(
        line_buffer.get_lines(1, 2),
        vec![&with_format("is", format), &with_format("a", format)]
    );
    assert_eq!(line_buffer.get_lines(2, 2), vec![&with_format("is", format)]);
    assert_eq!(line_buffer.get_lines(3, 2), Vec::<&FormattedString>::new());

    assert_eq!(
        line_buffer.get_lines(0, 3),
        vec![
            &with_format("is", format),
            &with_format("a", format),
            &with_format("test", format)
        ]
    );
    assert_eq!(
        line_buffer.get_lines(1, 3),
        vec![&with_format("is", format), &with_format("a", format)]
    );
    assert_eq!(line_buffer.get_lines(2, 3), vec![&with_format("is", format)]);
    assert_eq!(line_buffer.get_lines(3, 3), Vec::<&FormattedString>::new());
    assert_eq!(line_buffer.get_lines(4, 3), Vec::<&FormattedString>::new());
    assert_eq!(line_buffer.get_lines(5, 3), Vec::<&FormattedString>::new());
}

#[test]
fn line_buffer_max_length() {
    let mut line_buffer = LineBuffer::new(None, Some(5));
    let format = Format {
        style: Style::Normal,
        fg_color: Color::Default,
        bg_color: Color::Default,
    };
    let test_str = with_format("Hello world this is a test", format);
    line_buffer.push(&test_str);
    assert_eq!(
        line_buffer.get_lines(0, 50),
        vec![
            &with_format("Hello", format),
            &with_format(" worl", format),
            &with_format("d thi", format),
            &with_format("s is ", format),
            &with_format("a tes", format),
            &with_format("t", format)
        ]
    );
}

#[test]
fn line_buffer_get_line_counts_back_from_newest() {
    let mut buffer = LineBuffer::new(Some(3), None);
    buffer.push(&with_format("one\ntwo\nthree", Format::default()));
    assert_eq!(buffer.len(), 3);
    assert_eq!(buffer.get_line(0), &with_format("three", Format::default()));
    assert_eq!(buffer.get_line(1), &with_format("two", Format::default()));
    assert_eq!(buffer.get_line(2), &with_format("one", Format::default()));
}

#[test]
fn line_buffer_drops_carriage_returns() {
    let mut buffer = LineBuffer::new(None, None);
    buffer.push(&with_format("ab\r\ncd\r", Format::default()));
    let items = buffer.iter(0);
    assert_eq!(items.len(), 2);
    assert_eq!(items[0], &with_format("ab", Format::default()));
    assert_eq!(items[1], &with_format("cd", Format::default()));
}
