//! Styled text: a character style model (`Style`, `Color`, `Format`) and
//! `FormattedString`, an ordered sequence of characters where each character
//! carries the `Format` that was in effect when it arrived.

use vstd::prelude::*;

use crate::indexed::HasLength;

verus! {

/// Character style attribute of a terminal cell.
#[derive(Debug, Eq, PartialEq, Copy, Clone, Hash)]
pub enum Style {
    Normal,
    Bold,
    Standout,
}

/// Terminal color; `Default` is the terminal's own default color.
#[derive(Debug, Eq, PartialEq, Copy, Clone, Hash)]
pub enum Color {
    Default,
    Black,
    Red,
    Green,
    Yellow,
    Blue,
    Magenta,
    Cyan,
    White,
}

/// The full attribute set applied to one character.
#[derive(Debug, Eq, PartialEq, Copy, Clone, Hash)]
pub struct Format {
    pub style: Style,
    pub fg_color: Color,
    pub bg_color: Color,
}

impl Format {
    /// The format of unstyled text: normal style, default colors.
    pub open spec fn spec_default() -> Format {
        Format { style: Style::Normal, fg_color: Color::Default, bg_color: Color::Default }
    }

    pub fn default() -> (f: Format)
        ensures
            f == Format::spec_default(),
    {
        Format { style: Style::Normal, fg_color: Color::Default, bg_color: Color::Default }
    }

    /// The default format with the given foreground color.
    pub fn with_fg(color: Color) -> (f: Format)
        ensures
            f == (Format { fg_color: color, ..Format::spec_default() }),
    {
        Format { style: Style::Normal, fg_color: color, bg_color: Color::Default }
    }
}

/// A string of characters, each paired with the `Format` it is displayed in.
/// The characters and their formats are kept in lockstep: the view is one
/// sequence of `(char, Format)` pairs.
#[derive(Debug, Eq, PartialEq, Clone, Hash)]
pub struct FormattedString {
    pairs: Vec<(char, Format)>,
}

impl View for FormattedString {
    type V = Seq<(char, Format)>;

    closed spec fn view(&self) -> Seq<(char, Format)> {
        self.pairs@
    }
}

impl FormattedString {
    pub fn new() -> (fs: FormattedString)
        ensures
            fs@ == Seq::<(char, Format)>::empty(),
    {
        FormattedString { pairs: Vec::new() }
    }

    pub fn len(&self) -> (n: usize)
        ensures
            n == self@.len(),
    {
        self.pairs.len()
    }

    /// The character and format stored at position `index`.
    pub fn get(&self, index: usize) -> (cf: (char, Format))
        requires
            index < self@.len(),
        ensures
            cf == self@[index as int],
    {
        self.pairs[index]
    }

    /// Append one formatted character at the end.
    pub fn push(&mut self, ch: char, format: Format)
        ensures
            final(self)@ == old(self)@.push((ch, format)),
    {
        self.pairs.push((ch, format));
    }

    /// Insert a formatted character at position `index`, shifting the rest.
    pub fn insert(&mut self, index: usize, ch: char, format: Format)
        requires
            index <= old(self)@.len(),
        ensures
            final(self)@ == old(self)@.insert(index as int, (ch, format)),
    {
        self.pairs.insert(index, (ch, format));
    }

    /// Remove and return the character at position `index`.
    pub fn remove(&mut self, index: usize) -> (cf: (char, Format))
        requires
            index < old(self)@.len(),
        ensures
            cf == old(self)@[index as int],
            final(self)@ == old(self)@.remove(index as int),
    {
        self.pairs.remove(index)
    }

    /// Remove all characters.
    pub fn clear(&mut self)
        ensures
            final(self)@ == Seq::<(char, Format)>::empty(),
    {
        self.pairs.clear();
    }

    /// Split off and return the tail starting at position `at`, keeping the
    /// prefix in place.
    pub fn split_off(&mut self, at: usize) -> (tail: FormattedString)
        requires
            at <= old(self)@.len(),
        ensures
            final(self)@ == old(self)@.subrange(0, at as int),
            tail@ == old(self)@.subrange(at as int, old(self)@.len() as int),
    {
        let tail_pairs = self.pairs.split_off(at);
        FormattedString { pairs: tail_pairs }
    }

    /// Rewrite the format of the character at position `index`, keeping the
    /// character itself.
    pub fn set_format(&mut self, index: usize, format: Format)
        requires
            index < old(self)@.len(),
        ensures
            final(self)@ == old(self)@.update(
                index as int,
                (old(self)@[index as int].0, format),
            ),
    {
        let ch = self.pairs[index].0;
        self.pairs.set(index, (ch, format));
    }

    /// The sequence of characters, without their formats.
    pub open spec fn spec_chars(&self) -> Seq<char> {
        self@.map_values(|cf: (char, Format)| cf.0)
    }

    /// The plain text of this string, formats dropped.
    pub fn to_str(&self) -> (s: String)
        ensures
            s@ == self.spec_chars(),
    {
        let mut s = String::new();
        let mut i: usize = 0;
        while i < self.pairs.len()
            invariant
                i <= self.pairs@.len(),
                s@ =~= self.spec_chars().subrange(0, i as int),
            decreases self.pairs@.len() - i,
        {
            push_char(&mut s, self.pairs[i].0);
            i = i + 1;
        }
        proof {
            assert(s@ =~= self.spec_chars());
        }
        s
    }

    /// The sequence of formats, one per character.
    pub fn formats(&self) -> (v: Vec<Format>)
        ensures
            v@ == self@.map_values(|cf: (char, Format)| cf.1),
    {
        let mut v: Vec<Format> = Vec::new();
        let mut i: usize = 0;
        while i < self.pairs.len()
            invariant
                i <= self.pairs@.len(),
                v@ =~= self@.map_values(|cf: (char, Format)| cf.1).subrange(0, i as int),
            decreases self.pairs@.len() - i,
        {
            v.push(self.pairs[i].1);
            i = i + 1;
        }
        proof {
            assert(v@ =~= self@.map_values(|cf: (char, Format)| cf.1));
        }
        v
    }
}

impl HasLength for FormattedString {
    open spec fn spec_wf(&self) -> bool {
        true
    }

    open spec fn spec_len(&self) -> nat {
        self@.len()
    }

    fn len(&self) -> (n: usize) {
        FormattedString::len(self)
    }
}

/// Relies on std's `String::push`: appends exactly the given character.
#[verifier::external_body]
pub(crate) fn push_char(s: &mut String, ch: char)
    ensures
        final(s)@ == old(s)@.push(ch),
{
    s.push(ch)
}

/// Build a `FormattedString` from plain text, applying one format to every
/// character.
pub fn with_format(s: &str, format: Format) -> (fs: FormattedString)
    ensures
        fs@ == Seq::new(s@.len(), |i: int| (s@[i], format)),
{
    let n = s.unicode_len();
    let mut fs = FormattedString::new();
    let mut i: usize = 0;
    while i < n
        invariant
            n == s@.len(),
            i <= n,
            fs@ =~= Seq::new(i as nat, |j: int| (s@[j], format)),
        decreases n - i,
    {
        let ch = s.get_char(i);
        fs.push(ch, format);
        proof {
            assert(fs@ =~= Seq::new((i + 1) as nat, |j: int| (s@[j], format)));
        }
        i = i + 1;
    }
    proof {
        assert(fs@ =~= Seq::new(s@.len(), |j: int| (s@[j], format)));
    }
    fs
}

/// Build a `FormattedString` from plain text with the given foreground color.
pub fn with_color(s: &str, color: Color) -> (fs: FormattedString)
    ensures
        fs@ == Seq::new(
            s@.len(),
            |i: int| (s@[i], Format { fg_color: color, ..Format::spec_default() }),
        ),
{
    with_format(s, Format::with_fg(color))
}

/// The format after one markup escape character: `x` resets, a color letter
/// sets the foreground, `h` sets standout; anything else is ignored.
pub open spec fn markup_escape_format(format: Format, c: char) -> Format {
    if c == 'x' {
        Format::spec_default()
    } else if c == 'b' {
        Format { fg_color: Color::Black, ..format }
    } else if c == 'r' {
        Format { fg_color: Color::Red, ..format }
    } else if c == 'g' {
        Format { fg_color: Color::Green, ..format }
    } else if c == 'y' {
        Format { fg_color: Color::Yellow, ..format }
    } else if c == 'u' {
        Format { fg_color: Color::Blue, ..format }
    } else if c == 'm' {
        Format { fg_color: Color::Magenta, ..format }
    } else if c == 'c' {
        Format { fg_color: Color::Cyan, ..format }
    } else if c == 'w' {
        Format { fg_color: Color::White, ..format }
    } else if c == 'h' {
        Format { style: Style::Standout, ..format }
    } else {
        format
    }
}

/// Reading markup text from position `i` on: `{` opens an escape; an escaped
/// `{` is a literal brace; other escaped characters change the running
/// format and produce nothing.
pub open spec fn markup_fold(
    s: Seq<char>,
    i: int,
    escape: bool,
    format: Format,
    out: Seq<(char, Format)>,
) -> Seq<(char, Format)>
    decreases s.len() - i when 0 <= i <= s.len()
{
    if i >= s.len() {
        out
    } else {
        let c = s[i];
        if escape {
            if c == '{' {
                markup_fold(s, i + 1, false, format, out.push(('{', format)))
            } else {
                markup_fold(s, i + 1, false, markup_escape_format(format, c), out)
            }
        } else if c == '{' {
            markup_fold(s, i + 1, true, format, out)
        } else {
            markup_fold(s, i + 1, false, format, out.push((c, format)))
        }
    }
}

/// Build a `FormattedString` from markup text, where `{x` resets the format,
/// `{b` through `{w` pick a foreground color, `{h` sets standout, and `{{`
/// is a literal brace.
pub fn from_markup(s: &str) -> (fs: FormattedString)
    ensures
        fs@ == markup_fold(s@, 0, false, Format::spec_default(), Seq::empty()),
{
    let n = s.unicode_len();
    let mut fs = FormattedString::new();
    let mut format = Format::default();
    let mut escape = false;
    let mut i: usize = 0;
    while i < n
        invariant
            i <= n == s@.len(),
            markup_fold(s@, i as int, escape, format, fs@) == markup_fold(
                s@,
                0,
                false,
                Format::spec_default(),
                Seq::empty(),
            ),
        decreases n - i,
    {
        let c = s.get_char(i);
        if escape {
            if c == '{' {
                fs.push(c, format);
            } else if c == 'x' {
                format = Format::default();
            } else if c == 'b' {
                format.fg_color = Color::Black;
            } else if c == 'r' {
                format.fg_color = Color::Red;
            } else if c == 'g' {
                format.fg_color = Color::Green;
            } else if c == 'y' {
                format.fg_color = Color::Yellow;
            } else if c == 'u' {
                format.fg_color = Color::Blue;
            } else if c == 'm' {
                format.fg_color = Color::Magenta;
            } else if c == 'c' {
                format.fg_color = Color::Cyan;
            } else if c == 'w' {
                format.fg_color = Color::White;
            } else if c == 'h' {
                format.style = Style::Standout;
            }
            // Unknown escape characters are ignored.
            escape = false;
        } else if c == '{' {
            escape = true;
        } else {
            fs.push(c, format);
        }
        i = i + 1;
    }
    fs
}

/// The plain text of a formatted string, formats dropped.
pub fn to_string(fs: &FormattedString) -> (s: String)
    ensures
        s@ == fs.spec_chars(),
{
    fs.to_str()
}

} // verus!
