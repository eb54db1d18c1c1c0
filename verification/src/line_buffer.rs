//! A line-oriented store of formatted text built over a circular line vector:
//! carriage returns are dropped, newlines start a new line (evicting the
//! oldest once the line bound is reached), and an optional maximum line
//! length inserts an automatic break before an overflowing character.

use vstd::prelude::*;

use crate::formatted_string::{Format, FormattedString};

verus! {

/// Line-oriented buffer of `FormattedString` lines. The view presents the
/// lines in chronological order, oldest first; the last line of the view is
/// the line currently being appended to.
#[derive(Debug, Eq, PartialEq)]
pub struct LineBuffer {
    lines: Vec<FormattedString>,
    max_lines: Option<usize>,
    max_line_length: Option<usize>,
    line_index: usize,
}

impl View for LineBuffer {
    type V = Seq<Seq<(char, Format)>>;

    /// The lines in chronological order, each as its character sequence.
    closed spec fn view(&self) -> Seq<Seq<(char, Format)>> {
        let phys = self.lines@.map_values(|l: FormattedString| l@);
        phys.subrange(self.line_index + 1, phys.len() as int) + phys.subrange(
            0,
            self.line_index + 1,
        )
    }
}

/// Advance to a new empty line: evict the oldest line once a meaningful
/// bound is reached, otherwise grow.
pub open spec fn lines_advance(lines: Seq<Seq<(char, Format)>>, max_lines: Option<usize>) -> Seq<
    Seq<(char, Format)>,
> {
    let evict = match max_lines {
        Some(m) => lines.len() == m,
        None => false,
    };
    if evict {
        lines.subrange(1, lines.len() as int).push(Seq::empty())
    } else {
        lines.push(Seq::empty())
    }
}

/// The effect of feeding one character: `\r` is dropped, `\n` starts a new
/// line, an ordinary character lands on the current line, preceded by an
/// automatic line break when the current line is exactly at the length bound.
pub open spec fn lines_push_char(
    lines: Seq<Seq<(char, Format)>>,
    max_lines: Option<usize>,
    max_line_length: Option<usize>,
    ch: char,
    format: Format,
) -> Seq<Seq<(char, Format)>>
    recommends
        lines.len() >= 1,
{
    if ch == '\r' {
        lines
    } else if ch == '\n' {
        lines_advance(lines, max_lines)
    } else {
        let wrap = match max_line_length {
            Some(maxl) => lines.last().len() == maxl,
            None => false,
        };
        if wrap {
            let advanced = lines_advance(lines, max_lines);
            advanced.update(advanced.len() - 1, advanced.last().push((ch, format)))
        } else {
            lines.update(lines.len() - 1, lines.last().push((ch, format)))
        }
    }
}

/// The effect of feeding a whole formatted string, character by character.
pub open spec fn lines_push_string(
    lines: Seq<Seq<(char, Format)>>,
    max_lines: Option<usize>,
    max_line_length: Option<usize>,
    s: Seq<(char, Format)>,
) -> Seq<Seq<(char, Format)>>
    decreases s.len(),
{
    if s.len() == 0 {
        lines
    } else {
        lines_push_string(
            lines_push_char(lines, max_lines, max_line_length, s[0].0, s[0].1),
            max_lines,
            max_line_length,
            s.subrange(1, s.len() as int),
        )
    }
}

impl LineBuffer {
    /// The line bound this buffer was created with.
    pub closed spec fn spec_max_lines(&self) -> Option<usize> {
        self.max_lines
    }

    /// The line length bound this buffer was created with.
    pub closed spec fn spec_max_line_length(&self) -> Option<usize> {
        self.max_line_length
    }

    /// Well-formed: there is always a current line, the line cursor stays in
    /// range, a meaningful bound is respected, and while the buffer has not
    /// wrapped the current line is the last stored one.
    pub closed spec fn wf(&self) -> bool {
        &&& 1 <= self.lines@.len()
        &&& self.line_index < self.lines@.len()
        &&& match self.max_lines {
            None => self.line_index == self.lines@.len() - 1,
            Some(m) => if m >= 1 {
                self.lines@.len() <= m && (self.lines@.len() < m ==> self.line_index
                    == self.lines@.len() - 1)
            } else {
                self.line_index == self.lines@.len() - 1
            },
        }
    }

    pub fn new(max_lines: Option<usize>, max_line_length: Option<usize>) -> (buf: LineBuffer)
        ensures
            buf.wf(),
            buf@ =~= seq![Seq::<(char, Format)>::empty()],
            buf.spec_max_lines() == max_lines,
            buf.spec_max_line_length() == max_line_length,
    {
        let mut lines: Vec<FormattedString> = Vec::new();
        lines.push(FormattedString::new());
        let buf = LineBuffer { lines, max_lines, max_line_length, line_index: 0 };
        proof {
            assert(buf@ =~= seq![Seq::<(char, Format)>::empty()]);
        }
        buf
    }

    /// The number of lines stored, the current line included.
    pub fn len(&self) -> (n: usize)
        requires
            self.wf(),
        ensures
            n == self@.len(),
    {
        self.lines.len()
    }

    /// End the current line and start a new empty one, evicting the oldest
    /// line once the line bound is reached.
    pub fn move_to_next_line(&mut self)
        requires
            old(self).wf(),
        ensures
            final(self).wf(),
            final(self).spec_max_lines() == old(self).spec_max_lines(),
            final(self).spec_max_line_length() == old(self).spec_max_line_length(),
            final(self)@ == lines_advance(old(self)@, old(self).spec_max_lines()),
    {
        let len = self.lines.len();
        let evict = match self.max_lines {
            Some(m) => len == m,
            None => false,
        };
        if evict {
            self.line_index = if self.line_index + 1 == len {
                0
            } else {
                self.line_index + 1
            };
            self.lines.set(self.line_index, FormattedString::new());
            proof {
                assert(self@ =~= lines_advance(old(self)@, old(self).spec_max_lines()));
            }
        } else {
            self.lines.push(FormattedString::new());
            self.line_index = self.line_index + 1;
            proof {
                assert(self@ =~= lines_advance(old(self)@, old(self).spec_max_lines()));
            }
        }
    }

    /// Feed one character into the buffer.
    pub fn push_single(&mut self, ch: char, format: Format)
        requires
            old(self).wf(),
        ensures
            final(self).wf(),
            final(self).spec_max_lines() == old(self).spec_max_lines(),
            final(self).spec_max_line_length() == old(self).spec_max_line_length(),
            final(self)@ == lines_push_char(
                old(self)@,
                old(self).spec_max_lines(),
                old(self).spec_max_line_length(),
                ch,
                format,
            ),
    {
        if ch == '\r' {
            return ;
        }
        if ch == '\n' {
            self.move_to_next_line();
            return ;
        }
        let wrap = match self.max_line_length {
            Some(maxl) => self.lines[self.line_index].len() == maxl,
            None => false,
        };
        proof {
            assert(self.lines@[self.line_index as int]@ == self@.last());
        }
        if wrap {
            self.move_to_next_line();
        }
        let li = self.line_index;
        let line = &mut self.lines[li];
        line.push(ch, format);
        proof {
            assert(self@ =~= lines_push_char(
                old(self)@,
                old(self).spec_max_lines(),
                old(self).spec_max_line_length(),
                ch,
                format,
            ));
        }
    }

    /// Feed a whole formatted string, character by character.
    pub fn push(&mut self, data: &FormattedString)
        requires
            old(self).wf(),
        ensures
            final(self).wf(),
            final(self).spec_max_lines() == old(self).spec_max_lines(),
            final(self).spec_max_line_length() == old(self).spec_max_line_length(),
            final(self)@ == lines_push_string(
                old(self)@,
                old(self).spec_max_lines(),
                old(self).spec_max_line_length(),
                data@,
            ),
    {
        let n = data.len();
        proof {
            assert(data@.subrange(0, n as int) =~= data@);
        }
        let mut i: usize = 0;
        while i < n
            invariant
                self.wf(),
                self.spec_max_lines() == old(self).spec_max_lines(),
                self.spec_max_line_length() == old(self).spec_max_line_length(),
                i <= n == data@.len(),
                lines_push_string(
                    self@,
                    self.spec_max_lines(),
                    self.spec_max_line_length(),
                    data@.subrange(i as int, n as int),
                ) == lines_push_string(
                    old(self)@,
                    old(self).spec_max_lines(),
                    old(self).spec_max_line_length(),
                    data@,
                ),
            decreases n - i,
        {
            let cf = data.get(i);
            let ghost rest = data@.subrange(i as int, n as int);
            self.push_single(cf.0, cf.1);
            proof {
                assert(rest[0] == data@[i as int]);
                assert(rest.subrange(1, rest.len() as int) =~= data@.subrange(
                    i + 1,
                    n as int,
                ));
            }
            i = i + 1;
        }
        proof {
            assert(data@.subrange(n as int, n as int) =~= Seq::<(char, Format)>::empty());
        }
    }

    /// The line `scroll` positions back from the newest (0 is the line
    /// currently being appended to). A position at or past the line count
    /// is a caller error, ruled out here.
    pub fn get_line(&self, scroll: usize) -> (line: &FormattedString)
        requires
            self.wf(),
            scroll < self@.len(),
        ensures
            line@ == self@[self@.len() - 1 - scroll],
    {
        if scroll <= self.line_index {
            &self.lines[self.line_index - scroll]
        } else {
            &self.lines[self.line_index + (self.lines.len() - scroll)]
        }
    }

    /// Up to `max_count` lines in chronological order, ending `scroll` lines
    /// back from the newest. A scroll past the oldest line gives an empty
    /// result; near the start of the buffer fewer lines than requested come
    /// back.
    pub fn get_lines(&self, scroll: usize, max_count: usize) -> (result: Vec<&FormattedString>)
        requires
            self.wf(),
        ensures
            result@.len() == if scroll < self@.len() {
                if max_count <= self@.len() - scroll {
                    max_count as int
                } else {
                    self@.len() - scroll
                }
            } else {
                0
            },
            forall|i: int|
                0 <= i < result@.len() ==> (#[trigger] result@[i])@ == self@[self@.len() - scroll
                    - result@.len() + i],
    {
        let mut result: Vec<&FormattedString> = Vec::new();
        let len = self.lines.len();
        if scroll >= len {
            return result;
        }
        let avail = len - scroll;
        let count = if max_count <= avail {
            max_count
        } else {
            avail
        };
        let mut i: usize = 0;
        while i < count
            invariant
                self.wf(),
                count <= avail == len - scroll,
                scroll < len == self@.len(),
                i <= count,
                result@.len() == i,
                forall|j: int|
                    0 <= j < i ==> (#[trigger] result@[j])@ == self@[self@.len() - scroll - count
                        + j],
            decreases count - i,
        {
            // Chronological target: len - scroll - count + i, addressed as a
            // scroll-back distance from the newest line.
            let line = self.get_line(scroll + count - 1 - i);
            result.push(line);
            i = i + 1;
        }
        result
    }

    /// The lines from chronological position `start_line` on, oldest first.
    pub fn iter(&self, start_line: usize) -> (result: Vec<&FormattedString>)
        requires
            self.wf(),
        ensures
            result@.len() == if start_line <= self@.len() {
                self@.len() - start_line
            } else {
                0
            },
            forall|i: int|
                0 <= i < result@.len() ==> (#[trigger] result@[i])@ == self@[start_line + i],
    {
        let len = self.lines.len();
        let skip = if start_line < len {
            start_line
        } else {
            len
        };
        let count = len - skip;
        let mut result: Vec<&FormattedString> = Vec::new();
        let mut i: usize = 0;
        while i < count
            invariant
                self.wf(),
                skip + count == len == self@.len(),
                i <= count,
                result@.len() == i,
                forall|j: int|
                    0 <= j < i ==> (#[trigger] result@[j])@ == self@[skip + j],
            decreases count - i,
        {
            let line = self.get_line(len - 1 - (skip + i));
            result.push(line);
            i = i + 1;
        }
        result
    }

    /// The newest `scroll + 1` lines in chronological order; scrolling past
    /// the oldest line gives all lines.
    pub fn scrollback(&self, scroll: usize) -> (result: Vec<&FormattedString>)
        requires
            self.wf(),
        ensures
            result@.len() == if scroll < self@.len() {
                scroll + 1
            } else {
                self@.len() as int
            },
            forall|i: int|
                0 <= i < result@.len() ==> (#[trigger] result@[i])@ == self@[self@.len()
                    - result@.len() + i],
    {
        let start_line = if scroll >= self.lines.len() {
            // Scrolled back past the oldest line: start there.
            0
        } else {
            self.lines.len() - scroll - 1
        };
        self.iter(start_line)
    }
}

} // verus!
