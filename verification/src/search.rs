//! Backwards search through a buffer of formatted lines with a user-supplied
//! regular expression. The regular expression engine itself is outside the
//! core; what the search returns about line numbers and scan order is
//! verified against the engine's stated behavior.

use vstd::prelude::*;

use crate::formatted_string::FormattedString;
use crate::ring_buffer::RingBuffer;

verus! {

/// Whether the given pattern is a valid regular expression.
pub uninterp spec fn regex_compiles(pattern: Seq<char>) -> bool;

/// The byte range of the first match of the pattern in the text, if any.
pub uninterp spec fn regex_find(pattern: Seq<char>, text: Seq<char>) -> Option<(usize, usize)>;

/// Relies on regex's `Regex::new`: whether a pattern is a valid regular
/// expression depends on the pattern alone. The error carries the engine's
/// description of the fault.
#[verifier::external_body]
fn regex_validate(pattern: &str) -> (r: Result<(), String>)
    ensures
        r is Ok <==> regex_compiles(pattern@),
{
    match regex::Regex::new(pattern) {
        Ok(_) => Ok(()),
        Err(e) => Err(format!("{}", e)),
    }
}

/// Relies on regex's `Regex::new` and `Regex::find`: compiling a valid
/// pattern and searching a text is deterministic, so the byte range of the
/// first match depends on the pattern and the text alone. The compiled
/// program cannot be held across calls here, so each call compiles anew.
#[verifier::external_body]
fn regex_find_first(pattern: &str, text: &str) -> (r: Option<(usize, usize)>)
    requires
        regex_compiles(pattern@),
    ensures
        r == regex_find(pattern@, text@),
{
    match regex::Regex::new(pattern) {
        Ok(re) => re.find(text).map(|m| (m.start(), m.end())),
        Err(_) => None,
    }
}

/// Where a match was found: which line (counted back from the newest) and
/// the match's byte range within that line's text.
#[derive(Debug, Eq, PartialEq, Copy, Clone)]
pub struct SearchResult {
    pub line_number: usize,
    pub begin_index: usize,
    pub end_index: usize,
}

/// The text of the line `i` positions back from the newest, as characters.
pub open spec fn recent_line_chars(lines: Seq<FormattedString>, i: int) -> Seq<char> {
    lines[lines.len() - 1 - i].spec_chars()
}

/// Search the buffer from `starting_line` (counted back from the newest
/// line) toward older lines for the first line that matches the pattern.
/// An invalid pattern is an error; otherwise the first matching line is
/// returned with its match range, or nothing when no line from the starting
/// point on matches.
pub fn search_buffer(
    buffer: &RingBuffer<FormattedString>,
    search_str: &str,
    starting_line: usize,
) -> (r: Result<Option<SearchResult>, String>)
    requires
        buffer.wf(),
    ensures
        r is Err <==> !regex_compiles(search_str@),
        r matches Ok(Some(res)) ==> {
            &&& starting_line <= res.line_number < buffer@.len()
            &&& regex_find(search_str@, recent_line_chars(buffer@, res.line_number as int))
                == Some((res.begin_index, res.end_index))
            &&& forall|j: int|
                starting_line <= j < res.line_number ==> regex_find(
                    search_str@,
                    #[trigger] recent_line_chars(buffer@, j),
                ) is None
        },
        r matches Ok(found) && found is None ==> forall|j: int|
            starting_line <= j < buffer@.len() ==> regex_find(
                search_str@,
                #[trigger] recent_line_chars(buffer@, j),
            ) is None,
{
    // Compile the pattern once, so that a bad pattern is an error even when
    // there is nothing to scan.
    if let Err(e) = regex_validate(search_str) {
        return Err(e);
    }

    // Scan from the requested line toward older lines.
    let len = buffer.len();
    let mut i = starting_line;
    while i < len
        invariant
            starting_line <= i,
            len == buffer@.len(),
            buffer.wf(),
            regex_compiles(search_str@),
            forall|j: int|
                starting_line <= j < i ==> regex_find(
                    search_str@,
                    #[trigger] recent_line_chars(buffer@, j),
                ) is None,
        decreases len - i,
    {
        let line = buffer.get_recent(i).to_str();
        match regex_find_first(search_str, line.as_str()) {
            Some(found) => {
                return Ok(
                    Some(
                        SearchResult {
                            line_number: i,
                            begin_index: found.0,
                            end_index: found.1,
                        },
                    ),
                );
            },
            None => (),
        }
        i = i + 1;
    }

    Ok(None)
}

} // verus!
