//! The shared state type of the byte-at-a-time protocol decoders.

use vstd::prelude::*;

verus! {

/// State of a byte-driven sequence decoder. `InProgress` carries the bytes
/// accumulated so far (including the opening byte), `Success` the complete
/// well-formed sequence, and `Error` the bytes collected up to the point a
/// framing or length violation was detected.
#[derive(Debug, Eq, PartialEq)]
pub enum ParseState {
    NotInProgress,
    InProgress(Vec<u8>),
    Success(Vec<u8>),
    Error(Vec<u8>),
}

/// Mathematical model of `ParseState`: the same four variants over `Seq<u8>`.
pub enum ParseStateView {
    NotInProgress,
    InProgress(Seq<u8>),
    Success(Seq<u8>),
    Error(Seq<u8>),
}

impl View for ParseState {
    type V = ParseStateView;

    open spec fn view(&self) -> ParseStateView {
        match self {
            ParseState::NotInProgress => ParseStateView::NotInProgress,
            ParseState::InProgress(b) => ParseStateView::InProgress(b@),
            ParseState::Success(b) => ParseStateView::Success(b@),
            ParseState::Error(b) => ParseStateView::Error(b@),
        }
    }
}

impl ParseStateView {
    /// `Success` and `Error` are terminal for one step only: before the next
    /// byte is classified they fall back to `NotInProgress`, so that the byte
    /// is treated as if the decoder were starting fresh.
    pub open spec fn collapse(self) -> ParseStateView {
        match self {
            ParseStateView::Success(_) => ParseStateView::NotInProgress,
            ParseStateView::Error(_) => ParseStateView::NotInProgress,
            _ => self,
        }
    }
}

} // verus!
