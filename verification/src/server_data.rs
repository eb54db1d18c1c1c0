//! The two protocol layers of the incoming byte stream: telnet command
//! framing and ANSI SGR escape sequences, plus the interpreter that turns an
//! accepted SGR sequence into style and color changes.

use vstd::prelude::*;

use crate::formatted_string::{Color, Format, FormattedString, Style};
use crate::parse_state::{ParseState, ParseStateView};
use crate::session::Session;

verus! {

pub const TELNET_SE: u8 = 240;
pub const TELNET_NOP: u8 = 241;
pub const TELNET_DATA_MARK: u8 = 242;
pub const TELNET_BREAK: u8 = 243;
pub const TELNET_IP: u8 = 244;
pub const TELNET_AO: u8 = 245;
pub const TELNET_AYT: u8 = 246;
pub const TELNET_EC: u8 = 247;
pub const TELNET_EL: u8 = 248;
pub const TELNET_GA: u8 = 249;
pub const TELNET_SB: u8 = 250;
pub const TELNET_WILL: u8 = 251;
pub const TELNET_WONT: u8 = 252;
pub const TELNET_DO: u8 = 253;
pub const TELNET_DONT: u8 = 254;
pub const TELNET_IAC: u8 = 255;
pub const TELNET_GMCP: u8 = 0xC9;

/// A telnet command longer than this is abandoned as an error, so that an
/// unterminated subnegotiation cannot accumulate bytes without bound.
pub const TELNET_MAX_COMMAND_SIZE: usize = 64;

/// Commands that are complete at two bytes: `IAC` followed by one of these.
pub open spec fn telnet_two_byte_cmd(b: u8) -> bool {
    b == TELNET_IAC || b == TELNET_NOP || b == TELNET_DATA_MARK || b == TELNET_BREAK
        || b == TELNET_IP || b == TELNET_AO || b == TELNET_AYT || b == TELNET_EC
        || b == TELNET_EL || b == TELNET_GA
}

/// Commands that take exactly one more byte (the option code).
pub open spec fn telnet_three_byte_cmd(b: u8) -> bool {
    b == TELNET_WILL || b == TELNET_WONT || b == TELNET_DO || b == TELNET_DONT
}

/// Classification of an in-progress telnet command whose accumulated bytes
/// (including the byte just appended) are `bytes`.
pub open spec fn telnet_classify(bytes: Seq<u8>) -> ParseStateView {
    let byte = bytes.last();
    if bytes.len() > TELNET_MAX_COMMAND_SIZE {
        ParseStateView::Error(bytes)
    } else if bytes.len() == 2 {
        if telnet_two_byte_cmd(byte) {
            ParseStateView::Success(bytes)
        } else if telnet_three_byte_cmd(byte) || byte == TELNET_SB {
            ParseStateView::InProgress(bytes)
        } else {
            ParseStateView::Error(bytes)
        }
    } else if bytes.len() == 3 {
        if telnet_three_byte_cmd(bytes[1]) {
            ParseStateView::Success(bytes)
        } else if bytes[1] == TELNET_SB {
            ParseStateView::InProgress(bytes)
        } else {
            ParseStateView::Error(bytes)
        }
    } else if bytes.len() > 3 {
        // Only subnegotiation can be this long; it ends with IAC SE.
        if bytes[bytes.len() - 2] == TELNET_IAC && byte == TELNET_SE {
            ParseStateView::Success(bytes)
        } else {
            ParseStateView::InProgress(bytes)
        }
    } else {
        ParseStateView::InProgress(bytes)
    }
}

/// One step of the telnet command decoder: collapse a terminal state, then
/// either wait for `IAC`, or append the byte and classify.
pub open spec fn telnet_step(state: ParseStateView, byte: u8) -> ParseStateView {
    match state.collapse() {
        ParseStateView::NotInProgress => {
            if byte == TELNET_IAC {
                ParseStateView::InProgress(seq![byte])
            } else {
                ParseStateView::NotInProgress
            }
        },
        ParseStateView::InProgress(b) => telnet_classify(b.push(byte)),
        // Unreachable: collapse never returns Success or Error.
        _ => ParseStateView::NotInProgress,
    }
}

/// A one-element vector holding the opening byte of a sequence.
fn singleton(byte: u8) -> (r: Vec<u8>)
    ensures
        r@ == seq![byte],
{
    let mut r: Vec<u8> = Vec::new();
    r.push(byte);
    proof {
        assert(r@ =~= seq![byte]);
    }
    r
}

/// The accumulated bytes with one more appended, as a fresh vector.
fn appended(b: &Vec<u8>, byte: u8) -> (r: Vec<u8>)
    ensures
        r@ == b@.push(byte),
{
    let mut r: Vec<u8> = Vec::new();
    let mut i: usize = 0;
    while i < b.len()
        invariant
            i <= b@.len(),
            r@ =~= b@.subrange(0, i as int),
        decreases b@.len() - i,
    {
        r.push(b[i]);
        i = i + 1;
    }
    r.push(byte);
    proof {
        assert(r@ =~= b@.push(byte));
    }
    r
}

/// Feed one byte to the telnet command layer.
pub fn parse_telnet(old_state: &ParseState, byte: u8) -> (new_state: ParseState)
    ensures
        new_state@ == telnet_step(old_state@, byte),
{
    match old_state {
        ParseState::InProgress(b) => {
            let bytes = appended(b, byte);
            if bytes.len() > TELNET_MAX_COMMAND_SIZE {
                ParseState::Error(bytes)
            } else if bytes.len() == 2 {
                if byte == TELNET_IAC || byte == TELNET_NOP || byte == TELNET_DATA_MARK
                    || byte == TELNET_BREAK || byte == TELNET_IP || byte == TELNET_AO
                    || byte == TELNET_AYT || byte == TELNET_EC || byte == TELNET_EL
                    || byte == TELNET_GA {
                    ParseState::Success(bytes)
                } else if byte == TELNET_WILL || byte == TELNET_WONT || byte == TELNET_DO
                    || byte == TELNET_DONT || byte == TELNET_SB {
                    ParseState::InProgress(bytes)
                } else {
                    ParseState::Error(bytes)
                }
            } else if bytes.len() == 3 {
                let prev_byte = bytes[1];
                if prev_byte == TELNET_WILL || prev_byte == TELNET_WONT
                    || prev_byte == TELNET_DO || prev_byte == TELNET_DONT {
                    ParseState::Success(bytes)
                } else if prev_byte == TELNET_SB {
                    ParseState::InProgress(bytes)
                } else {
                    ParseState::Error(bytes)
                }
            } else if bytes.len() > 3 {
                let prev_byte = bytes[bytes.len() - 2];
                if prev_byte == TELNET_IAC && byte == TELNET_SE {
                    ParseState::Success(bytes)
                } else {
                    ParseState::InProgress(bytes)
                }
            } else {
                ParseState::InProgress(bytes)
            }
        },
        // NotInProgress, and the collapsed Success and Error states, start
        // fresh: only IAC opens a command.
        _ => {
            if byte == TELNET_IAC {
                ParseState::InProgress(singleton(byte))
            } else {
                ParseState::NotInProgress
            }
        },
    }
}

/// First byte of an escape sequence (ESC).
pub const ESC_SEQUENCE_BEGIN: u8 = 0x1B;

/// Terminating byte of an SGR escape sequence (`'m'`).
pub const ESC_SEQUENCE_END: u8 = 0x6D;

/// An escape sequence longer than this is abandoned as an error: such input
/// is plain text misread as an escape code, not a real SGR sequence.
pub const ESC_SEQUENCE_MAX_SIZE: usize = 15;

/// One step of the escape sequence decoder: collapse a terminal state, then
/// either wait for ESC, or append the byte and look for the terminator.
pub open spec fn esc_step(state: ParseStateView, byte: u8) -> ParseStateView {
    match state.collapse() {
        ParseStateView::NotInProgress => {
            if byte == ESC_SEQUENCE_BEGIN {
                ParseStateView::InProgress(seq![byte])
            } else {
                ParseStateView::NotInProgress
            }
        },
        ParseStateView::InProgress(b) => {
            let bytes = b.push(byte);
            if bytes.len() > ESC_SEQUENCE_MAX_SIZE {
                ParseStateView::Error(bytes)
            } else if byte == ESC_SEQUENCE_END {
                ParseStateView::Success(bytes)
            } else {
                ParseStateView::InProgress(bytes)
            }
        },
        // Unreachable: collapse never returns Success or Error.
        _ => ParseStateView::NotInProgress,
    }
}

/// Feed one byte to the escape sequence layer.
pub fn parse_esc_seq(old_state: &ParseState, byte: u8) -> (new_state: ParseState)
    ensures
        new_state@ == esc_step(old_state@, byte),
{
    match old_state {
        ParseState::InProgress(b) => {
            let bytes = appended(b, byte);
            if bytes.len() > ESC_SEQUENCE_MAX_SIZE {
                ParseState::Error(bytes)
            } else if byte == ESC_SEQUENCE_END {
                ParseState::Success(bytes)
            } else {
                ParseState::InProgress(bytes)
            }
        },
        // NotInProgress, and the collapsed Success and Error states, start
        // fresh: only ESC opens a sequence.
        _ => {
            if byte == ESC_SEQUENCE_BEGIN {
                ParseState::InProgress(singleton(byte))
            } else {
                ParseState::NotInProgress
            }
        },
    }
}

/// A byte allowed in SGR parameter text: an ASCII digit or the separator.
pub open spec fn sgr_param_byte(b: u8) -> bool {
    (0x30 <= b && b <= 0x39) || b == 0x3B
}

/// A well-formed SGR sequence: `ESC [ <params> m` where every parameter byte
/// is a decimal digit or a semicolon.
pub open spec fn sgr_well_formed(s: Seq<u8>) -> bool {
    &&& s.len() >= 3
    &&& s[0] == ESC_SEQUENCE_BEGIN
    &&& s[1] == 0x5B
    &&& s.last() == ESC_SEQUENCE_END
    &&& forall|i: int| 2 <= i < s.len() - 1 ==> sgr_param_byte(#[trigger] s[i])
}

/// The style and color changes requested by one escape sequence. Each field
/// is present only if some code in the sequence set it; an absent field must
/// leave the corresponding part of the current format untouched.
pub type SgrEffect = (Option<Style>, Option<Color>, Option<Color>);

/// The color selected by the final digit of a `3x` (foreground) or `4x`
/// (background) color code, in the fixed SGR order.
pub open spec fn sgr_color(d: int) -> Color {
    if d == 0 {
        Color::Black
    } else if d == 1 {
        Color::Red
    } else if d == 2 {
        Color::Green
    } else if d == 3 {
        Color::Yellow
    } else if d == 4 {
        Color::Blue
    } else if d == 5 {
        Color::Magenta
    } else if d == 6 {
        Color::Cyan
    } else {
        Color::White
    }
}

/// Apply one parameter token to the effect accumulated so far. Empty tokens
/// and unrecognized codes change nothing; code 0 resets all three fields.
/// A later code overrides an earlier one for the same field.
pub open spec fn sgr_apply_code(acc: SgrEffect, part: Seq<u8>) -> SgrEffect {
    if part.len() == 1 && part[0] == 0x30 {
        (Some(Style::Normal), Some(Color::Default), Some(Color::Default))
    } else if part.len() == 1 && part[0] == 0x31 {
        (Some(Style::Bold), acc.1, acc.2)
    } else if part.len() == 2 && part[0] == 0x33 && 0x30 <= part[1] && part[1] <= 0x37 {
        (acc.0, Some(sgr_color(part[1] - 0x30)), acc.2)
    } else if part.len() == 2 && part[0] == 0x33 && part[1] == 0x39 {
        (acc.0, Some(Color::Default), acc.2)
    } else if part.len() == 2 && part[0] == 0x34 && 0x30 <= part[1] && part[1] <= 0x37 {
        (acc.0, acc.1, Some(sgr_color(part[1] - 0x30)))
    } else if part.len() == 2 && part[0] == 0x34 && part[1] == 0x39 {
        (acc.0, acc.1, Some(Color::Default))
    } else {
        acc
    }
}

/// Left-to-right processing of the parameter text from position `i`, where
/// the token being read started at position `start`.
pub open spec fn sgr_scan(params: Seq<u8>, i: int, start: int, acc: SgrEffect) -> SgrEffect
    decreases params.len() - i when 0 <= i <= params.len()
{
    if i >= params.len() {
        sgr_apply_code(acc, params.subrange(start, params.len() as int))
    } else if params[i] == 0x3B {
        sgr_scan(params, i + 1, i + 1, sgr_apply_code(acc, params.subrange(start, i)))
    } else {
        sgr_scan(params, i + 1, start, acc)
    }
}

/// What a complete escape sequence means. A sequence that is not well-formed
/// SGR means no change at all; an empty parameter list is code 0 (reset);
/// otherwise the parameter tokens apply left to right.
pub open spec fn spec_interpret(s: Seq<u8>) -> SgrEffect {
    if !sgr_well_formed(s) {
        (None, None, None)
    } else {
        let params = s.subrange(2, s.len() - 1);
        if params.len() == 0 {
            (Some(Style::Normal), Some(Color::Default), Some(Color::Default))
        } else {
            sgr_scan(params, 0, 0, (None, None, None))
        }
    }
}

/// The color for a final color-code digit `d` (0 through 7).
fn color_from_digit(d: u8) -> (c: Color)
    requires
        d <= 7,
    ensures
        c == sgr_color(d as int),
{
    if d == 0 {
        Color::Black
    } else if d == 1 {
        Color::Red
    } else if d == 2 {
        Color::Green
    } else if d == 3 {
        Color::Yellow
    } else if d == 4 {
        Color::Blue
    } else if d == 5 {
        Color::Magenta
    } else if d == 6 {
        Color::Cyan
    } else {
        Color::White
    }
}

/// Apply the parameter token `s[start..end]` to the accumulated effect.
fn apply_code(acc: SgrEffect, s: &[u8], start: usize, end: usize) -> (r: SgrEffect)
    requires
        start <= end <= s@.len(),
    ensures
        r == sgr_apply_code(acc, s@.subrange(start as int, end as int)),
{
    let len = end - start;
    if len == 1 {
        let b = s[start];
        if b == 0x30 {
            (Some(Style::Normal), Some(Color::Default), Some(Color::Default))
        } else if b == 0x31 {
            (Some(Style::Bold), acc.1, acc.2)
        } else {
            acc
        }
    } else if len == 2 {
        let b0 = s[start];
        let b1 = s[start + 1];
        if b0 == 0x33 {
            if 0x30 <= b1 && b1 <= 0x37 {
                (acc.0, Some(color_from_digit(b1 - 0x30)), acc.2)
            } else if b1 == 0x39 {
                (acc.0, Some(Color::Default), acc.2)
            } else {
                acc
            }
        } else if b0 == 0x34 {
            if 0x30 <= b1 && b1 <= 0x37 {
                (acc.0, acc.1, Some(color_from_digit(b1 - 0x30)))
            } else if b1 == 0x39 {
                (acc.0, acc.1, Some(Color::Default))
            } else {
                acc
            }
        } else {
            acc
        }
    } else {
        acc
    }
}

/// Interpret a complete escape sequence as style and color changes. A
/// sequence that does not match `ESC [ <digits/semicolons> m` yields no
/// change in any field.
pub fn interpret_esc_seq(esc_seq: &[u8]) -> (r: SgrEffect)
    ensures
        r == spec_interpret(esc_seq@),
{
    let n = esc_seq.len();

    // Validate the frame: ESC [ ... m with only digits and semicolons inside.
    if n < 3 || esc_seq[0] != ESC_SEQUENCE_BEGIN || esc_seq[1] != 0x5B
        || esc_seq[n - 1] != ESC_SEQUENCE_END {
        return (None, None, None);
    }
    let mut i: usize = 2;
    while i < n - 1
        invariant
            2 <= i <= n - 1,
            n == esc_seq@.len(),
            forall|j: int| 2 <= j < i ==> sgr_param_byte(#[trigger] esc_seq@[j]),
        decreases n - 1 - i,
    {
        let b = esc_seq[i];
        if !((0x30 <= b && b <= 0x39) || b == 0x3B) {
            return (None, None, None);
        }
        i = i + 1;
    }
    assert(sgr_well_formed(esc_seq@));

    let ghost params = esc_seq@.subrange(2, n - 1);

    // The empty parameter list is treated as code 0.
    if n == 3 {
        return (Some(Style::Normal), Some(Color::Default), Some(Color::Default));
    }

    // Process the parameter tokens left to right.
    let mut acc: SgrEffect = (None, None, None);
    let mut start: usize = 2;
    let mut i: usize = 2;
    while i < n - 1
        invariant
            2 <= start <= i <= n - 1,
            3 < n == esc_seq@.len(),
            params == esc_seq@.subrange(2, n - 1),
            sgr_scan(params, i - 2, start - 2, acc) == sgr_scan(params, 0, 0, (None, None, None)),
        decreases n - 1 - i,
    {
        if esc_seq[i] == 0x3B {
            proof {
                assert(params.subrange(start - 2, i - 2) =~= esc_seq@.subrange(
                    start as int,
                    i as int,
                ));
            }
            acc = apply_code(acc, esc_seq, start, i);
            start = i + 1;
        }
        i = i + 1;
    }
    proof {
        assert(params.subrange(start - 2, params.len() as int) =~= esc_seq@.subrange(
            start as int,
            n - 1,
        ));
    }
    let r = apply_code(acc, esc_seq, start, n - 1);
    r
}

/// The decoder-relevant part of a session: the states of both protocol
/// layers and the format in effect for the next plain character.
pub struct DecodeState {
    pub telnet: ParseStateView,
    pub esc: ParseStateView,
    pub format: Format,
}

/// The format after an escape sequence: each field the sequence set
/// overwrites the current format; absent fields keep their value.
pub open spec fn apply_effect(format: Format, effect: SgrEffect) -> Format {
    Format {
        style: match effect.0 {
            Some(style) => style,
            None => format.style,
        },
        fg_color: match effect.1 {
            Some(color) => color,
            None => format.fg_color,
        },
        bg_color: match effect.2 {
            Some(color) => color,
            None => format.bg_color,
        },
    }
}

/// One byte through both layers, yielding the next state, the characters
/// emitted, and the reply bytes owed. The telnet layer runs first; only
/// when it is inactive does the byte reach the escape layer, and only when
/// that too is inactive does the byte become a styled character. A
/// completed escape sequence updates the format; a completed telnet
/// command owes its reply; framing errors are dropped.
pub open spec fn decode_step(s: DecodeState, byte: u8) -> (
    DecodeState,
    Seq<(char, Format)>,
    Seq<u8>,
) {
    let t = telnet_step(s.telnet, byte);
    match t {
        ParseStateView::NotInProgress => {
            let e = esc_step(s.esc, byte);
            match e {
                ParseStateView::NotInProgress => (
                    DecodeState { telnet: t, esc: e, format: s.format },
                    seq![(byte as char, s.format)],
                    Seq::empty(),
                ),
                ParseStateView::Success(seq_bytes) => (
                    DecodeState {
                        telnet: t,
                        esc: e,
                        format: apply_effect(s.format, spec_interpret(seq_bytes)),
                    },
                    Seq::empty(),
                    Seq::empty(),
                ),
                _ => (
                    DecodeState { telnet: t, esc: e, format: s.format },
                    Seq::empty(),
                    Seq::empty(),
                ),
            }
        },
        ParseStateView::Success(cmd) => (
            DecodeState { telnet: t, esc: s.esc, format: s.format },
            Seq::empty(),
            telnet_reply(cmd),
        ),
        _ => (
            DecodeState { telnet: t, esc: s.esc, format: s.format },
            Seq::empty(),
            Seq::empty(),
        ),
    }
}

/// A whole byte sequence through both layers, concatenating the emitted
/// characters and the owed replies.
pub open spec fn decode_seq(s: DecodeState, bytes: Seq<u8>) -> (
    DecodeState,
    Seq<(char, Format)>,
    Seq<u8>,
)
    decreases bytes.len(),
{
    if bytes.len() == 0 {
        (s, Seq::empty(), Seq::empty())
    } else {
        let first = decode_step(s, bytes[0]);
        let rest = decode_seq(first.0, bytes.subrange(1, bytes.len() as int));
        (rest.0, first.1 + rest.1, first.2 + rest.2)
    }
}

/// Processing one more byte after a sequence is the same as processing the
/// extended sequence.
pub proof fn lemma_decode_seq_snoc(s: DecodeState, bytes: Seq<u8>, byte: u8)
    ensures
        decode_seq(s, bytes.push(byte)).0 == decode_step(decode_seq(s, bytes).0, byte).0,
        decode_seq(s, bytes.push(byte)).1 == decode_seq(s, bytes).1 + decode_step(
            decode_seq(s, bytes).0,
            byte,
        ).1,
        decode_seq(s, bytes.push(byte)).2 == decode_seq(s, bytes).2 + decode_step(
            decode_seq(s, bytes).0,
            byte,
        ).2,
    decreases bytes.len(),
{
    let extended = bytes.push(byte);
    if bytes.len() == 0 {
        let first = decode_step(s, byte);
        assert(extended[0] == byte);
        assert(extended.subrange(1, extended.len() as int) =~= Seq::<u8>::empty());
        assert(decode_seq(first.0, Seq::<u8>::empty()) == (
            first.0,
            Seq::<(char, Format)>::empty(),
            Seq::<u8>::empty(),
        ));
        assert(decode_seq(s, extended).0 == first.0);
        assert(decode_seq(s, extended).1 == first.1 + Seq::<(char, Format)>::empty());
        assert(decode_seq(s, extended).2 == first.2 + Seq::<u8>::empty());
        assert(decode_seq(s, bytes) == (s, Seq::<(char, Format)>::empty(), Seq::<u8>::empty()));
        assert(first.1 + Seq::<(char, Format)>::empty() =~= first.1);
        assert(first.2 + Seq::<u8>::empty() =~= first.2);
        assert(decode_seq(s, bytes).1 + decode_step(decode_seq(s, bytes).0, byte).1
            =~= first.1);
        assert(decode_seq(s, bytes).2 + decode_step(decode_seq(s, bytes).0, byte).2
            =~= first.2);
    } else {
        assert(extended.subrange(1, extended.len() as int) =~= bytes.subrange(
            1,
            bytes.len() as int,
        ).push(byte));
        let s1 = decode_step(s, bytes[0]);
        lemma_decode_seq_snoc(s1.0, bytes.subrange(1, bytes.len() as int), byte);
        assert(decode_seq(s, bytes).1 + decode_step(decode_seq(s, bytes).0, byte).1 =~= decode_seq(
            s,
            extended,
        ).1);
        assert(decode_seq(s, bytes).2 + decode_step(decode_seq(s, bytes).0, byte).2 =~= decode_seq(
            s,
            extended,
        ).2);
    }
}

/// Decoding a byte stream in two chunks, split anywhere - at a chunk edge or
/// in the middle of a telnet command or escape sequence - leaves the decoder
/// in the same state and produces the same output and the same replies as
/// decoding it in one piece.
pub proof fn lemma_decode_seq_chunks(s: DecodeState, a: Seq<u8>, b: Seq<u8>)
    ensures
        decode_seq(s, a + b).0 == decode_seq(decode_seq(s, a).0, b).0,
        decode_seq(s, a + b).1 == decode_seq(s, a).1 + decode_seq(decode_seq(s, a).0, b).1,
        decode_seq(s, a + b).2 == decode_seq(s, a).2 + decode_seq(decode_seq(s, a).0, b).2,
    decreases a.len(),
{
    if a.len() == 0 {
        assert(a + b =~= b);
        assert(decode_seq(s, a).1 + decode_seq(decode_seq(s, a).0, b).1 =~= decode_seq(
            s,
            a + b,
        ).1);
        assert(decode_seq(s, a).2 + decode_seq(decode_seq(s, a).0, b).2 =~= decode_seq(
            s,
            a + b,
        ).2);
    } else {
        let s1 = decode_step(s, a[0]);
        assert((a + b)[0] == a[0]);
        assert((a + b).subrange(1, (a + b).len() as int) =~= a.subrange(1, a.len() as int) + b);
        lemma_decode_seq_chunks(s1.0, a.subrange(1, a.len() as int), b);
        assert(decode_seq(s, a).1 + decode_seq(decode_seq(s, a).0, b).1 =~= decode_seq(
            s,
            a + b,
        ).1);
        assert(decode_seq(s, a).2 + decode_seq(decode_seq(s, a).0, b).2 =~= decode_seq(
            s,
            a + b,
        ).2);
    }
}

/// The telnet decoder folded over a whole byte sequence.
pub open spec fn telnet_fold(state: ParseStateView, bytes: Seq<u8>) -> ParseStateView
    decreases bytes.len(),
{
    if bytes.len() == 0 {
        state
    } else {
        telnet_fold(telnet_step(state, bytes[0]), bytes.subrange(1, bytes.len() as int))
    }
}

/// A byte stream that never contains IAC leaves the telnet decoder inactive:
/// after every prefix the state is still `NotInProgress`, so no command is
/// ever begun, completed, or handed on.
pub proof fn lemma_telnet_ignores_plain_stream(bytes: Seq<u8>)
    requires
        forall|i: int| 0 <= i < bytes.len() ==> bytes[i] != TELNET_IAC,
    ensures
        forall|i: int|
            0 <= i <= bytes.len() ==> telnet_fold(
                ParseStateView::NotInProgress,
                #[trigger] bytes.subrange(0, i),
            ) == ParseStateView::NotInProgress,
{
    assert forall|i: int|
        0 <= i <= bytes.len() implies telnet_fold(
        ParseStateView::NotInProgress,
        #[trigger] bytes.subrange(0, i),
    ) == ParseStateView::NotInProgress by {
        lemma_telnet_fold_stays_inactive(bytes.subrange(0, i));
    }
}

/// Helper for the statement above: one whole plain sequence at a time.
proof fn lemma_telnet_fold_stays_inactive(bytes: Seq<u8>)
    requires
        forall|i: int| 0 <= i < bytes.len() ==> bytes[i] != TELNET_IAC,
    ensures
        telnet_fold(ParseStateView::NotInProgress, bytes) == ParseStateView::NotInProgress,
    decreases bytes.len(),
{
    if bytes.len() > 0 {
        lemma_telnet_fold_stays_inactive(bytes.subrange(1, bytes.len() as int));
    }
}

/// Update the session's character format as a completed escape sequence
/// demands: only the fields the sequence set are overwritten, so a sequence
/// that only turns on bold keeps the colors in effect.
pub fn handle_esc_seq(seq: &[u8], session: &mut Session)
    ensures
        final(session).char_format == apply_effect(
            old(session).char_format,
            spec_interpret(seq@),
        ),
        final(session).telnet_state == old(session).telnet_state,
        final(session).esc_seq_state == old(session).esc_seq_state,
        final(session).scrollback_buf == old(session).scrollback_buf,
        final(session).history == old(session).history,
        final(session).cursor_index == old(session).cursor_index,
{
    let effect = interpret_esc_seq(seq);
    if let Some(style) = effect.0 {
        session.char_format.style = style;
    }
    if let Some(fg_color) = effect.1 {
        session.char_format.fg_color = fg_color;
    }
    if let Some(bg_color) = effect.2 {
        session.char_format.bg_color = bg_color;
    }
}

/// The bytes a completed telnet command is owed in reply: an offer of GMCP
/// (`IAC WILL GMCP`) is accepted with `IAC DO GMCP`; every other command,
/// including every unrecognized option, owes nothing.
pub open spec fn telnet_reply(cmd: Seq<u8>) -> Seq<u8> {
    if cmd == seq![TELNET_IAC, TELNET_WILL, TELNET_GMCP] {
        seq![TELNET_IAC, TELNET_DO, TELNET_GMCP]
    } else {
        Seq::empty()
    }
}

/// The reply a completed telnet command is owed, if any. The decode
/// pipeline collects these replies and hands them back with the decoded
/// text, so that the caller can write them to the server.
pub fn handle_telnet_cmd(cmd: &[u8]) -> (reply: Option<Vec<u8>>)
    ensures
        reply is Some <==> cmd@ == seq![TELNET_IAC, TELNET_WILL, TELNET_GMCP],
        reply matches Some(r) ==> r@ == telnet_reply(cmd@),
        reply is None ==> telnet_reply(cmd@) == Seq::<u8>::empty(),
{
    if cmd.len() == 3 && cmd[0] == TELNET_IAC && cmd[1] == TELNET_WILL && cmd[2] == TELNET_GMCP {
        proof {
            assert(cmd@ =~= seq![TELNET_IAC, TELNET_WILL, TELNET_GMCP]);
        }
        let mut reply: Vec<u8> = Vec::new();
        reply.push(TELNET_IAC);
        reply.push(TELNET_DO);
        reply.push(TELNET_GMCP);
        proof {
            assert(reply@ =~= seq![TELNET_IAC, TELNET_DO, TELNET_GMCP]);
        }
        Some(reply)
    } else {
        proof {
            if cmd@ == seq![TELNET_IAC, TELNET_WILL, TELNET_GMCP] {
                assert(cmd@.len() == 3);
                assert(cmd@[0] == TELNET_IAC && cmd@[1] == TELNET_WILL && cmd@[2] == TELNET_GMCP);
            }
        }
        None
    }
}

/// Decode one chunk of bytes from the server. Each byte passes the telnet
/// layer first, then the escape layer, then becomes a styled character; the
/// two decoder states and the character format carry across chunks on the
/// session, so a sequence split between chunks is decoded as if it arrived
/// whole. Returned are the decoded text and the negotiation replies the
/// completed telnet commands are owed, for the caller to write to the
/// server; the session's buffers are untouched.
pub fn handle_server_data(data: &[u8], session: &mut Session) -> (r: (FormattedString, Vec<u8>))
    ensures
        final(session).decode_state() == decode_seq(old(session).decode_state(), data@).0,
        r.0@ == decode_seq(old(session).decode_state(), data@).1,
        r.1@ == decode_seq(old(session).decode_state(), data@).2,
        final(session).scrollback_buf == old(session).scrollback_buf,
        final(session).history == old(session).history,
        final(session).cursor_index == old(session).cursor_index,
{
    let mut out = FormattedString::new();
    let mut replies: Vec<u8> = Vec::new();
    let n = data.len();
    proof {
        assert(data@.subrange(0, 0) =~= Seq::<u8>::empty());
    }
    let mut i: usize = 0;
    while i < n
        invariant
            i <= n == data@.len(),
            session.decode_state() == decode_seq(
                old(session).decode_state(),
                data@.subrange(0, i as int),
            ).0,
            out@ == decode_seq(old(session).decode_state(), data@.subrange(0, i as int)).1,
            replies@ == decode_seq(old(session).decode_state(), data@.subrange(0, i as int)).2,
            session.scrollback_buf == old(session).scrollback_buf,
            session.history == old(session).history,
            session.cursor_index == old(session).cursor_index,
        decreases n - i,
    {
        let byte = data[i];
        let ghost prefix = data@.subrange(0, i as int);
        let new_telnet_state = parse_telnet(&session.telnet_state, byte);
        match &new_telnet_state {
            ParseState::NotInProgress => {
                // The command layer is inactive: the byte reaches the
                // escape layer.
                let new_esc_seq_state = parse_esc_seq(&session.esc_seq_state, byte);
                match &new_esc_seq_state {
                    ParseState::NotInProgress => {
                        out.push(byte_to_char(byte), session.char_format);
                    },
                    ParseState::InProgress(_) => (),
                    ParseState::Success(seq_bytes) => {
                        handle_esc_seq(seq_bytes.as_slice(), session);
                    },
                    // A malformed escape sequence is dropped.
                    ParseState::Error(_) => (),
                }
                session.esc_seq_state = new_esc_seq_state;
            },
            ParseState::InProgress(_) => (),
            // A completed command is dispatched: the reply it is owed is
            // collected for the caller to send.
            ParseState::Success(cmd) => {
                if let Some(mut reply) = handle_telnet_cmd(cmd.as_slice()) {
                    replies.append(&mut reply);
                } else {
                    proof {
                        assert(replies@ =~= replies@ + Seq::<u8>::empty());
                    }
                }
            },
            // A malformed command is dropped.
            ParseState::Error(_) => (),
        }
        session.telnet_state = new_telnet_state;
        proof {
            lemma_decode_seq_snoc(old(session).decode_state(), prefix, byte);
            assert(data@.subrange(0, i + 1) =~= prefix.push(byte));
        }
        i = i + 1;
    }
    proof {
        assert(data@.subrange(0, n as int) =~= data@);
    }
    (out, replies)
}

/// The character a plain byte displays as. Each byte is one character: the
/// stream is treated as a byte-oriented terminal, not as UTF-8.
fn byte_to_char(byte: u8) -> (c: char)
    ensures
        c == byte as char,
{
    byte as char
}

} // verus!
