//! The reveal timeline: how much of a letter shows after a given time. The
//! state is derived afresh from the elapsed time on every step, never advanced
//! piece by piece.

use crate::content::Letter;
use vstd::prelude::*;
use vstd::string::StrSliceExecFns;

verus! {

/// Milliseconds until the title shows.
pub const TITLE_REVEAL_TIME: u32 = 500;

/// Milliseconds per character of the body.
pub const BODY_REVEAL_TIME: u32 = 5;

/// Milliseconds until a list header shows.
pub const HEADER_REVEAL_TIME: u32 = 400;

/// Milliseconds per blessing.
pub const BLESSING_REVEAL_TIME: u32 = 400;

/// Milliseconds per curse.
pub const CURSE_REVEAL_TIME: u32 = 400;

/// Milliseconds per character of the signoff.
pub const SIGNOFF_REVEAL_TIME: u32 = 5;

/// Milliseconds until the footer shows.
pub const FOOTER_REVEAL_TIME: u32 = 600;

/// Milliseconds from the footer's slot to the end of the reveal.
pub const FINISHED_TIME: u32 = 800;

/// Pause after each section, in milliseconds.
pub const REVEAL_TIME_MARGIN: u32 = 400;

/// How much of the current letter shows.
#[derive(Clone, Copy, Debug, PartialEq, Eq, Structural)]
pub struct LetterWidgetRevealed {
    pub elapsed_ms: u32,
    pub title_revealed: bool,
    pub body_chars_revealed: usize,
    pub blessings_header_revealed: bool,
    pub blessings_revealed: usize,
    pub curses_header_revealed: bool,
    pub curses_revealed: usize,
    pub signoff_chars_revealed: usize,
    pub footer_revealed: bool,
    pub finished: bool,
}

/// The lengths that the timeline is laid out from.
pub struct RevealLengths {
    pub body: nat,
    pub blessings: nat,
    pub curses: nat,
    pub signoff: nat,
}

pub open spec fn lengths_of(letter: Letter) -> RevealLengths {
    RevealLengths {
        body: letter.interpolated_flavor.body@.len(),
        blessings: letter.blessings@.len(),
        curses: letter.curses@.len(),
        signoff: letter.interpolated_flavor.signoff@.len(),
    }
}

/// Units of a slot that starts at `start` and shows one unit per `per_unit`
/// milliseconds, at most `units` of them.
pub open spec fn counted(elapsed: int, start: int, per_unit: int, units: int) -> int {
    if elapsed > start {
        let q = (elapsed - start) / per_unit;
        if q < units {
            q
        } else {
            units
        }
    } else {
        0
    }
}

/// Start of the body's slot.
pub open spec fn body_start() -> int {
    (TITLE_REVEAL_TIME + REVEAL_TIME_MARGIN) as int
}

/// Start of the blessings header's slot.
pub open spec fn blessings_header_start(l: RevealLengths) -> int {
    body_start() + l.body * BODY_REVEAL_TIME + REVEAL_TIME_MARGIN
}

/// Start of the blessings' slot.
pub open spec fn blessings_start(l: RevealLengths) -> int {
    blessings_header_start(l) + HEADER_REVEAL_TIME
}

/// Start of the curses header's slot.
pub open spec fn curses_header_start(l: RevealLengths) -> int {
    blessings_start(l) + l.blessings * BLESSING_REVEAL_TIME + REVEAL_TIME_MARGIN
}

/// Start of the curses' slot.
pub open spec fn curses_start(l: RevealLengths) -> int {
    curses_header_start(l) + HEADER_REVEAL_TIME
}

/// Start of the signoff's slot.
pub open spec fn signoff_start(l: RevealLengths) -> int {
    curses_start(l) + l.curses * CURSE_REVEAL_TIME + REVEAL_TIME_MARGIN
}

/// Start of the footer's slot.
pub open spec fn footer_start(l: RevealLengths) -> int {
    signoff_start(l) + l.signoff * SIGNOFF_REVEAL_TIME + REVEAL_TIME_MARGIN
}

/// The time at which the reveal is finished.
pub open spec fn finish_time(l: RevealLengths) -> int {
    footer_start(l) + FOOTER_REVEAL_TIME + FINISHED_TIME
}

/// What shows of a letter with lengths `l` after `elapsed` milliseconds.
pub open spec fn reveal_at(elapsed: u32, l: RevealLengths) -> LetterWidgetRevealed {
    let e = elapsed as int;
    LetterWidgetRevealed {
        elapsed_ms: elapsed,
        title_revealed: e >= TITLE_REVEAL_TIME,
        body_chars_revealed: counted(e, body_start(), BODY_REVEAL_TIME as int, l.body as int) as usize,
        blessings_header_revealed: e >= blessings_header_start(l) + HEADER_REVEAL_TIME,
        blessings_revealed: counted(
            e,
            blessings_start(l),
            BLESSING_REVEAL_TIME as int,
            l.blessings as int,
        ) as usize,
        curses_header_revealed: e >= curses_header_start(l) + HEADER_REVEAL_TIME,
        curses_revealed: counted(e, curses_start(l), CURSE_REVEAL_TIME as int, l.curses as int) as usize,
        signoff_chars_revealed: counted(
            e,
            signoff_start(l),
            SIGNOFF_REVEAL_TIME as int,
            l.signoff as int,
        ) as usize,
        footer_revealed: e >= footer_start(l) + FOOTER_REVEAL_TIME,
        finished: e >= finish_time(l),
    }
}

/// Elapsed time after `delta` more milliseconds; it stops at `u32::MAX`.
pub open spec fn later(elapsed: u32, delta: int) -> u32 {
    if elapsed + delta <= u32::MAX {
        (elapsed + delta) as u32
    } else {
        u32::MAX
    }
}

/// The state after `delta` more milliseconds on `letter`.
pub open spec fn advanced(s: LetterWidgetRevealed, delta: int, letter: Letter) -> LetterWidgetRevealed {
    reveal_at(later(s.elapsed_ms, delta), lengths_of(letter))
}

/// The state in which everything of a letter with lengths `l` shows.
pub open spec fn complete(elapsed: u32, l: RevealLengths) -> LetterWidgetRevealed {
    LetterWidgetRevealed {
        elapsed_ms: elapsed,
        title_revealed: true,
        body_chars_revealed: l.body as usize,
        blessings_header_revealed: true,
        blessings_revealed: l.blessings as usize,
        curses_header_revealed: true,
        curses_revealed: l.curses as usize,
        signoff_chars_revealed: l.signoff as usize,
        footer_revealed: true,
        finished: true,
    }
}

fn counted_exec(elapsed: u128, start: u128, per_unit: u128, units: u128) -> (r: u128)
    requires
        per_unit > 0,
    ensures
        r as int == counted(elapsed as int, start as int, per_unit as int, units as int),
{
    if elapsed > start {
        let q = (elapsed - start) / per_unit;
        if q < units {
            q
        } else {
            units
        }
    } else {
        0
    }
}

/// The state before any time has passed: nothing shows.
pub open spec fn start_state() -> LetterWidgetRevealed {
    reveal_at(0, RevealLengths { body: 0, blessings: 0, curses: 0, signoff: 0 })
}

impl Default for LetterWidgetRevealed {
    fn default() -> (r: Self)
        ensures
            r == start_state(),
    {
        LetterWidgetRevealed {
            elapsed_ms: 0,
            title_revealed: false,
            body_chars_revealed: 0,
            blessings_header_revealed: false,
            blessings_revealed: 0,
            curses_header_revealed: false,
            curses_revealed: 0,
            signoff_chars_revealed: 0,
            footer_revealed: false,
            finished: false,
        }
    }
}

impl LetterWidgetRevealed {
    /// The state `delta_ms` milliseconds later, derived from the total elapsed
    /// time alone.
    pub fn next_state(&self, delta_ms: u32, letter: &Letter) -> (r: LetterWidgetRevealed)
        ensures
            r == advanced(*self, delta_ms as int, *letter),
    {
        let elapsed_ms = self.elapsed_ms.saturating_add(delta_ms);
        let e = elapsed_ms as u128;
        let body_len = letter.interpolated_flavor.body.as_str().unicode_len();
        let signoff_len = letter.interpolated_flavor.signoff.as_str().unicode_len();
        let blessings_len = letter.blessings.len();
        let curses_len = letter.curses.len();
        let ghost l = lengths_of(*letter);
        assert(body_len as int == l.body && signoff_len as int == l.signoff);
        let b = body_len as u128;
        let nb = blessings_len as u128;
        let nc = curses_len as u128;
        let s = signoff_len as u128;
        assert(b <= u64::MAX && nb <= u64::MAX && nc <= u64::MAX && s <= u64::MAX);

        let mut time_cursor: u128 = 0;

        // title
        let title_revealed = e >= time_cursor + TITLE_REVEAL_TIME as u128;
        time_cursor = time_cursor + (TITLE_REVEAL_TIME + REVEAL_TIME_MARGIN) as u128;
        assert(time_cursor == body_start());

        // body
        let body_chars_revealed = counted_exec(e, time_cursor, BODY_REVEAL_TIME as u128, b);
        time_cursor = time_cursor + b * BODY_REVEAL_TIME as u128 + REVEAL_TIME_MARGIN as u128;
        assert(time_cursor == blessings_header_start(l));

        // blessings header
        let blessings_header_revealed = e >= time_cursor + HEADER_REVEAL_TIME as u128;
        time_cursor = time_cursor + HEADER_REVEAL_TIME as u128;

        // blessings
        let blessings_revealed = counted_exec(e, time_cursor, BLESSING_REVEAL_TIME as u128, nb);
        time_cursor = time_cursor + nb * BLESSING_REVEAL_TIME as u128 + REVEAL_TIME_MARGIN as u128;
        assert(time_cursor == curses_header_start(l));

        // curses header
        let curses_header_revealed = e >= time_cursor + HEADER_REVEAL_TIME as u128;
        time_cursor = time_cursor + HEADER_REVEAL_TIME as u128;

        // curses
        let curses_revealed = counted_exec(e, time_cursor, CURSE_REVEAL_TIME as u128, nc);
        time_cursor = time_cursor + nc * CURSE_REVEAL_TIME as u128 + REVEAL_TIME_MARGIN as u128;
        assert(time_cursor == signoff_start(l));

        // signoff
        let signoff_chars_revealed = counted_exec(e, time_cursor, SIGNOFF_REVEAL_TIME as u128, s);
        time_cursor = time_cursor + s * SIGNOFF_REVEAL_TIME as u128 + REVEAL_TIME_MARGIN as u128;
        assert(time_cursor == footer_start(l));

        // footer
        let footer_revealed = e >= time_cursor + FOOTER_REVEAL_TIME as u128;
        time_cursor = time_cursor + FOOTER_REVEAL_TIME as u128;

        // finished
        let finished = e >= time_cursor + FINISHED_TIME as u128;

        LetterWidgetRevealed {
            elapsed_ms,
            title_revealed,
            body_chars_revealed: body_chars_revealed as usize,
            blessings_header_revealed,
            blessings_revealed: blessings_revealed as usize,
            curses_header_revealed,
            curses_revealed: curses_revealed as usize,
            signoff_chars_revealed: signoff_chars_revealed as usize,
            footer_revealed,
            finished,
        }
    }
}

/// Re-derivation: advancing by `d1` and then by `d2` gives the same state as
/// advancing by `d1 + d2` at once.
pub proof fn lemma_reveal_additive(s0: LetterWidgetRevealed, d1: int, d2: int, letter: Letter)
    requires
        d1 >= 0,
        d2 >= 0,
    ensures
        advanced(advanced(s0, d1, letter), d2, letter) == advanced(s0, d1 + d2, letter),
{
}

/// Terminality: from the finish time on, everything shows, and more time
/// changes nothing but the elapsed time. (The elapsed time is a `u32`, so this
/// is for letters whose finish time fits in one.)
pub proof fn lemma_reveal_terminal(letter: Letter)
    requires
        finish_time(lengths_of(letter)) <= u32::MAX,
    ensures
        forall|e: u32|
            e >= finish_time(lengths_of(letter)) ==> #[trigger] reveal_at(e, lengths_of(letter))
                == complete(e, lengths_of(letter)),
{
    let l = lengths_of(letter);
    assert forall|e: u32| e >= finish_time(l) implies #[trigger] reveal_at(e, l) == complete(e, l) by {
        let ei = e as int;
        assert((ei - body_start()) / 5 >= l.body as int) by (nonlinear_arith)
            requires
                ei - body_start() >= l.body * 5,
        ;
        assert((ei - blessings_start(l)) / 400 >= l.blessings as int) by (nonlinear_arith)
            requires
                ei - blessings_start(l) >= l.blessings * 400,
        ;
        assert((ei - curses_start(l)) / 400 >= l.curses as int) by (nonlinear_arith)
            requires
                ei - curses_start(l) >= l.curses * 400,
        ;
        assert((ei - signoff_start(l)) / 5 >= l.signoff as int) by (nonlinear_arith)
            requires
                ei - signoff_start(l) >= l.signoff * 5,
        ;
    }
}

} // verus!
