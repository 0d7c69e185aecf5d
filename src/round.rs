//! The round: generating its letter and pool, the cues of the reveal, the
//! transitions between game states, the countdown and the prompt.

use crate::content::{
    all_ok, is_letter_of, ContentError, Letter, LetterBag, TestimonialStub,
};
use crate::pool::{cubes_for, targets_of, WordBag, BLESSING_MARK, CURSE_MARK};
use crate::bag::{bag_draft, bag_items, is_fresh_draft};
use crate::random::{choose_between, choose_from};
use crate::text::{get_word_at_index, words};
use crate::score::{paid, Statistics};
use crate::timeline::{advanced, LetterWidgetRevealed};
use rand_chacha::ChaCha8Rng;
use vstd::prelude::*;

verus! {

/// Fewest blessings of a letter.
pub const BLESSING_MIN: usize = 4;

/// Most blessings of a letter.
pub const BLESSING_MAX: usize = 6;

/// Fewest curses of a letter.
pub const CURSE_MIN: usize = 3;

/// Most curses of a letter.
pub const CURSE_MAX: usize = 5;

/// Fewest decoys of a round.
pub const DECOY_MIN: usize = 8;

/// Most decoys of a round.
pub const DECOY_MAX: usize = 12;

/// A decoy stub's first target names a word of its message.
pub open spec fn decoy_ok(stub: TestimonialStub) -> bool {
    stub.targets@.len() > 0 && stub.targets@[0] < words(stub.message@).len()
}

/// The word that a decoy stub puts into the pool.
pub open spec fn decoy_word(stub: TestimonialStub) -> Seq<char> {
    words(stub.message@)[stub.targets@[0] as int]
}

/// `w` is the word of one of the decoy stubs.
pub open spec fn is_decoy_word(w: Seq<char>, stubs: Seq<TestimonialStub>) -> bool {
    exists|i: int| 0 <= i < stubs.len() && decoy_ok(stubs[i]) && w == decoy_word(stubs[i])
}

pub open spec fn all_decoys_ok(stubs: Seq<TestimonialStub>) -> bool {
    forall|i: int| 0 <= i < stubs.len() ==> decoy_ok(#[trigger] stubs[i])
}

/// A letter and a pool that a round can start with, from the content of `b`.
pub open spec fn is_round_of(letter: Letter, pool: WordBag, b: LetterBag) -> bool {
    let nb = letter.blessings@.len() as int;
    let nc = letter.curses@.len() as int;
    let e = pool.entries();
    &&& BLESSING_MIN <= nb <= BLESSING_MAX
    &&& CURSE_MIN <= nc <= CURSE_MAX
    &&& is_letter_of(letter, b, nb as nat, nc as nat)
    &&& pool.wf()
    &&& is_fresh_draft(bag_draft(pool.bag), bag_items(pool.bag).len())
    &&& DECOY_MIN <= e.len() - nb - nc <= DECOY_MAX
    &&& cubes_for(e.subrange(0, nb), targets_of(letter.blessings@), BLESSING_MARK)
    &&& cubes_for(e.subrange(nb, nb + nc), targets_of(letter.curses@), CURSE_MARK)
    &&& forall|k: int|
        nb + nc <= k < e.len() ==> (#[trigger] e[k]).despawn_character == '~' && is_decoy_word(
            e[k].word@,
            b.decoys@,
        )
}

/// Draws `amount` decoy words.
fn draw_decoys(stubs: &Vec<TestimonialStub>, amount: usize, rng: &mut ChaCha8Rng) -> (r: Result<
    Vec<String>,
    ContentError,
>)
    requires
        stubs@.len() > 0,
    ensures
        all_decoys_ok(stubs@) ==> r is Ok,
        r is Err ==> !all_decoys_ok(stubs@),
        r matches Ok(v) ==> v@.len() == amount && forall|k: int|
            0 <= k < v@.len() ==> is_decoy_word((#[trigger] v@[k])@, stubs@),
{
    let mut out: Vec<String> = Vec::new();
    let mut n: usize = 0;
    while n < amount
        invariant
            n <= amount,
            stubs@.len() > 0,
            out@.len() == n,
            forall|k: int| 0 <= k < out@.len() ==> is_decoy_word((#[trigger] out@[k])@, stubs@),
        decreases amount - n,
    {
        let stub = choose_from(stubs, rng).unwrap();
        let ghost i = choose|i: int| 0 <= i < stubs@.len() && stubs@[i] == *stub;
        if stub.targets.len() == 0 {
            return Err(ContentError::NoTarget);
        }
        match get_word_at_index(stub.message.as_str(), stub.targets[0]) {
            Some(w) => {
                let ghost before = out@;
                out.push(w);
                assert forall|k: int| 0 <= k < out@.len() implies is_decoy_word(
                    (#[trigger] out@[k])@,
                    stubs@,
                ) by {
                    if k < n {
                        assert(out@[k] == before[k]);
                    } else {
                        assert(decoy_ok(stubs@[i]) && out@[k]@ == decoy_word(stubs@[i]));
                    }
                }
            },
            None => {
                return Err(ContentError::TargetOutOfRange);
            },
        }
        n = n + 1;
    }
    Ok(out)
}

/// The letter and pool of a new round: amounts of blessings, curses and
/// decoys drawn from their ranges, decoy words drawn from the decoy stubs, the
/// letter pulled from the bag, the pool built from both. Fails on a stub whose
/// first target is not a word of its message.
pub fn generate_current_letter_system(letter_bag: &mut LetterBag, rng: &mut ChaCha8Rng) -> (r: Result<
    (Letter, WordBag),
    ContentError,
>)
    requires
        old(letter_bag).wf(),
    ensures
        final(letter_bag).wf(),
        final(letter_bag).same_content(*old(letter_bag)),
        all_ok(old(letter_bag).blessings@) && all_ok(old(letter_bag).curses@) && all_decoys_ok(
            old(letter_bag).decoys@,
        ) ==> r is Ok,
        r is Err ==> !(all_ok(old(letter_bag).blessings@) && all_ok(old(letter_bag).curses@)
            && all_decoys_ok(old(letter_bag).decoys@)),
        r matches Ok((letter, pool)) ==> is_round_of(letter, pool, *old(letter_bag)),
{
    let blessing_amount = choose_between(BLESSING_MIN, BLESSING_MAX, rng).unwrap();
    let curse_amount = choose_between(CURSE_MIN, CURSE_MAX, rng).unwrap();
    let decoy_amount = choose_between(DECOY_MIN, DECOY_MAX, rng).unwrap();
    let decoys = match draw_decoys(&letter_bag.decoys, decoy_amount, rng) {
        Ok(v) => v,
        Err(e) => {
            return Err(e);
        },
    };
    let letter = match letter_bag.pull_letter(rng, blessing_amount, curse_amount) {
        Ok(l) => l,
        Err(e) => {
            return Err(e);
        },
    };
    let pool = match WordBag::new(&letter.blessings, &letter.curses, &decoys, rng) {
        Ok(p) => p,
        Err(e) => {
            return Err(e);
        },
    };
    proof {
        let nb = letter.blessings@.len() as int;
        let nc = letter.curses@.len() as int;
        let e = pool.entries();
        assert forall|k: int| nb + nc <= k < e.len() implies (#[trigger] e[k]).despawn_character
            == '~' && is_decoy_word(e[k].word@, old(letter_bag).decoys@) by {
            let d = e.subrange(nb + nc, e.len() as int);
            assert(d[k - nb - nc] == e[k]);
            assert(decoys@[k - nb - nc]@ == e[k].word@);
        }
    }
    Ok((letter, pool))
}

/// Sound cues of the game.
#[derive(Clone, Copy, Debug, PartialEq, Eq, Structural)]
pub enum SoundEffect {
    Window,
    TextGroup,
    TextCharacter,
    TextHeaderBless,
    TextBless,
    TextHeaderCurse,
    TextCurse,
    Start,
    LetterClear,
    LetterFail,
    GuessBless,
    GuessDecoy,
    GuessCurse,
}

pub open spec fn cue_if(changed: bool, cue: SoundEffect) -> Seq<SoundEffect> {
    if changed {
        seq![cue]
    } else {
        Seq::empty()
    }
}

/// The cues for what changed from `p` to `n`, section by section: the title
/// and the footer show with the window cue, body and signoff characters with
/// the character cue, the headers, blessings and curses with theirs, and the
/// end of the reveal with the start cue.
pub open spec fn cues_between(p: LetterWidgetRevealed, n: LetterWidgetRevealed) -> Seq<SoundEffect> {
    cue_if(p.title_revealed != n.title_revealed, SoundEffect::Window) + cue_if(
        p.body_chars_revealed != n.body_chars_revealed,
        SoundEffect::TextCharacter,
    ) + cue_if(
        p.blessings_header_revealed != n.blessings_header_revealed,
        SoundEffect::TextHeaderBless,
    ) + cue_if(p.blessings_revealed != n.blessings_revealed, SoundEffect::TextBless) + cue_if(
        p.curses_header_revealed != n.curses_header_revealed,
        SoundEffect::TextHeaderCurse,
    ) + cue_if(p.curses_revealed != n.curses_revealed, SoundEffect::TextCurse) + cue_if(
        p.signoff_chars_revealed != n.signoff_chars_revealed,
        SoundEffect::TextCharacter,
    ) + cue_if(p.footer_revealed != n.footer_revealed, SoundEffect::Window) + cue_if(
        p.finished != n.finished,
        SoundEffect::Start,
    )
}

fn push_cue_if(out: &mut Vec<SoundEffect>, changed: bool, cue: SoundEffect)
    ensures
        final(out)@ == old(out)@ + cue_if(changed, cue),
{
    if changed {
        out.push(cue);
    }
    assert(final(out)@ =~= old(out)@ + cue_if(changed, cue));
}

/// The cues to play between two consecutive reveal states, one per section
/// that changed.
pub fn trigger_reveal_sound_effects(
    previous: &LetterWidgetRevealed,
    next: &LetterWidgetRevealed,
) -> (r: Vec<SoundEffect>)
    ensures
        r@ == cues_between(*previous, *next),
{
    let mut out: Vec<SoundEffect> = Vec::new();
    push_cue_if(&mut out, previous.title_revealed != next.title_revealed, SoundEffect::Window);
    push_cue_if(
        &mut out,
        previous.body_chars_revealed != next.body_chars_revealed,
        SoundEffect::TextCharacter,
    );
    push_cue_if(
        &mut out,
        previous.blessings_header_revealed != next.blessings_header_revealed,
        SoundEffect::TextHeaderBless,
    );
    push_cue_if(
        &mut out,
        previous.blessings_revealed != next.blessings_revealed,
        SoundEffect::TextBless,
    );
    push_cue_if(
        &mut out,
        previous.curses_header_revealed != next.curses_header_revealed,
        SoundEffect::TextHeaderCurse,
    );
    push_cue_if(&mut out, previous.curses_revealed != next.curses_revealed, SoundEffect::TextCurse);
    push_cue_if(
        &mut out,
        previous.signoff_chars_revealed != next.signoff_chars_revealed,
        SoundEffect::TextCharacter,
    );
    push_cue_if(&mut out, previous.footer_revealed != next.footer_revealed, SoundEffect::Window);
    push_cue_if(&mut out, previous.finished != next.finished, SoundEffect::Start);
    assert(out@ =~= cues_between(*previous, *next));
    out
}

/// The states of the game.
#[derive(Clone, Copy, Debug, PartialEq, Eq, Structural)]
pub enum GameStates {
    Loading,
    Info,
    Printing,
    Playing,
    Resetting,
}

impl Default for GameStates {
    fn default() -> (r: Self)
        ensures
            r == GameStates::Loading,
    {
        GameStates::Loading
    }
}

/// What moves the game from one state to another.
#[derive(Clone, Copy, Debug, PartialEq, Eq, Structural)]
pub enum GameEvent {
    /// The content is loaded.
    ContentLoaded,
    /// The player pressed the key that leaves the rules screen.
    ContinuePressed,
    /// The reveal of the letter finished.
    RevealFinished,
    /// All blessings of the letter are collected.
    LetterCleared,
    /// The countdown ran out.
    LetterFailed,
    /// The effect of the reset finished.
    ResetDone,
}

/// The state that `event` leads to from `state`; events that do not apply
/// leave it.
pub open spec fn transition(state: GameStates, event: GameEvent, info_shown: bool) -> GameStates {
    match (state, event) {
        (GameStates::Loading, GameEvent::ContentLoaded) => if info_shown {
            GameStates::Printing
        } else {
            GameStates::Info
        },
        (GameStates::Info, GameEvent::ContinuePressed) => GameStates::Printing,
        (GameStates::Printing, GameEvent::RevealFinished) => GameStates::Playing,
        (GameStates::Playing, GameEvent::LetterCleared) => GameStates::Resetting,
        (GameStates::Playing, GameEvent::LetterFailed) => GameStates::Resetting,
        (GameStates::Resetting, GameEvent::ResetDone) => GameStates::Printing,
        _ => state,
    }
}

/// The state that `event` leads to from `state`, where `info_shown` says
/// whether the rules screen was shown this session.
pub fn next_game_state(state: GameStates, event: GameEvent, info_shown: bool) -> (r: GameStates)
    ensures
        r == transition(state, event, info_shown),
{
    match (state, event) {
        (GameStates::Loading, GameEvent::ContentLoaded) => if info_shown {
            GameStates::Printing
        } else {
            GameStates::Info
        },
        (GameStates::Info, GameEvent::ContinuePressed) => GameStates::Printing,
        (GameStates::Printing, GameEvent::RevealFinished) => GameStates::Playing,
        (GameStates::Playing, GameEvent::LetterCleared) => GameStates::Resetting,
        (GameStates::Playing, GameEvent::LetterFailed) => GameStates::Resetting,
        (GameStates::Resetting, GameEvent::ResetDone) => GameStates::Printing,
        _ => state,
    }
}

/// The letter is cleared: the game moves on to resetting, and the income is
/// paid into the money.
pub fn letter_cleared_observer(state: &mut GameStates, stats: &mut Statistics)
    ensures
        *final(state) == GameStates::Resetting,
        *final(stats) == paid(*old(stats)),
{
    *state = GameStates::Resetting;
    stats.payroll();
}

/// The countdown ran out: the game moves on to resetting.
pub fn letter_failed_observer(state: &mut GameStates)
    ensures
        *final(state) == GameStates::Resetting,
{
    *state = GameStates::Resetting;
}

/// While resetting, the next letter is printed once the reset effect is done.
pub fn resetting_timer_system(state: &mut GameStates, effect_done: bool)
    requires
        *old(state) == GameStates::Resetting,
    ensures
        *final(state) == if effect_done {
            GameStates::Printing
        } else {
            GameStates::Resetting
        },
{
    if effect_done {
        *state = next_game_state(*state, GameEvent::ResetDone, true);
    }
}

/// One step of the reveal: the state `delta_ms` later, the cues of what
/// changed, and the move to playing once the reveal finishes.
pub fn letter_reveal_system(
    state: &mut GameStates,
    revealed: &mut LetterWidgetRevealed,
    delta_ms: u32,
    letter: &Letter,
) -> (cues: Vec<SoundEffect>)
    requires
        *old(state) == GameStates::Printing,
    ensures
        *final(revealed) == advanced(*old(revealed), delta_ms as int, *letter),
        cues@ == cues_between(*old(revealed), *final(revealed)),
        *final(state) == if !old(revealed).finished && final(revealed).finished {
            GameStates::Playing
        } else {
            GameStates::Printing
        },
{
    let next = revealed.next_state(delta_ms, letter);
    let cues = trigger_reveal_sound_effects(revealed, &next);
    if !revealed.finished && next.finished {
        *state = next_game_state(*state, GameEvent::RevealFinished, true);
    }
    *revealed = next;
    cues
}

/// Unicode's Alphabetic property, as `char::is_alphabetic` decides it.
pub uninterp spec fn alphabetic(c: char) -> bool;

/// Relies on `char::is_alphabetic`: whether `c` has the Alphabetic property.
#[verifier::external_body]
fn is_alphabetic(c: char) -> (r: bool)
    ensures
        r == alphabetic(c),
{
    c.is_alphabetic()
}

/// `c` with an ASCII capital turned into its small letter.
pub open spec fn ascii_lower(c: char) -> char {
    if 'A' <= c <= 'Z' {
        ((c as u32) + 32) as char
    } else {
        c
    }
}

/// Whether `c` is a letter, as `char::is_alphabetic` decides it.
pub fn is_letter(c: char) -> (r: bool)
    ensures
        r == alphabetic(c),
{
    is_alphabetic(c)
}

/// Relies on `char::to_ascii_lowercase`: ASCII capitals become small letters,
/// every other character stays.
#[verifier::external_body]
fn to_ascii_lowercase(c: char) -> (r: char)
    ensures
        r == ascii_lower(c),
{
    c.to_ascii_lowercase()
}

/// Relies on `String::pop`: the last character leaves, if there is one.
#[verifier::external_body]
fn pop_char(s: &mut String)
    ensures
        old(s)@.len() > 0 ==> final(s)@ == old(s)@.drop_last(),
        old(s)@.len() == 0 ==> final(s)@ == old(s)@,
{
    s.pop();
}

/// The text the player types and the countdown of the letter in play.
pub struct Prompt {
    pub text: String,
    pub remaining_ms: u64,
}

/// Milliseconds in `seconds` seconds, held to `u64`.
pub open spec fn millis(seconds: nat) -> u64 {
    if seconds * 1000 <= u64::MAX {
        (seconds * 1000) as u64
    } else {
        u64::MAX
    }
}

impl Default for Prompt {
    fn default() -> (r: Self)
        ensures
            r.text@ == Seq::<char>::empty(),
            r.remaining_ms == 0,
    {
        Prompt { text: String::new(), remaining_ms: 0 }
    }
}

impl Prompt {
    /// Takes a typed character: a letter is added in lower case (for ASCII
    /// capitals), anything else is ignored.
    pub fn push_key(&mut self, c: char)
        ensures
            final(self).remaining_ms == old(self).remaining_ms,
            final(self).text@ == if alphabetic(c) {
                old(self).text@.push(ascii_lower(c))
            } else {
                old(self).text@
            },
    {
        if is_alphabetic(c) {
            let lower = to_ascii_lowercase(c);
            crate::text::push_char(&mut self.text, lower);
        }
    }

    /// Takes back the last character typed, if any.
    pub fn backspace(&mut self)
        ensures
            final(self).remaining_ms == old(self).remaining_ms,
            old(self).text@.len() > 0 ==> final(self).text@ == old(self).text@.drop_last(),
            old(self).text@.len() == 0 ==> final(self).text@ == old(self).text@,
    {
        pop_char(&mut self.text);
    }

    /// Empties the text.
    pub fn clear(&mut self)
        ensures
            final(self).remaining_ms == old(self).remaining_ms,
            final(self).text@ == Seq::<char>::empty(),
    {
        self.text = String::new();
    }

    /// Sets the countdown to the letter's time limit.
    pub fn start_timer(&mut self, time_limit: usize)
        ensures
            final(self).text == old(self).text,
            final(self).remaining_ms == millis(time_limit as nat),
    {
        let ms = time_limit as u128 * 1000;
        self.remaining_ms = if ms > u64::MAX as u128 {
            u64::MAX
        } else {
            ms as u64
        };
    }

    /// Counts the countdown down by `delta_ms`; says whether it has run out.
    pub fn tick(&mut self, delta_ms: u64) -> (failed: bool)
        ensures
            final(self).text == old(self).text,
            final(self).remaining_ms == if old(self).remaining_ms > delta_ms {
                (old(self).remaining_ms - delta_ms) as u64
            } else {
                0
            },
            failed == (final(self).remaining_ms == 0),
    {
        self.remaining_ms = self.remaining_ms.saturating_sub(delta_ms);
        self.remaining_ms == 0
    }
}

} // verus!
