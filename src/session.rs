//! One game session: the state, the content, the round in play and the
//! statistics, driven by time steps, key presses and the end of the reset
//! effect that the caller reports.

use crate::bag::{bag_draft, bag_items, is_fresh_draft, upcoming};
use crate::content::{all_ok, first_missing, ContentError, Letter, LetterAssets, LetterBag};
use crate::input::{
    handle_keyboard_input_system, handle_prompt_input_system, typed_text, types, Flags, Key,
    KeyAction,
};
use crate::matching::{after_matches, all_collected, marked, positions_of, removed_times, submit_word};
use crate::pool::{views_of, WordBag};
use crate::round::{
    all_decoys_ok, cue_if, generate_current_letter_system, is_round_of, letter_cleared_observer, letter_failed_observer,
    letter_reveal_system, millis, next_game_state, transition, GameEvent, GameStates, Prompt,
    SoundEffect,
};
use crate::score::{paid, Statistics};
use crate::timeline::{advanced, start_state, LetterWidgetRevealed};
use rand_chacha::ChaCha8Rng;
use vstd::prelude::*;

verus! {

/// Milliseconds between two words appearing while playing.
pub const SPAWN_INTERVAL_MS: u64 = 1200;

/// `ws` without the words equal to `w`.
pub open spec fn without_word(ws: Seq<Seq<char>>, w: Seq<char>) -> Seq<Seq<char>>
    decreases ws.len(),
{
    if ws.len() == 0 {
        ws
    } else if ws.last() == w {
        without_word(ws.drop_last(), w)
    } else {
        without_word(ws.drop_last(), w).push(ws.last())
    }
}

/// The shown words without those equal to `w`.
fn remove_shown(shown: &Vec<String>, w: &String) -> (r: Vec<String>)
    ensures
        views_of(r@) == without_word(views_of(shown@), w@),
{
    let mut out: Vec<String> = Vec::new();
    let mut i: usize = 0;
    assert(views_of(shown@).subrange(0, 0) =~= Seq::<Seq<char>>::empty());
    while i < shown.len()
        invariant
            i <= shown@.len(),
            views_of(out@) == without_word(views_of(shown@).subrange(0, i as int), w@),
        decreases shown@.len() - i,
    {
        assert(views_of(shown@).subrange(0, i + 1).drop_last() =~= views_of(shown@).subrange(
            0,
            i as int,
        ));
        if shown[i] != *w {
            let ghost before = out@;
            out.push(shown[i].clone());
            assert(views_of(out@) =~= views_of(before).push(shown@[i as int]@));
        }
        i = i + 1;
    }
    assert(views_of(shown@).subrange(0, i as int) =~= views_of(shown@));
    out
}

/// A game session.
pub struct Session {
    pub state: GameStates,
    pub letter_bag: LetterBag,
    pub letter: Letter,
    pub pool: WordBag,
    pub stats: Statistics,
    pub prompt: Prompt,
    pub revealed: LetterWidgetRevealed,
    pub flags: Flags,
    /// The words on screen.
    pub shown: Vec<String>,
    /// Milliseconds since a word last appeared.
    pub since_spawn_ms: u64,
}

impl Session {
    pub open spec fn wf(&self) -> bool {
        self.letter_bag.wf() && self.pool.wf()
    }

    /// The session is at the start of a round on the content of `b`.
    pub open spec fn round_start(&self, b: LetterBag) -> bool {
        &&& is_round_of(self.letter, self.pool, b)
        &&& self.revealed == start_state()
        &&& self.prompt.remaining_ms == millis(self.letter.time_limit as nat)
        &&& self.shown@.len() == 0
        &&& self.since_spawn_ms == 0
    }

    /// A session on the content `assets`, past loading: on the rules screen
    /// unless `info_shown`, with the first round dealt.
    pub fn new(assets: LetterAssets, info_shown: bool, rng: &mut ChaCha8Rng) -> (r: Result<
        Session,
        ContentError,
    >)
        ensures
            first_missing(assets) matches Some(e) ==> r == Err::<Session, ContentError>(e),
            first_missing(assets) is None && all_ok(assets.blessings@) && all_ok(assets.curses@)
                && all_decoys_ok(assets.decoys@) ==> r is Ok,
            r is Err ==> first_missing(assets) is Some || !(all_ok(assets.blessings@) && all_ok(
                assets.curses@,
            ) && all_decoys_ok(assets.decoys@)),
            r matches Ok(s) ==> {
                &&& s.wf()
                &&& s.state == transition(GameStates::Loading, GameEvent::ContentLoaded, info_shown)
                &&& s.stats == (Statistics { score: 0, money: 0, income: 0 })
                &&& s.flags == (Flags { debug: false, sound: true })
                &&& s.prompt.text@.len() == 0
                &&& s.letter_bag.flavors == assets.flavors && s.letter_bag.blessings
                    == assets.blessings && s.letter_bag.curses == assets.curses
                    && s.letter_bag.decoys == assets.decoys && s.letter_bag.names == assets.names
                &&& exists|b: LetterBag| b.same_content(s.letter_bag) && s.round_start(b)
            },
    {
        let mut letter_bag = match LetterBag::new(assets, rng) {
            Ok(b) => b,
            Err(e) => {
                return Err(e);
            },
        };
        let ghost b0 = letter_bag;
        let (letter, pool) = match generate_current_letter_system(&mut letter_bag, rng) {
            Ok(round) => round,
            Err(e) => {
                return Err(e);
            },
        };
        let mut prompt = Prompt::default();
        prompt.start_timer(letter.time_limit);
        let s = Session {
            state: next_game_state(GameStates::Loading, GameEvent::ContentLoaded, info_shown),
            letter_bag,
            letter,
            pool,
            stats: Statistics::default(),
            prompt,
            revealed: LetterWidgetRevealed::default(),
            flags: Flags::default(),
            shown: Vec::new(),
            since_spawn_ms: 0,
        };
        assert(b0.same_content(s.letter_bag) && s.round_start(b0));
        Ok(s)
    }

    /// Deals a new round: letter and pool, a fresh reveal and countdown, no
    /// word on screen.
    fn start_round(&mut self, rng: &mut ChaCha8Rng) -> (r: Result<(), ContentError>)
        requires
            old(self).wf(),
        ensures
            final(self).wf(),
            final(self).letter_bag.same_content(old(self).letter_bag),
            final(self).state == old(self).state,
            final(self).stats == old(self).stats,
            final(self).flags == old(self).flags,
            final(self).prompt.text == old(self).prompt.text,
            r is Ok ==> final(self).round_start(old(self).letter_bag),
            all_ok(old(self).letter_bag.blessings@) && all_ok(old(self).letter_bag.curses@)
                && all_decoys_ok(old(self).letter_bag.decoys@) ==> r is Ok,
            r is Err ==> !(all_ok(old(self).letter_bag.blessings@) && all_ok(
                old(self).letter_bag.curses@,
            ) && all_decoys_ok(old(self).letter_bag.decoys@)),
    {
        match generate_current_letter_system(&mut self.letter_bag, rng) {
            Ok((letter, pool)) => {
                self.letter = letter;
                self.pool = pool;
                self.revealed = LetterWidgetRevealed::default();
                self.prompt.start_timer(self.letter.time_limit);
                self.shown = Vec::new();
                self.since_spawn_ms = 0;
                Ok(())
            },
            Err(e) => Err(e),
        }
    }

    /// Lets `delta_ms` pass. While printing, the reveal advances and moves on
    /// to playing when it finishes. While playing, the countdown runs; when it
    /// runs out the letter fails and the prompt is emptied; otherwise, once per spawn interval, the next
    /// word of the pool appears unless it is already on screen. Returns the
    /// cues to play.
    pub fn tick(&mut self, delta_ms: u32, rng: &mut ChaCha8Rng) -> (cues: Vec<SoundEffect>)
        requires
            old(self).wf(),
        ensures
            final(self).wf(),
            final(self).letter_bag == old(self).letter_bag,
            final(self).letter == old(self).letter,
            final(self).stats == old(self).stats,
            final(self).flags == old(self).flags,
            final(self).state != GameStates::Resetting ==> final(self).prompt.text
                == old(self).prompt.text,
            old(self).state == GameStates::Printing ==> {
                &&& final(self).revealed == advanced(old(self).revealed, delta_ms as int, old(self).letter)
                &&& final(self).state == if !old(self).revealed.finished && final(self).revealed.finished {
                    GameStates::Playing
                } else {
                    GameStates::Printing
                }
            },
            old(self).state == GameStates::Playing ==> {
                &&& final(self).prompt.remaining_ms == if old(self).prompt.remaining_ms > delta_ms {
                    (old(self).prompt.remaining_ms - delta_ms) as u64
                } else {
                    0
                }
                &&& final(self).prompt.remaining_ms == 0 ==> final(self).state == GameStates::Resetting
                    && final(self).prompt.text@.len() == 0 && cues@ == seq![SoundEffect::LetterFail]
                &&& final(self).prompt.remaining_ms > 0 ==> final(self).state == GameStates::Playing
                    && cues@.len() == 0 && spawned(*old(self), *final(self), delta_ms as int)
            },
            old(self).state != GameStates::Printing && old(self).state != GameStates::Playing ==> {
                &&& final(self).state == old(self).state
                &&& cues@.len() == 0
            },
    {
        if self.state == GameStates::Printing {
            return letter_reveal_system(&mut self.state, &mut self.revealed, delta_ms, &self.letter);
        }
        if self.state != GameStates::Playing {
            return Vec::new();
        }
        let mut cues: Vec<SoundEffect> = Vec::new();
        if self.prompt.tick(delta_ms as u64) {
            letter_failed_observer(&mut self.state);
            self.prompt.clear();
            cues.push(SoundEffect::LetterFail);
            assert(cues@ =~= seq![SoundEffect::LetterFail]);
            return cues;
        }
        let since = self.since_spawn_ms.saturating_add(delta_ms as u64);
        if since >= SPAWN_INTERVAL_MS {
            self.since_spawn_ms = 0;
            let ghost before = views_of(self.shown@);
            match self.pool.next_spawn(&self.shown, rng) {
                Some(cube) => {
                    self.shown.push(cube.word);
                    assert(views_of(self.shown@) =~= before.push(cube.word@));
                },
                None => {},
            }
        } else {
            self.since_spawn_ms = since;
        }
        cues
    }

    /// Takes a key press: the flags and the prompt take it, the space bar
    /// leaves the rules screen, and Enter while playing submits the prompt.
    /// Returns the cues to play and what the key asks of the caller.
    pub fn key(&mut self, key: Key, rng: &mut ChaCha8Rng) -> (r: (Vec<SoundEffect>, KeyAction))
        requires
            old(self).wf(),
        ensures
            final(self).wf(),
            final(self).letter_bag == old(self).letter_bag,
            old(self).state == GameStates::Info ==> final(self).state == if key == Key::Char(' ') {
                GameStates::Printing
            } else {
                GameStates::Info
            },
            old(self).state != GameStates::Info && old(self).state != GameStates::Playing
                ==> final(self).state == old(self).state,
            r.1 == crate::input::key_action(key, old(self).state),
            final(self).flags == crate::input::toggled(old(self).flags, key),
            final(self).prompt.remaining_ms == old(self).prompt.remaining_ms,
            r.1 != KeyAction::Submit ==> {
                &&& final(self).prompt.text@ == typed_text(old(self).prompt.text@, key)
                &&& r.0@ == cue_if(types(key), SoundEffect::TextCharacter)
                &&& final(self).letter == old(self).letter
                &&& final(self).pool == old(self).pool
                &&& final(self).stats == old(self).stats
                &&& final(self).shown == old(self).shown
            },
            r.1 == KeyAction::Submit ==> submitted(*old(self), *final(self), r.0@),
    {
        let mut cues: Vec<SoundEffect> = Vec::new();
        if self.state == GameStates::Info && key == Key::Char(' ') {
            self.state = next_game_state(self.state, GameEvent::ContinuePressed, false);
        }
        let action = handle_keyboard_input_system(key, self.state, &mut self.flags);
        if handle_prompt_input_system(key, &mut self.prompt) {
            cues.push(SoundEffect::TextCharacter);
        }
        if action == KeyAction::Submit {
            let text = self.prompt.text.clone();
            let outcome = submit_word(
                &mut self.letter,
                &mut self.pool,
                &mut self.stats,
                &self.shown,
                &mut self.prompt.text,
                rng,
            );
            self.shown = remove_shown(&self.shown, &text);
            if outcome.cleared {
                letter_cleared_observer(&mut self.state, &mut self.stats);
                cues.push(SoundEffect::LetterClear);
            }
        }
        (cues, action)
    }

    /// The reset effect is done: the next letter is dealt and printed.
    pub fn reset_done(&mut self, rng: &mut ChaCha8Rng) -> (r: Result<(), ContentError>)
        requires
            old(self).wf(),
        ensures
            final(self).wf(),
            final(self).letter_bag.same_content(old(self).letter_bag),
            final(self).stats == old(self).stats,
            old(self).state == GameStates::Resetting ==> final(self).state == GameStates::Printing
                && final(self).prompt.text@.len() == 0 && (r is Ok ==> final(self).round_start(
                old(self).letter_bag,
            )),
            old(self).state != GameStates::Resetting ==> *final(self) == *old(self) && r is Ok,
            old(self).state == GameStates::Resetting && all_ok(old(self).letter_bag.blessings@)
                && all_ok(old(self).letter_bag.curses@) && all_decoys_ok(
                old(self).letter_bag.decoys@,
            ) ==> r is Ok,
            r is Err ==> !(all_ok(old(self).letter_bag.blessings@) && all_ok(
                old(self).letter_bag.curses@,
            ) && all_decoys_ok(old(self).letter_bag.decoys@)),
    {
        if self.state != GameStates::Resetting {
            return Ok(());
        }
        self.prompt.clear();
        self.state = next_game_state(self.state, GameEvent::ResetDone, true);
        self.start_round(rng)
    }
}

/// `after` is `before` one tick of `delta` later while playing with time
/// left: the spawn clock runs, and once per interval the next word of the
/// pool appears unless it is already on screen.
pub open spec fn spawned(before: Session, after: Session, delta: int) -> bool {
    let since = before.since_spawn_ms + delta;
    if since >= SPAWN_INTERVAL_MS {
        &&& after.since_spawn_ms == 0
        &&& after.pool.cubes == before.pool.cubes
        &&& if before.pool.entries().len() > 0 && !views_of(before.shown@).contains(
            before.pool.cubes@[upcoming(before.pool.bag)[0] as int].word@,
        ) {
            views_of(after.shown@) == views_of(before.shown@).push(
                before.pool.cubes@[upcoming(before.pool.bag)[0] as int].word@,
            )
        } else {
            views_of(after.shown@) == views_of(before.shown@)
        }
    } else {
        &&& after.since_spawn_ms == since
        &&& after.pool == before.pool
        &&& after.shown == before.shown
    }
}

/// `after` is `before` after Enter while playing: every shown word equal to
/// the prompt is matched (its entry leaves the pool, its blessings and curses
/// are collected and fire), those words leave the screen, the prompt is
/// emptied, and a letter whose blessings are all collected is cleared and pays
/// the income.
pub open spec fn submitted(before: Session, after: Session, cues: Seq<SoundEffect>) -> bool {
    let text = before.prompt.text@;
    let m = positions_of(views_of(before.shown@), text).len();
    let cleared = all_collected(after.letter.blessings@);
    let matched_stats = after_matches(
        before.stats,
        before.letter.blessings@,
        before.letter.curses@,
        text,
        m,
    );
    &&& after.prompt.text@.len() == 0
    &&& views_of(after.shown@) == without_word(views_of(before.shown@), text)
    &&& removed_times(before.pool.words(), after.pool.words(), text, m)
    &&& m == 0 ==> after.pool == before.pool
    &&& m > 0 ==> is_fresh_draft(bag_draft(after.pool.bag), bag_items(after.pool.bag).len())
    &&& after.letter.blessings@ == if m > 0 {
        marked(before.letter.blessings@, text)
    } else {
        before.letter.blessings@
    }
    &&& after.letter.curses@ == if m > 0 {
        marked(before.letter.curses@, text)
    } else {
        before.letter.curses@
    }
    &&& after.state == if cleared {
        GameStates::Resetting
    } else {
        GameStates::Playing
    }
    &&& after.stats == if cleared {
        paid(matched_stats)
    } else {
        matched_stats
    }
    &&& cues == if cleared {
        seq![SoundEffect::LetterClear]
    } else {
        Seq::empty()
    }
}

} // verus!
