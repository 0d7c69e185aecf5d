//! Matching a submitted word against the words on screen and the letter.

use crate::content::{Letter, Testimonial};
use crate::bag::{bag_draft, bag_items, is_fresh_draft};
use crate::pool::{removed_first, views_of, WordBag};
use crate::score::{with_effect, Statistics};
use rand_chacha::ChaCha8Rng;
use vstd::prelude::*;

verus! {

/// What a submission did.
pub struct SubmitOutcome {
    /// Positions of the shown words that matched; they are to be taken off
    /// the screen.
    pub matched: Vec<usize>,
    /// Every blessing of the letter is collected: the letter is cleared.
    pub cleared: bool,
}

/// Positions in `ws` that hold `w`, in order.
pub open spec fn positions_of(ws: Seq<Seq<char>>, w: Seq<char>) -> Seq<usize>
    decreases ws.len(),
{
    if ws.len() == 0 {
        Seq::empty()
    } else if ws.last() == w {
        positions_of(ws.drop_last(), w).push((ws.len() - 1) as usize)
    } else {
        positions_of(ws.drop_last(), w)
    }
}

/// `after` is `before` with the first occurrence of `w` taken out `m` times
/// over (or as often as there was one).
pub open spec fn removed_times(before: Seq<Seq<char>>, after: Seq<Seq<char>>, w: Seq<char>, m: nat) -> bool
    decreases m,
{
    if m == 0 {
        after == before
    } else {
        exists|mid: Seq<Seq<char>>| removed_times(before, mid, w, (m - 1) as nat) && removed_first(mid, after, w)
    }
}

/// The testimonials with those whose target is `w` marked collected.
pub open spec fn marked(ts: Seq<Testimonial>, w: Seq<char>) -> Seq<Testimonial> {
    Seq::new(
        ts.len(),
        |k: int|
            if ts[k].target_word@ == w {
                Testimonial { collected: true, ..ts[k] }
            } else {
                ts[k]
            },
    )
}

/// The statistics after the effect of each testimonial whose target is `w`
/// and that is not collected yet fires, in order.
pub open spec fn effects_of(s: Statistics, ts: Seq<Testimonial>, w: Seq<char>) -> Statistics
    decreases ts.len(),
{
    if ts.len() == 0 {
        s
    } else {
        let before = effects_of(s, ts.drop_last(), w);
        if ts.last().target_word@ == w && !ts.last().collected {
            with_effect(before, ts.last().effect)
        } else {
            before
        }
    }
}

/// The statistics after `m` matches of `w`: the first match fires the
/// effects of the matching blessings not yet collected, then of the matching
/// curses; it collects them, so later matches find nothing left to fire.
pub open spec fn after_matches(
    s: Statistics,
    blessings: Seq<Testimonial>,
    curses: Seq<Testimonial>,
    w: Seq<char>,
    m: nat,
) -> Statistics {
    if m == 0 {
        s
    } else {
        effects_of(effects_of(s, blessings, w), curses, w)
    }
}

pub open spec fn all_collected(ts: Seq<Testimonial>) -> bool {
    forall|k: int| 0 <= k < ts.len() ==> (#[trigger] ts[k]).collected
}

/// Marks the testimonials whose target is `word` collected and fires the
/// effects of those that were not collected yet.
fn collect_matching(ts: &mut Vec<Testimonial>, word: &String, stats: &mut Statistics)
    ensures
        final(ts)@ == marked(old(ts)@, word@),
        *final(stats) == effects_of(*old(stats), old(ts)@, word@),
{
    let ghost orig = ts@;
    let mut k: usize = 0;
    assert(orig.subrange(0, 0) =~= Seq::<Testimonial>::empty());
    while k < ts.len()
        invariant
            k <= ts@.len(),
            ts@.len() == orig.len(),
            forall|j: int| 0 <= j < k ==> ts@[j] == marked(orig, word@)[j],
            forall|j: int| k <= j < ts@.len() ==> ts@[j] == orig[j],
            *stats == effects_of(*old(stats), orig.subrange(0, k as int), word@),
            orig == old(ts)@,
        decreases ts@.len() - k,
    {
        assert(orig.subrange(0, k + 1).drop_last() =~= orig.subrange(0, k as int));
        if ts[k].target_word == *word && !ts[k].collected {
            let effect = ts[k].effect;
            ts[k].collected = true;
            stats.apply_effect(effect);
        }
        k = k + 1;
    }
    assert(ts@ =~= marked(orig, word@));
    assert(orig.subrange(0, k as int) =~= orig);
}

/// Once the testimonials whose target is `w` are collected, `w` fires
/// nothing more.
proof fn lemma_marked_fires_nothing(s: Statistics, ts: Seq<Testimonial>, w: Seq<char>)
    ensures
        effects_of(s, marked(ts, w), w) == s,
    decreases ts.len(),
{
    if ts.len() > 0 {
        assert(marked(ts, w).drop_last() =~= marked(ts.drop_last(), w));
        lemma_marked_fires_nothing(s, ts.drop_last(), w);
    }
}

proof fn lemma_marked_twice(ts: Seq<Testimonial>, w: Seq<char>)
    ensures
        marked(marked(ts, w), w) == marked(ts, w),
{
    assert(marked(marked(ts, w), w) =~= marked(ts, w));
}

/// Processes a submitted word: for each shown word equal to it, its first
/// entry leaves the pool, which is reshuffled, and the blessings and curses
/// whose target it is are collected and fire their effects. The prompt is
/// cleared whether or not anything matched. The letter is cleared once all
/// its blessings are collected.
pub fn submit_word(
    letter: &mut Letter,
    pool: &mut WordBag,
    stats: &mut Statistics,
    shown: &Vec<String>,
    prompt: &mut String,
    rng: &mut ChaCha8Rng,
) -> (r: SubmitOutcome)
    requires
        old(pool).wf(),
    ensures
        final(pool).wf(),
        final(pool).cubes == old(pool).cubes,
        final(prompt)@ == Seq::<char>::empty(),
        r.matched@ == positions_of(views_of(shown@), old(prompt)@),
        removed_times(old(pool).words(), final(pool).words(), old(prompt)@, r.matched@.len()),
        r.matched@.len() == 0 ==> *final(pool) == *old(pool),
        r.matched@.len() > 0 ==> is_fresh_draft(
            bag_draft(final(pool).bag),
            bag_items(final(pool).bag).len(),
        ),
        final(letter).flavor == old(letter).flavor,
        final(letter).interpolated_flavor == old(letter).interpolated_flavor,
        final(letter).recipients == old(letter).recipients,
        final(letter).time_limit == old(letter).time_limit,
        final(letter).blessings@ == if r.matched@.len() > 0 {
            marked(old(letter).blessings@, old(prompt)@)
        } else {
            old(letter).blessings@
        },
        final(letter).curses@ == if r.matched@.len() > 0 {
            marked(old(letter).curses@, old(prompt)@)
        } else {
            old(letter).curses@
        },
        *final(stats) == after_matches(
            *old(stats),
            old(letter).blessings@,
            old(letter).curses@,
            old(prompt)@,
            r.matched@.len(),
        ),
        r.cleared == all_collected(final(letter).blessings@),
{
    let ghost text = prompt@;
    let ghost b0 = letter.blessings@;
    let ghost c0 = letter.curses@;
    let ghost w0 = pool.words();
    let mut matched: Vec<usize> = Vec::new();
    let mut i: usize = 0;
    assert(views_of(shown@).subrange(0, 0) =~= Seq::<Seq<char>>::empty());
    while i < shown.len()
        invariant
            i <= shown@.len(),
            prompt@ == text,
            pool.wf(),
            pool.cubes == old(pool).cubes,
            w0 == old(pool).words(),
            matched@ == positions_of(views_of(shown@).subrange(0, i as int), text),
            removed_times(w0, pool.words(), text, matched@.len()),
            matched@.len() == 0 ==> *pool == *old(pool),
            matched@.len() > 0 ==> is_fresh_draft(bag_draft(pool.bag), bag_items(pool.bag).len()),
            letter.flavor == old(letter).flavor,
            letter.interpolated_flavor == old(letter).interpolated_flavor,
            letter.recipients == old(letter).recipients,
            letter.time_limit == old(letter).time_limit,
            b0 == old(letter).blessings@,
            c0 == old(letter).curses@,
            letter.blessings@ == if matched@.len() > 0 {
                marked(b0, text)
            } else {
                b0
            },
            letter.curses@ == if matched@.len() > 0 {
                marked(c0, text)
            } else {
                c0
            },
            *stats == after_matches(*old(stats), b0, c0, text, matched@.len()),
        decreases shown@.len() - i,
    {
        assert(views_of(shown@).subrange(0, i + 1).drop_last() =~= views_of(shown@).subrange(
            0,
            i as int,
        ));
        if shown[i] == *prompt {
            let ghost before_words = pool.words();
            let ghost s0 = *stats;
            pool.remove_and_reshuffle(prompt, rng);
            let ghost bl = letter.blessings@;
            let ghost cu = letter.curses@;
            collect_matching(&mut letter.blessings, prompt, stats);
            collect_matching(&mut letter.curses, prompt, stats);
            proof {
                if matched@.len() > 0 {
                    lemma_marked_fires_nothing(s0, b0, text);
                    lemma_marked_fires_nothing(s0, c0, text);
                }
                lemma_marked_twice(b0, text);
                lemma_marked_twice(c0, text);
                assert(removed_times(w0, pool.words(), text, (matched@.len() + 1) as nat));
            }
            matched.push(i);
        }
        i = i + 1;
    }
    assert(views_of(shown@).subrange(0, i as int) =~= views_of(shown@));
    *prompt = String::new();
    let mut cleared = true;
    let mut k: usize = 0;
    while k < letter.blessings.len()
        invariant
            k <= letter.blessings@.len(),
            cleared == forall|j: int| 0 <= j < k ==> (#[trigger] letter.blessings@[j]).collected,
        decreases letter.blessings@.len() - k,
    {
        if !letter.blessings[k].collected {
            cleared = false;
        }
        k = k + 1;
    }
    SubmitOutcome { matched, cleared }
}

proof fn lemma_no_match_no_effect(s: Statistics, ts: Seq<Testimonial>, w: Seq<char>)
    requires
        forall|j: int| 0 <= j < ts.len() ==> (#[trigger] ts[j]).target_word@ != w,
    ensures
        effects_of(s, ts, w) == s,
    decreases ts.len(),
{
    if ts.len() > 0 {
        lemma_no_match_no_effect(s, ts.drop_last(), w);
    }
}

proof fn lemma_one_match_one_effect(s: Statistics, ts: Seq<Testimonial>, w: Seq<char>, k: int)
    requires
        0 <= k < ts.len(),
        ts[k].target_word@ == w,
        !ts[k].collected,
        forall|j: int| 0 <= j < ts.len() && j != k ==> (#[trigger] ts[j]).target_word@ != w,
    ensures
        effects_of(s, ts, w) == with_effect(s, ts[k].effect),
    decreases ts.len(),
{
    if k == ts.len() - 1 {
        lemma_no_match_no_effect(s, ts.drop_last(), w);
    } else {
        lemma_one_match_one_effect(s, ts.drop_last(), w, k);
    }
}

/// Effects fire once: a word that is the target of exactly one testimonial,
/// a blessing not yet collected, fires that blessing's effect exactly once
/// however many shown words it matches, and nothing when no shown word
/// matches it; once collected, the blessing fires nothing more.
pub proof fn lemma_effect_fires_once(
    s: Statistics,
    blessings: Seq<Testimonial>,
    curses: Seq<Testimonial>,
    w: Seq<char>,
    k: int,
    m: nat,
)
    requires
        0 <= k < blessings.len(),
        blessings[k].target_word@ == w,
        !blessings[k].collected,
        forall|j: int| 0 <= j < blessings.len() && j != k ==> (#[trigger] blessings[j]).target_word@ != w,
        forall|j: int| 0 <= j < curses.len() ==> (#[trigger] curses[j]).target_word@ != w,
    ensures
        m > 0 ==> after_matches(s, blessings, curses, w, m) == with_effect(s, blessings[k].effect),
        after_matches(s, blessings, curses, w, 0) == s,
        after_matches(s, marked(blessings, w), marked(curses, w), w, m) == s,
{
    lemma_one_match_one_effect(s, blessings, w, k);
    lemma_no_match_no_effect(with_effect(s, blessings[k].effect), curses, w);
    lemma_marked_fires_nothing(s, blessings, w);
    lemma_marked_fires_nothing(s, curses, w);
}

} // verus!
