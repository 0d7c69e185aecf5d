//! The pool of guessable words of a round: the target words of the letter's
//! blessings and curses and a set of decoys, drawn through a shuffle bag.

use crate::bag::{
    bag_draft, bag_items, collection, draft_in_range, is_fresh_draft, new_bag, pick, remove_item,
    reset, shuffle_new_draft, upcoming,
};
use crate::content::{index_vec, ContentError, Testimonial};
use crate::random::next_u32;
use bevy_shuffle_bag::ShuffleBag;
use rand_chacha::ChaCha8Rng;
use vstd::prelude::*;

verus! {

/// Tag of a pool word that is a blessing's target.
pub const BLESSING_MARK: char = '+';

/// Tag of a pool word that is a curse's target.
pub const CURSE_MARK: char = 'x';

/// Tag of a decoy word.
pub const DECOY_MARK: char = '~';

/// Lowest hue of a pool word, in degrees.
pub const HUE_MIN: u32 = 165;

/// Width of the band of hues of pool words, in degrees.
pub const HUE_SPAN: u32 = 180;

/// A playable word: its text, the hue it is shown in (degrees), and the tag of
/// its kind.
#[derive(Debug)]
pub struct WordCube {
    pub word: String,
    pub hue: u32,
    pub despawn_character: char,
}

impl Clone for WordCube {
    fn clone(&self) -> (r: Self)
        ensures
            r == *self,
    {
        WordCube { word: self.word.clone(), hue: self.hue, despawn_character: self.despawn_character }
    }
}

impl WordCube {
    pub fn new(word: &str, hue: u32, despawn_character: char) -> (r: Self)
        ensures
            r.word@ == word@,
            r.hue == hue,
            r.despawn_character == despawn_character,
    {
        WordCube { word: word.to_owned(), hue, despawn_character }
    }
}

/// A hue in the band `[HUE_MIN, HUE_MIN + HUE_SPAN)`.
fn random_hue(rng: &mut ChaCha8Rng) -> (r: u32)
    ensures
        HUE_MIN <= r < HUE_MIN + HUE_SPAN,
{
    (next_u32(rng) % HUE_SPAN + HUE_MIN) % 360
}

/// A cube for each word of `words` is `cubes`, in order, tagged `mark`.
pub open spec fn cubes_for(cubes: Seq<WordCube>, words: Seq<Seq<char>>, mark: char) -> bool {
    &&& cubes.len() == words.len()
    &&& forall|k: int|
        0 <= k < cubes.len() ==> (#[trigger] cubes[k]).word@ == words[k] && cubes[k].despawn_character
            == mark && HUE_MIN <= cubes[k].hue < HUE_MIN + HUE_SPAN
}

pub open spec fn targets_of(ts: Seq<Testimonial>) -> Seq<Seq<char>> {
    Seq::new(ts.len(), |k: int| ts[k].target_word@)
}

pub open spec fn views_of(ws: Seq<String>) -> Seq<Seq<char>> {
    Seq::new(ws.len(), |k: int| ws[k]@)
}

/// Appends a cube tagged `mark` for each of `words`.
fn push_cubes(out: &mut Vec<WordCube>, words: &Vec<String>, mark: char, rng: &mut ChaCha8Rng)
    ensures
        final(out)@.len() == old(out)@.len() + words@.len(),
        final(out)@.subrange(0, old(out)@.len() as int) == old(out)@,
        cubes_for(
            final(out)@.subrange(old(out)@.len() as int, final(out)@.len() as int),
            views_of(words@),
            mark,
        ),
{
    let ghost start = out@.len();
    let mut i: usize = 0;
    while i < words.len()
        invariant
            i <= words@.len(),
            out@.len() == start + i,
            out@.subrange(0, start as int) == old(out)@,
            start == old(out)@.len(),
            cubes_for(
                out@.subrange(start as int, out@.len() as int),
                views_of(words@).subrange(0, i as int),
                mark,
            ),
        decreases words@.len() - i,
    {
        let hue = random_hue(rng);
        let ghost before = out@;
        let cube = WordCube::new(words[i].as_str(), hue, mark);
        assert(cube.word@ == views_of(words@)[i as int]);
        out.push(cube);
        assert(out@.subrange(0, start as int) =~= before.subrange(0, start as int));
        assert(cubes_for(
            out@.subrange(start as int, out@.len() as int),
            views_of(words@).subrange(0, i + 1),
            mark,
        )) by {
            let c = out@.subrange(start as int, out@.len() as int);
            let c0 = before.subrange(start as int, before.len() as int);
            assert forall|k: int| 0 <= k < c.len() implies (#[trigger] c[k]).word@ == views_of(
                words@,
            ).subrange(0, i + 1)[k] && c[k].despawn_character == mark && HUE_MIN <= c[k].hue
                < HUE_MIN + HUE_SPAN by {
                if k < i {
                    assert(c[k] == c0[k]);
                    assert(cubes_for(c0, views_of(words@).subrange(0, i as int), mark));
                    assert(c0[k].word@ == views_of(words@).subrange(0, i as int)[k]);
                } else {
                    assert(c[k] == cube);
                }
            }
        }
        i = i + 1;
    }
    assert(views_of(words@).subrange(0, i as int) =~= views_of(words@));
}

/// The target words of `ts`, in order.
fn target_words(ts: &Vec<Testimonial>) -> (r: Vec<String>)
    ensures
        views_of(r@) == targets_of(ts@),
{
    let mut r: Vec<String> = Vec::new();
    let mut i: usize = 0;
    while i < ts.len()
        invariant
            i <= ts@.len(),
            r@.len() == i,
            views_of(r@) == targets_of(ts@).subrange(0, i as int),
        decreases ts@.len() - i,
    {
        let w = ts[i].target_word.clone();
        assert(w@ == ts@[i as int].target_word@);
        let ghost before = r@;
        r.push(w);
        assert forall|k: int| 0 <= k < i implies r@[k]@ == targets_of(ts@)[k] by {
            assert(r@[k] == before[k]);
            assert(views_of(before)[k] == targets_of(ts@).subrange(0, i as int)[k]);
        }
        assert(views_of(r@) =~= targets_of(ts@).subrange(0, i + 1));
        i = i + 1;
    }
    assert(targets_of(ts@).subrange(0, i as int) =~= targets_of(ts@));
    r
}

/// `k` is the first position of `w` in `ws`.
pub open spec fn first_at(ws: Seq<Seq<char>>, w: Seq<char>, k: int) -> bool {
    0 <= k < ws.len() && ws[k] == w && forall|j: int| 0 <= j < k ==> ws[j] != w
}

/// `after` is `before` without the first occurrence of `w`, or `before`
/// itself where `w` does not occur.
pub open spec fn removed_first(before: Seq<Seq<char>>, after: Seq<Seq<char>>, w: Seq<char>) -> bool {
    if before.contains(w) {
        exists|k: int| first_at(before, w, k) && after == before.remove(k)
    } else {
        after == before
    }
}

/// Removal: where the pool held `w` once, after its removal it holds `w` no
/// more, and one entry fewer.
pub proof fn lemma_removal_takes_the_word(before: Seq<Seq<char>>, after: Seq<Seq<char>>, w: Seq<
    char,
>)
    requires
        before.to_multiset().count(w) == 1,
        removed_first(before, after, w),
    ensures
        !after.contains(w),
        after.len() == before.len() - 1,
{
    broadcast use vstd::seq_lib::group_to_multiset_ensures, vstd::multiset::group_multiset_axioms;

    assert(before.contains(w));
    let k = choose|k: int| first_at(before, w, k) && after == before.remove(k);
    vstd::seq_lib::to_multiset_remove(before, k);
    assert(after.to_multiset().count(w) == 0);
}

/// The words in play in a round.
pub struct WordBag {
    pub cubes: Vec<WordCube>,
    pub bag: ShuffleBag<usize>,
}

impl WordBag {
    pub open spec fn wf(&self) -> bool {
        &&& forall|k: int|
            0 <= k < bag_items(self.bag).len() ==> bag_items(self.bag)[k] < self.cubes@.len()
        &&& draft_in_range(self.bag)
        &&& bag_items(self.bag).len() > 0 ==> bag_draft(self.bag).len() > 0
    }

    /// The entries of the pool, in the order of the bag's collection.
    pub open spec fn entries(&self) -> Seq<WordCube> {
        Seq::new(bag_items(self.bag).len(), |k: int| self.cubes@[bag_items(self.bag)[k] as int])
    }

    /// The words of the pool, in the order of the bag's collection.
    pub open spec fn words(&self) -> Seq<Seq<char>> {
        Seq::new(bag_items(self.bag).len(), |k: int| self.entries()[k].word@)
    }

    /// A pool of the blessings' targets tagged `+`, the curses' targets
    /// tagged `x` and the decoys tagged `~`, each with a hue from the band,
    /// freshly shuffled. Fails when there is no word at all.
    pub fn new(
        blessings: &Vec<Testimonial>,
        curses: &Vec<Testimonial>,
        decoys: &Vec<String>,
        rng: &mut ChaCha8Rng,
    ) -> (r: Result<WordBag, ContentError>)
        ensures
            r is Err <==> blessings@.len() + curses@.len() + decoys@.len() == 0,
            r matches Err(e) ==> e == ContentError::NoWords,
            r matches Ok(w) ==> {
                let ghost nb = blessings@.len() as int;
                let ghost nc = curses@.len() as int;
                let e = w.entries();
                &&& w.wf()
                &&& is_fresh_draft(bag_draft(w.bag), bag_items(w.bag).len())
                &&& e.len() == nb + nc + decoys@.len()
                &&& cubes_for(e.subrange(0, nb), targets_of(blessings@), BLESSING_MARK)
                &&& cubes_for(e.subrange(nb, nb + nc), targets_of(curses@), CURSE_MARK)
                &&& cubes_for(e.subrange(nb + nc, e.len() as int), views_of(decoys@), DECOY_MARK)
            },
    {
        let mut cubes: Vec<WordCube> = Vec::new();
        let bw = target_words(blessings);
        push_cubes(&mut cubes, &bw, BLESSING_MARK, rng);
        let ghost c1 = cubes@;
        let cw = target_words(curses);
        push_cubes(&mut cubes, &cw, CURSE_MARK, rng);
        let ghost c2 = cubes@;
        push_cubes(&mut cubes, decoys, DECOY_MARK, rng);
        let n = cubes.len();
        match new_bag(index_vec(n), rng) {
            None => Err(ContentError::NoWords),
            Some(bag) => {
                let w = WordBag { cubes, bag };
                let ghost nb = blessings@.len() as int;
                let ghost nc = curses@.len() as int;
                assert(w.entries() =~= w.cubes@);
                assert(c1.subrange(0, c1.len() as int) =~= c1);
                assert(c1.len() == nb);
                assert(c2.len() == nb + nc);
                assert(w.cubes@.subrange(0, c2.len() as int) == c2);
                assert(c2.subrange(0, nb) == c1);
                assert(w.cubes@.subrange(0, nb) =~= c2.subrange(0, nb));
                assert(w.cubes@.subrange(nb, nb + nc) =~= c2.subrange(nb, nb + nc));
                Ok(w)
            },
        }
    }

    /// The next entry of the bag; `None` when the pool is empty.
    pub fn draw(&mut self, rng: &mut ChaCha8Rng) -> (r: Option<WordCube>)
        requires
            old(self).wf(),
        ensures
            final(self).wf(),
            final(self).cubes == old(self).cubes,
            bag_items(final(self).bag) == bag_items(old(self).bag),
            r is None <==> old(self).entries().len() == 0,
            r is None ==> *final(self) == *old(self),
            r matches Some(c) ==> c == old(self).cubes@[upcoming(old(self).bag)[0] as int],
            bag_draft(old(self).bag).len() > 1 ==> bag_draft(final(self).bag) == bag_draft(
                old(self).bag,
            ).drop_last(),
            bag_draft(old(self).bag).len() == 1 ==> is_fresh_draft(
                bag_draft(final(self).bag),
                bag_items(old(self).bag).len(),
            ),
    {
        let n = collection(&self.bag).len();
        if n == 0 {
            assert(bag_draft(self.bag).len() == 0) by {
                if bag_draft(self.bag).len() > 0 {
                    assert(bag_draft(self.bag)[0] < bag_items(self.bag).len());
                }
            }
            return None;
        }
        let i = pick(&mut self.bag, rng);
        Some(self.cubes[i].clone())
    }

    /// Position in the pool of the first entry whose word is `word`.
    fn position_of(&self, word: &String) -> (r: Option<usize>)
        requires
            self.wf(),
        ensures
            r is None <==> !self.words().contains(word@),
            r matches Some(k) ==> first_at(self.words(), word@, k as int),
    {
        let items = collection(&self.bag);
        let mut k: usize = 0;
        while k < items.len()
            invariant
                items@ == bag_items(self.bag),
                self.wf(),
                k <= items@.len(),
                forall|j: int| 0 <= j < k ==> self.words()[j] != word@,
            decreases items@.len() - k,
        {
            if self.cubes[items[k]].word == *word {
                assert(self.words()[k as int] == word@);
                return Some(k);
            }
            k = k + 1;
        }
        assert forall|j: int| 0 <= j < self.words().len() implies self.words()[j] != word@ by {}
        None
    }

    /// Takes the first entry whose word is `word` out of the pool, if there is
    /// one, and shuffles a fresh draft either way. Says whether an entry left.
    pub fn remove_and_reshuffle(&mut self, word: &String, rng: &mut ChaCha8Rng) -> (r: bool)
        requires
            old(self).wf(),
        ensures
            final(self).wf(),
            final(self).cubes == old(self).cubes,
            is_fresh_draft(bag_draft(final(self).bag), bag_items(final(self).bag).len()),
            r == old(self).words().contains(word@),
            removed_first(old(self).words(), final(self).words(), word@),
    {
        let found = self.position_of(word);
        let ghost before = self.words();
        match found {
            Some(k) => {
                let ghost items = bag_items(self.bag);
                remove_item(&mut self.bag, k);
                reset(&mut self.bag, rng);
                assert(self.words() =~= before.remove(k as int));
                true
            },
            None => {
                reset(&mut self.bag, rng);
                assert(self.words() =~= before);
                false
            },
        }
    }

    /// The entry to show next, unless its word is already among `visible`: then
    /// a fresh draft is shuffled and nothing is shown this time. `None` also
    /// when the pool is empty.
    pub fn next_spawn(&mut self, visible: &Vec<String>, rng: &mut ChaCha8Rng) -> (r: Option<
        WordCube,
    >)
        requires
            old(self).wf(),
        ensures
            final(self).wf(),
            final(self).cubes == old(self).cubes,
            bag_items(final(self).bag) == bag_items(old(self).bag),
            old(self).entries().len() == 0 ==> r is None && *final(self) == *old(self),
            old(self).entries().len() > 0 ==> {
                let c = old(self).cubes@[upcoming(old(self).bag)[0] as int];
                if views_of(visible@).contains(c.word@) {
                    &&& r is None
                    &&& is_fresh_draft(bag_draft(final(self).bag), bag_items(final(self).bag).len())
                } else {
                    &&& r == Some(c)
                    &&& bag_draft(old(self).bag).len() > 1 ==> bag_draft(final(self).bag)
                        == bag_draft(old(self).bag).drop_last()
                    &&& bag_draft(old(self).bag).len() == 1 ==> is_fresh_draft(
                        bag_draft(final(self).bag),
                        bag_items(old(self).bag).len(),
                    )
                }
            },
    {
        let drawn = self.draw(rng);
        match drawn {
            None => None,
            Some(cube) => {
                let mut i: usize = 0;
                while i < visible.len()
                    invariant
                        i <= visible@.len(),
                        forall|j: int| 0 <= j < i ==> visible@[j]@ != cube.word@,
                        self.wf(),
                        self.cubes == old(self).cubes,
                        bag_items(self.bag) == bag_items(old(self).bag),
                        old(self).entries().len() > 0,
                        cube == old(self).cubes@[upcoming(old(self).bag)[0] as int],
                        bag_draft(old(self).bag).len() > 1 ==> bag_draft(self.bag) == bag_draft(
                            old(self).bag,
                        ).drop_last(),
                        bag_draft(old(self).bag).len() == 1 ==> is_fresh_draft(
                            bag_draft(self.bag),
                            bag_items(old(self).bag).len(),
                        ),
                    decreases visible@.len() - i,
                {
                    if visible[i] == cube.word {
                        assert(views_of(visible@)[i as int] == cube.word@);
                        shuffle_new_draft(&mut self.bag, rng);
                        return None;
                    }
                    i = i + 1;
                }
                assert(!views_of(visible@).contains(cube.word@));
                Some(cube)
            },
        }
    }
}

/// The words of the coming draws, in the order they come.
pub open spec fn upcoming_words(w: WordBag) -> Seq<Seq<char>> {
    Seq::new(upcoming(w.bag).len(), |j: int| w.cubes@[upcoming(w.bag)[j] as int].word@)
}

/// Fairness of the pool: from a freshly shuffled draft, the draws, as many as
/// the pool holds, bring every word of the pool exactly once.
pub proof fn lemma_pool_draws_each_word_once(w: WordBag)
    requires
        w.wf(),
        is_fresh_draft(bag_draft(w.bag), bag_items(w.bag).len()),
    ensures
        upcoming_words(w).len() == w.words().len(),
        upcoming_words(w).to_multiset() == w.words().to_multiset(),
{
    let d = bag_draft(w.bag);
    let n = d.len() as int;
    let p = Seq::new(d.len(), |j: int| d[n - 1 - j]);
    assert forall|x: int, y: int| 0 <= x < y < p.len() implies p[x] != p[y] by {
        assert(d[n - 1 - x] != d[n - 1 - y]);
    }
    crate::bag::lemma_permutation_multiset(w.words(), p);
    assert(upcoming_words(w) =~= Seq::new(p.len(), |j: int| w.words()[p[j] as int]));
}

} // verus!
