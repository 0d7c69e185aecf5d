//! The content of a letter: templates loaded once, and the letter that one
//! round is played on, and the bag of templates that letters are drawn from.

use crate::bag::{
    bag_draft, bag_items, bag_ready, lemma_pick_takes_the_next, new_bag, pick, upcoming,
};
use crate::random::{below, choose_between};
use crate::text::{
    chars_of, decimal, decimal_string, get_word_at_index, masked, replace_all,
    replace_word_with_underscores, replaced, string_of, words, push_char,
};
use bevy_shuffle_bag::ShuffleBag;
use rand_chacha::ChaCha8Rng;
use vstd::prelude::*;
use vstd::string::StrSliceExecFns;

verus! {

/// What collecting a testimonial does to the statistics.
#[derive(Clone, Copy, Debug, PartialEq, Eq, Structural)]
pub enum Effect {
    Score(i32),
    Money(i32),
    Income(i32),
    Noop,
}

/// A testimonial template: a message with pronoun placeholders, its effect,
/// and the indices of words that may be its target (the first one is used).
#[derive(Clone, Debug)]
pub struct TestimonialStub {
    pub message: String,
    pub effect: Effect,
    pub targets: Vec<usize>,
}

/// A letter template; body and signoff may hold `{recipients}` and
/// `{time_limit}`.
#[derive(Debug)]
pub struct Flavor {
    pub title: String,
    pub body: String,
    pub signoff: String,
    pub footer: String,
}

/// A first name and the pronouns that go with it.
#[derive(Clone, Debug)]
pub struct Name {
    pub first_name: String,
    pub pronouns: Pronouns,
}

#[derive(Clone, Copy, Debug, PartialEq, Eq, Structural)]
pub enum Pronouns {
    HeHimHis,
    SheHerHers,
    TheyThemTheir,
}

/// A blessing or a curse of one letter, with its target word masked out of
/// the message.
#[derive(Clone, Debug)]
pub struct Testimonial {
    pub first_name: String,
    pub last_initial: char,
    pub pronouns: Pronouns,
    pub message: String,
    pub target_word: String,
    pub effect: Effect,
    pub collected: bool,
}

/// Body and signoff of a flavor with their placeholders filled in.
#[derive(Clone, Debug)]
pub struct InterpolatedFlavor {
    pub body: String,
    pub signoff: String,
}

/// One round's content.
#[derive(Clone, Debug)]
pub struct Letter {
    pub flavor: Flavor,
    pub interpolated_flavor: InterpolatedFlavor,
    pub recipients: usize,
    pub time_limit: usize,
    pub blessings: Vec<Testimonial>,
    pub curses: Vec<Testimonial>,
}

impl Clone for Flavor {
    fn clone(&self) -> (r: Self)
        ensures
            r == *self,
    {
        Flavor {
            title: self.title.clone(),
            body: self.body.clone(),
            signoff: self.signoff.clone(),
            footer: self.footer.clone(),
        }
    }
}

/// Lowest number of recipients a letter asks for. The range of recipients is
/// a choice of this library; no content sets it.
pub const RECIPIENTS_MIN: usize = 5;

/// Highest number of recipients a letter asks for (see `RECIPIENTS_MIN`).
pub const RECIPIENTS_MAX: usize = 12;

/// Shortest time limit of a letter, in seconds.
pub const TIME_LIMIT_MIN: usize = 40;

/// Longest time limit of a letter, in seconds.
pub const TIME_LIMIT_MAX: usize = 60;

/// Why content cannot make a letter.
#[derive(Clone, Copy, Debug, PartialEq, Eq, Structural)]
pub enum ContentError {
    NoFlavors,
    NoBlessings,
    NoCurses,
    NoNames,
    NoDecoys,
    /// A stub lists no target index.
    NoTarget,
    /// A stub's target index is past the words of its message.
    TargetOutOfRange,
    /// A pool would hold no word.
    NoWords,
}

impl ContentError {
    /// What is wrong with the content, in words.
    pub fn describe(&self) -> &'static str {
        match self {
            ContentError::NoFlavors => "the flavor table is empty",
            ContentError::NoBlessings => "the blessing table is empty",
            ContentError::NoCurses => "the curse table is empty",
            ContentError::NoNames => "the name table is empty",
            ContentError::NoDecoys => "the decoy table is empty",
            ContentError::NoTarget => "a testimonial lists no target word",
            ContentError::TargetOutOfRange => "a target word index is past the words of its message",
            ContentError::NoWords => "a round would have no word to guess",
        }
    }
}

pub open spec fn subject_of(p: Pronouns) -> Seq<char> {
    match p {
        Pronouns::HeHimHis => "he"@,
        Pronouns::SheHerHers => "she"@,
        Pronouns::TheyThemTheir => "they"@,
    }
}

pub open spec fn object_of(p: Pronouns) -> Seq<char> {
    match p {
        Pronouns::HeHimHis => "him"@,
        Pronouns::SheHerHers => "her"@,
        Pronouns::TheyThemTheir => "them"@,
    }
}

pub open spec fn possessive_of(p: Pronouns) -> Seq<char> {
    match p {
        Pronouns::HeHimHis => "his"@,
        Pronouns::SheHerHers => "her"@,
        Pronouns::TheyThemTheir => "their"@,
    }
}

impl Pronouns {
    pub fn subject(&self) -> (r: String)
        ensures
            r@ == subject_of(*self),
    {
        match self {
            Pronouns::HeHimHis => "he".to_owned(),
            Pronouns::SheHerHers => "she".to_owned(),
            Pronouns::TheyThemTheir => "they".to_owned(),
        }
    }

    pub fn object(&self) -> (r: String)
        ensures
            r@ == object_of(*self),
    {
        match self {
            Pronouns::HeHimHis => "him".to_owned(),
            Pronouns::SheHerHers => "her".to_owned(),
            Pronouns::TheyThemTheir => "them".to_owned(),
        }
    }

    pub fn possessive(&self) -> (r: String)
        ensures
            r@ == possessive_of(*self),
    {
        match self {
            Pronouns::HeHimHis => "his".to_owned(),
            Pronouns::SheHerHers => "her".to_owned(),
            Pronouns::TheyThemTheir => "their".to_owned(),
        }
    }
}

/// A message with its pronoun placeholders filled in for `p`.
pub open spec fn rendered(message: Seq<char>, p: Pronouns) -> Seq<char> {
    replaced(
        replaced(
            replaced(message, "{pronoun_subject}"@, subject_of(p)),
            "{pronoun_object}"@,
            object_of(p),
        ),
        "{pronoun_possessive}"@,
        possessive_of(p),
    )
}

/// A text with `{recipients}` and `{time_limit}` filled in.
pub open spec fn interpolated(text: Seq<char>, recipients: nat, time_limit: nat) -> Seq<char> {
    replaced(
        replaced(text, "{recipients}"@, decimal(recipients)),
        "{time_limit}"@,
        decimal(time_limit),
    )
}

/// The stub's first target names a word of its message for pronouns `p`.
pub open spec fn target_ok(stub: TestimonialStub, p: Pronouns) -> bool {
    stub.targets@.len() > 0 && stub.targets@[0] < words(rendered(stub.message@, p)).len()
}

/// The stub's first target names a word of its message whatever the pronouns.
pub open spec fn stub_ok(stub: TestimonialStub) -> bool {
    forall|p: Pronouns| target_ok(stub, p)
}

/// The error that turning `stub` into a testimonial for pronouns `p` gives.
pub open spec fn stub_error(stub: TestimonialStub, p: Pronouns) -> ContentError {
    if stub.targets@.len() == 0 {
        ContentError::NoTarget
    } else {
        ContentError::TargetOutOfRange
    }
}

/// The message of a testimonial: name, initial, the masked text.
pub open spec fn signed(first_name: Seq<char>, initial: char, text: Seq<char>) -> Seq<char> {
    first_name + seq![' ', initial, '.', ' '] + text + seq!['.']
}

/// `t` is what `stub` becomes for `name` and the initial `t.last_initial`.
pub open spec fn is_testimonial_of(t: Testimonial, stub: TestimonialStub, name: Name) -> bool {
    let text = rendered(stub.message@, name.pronouns);
    let k = stub.targets@[0] as int;
    &&& t.first_name@ == name.first_name@
    &&& t.pronouns == name.pronouns
    &&& t.target_word@ == words(text)[k]
    &&& t.message@ == signed(name.first_name@, t.last_initial, masked(text, k))
    &&& t.effect == stub.effect
    &&& !t.collected
}

/// Fills the pronoun placeholders of `message` for `p`.
pub fn render_pronouns(message: &String, p: Pronouns) -> (r: String)
    ensures
        r@ == rendered(message@, p),
{
    let text = chars_of(message.as_str());
    let text = replace_all(&text, &chars_of("{pronoun_subject}"), &chars_of(p.subject().as_str()));
    let text = replace_all(&text, &chars_of("{pronoun_object}"), &chars_of(p.object().as_str()));
    let text = replace_all(
        &text,
        &chars_of("{pronoun_possessive}"),
        &chars_of(p.possessive().as_str()),
    );
    string_of(&text)
}

/// Fills `{recipients}` and `{time_limit}` in `text`.
pub fn interpolate(text: &String, recipients: usize, time_limit: usize) -> (r: String)
    ensures
        r@ == interpolated(text@, recipients as nat, time_limit as nat),
{
    let cs = chars_of(text.as_str());
    let cs = replace_all(&cs, &chars_of("{recipients}"), &chars_of(decimal_string(recipients).as_str()));
    let cs = replace_all(&cs, &chars_of("{time_limit}"), &chars_of(decimal_string(time_limit).as_str()));
    string_of(&cs)
}

/// A random capital letter.
pub fn random_initial(rng: &mut ChaCha8Rng) -> (r: char)
    ensures
        'A' <= r <= 'Z',
{
    let letters = "ABCDEFGHIJKLMNOPQRSTUVWXYZ";
    proof {
        reveal_strlit("ABCDEFGHIJKLMNOPQRSTUVWXYZ");
    }
    let i = below(26, rng);
    letters.get_char(i)
}

/// The testimonial that `stub` becomes for `name` with the initial
/// `last_initial`: pronouns filled in, the first target word taken out and
/// masked, the message signed with the name and the initial.
pub fn testimonial_from(stub: &TestimonialStub, name: &Name, last_initial: char) -> (r: Result<
    Testimonial,
    ContentError,
>)
    ensures
        r is Ok <==> target_ok(*stub, name.pronouns),
        r matches Ok(t) ==> is_testimonial_of(t, *stub, *name) && t.last_initial == last_initial,
        r matches Err(e) ==> e == stub_error(*stub, name.pronouns),
{
    if stub.targets.len() == 0 {
        return Err(ContentError::NoTarget);
    }
    let pronouns = name.pronouns;
    let message = render_pronouns(&stub.message, pronouns);
    let index = stub.targets[0];
    let target_word = match get_word_at_index(message.as_str(), index) {
        Some(w) => w,
        None => {
            return Err(ContentError::TargetOutOfRange);
        },
    };
    let masked_text = replace_word_with_underscores(message, index);
    let mut signed_message = name.first_name.clone();
    push_char(&mut signed_message, ' ');
    push_char(&mut signed_message, last_initial);
    push_char(&mut signed_message, '.');
    push_char(&mut signed_message, ' ');
    let masked_chars = chars_of(masked_text.as_str());
    let mut i: usize = 0;
    let ghost head = signed_message@;
    while i < masked_chars.len()
        invariant
            i <= masked_chars.len(),
            signed_message@ == head + masked_chars@.subrange(0, i as int),
        decreases masked_chars.len() - i,
    {
        push_char(&mut signed_message, masked_chars[i]);
        assert(signed_message@ =~= head + masked_chars@.subrange(0, i + 1));
        i = i + 1;
    }
    push_char(&mut signed_message, '.');
    assert(masked_chars@.subrange(0, masked_chars.len() as int) =~= masked_chars@);
    assert(signed_message@ =~= signed(name.first_name@, last_initial, masked_text@));
    Ok(Testimonial {
        first_name: name.first_name.clone(),
        last_initial,
        pronouns,
        message: signed_message,
        target_word,
        effect: stub.effect,
        collected: false,
    })
}

/// The content tables, loaded once.
pub struct LetterAssets {
    pub blessings: Vec<TestimonialStub>,
    pub curses: Vec<TestimonialStub>,
    pub decoys: Vec<TestimonialStub>,
    pub flavors: Vec<Flavor>,
    pub names: Vec<Name>,
}

/// The first table of `assets` that is empty, in the order they are checked.
pub open spec fn first_missing(assets: LetterAssets) -> Option<ContentError> {
    if assets.flavors@.len() == 0 {
        Some(ContentError::NoFlavors)
    } else if assets.blessings@.len() == 0 {
        Some(ContentError::NoBlessings)
    } else if assets.curses@.len() == 0 {
        Some(ContentError::NoCurses)
    } else if assets.names@.len() == 0 {
        Some(ContentError::NoNames)
    } else if assets.decoys@.len() == 0 {
        Some(ContentError::NoDecoys)
    } else {
        None
    }
}

/// The indices `0..n`.
pub open spec fn indexes(n: nat) -> Seq<usize> {
    Seq::new(n, |i: int| i as usize)
}

/// A bag of the indices `0..n`, ready to be picked from.
pub open spec fn bag_over(b: ShuffleBag<usize>, n: nat) -> bool {
    bag_items(b) == indexes(n) && bag_ready(b)
}

/// `t` is what `stub` becomes for one of `names`, with a capital initial.
pub open spec fn written_from(t: Testimonial, stub: TestimonialStub, names: Seq<Name>) -> bool {
    &&& 'A' <= t.last_initial <= 'Z'
    &&& exists|j: int| 0 <= j < names.len() && is_testimonial_of(t, stub, names[j])
}

/// `ts` are what the stubs at `idx` become, in order.
pub open spec fn made_from(
    ts: Seq<Testimonial>,
    idx: Seq<usize>,
    stubs: Seq<TestimonialStub>,
    names: Seq<Name>,
) -> bool {
    &&& ts.len() == idx.len()
    &&& forall|k: int| 0 <= k < ts.len() ==> written_from(#[trigger] ts[k], stubs[idx[k] as int], names)
}

/// `idx` are `amount` picks from a bag of the indices `0..n`: as far as the
/// current draft reaches, they are its coming indices, in order.
pub open spec fn picks_of(b: ShuffleBag<usize>, idx: Seq<usize>, n: nat, amount: nat) -> bool {
    &&& idx.len() == amount
    &&& forall|k: int| 0 <= k < idx.len() ==> idx[k] < n
    &&& forall|k: int| 0 <= k < idx.len() && k < bag_draft(b).len() ==> idx[k] == upcoming(b)[k]
}

/// One of the stubs at `idx` is not fit to make a testimonial.
pub open spec fn has_bad_stub(stubs: Seq<TestimonialStub>, idx: Seq<usize>) -> bool {
    exists|k: int| 0 <= k < idx.len() && !stub_ok(stubs[idx[k] as int])
}

pub open spec fn all_ok(stubs: Seq<TestimonialStub>) -> bool {
    forall|i: int| 0 <= i < stubs.len() ==> stub_ok(#[trigger] stubs[i])
}

/// The indices `0..n`.
pub fn index_vec(n: usize) -> (r: Vec<usize>)
    ensures
        r@ == indexes(n as nat),
{
    let mut r: Vec<usize> = Vec::new();
    let mut i: usize = 0;
    while i < n
        invariant
            i <= n,
            r@ == indexes(i as nat),
        decreases n - i,
    {
        r.push(i);
        assert(r@ =~= indexes((i + 1) as nat));
        i = i + 1;
    }
    r
}

/// A bag of the indices `0..n`, for `n > 0`.
fn index_bag(n: usize, rng: &mut ChaCha8Rng) -> (r: ShuffleBag<usize>)
    requires
        n > 0,
    ensures
        bag_over(r, n as nat),
{
    new_bag(index_vec(n), rng).unwrap()
}

/// Picks the next index from a bag of the indices `0..n`.
fn pick_index(b: &mut ShuffleBag<usize>, n: usize, rng: &mut ChaCha8Rng) -> (r: usize)
    requires
        bag_over(*old(b), n as nat),
    ensures
        bag_over(*final(b), n as nat),
        r < n,
        r == upcoming(*old(b))[0],
        bag_draft(*old(b)).len() > 1 ==> upcoming(*final(b)) == upcoming(*old(b)).drop_first(),
{
    let ghost before = *b;
    let r = pick(b, rng);
    proof {
        lemma_pick_takes_the_next(before, *b, r);
    }
    r
}

/// Turns `stub` into a testimonial, with the next name of the bag and a random
/// initial.
fn create_testimonial(
    names: &Vec<Name>,
    name_bag: &mut ShuffleBag<usize>,
    stub: &TestimonialStub,
    rng: &mut ChaCha8Rng,
) -> (r: Result<Testimonial, ContentError>)
    requires
        bag_over(*old(name_bag), names@.len()),
    ensures
        bag_over(*final(name_bag), names@.len()),
        stub_ok(*stub) ==> r is Ok,
        r matches Ok(t) ==> 'A' <= t.last_initial <= 'Z' && exists|j: int|
            0 <= j < names@.len() && is_testimonial_of(t, *stub, names@[j]),
        r is Err ==> !stub_ok(*stub),
{
    let j = pick_index(name_bag, names.len(), rng);
    let last_initial = random_initial(rng);
    let r = testimonial_from(stub, &names[j], last_initial);
    assert(r is Err ==> !target_ok(*stub, names@[j as int].pronouns));
    r
}

/// Picks `amount` indices from a bag of the indices `0..n`.
fn pick_indices(b: &mut ShuffleBag<usize>, n: usize, amount: usize, rng: &mut ChaCha8Rng) -> (r:
    Vec<usize>)
    requires
        bag_over(*old(b), n as nat),
    ensures
        bag_over(*final(b), n as nat),
        picks_of(*old(b), r@, n as nat, amount as nat),
{
    let ghost b0 = *b;
    let ghost d0 = bag_draft(b0).len() as int;
    let mut r: Vec<usize> = Vec::new();
    let mut i: usize = 0;
    assert(upcoming(b0).subrange(0, d0) =~= upcoming(b0));
    while i < amount
        invariant
            i <= amount,
            bag_over(*b, n as nat),
            b0 == *old(b),
            d0 == bag_draft(b0).len(),
            r@.len() == i,
            forall|k: int| 0 <= k < r@.len() ==> r@[k] < n,
            forall|k: int| 0 <= k < r@.len() && k < d0 ==> r@[k] == upcoming(b0)[k],
            i < d0 ==> upcoming(*b) == upcoming(b0).subrange(i as int, d0),
        decreases amount - i,
    {
        let ghost before = *b;
        let j = pick_index(b, n, rng);
        proof {
            if i < d0 {
                assert(upcoming(before)[0] == upcoming(b0)[i as int]);
                if i + 1 < d0 {
                    assert(upcoming(*b) =~= upcoming(b0).subrange(i + 1, d0));
                }
            }
        }
        r.push(j);
        i = i + 1;
    }
    r
}

/// Turns the stubs at `indices` into testimonials, in order.
fn create_testimonials(
    names: &Vec<Name>,
    name_bag: &mut ShuffleBag<usize>,
    stubs: &Vec<TestimonialStub>,
    indices: &Vec<usize>,
    rng: &mut ChaCha8Rng,
) -> (r: Result<Vec<Testimonial>, ContentError>)
    requires
        bag_over(*old(name_bag), names@.len()),
        forall|k: int| 0 <= k < indices@.len() ==> indices@[k] < stubs@.len(),
    ensures
        bag_over(*final(name_bag), names@.len()),
        all_ok(stubs@) ==> r is Ok,
        r matches Ok(v) ==> made_from(v@, indices@, stubs@, names@),
        r is Err ==> has_bad_stub(stubs@, indices@),
{
    let mut out: Vec<Testimonial> = Vec::new();
    let mut i: usize = 0;
    while i < indices.len()
        invariant
            i <= indices@.len(),
            bag_over(*name_bag, names@.len()),
            forall|k: int| 0 <= k < indices@.len() ==> indices@[k] < stubs@.len(),
            out@.len() == i,
            forall|k: int|
                0 <= k < out@.len() ==> written_from(
                    #[trigger] out@[k],
                    stubs@[indices@[k] as int],
                    names@,
                ),
        decreases indices@.len() - i,
    {
        let si = indices[i];
        match create_testimonial(names, name_bag, &stubs[si], rng) {
            Ok(t) => {
                proof {
                    let j = choose|j: int|
                        0 <= j < names@.len() && is_testimonial_of(t, stubs@[si as int], names@[j]);
                    assert(is_testimonial_of(t, stubs@[si as int], names@[j]));
                    assert(written_from(t, stubs@[si as int], names@));
                }
                let ghost before = out@;
                out.push(t);
                assert forall|k: int| 0 <= k < out@.len() implies written_from(
                    #[trigger] out@[k],
                    stubs@[indices@[k] as int],
                    names@,
                ) by {
                    if k < i {
                        assert(out@[k] == before[k]);
                    }
                }
            },
            Err(e) => {
                assert(!stub_ok(stubs@[indices@[i as int] as int]));
                return Err(e);
            },
        }
        i = i + 1;
    }
    Ok(out)
}

/// The content of a letter, with a bag over each table so that no template
/// comes again before all others have come.
pub struct LetterBag {
    pub flavors: Vec<Flavor>,
    pub blessings: Vec<TestimonialStub>,
    pub curses: Vec<TestimonialStub>,
    pub decoys: Vec<TestimonialStub>,
    pub names: Vec<Name>,
    pub flavor_bag: ShuffleBag<usize>,
    pub blessing_bag: ShuffleBag<usize>,
    pub curse_bag: ShuffleBag<usize>,
    pub name_bag: ShuffleBag<usize>,
}

/// What `pull_letter` makes of a bag's content.
pub open spec fn is_letter_of(
    letter: Letter,
    b: LetterBag,
    blessing_amount: nat,
    curse_amount: nat,
) -> bool {
    &&& letter.flavor == b.flavors@[upcoming(b.flavor_bag)[0] as int]
    &&& RECIPIENTS_MIN <= letter.recipients <= RECIPIENTS_MAX
    &&& TIME_LIMIT_MIN <= letter.time_limit <= TIME_LIMIT_MAX
    &&& letter.interpolated_flavor.body@ == interpolated(
        letter.flavor.body@,
        letter.recipients as nat,
        letter.time_limit as nat,
    )
    &&& letter.interpolated_flavor.signoff@ == interpolated(
        letter.flavor.signoff@,
        letter.recipients as nat,
        letter.time_limit as nat,
    )
    &&& exists|bi: Seq<usize>|
        picks_of(b.blessing_bag, bi, b.blessings@.len(), blessing_amount) && made_from(
            letter.blessings@,
            bi,
            b.blessings@,
            b.names@,
        )
    &&& exists|ci: Seq<usize>|
        picks_of(b.curse_bag, ci, b.curses@.len(), curse_amount) && made_from(
            letter.curses@,
            ci,
            b.curses@,
            b.names@,
        )
}

impl LetterBag {
    pub open spec fn wf(&self) -> bool {
        &&& bag_over(self.flavor_bag, self.flavors@.len())
        &&& bag_over(self.blessing_bag, self.blessings@.len())
        &&& bag_over(self.curse_bag, self.curses@.len())
        &&& bag_over(self.name_bag, self.names@.len())
        &&& self.decoys@.len() > 0
    }

    /// The content of `other` is the content of `self`.
    pub open spec fn same_content(&self, other: LetterBag) -> bool {
        &&& self.flavors == other.flavors
        &&& self.blessings == other.blessings
        &&& self.curses == other.curses
        &&& self.decoys == other.decoys
        &&& self.names == other.names
    }

    /// Bags over the content tables; fails on the first empty table.
    pub fn new(assets: LetterAssets, rng: &mut ChaCha8Rng) -> (r: Result<LetterBag, ContentError>)
        ensures
            first_missing(assets) matches Some(e) ==> r == Err::<LetterBag, ContentError>(e),
            first_missing(assets) is None ==> (r matches Ok(b) && b.wf() && b.flavors
                == assets.flavors && b.blessings == assets.blessings && b.curses == assets.curses
                && b.decoys == assets.decoys && b.names == assets.names),
    {
        if assets.flavors.len() == 0 {
            return Err(ContentError::NoFlavors);
        }
        if assets.blessings.len() == 0 {
            return Err(ContentError::NoBlessings);
        }
        if assets.curses.len() == 0 {
            return Err(ContentError::NoCurses);
        }
        if assets.names.len() == 0 {
            return Err(ContentError::NoNames);
        }
        if assets.decoys.len() == 0 {
            return Err(ContentError::NoDecoys);
        }
        let flavor_bag = index_bag(assets.flavors.len(), rng);
        let blessing_bag = index_bag(assets.blessings.len(), rng);
        let curse_bag = index_bag(assets.curses.len(), rng);
        let name_bag = index_bag(assets.names.len(), rng);
        Ok(LetterBag {
            flavors: assets.flavors,
            blessings: assets.blessings,
            curses: assets.curses,
            decoys: assets.decoys,
            names: assets.names,
            flavor_bag,
            blessing_bag,
            curse_bag,
            name_bag,
        })
    }

    /// One round's letter: the next flavor with its placeholders filled in,
    /// a recipient count and a time limit drawn from their ranges, and
    /// `blessing_amount` blessings and `curse_amount` curses from the next
    /// stubs and names. Fails on a stub whose first target is not a word of
    /// its message.
    pub fn pull_letter(&mut self, rng: &mut ChaCha8Rng, blessing_amount: usize, curse_amount: usize) -> (r:
        Result<Letter, ContentError>)
        requires
            old(self).wf(),
        ensures
            final(self).wf(),
            final(self).same_content(*old(self)),
            all_ok(old(self).blessings@) && all_ok(old(self).curses@) ==> r is Ok,
            r matches Ok(letter) ==> is_letter_of(
                letter,
                *old(self),
                blessing_amount as nat,
                curse_amount as nat,
            ),
            r is Err ==> !(all_ok(old(self).blessings@) && all_ok(old(self).curses@)),
            r is Err ==> (exists|bi: Seq<usize>|
                picks_of(old(self).blessing_bag, bi, old(self).blessings@.len(), blessing_amount as nat)
                    && has_bad_stub(old(self).blessings@, bi)) || (exists|ci: Seq<usize>|
                picks_of(old(self).curse_bag, ci, old(self).curses@.len(), curse_amount as nat)
                    && has_bad_stub(old(self).curses@, ci)),
    {
        let fi = pick_index(&mut self.flavor_bag, self.flavors.len(), rng);
        let flavor = self.flavors[fi].clone();
        assert(self.flavors@[fi as int] == flavor);
        let recipients = choose_between(RECIPIENTS_MIN, RECIPIENTS_MAX, rng).unwrap();
        let time_limit = choose_between(TIME_LIMIT_MIN, TIME_LIMIT_MAX, rng).unwrap();
        let body = interpolate(&flavor.body, recipients, time_limit);
        let signoff = interpolate(&flavor.signoff, recipients, time_limit);
        let interpolated_flavor = InterpolatedFlavor { body, signoff };

        let blessing_indices = pick_indices(
            &mut self.blessing_bag,
            self.blessings.len(),
            blessing_amount,
            rng,
        );
        let blessings = match create_testimonials(
            &self.names,
            &mut self.name_bag,
            &self.blessings,
            &blessing_indices,
            rng,
        ) {
            Ok(v) => v,
            Err(e) => {
                proof {
                    let k = choose|k: int|
                        0 <= k < blessing_indices@.len() && !stub_ok(
                            self.blessings@[blessing_indices@[k] as int],
                        );
                    assert(!stub_ok(self.blessings@[blessing_indices@[k] as int]));
                }
                return Err(e);
            },
        };

        let curse_indices = pick_indices(&mut self.curse_bag, self.curses.len(), curse_amount, rng);
        let curses = match create_testimonials(
            &self.names,
            &mut self.name_bag,
            &self.curses,
            &curse_indices,
            rng,
        ) {
            Ok(v) => v,
            Err(e) => {
                proof {
                    let k = choose|k: int|
                        0 <= k < curse_indices@.len() && !stub_ok(
                            self.curses@[curse_indices@[k] as int],
                        );
                    assert(!stub_ok(self.curses@[curse_indices@[k] as int]));
                }
                return Err(e);
            },
        };

        Ok(Letter { flavor, interpolated_flavor, recipients, time_limit, blessings, curses })
    }
}

} // verus!
