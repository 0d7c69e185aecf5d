use chainmail::content::{
    interpolate, random_initial, render_pronouns, testimonial_from, ContentError, Effect, Flavor,
    LetterAssets, LetterBag, Name, Pronouns, TestimonialStub, RECIPIENTS_MAX, RECIPIENTS_MIN,
    TIME_LIMIT_MAX, TIME_LIMIT_MIN,
};
use rand::SeedableRng;
use rand_chacha::ChaCha8Rng;

fn stub(message: &str, effect: Effect, targets: Vec<usize>) -> TestimonialStub {
    TestimonialStub { message: message.to_string(), effect, targets }
}

fn name(first: &str, pronouns: Pronouns) -> Name {
    Name { first_name: first.to_string(), pronouns }
}

fn flavor() -> Flavor {
    Flavor {
        title: "A Letter".to_string(),
        body: "Send this to {recipients} friends in {time_limit} seconds.".to_string(),
        signoff: "{recipients} or bust".to_string(),
        footer: "Do not break the chain".to_string(),
    }
}

fn assets() -> LetterAssets {
    LetterAssets {
        blessings: vec![
            stub("{pronoun_subject} found a coin", Effect::Money(2), vec![3]),
            stub("{pronoun_possessive} cat learned to sing", Effect::Score(5), vec![4]),
        ],
        curses: vec![stub("a bird stole {pronoun_possessive} hat", Effect::Score(-3), vec![4])],
        decoys: vec![stub("nothing happened at all", Effect::Noop, vec![1])],
        flavors: vec![flavor()],
        names: vec![name("Ann", Pronouns::SheHerHers), name("Bob", Pronouns::HeHimHis)],
    }
}

#[test]
fn pronoun_forms() {
    assert_eq!(Pronouns::HeHimHis.subject(), "he");
    assert_eq!(Pronouns::HeHimHis.object(), "him");
    assert_eq!(Pronouns::HeHimHis.possessive(), "his");
    assert_eq!(Pronouns::SheHerHers.subject(), "she");
    assert_eq!(Pronouns::SheHerHers.object(), "her");
    assert_eq!(Pronouns::SheHerHers.possessive(), "her");
    assert_eq!(Pronouns::TheyThemTheir.subject(), "they");
    assert_eq!(Pronouns::TheyThemTheir.object(), "them");
    assert_eq!(Pronouns::TheyThemTheir.possessive(), "their");
}

#[test]
fn pronouns_are_filled_in() {
    let m = "{pronoun_subject} gave {pronoun_object} {pronoun_possessive} hat".to_string();
    assert_eq!(render_pronouns(&m, Pronouns::TheyThemTheir), "they gave them their hat");
    assert_eq!(render_pronouns(&m, Pronouns::SheHerHers), "she gave her her hat");
}

#[test]
fn placeholders_are_interpolated() {
    let t = "Send to {recipients} in {time_limit}s, {recipients}!".to_string();
    assert_eq!(interpolate(&t, 12, 45), "Send to 12 in 45s, 12!");
    assert_eq!(interpolate(&"{time_limit}{recipients}".to_string(), 0, 100), "1000");
    assert_eq!(interpolate(&"{unknown} stays".to_string(), 3, 4), "{unknown} stays");
}

#[test]
fn masking_round_trip() {
    let s = stub("The quick fox jumps", Effect::Noop, vec![2]);
    let t = testimonial_from(&s, &name("Ann", Pronouns::SheHerHers), 'Q').unwrap();
    assert_eq!(t.target_word, "fox");
    assert_eq!(t.message, "Ann Q. The quick ___ jumps.");
    assert!(!t.message.contains("fox"));
    assert_eq!(t.last_initial, 'Q');
    assert_eq!(t.effect, Effect::Noop);
    assert!(!t.collected);
}

#[test]
fn testimonial_after_pronouns_and_whitespace() {
    let s = stub("  {pronoun_subject}   won   big ", Effect::Income(3), vec![2]);
    let t = testimonial_from(&s, &name("Bob", Pronouns::HeHimHis), 'Z').unwrap();
    assert_eq!(t.target_word, "big");
    assert_eq!(t.message, "Bob Z. he won ___.");
    assert_eq!(t.first_name, "Bob");
    assert_eq!(t.pronouns, Pronouns::HeHimHis);
}

#[test]
fn masking_counts_bytes() {
    let s = stub("a café here", Effect::Noop, vec![1]);
    let t = testimonial_from(&s, &name("Cy", Pronouns::TheyThemTheir), 'A').unwrap();
    assert_eq!(t.target_word, "café");
    assert_eq!(t.message, "Cy A. a _____ here.");
}

#[test]
fn testimonial_target_errors() {
    let n = name("Ann", Pronouns::SheHerHers);
    let none = stub("one two", Effect::Noop, vec![]);
    assert_eq!(testimonial_from(&none, &n, 'A').unwrap_err(), ContentError::NoTarget);
    let far = stub("one two", Effect::Noop, vec![2]);
    assert_eq!(testimonial_from(&far, &n, 'A').unwrap_err(), ContentError::TargetOutOfRange);
}

#[test]
fn initials_are_capitals() {
    let mut rng = ChaCha8Rng::seed_from_u64(3);
    for _ in 0..200 {
        let c = random_initial(&mut rng);
        assert!(c.is_ascii_uppercase());
    }
}

#[test]
fn letter_bag_refuses_empty_tables() {
    let mut rng = ChaCha8Rng::seed_from_u64(1);
    let mut a = assets();
    a.flavors.clear();
    assert_eq!(LetterBag::new(a, &mut rng).err(), Some(ContentError::NoFlavors));
    let mut a = assets();
    a.blessings.clear();
    assert_eq!(LetterBag::new(a, &mut rng).err(), Some(ContentError::NoBlessings));
    let mut a = assets();
    a.curses.clear();
    assert_eq!(LetterBag::new(a, &mut rng).err(), Some(ContentError::NoCurses));
    let mut a = assets();
    a.names.clear();
    assert_eq!(LetterBag::new(a, &mut rng).err(), Some(ContentError::NoNames));
    let mut a = assets();
    a.decoys.clear();
    assert_eq!(LetterBag::new(a, &mut rng).err(), Some(ContentError::NoDecoys));
    let mut a = assets();
    a.flavors.clear();
    a.names.clear();
    assert_eq!(LetterBag::new(a, &mut rng).err(), Some(ContentError::NoFlavors));
}

#[test]
fn pulled_letter_is_filled_in() {
    let mut rng = ChaCha8Rng::seed_from_u64(11);
    let mut bag = LetterBag::new(assets(), &mut rng).unwrap();
    let letter = bag.pull_letter(&mut rng, 4, 3).unwrap();
    assert!(letter.recipients >= RECIPIENTS_MIN && letter.recipients <= RECIPIENTS_MAX);
    assert!(letter.time_limit >= TIME_LIMIT_MIN && letter.time_limit <= TIME_LIMIT_MAX);
    assert_eq!(
        letter.interpolated_flavor.body,
        format!("Send this to {} friends in {} seconds.", letter.recipients, letter.time_limit)
    );
    assert_eq!(letter.interpolated_flavor.signoff, format!("{} or bust", letter.recipients));
    assert_eq!(letter.flavor.title, "A Letter");
    assert_eq!(letter.blessings.len(), 4);
    assert_eq!(letter.curses.len(), 3);
    for b in &letter.blessings {
        assert!(b.target_word == "coin" || b.target_word == "sing");
        assert!(b.message.starts_with(&b.first_name));
        assert!(!b.collected);
    }
    for c in &letter.curses {
        assert_eq!(c.target_word, "hat");
        assert_eq!(c.effect, Effect::Score(-3));
    }
}

#[test]
fn blessing_stubs_come_in_turn() {
    let mut rng = ChaCha8Rng::seed_from_u64(5);
    let mut bag = LetterBag::new(assets(), &mut rng).unwrap();
    let letter = bag.pull_letter(&mut rng, 2, 0).unwrap();
    let mut words: Vec<String> = letter.blessings.iter().map(|b| b.target_word.clone()).collect();
    words.sort();
    assert_eq!(words, vec!["coin".to_string(), "sing".to_string()]);
}

#[test]
fn pull_letter_reports_bad_target() {
    let mut rng = ChaCha8Rng::seed_from_u64(9);
    let mut a = assets();
    a.curses = vec![stub("short", Effect::Noop, vec![4])];
    let mut bag = LetterBag::new(a, &mut rng).unwrap();
    assert_eq!(bag.pull_letter(&mut rng, 1, 1).err(), Some(ContentError::TargetOutOfRange));
    assert!(bag.pull_letter(&mut rng, 1, 0).is_ok());
}

#[test]
fn content_errors_describe_themselves() {
    assert_eq!(ContentError::NoFlavors.describe(), "the flavor table is empty");
    assert_eq!(
        ContentError::TargetOutOfRange.describe(),
        "a target word index is past the words of its message"
    );
}
