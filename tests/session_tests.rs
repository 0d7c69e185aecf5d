use chainmail::content::{
    ContentError, Effect, Flavor, LetterAssets, Name, Pronouns, TestimonialStub,
};
use chainmail::input::{Key, KeyAction};
use chainmail::round::{GameStates, SoundEffect};
use chainmail::score::Statistics;
use chainmail::session::{Session, SPAWN_INTERVAL_MS};
use chainmail::timeline::LetterWidgetRevealed;
use rand::SeedableRng;
use rand_chacha::ChaCha8Rng;

fn stub(message: &str, effect: Effect, targets: Vec<usize>) -> TestimonialStub {
    TestimonialStub { message: message.to_string(), effect, targets }
}

fn assets() -> LetterAssets {
    LetterAssets {
        blessings: vec![stub("found a coin", Effect::Income(2), vec![2])],
        curses: vec![stub("lost a key", Effect::Money(-1), vec![2])],
        decoys: vec![stub("moss", Effect::Noop, vec![0])],
        flavors: vec![Flavor {
            title: "T".to_string(),
            body: "Send {recipients}".to_string(),
            signoff: "bye".to_string(),
            footer: "F".to_string(),
        }],
        names: vec![Name { first_name: "Ann".to_string(), pronouns: Pronouns::SheHerHers }],
    }
}

fn type_word(s: &mut Session, word: &str, rng: &mut ChaCha8Rng) -> Vec<SoundEffect> {
    for c in word.chars() {
        s.key(Key::Char(c), rng);
    }
    s.key(Key::Enter, rng).0
}

#[test]
fn session_starts_on_the_rules_screen() {
    let mut rng = ChaCha8Rng::seed_from_u64(1);
    let s = Session::new(assets(), false, &mut rng).unwrap();
    assert_eq!(s.state, GameStates::Info);
    assert_eq!(s.stats, Statistics::default());
    assert_eq!(s.revealed, LetterWidgetRevealed::default());
    assert!(s.shown.is_empty());
    assert_eq!(s.prompt.remaining_ms, s.letter.time_limit as u64 * 1000);
    let s = Session::new(assets(), true, &mut rng).unwrap();
    assert_eq!(s.state, GameStates::Printing);
}

#[test]
fn session_refuses_missing_content() {
    let mut rng = ChaCha8Rng::seed_from_u64(1);
    let mut a = assets();
    a.names.clear();
    assert_eq!(Session::new(a, false, &mut rng).err(), Some(ContentError::NoNames));
}

#[test]
fn session_round_is_played_through() {
    let mut rng = ChaCha8Rng::seed_from_u64(2);
    let mut s = Session::new(assets(), false, &mut rng).unwrap();
    assert!(s.tick(1_000_000, &mut rng).is_empty());
    assert_eq!(s.state, GameStates::Info);
    let (_, action) = s.key(Key::Char(' '), &mut rng);
    assert_eq!(action, KeyAction::Nothing);
    assert_eq!(s.state, GameStates::Printing);
    let cues = s.tick(100_000, &mut rng);
    assert_eq!(cues.last(), Some(&SoundEffect::Start));
    assert_eq!(s.state, GameStates::Playing);

    assert!(s.tick((SPAWN_INTERVAL_MS - 1) as u32, &mut rng).is_empty());
    assert!(s.shown.is_empty());
    s.tick(1, &mut rng);
    assert_eq!(s.shown.len(), 1);
    assert_eq!(s.since_spawn_ms, 0);

    s.shown = vec!["coin".to_string(), "key".to_string(), "moss".to_string()];
    let cues = type_word(&mut s, "Key", &mut rng);
    assert!(cues.is_empty());
    assert_eq!(s.shown, vec!["coin".to_string(), "moss".to_string()]);
    assert!(s.letter.curses.iter().all(|c| c.collected));
    assert_eq!(s.stats.money, -(s.letter.curses.len() as i32));
    assert_eq!(s.state, GameStates::Playing);
    assert!(s.prompt.text.is_empty());

    let cues = type_word(&mut s, "coin", &mut rng);
    assert_eq!(cues, vec![SoundEffect::LetterClear]);
    assert_eq!(s.state, GameStates::Resetting);
    let income = 2 * s.letter.blessings.len() as i32;
    assert_eq!(s.stats.income, income);
    assert_eq!(s.stats.money, income - s.letter.curses.len() as i32);

    s.reset_done(&mut rng).unwrap();
    assert_eq!(s.state, GameStates::Printing);
    assert!(s.shown.is_empty());
    assert!(s.letter.blessings.iter().all(|b| !b.collected));
    assert_eq!(s.revealed, LetterWidgetRevealed::default());
}

#[test]
fn session_countdown_fails_the_letter() {
    let mut rng = ChaCha8Rng::seed_from_u64(3);
    let mut s = Session::new(assets(), true, &mut rng).unwrap();
    s.tick(100_000, &mut rng);
    assert_eq!(s.state, GameStates::Playing);
    let limit = s.prompt.remaining_ms;
    s.key(Key::Char('k'), &mut rng);
    assert!(s.tick((limit - 1) as u32, &mut rng).is_empty());
    assert_eq!(s.prompt.text, "k");
    assert_eq!(s.state, GameStates::Playing);
    assert_eq!(s.tick(1, &mut rng), vec![SoundEffect::LetterFail]);
    assert_eq!(s.state, GameStates::Resetting);
    assert!(s.prompt.text.is_empty());
    assert_eq!(s.stats, Statistics::default());
}
