use chainmail::content::{
    ContentError, Effect, Flavor, InterpolatedFlavor, Letter, LetterAssets, LetterBag, Name,
    Pronouns, TestimonialStub,
};
use chainmail::round::{
    generate_current_letter_system, letter_cleared_observer, letter_failed_observer,
    letter_reveal_system, next_game_state, resetting_timer_system, trigger_reveal_sound_effects,
    GameEvent, GameStates, Prompt, SoundEffect, BLESSING_MAX, BLESSING_MIN, CURSE_MAX, CURSE_MIN,
    DECOY_MAX, DECOY_MIN,
};
use chainmail::score::Statistics;
use chainmail::timeline::LetterWidgetRevealed;
use rand::SeedableRng;
use rand_chacha::ChaCha8Rng;

fn stub(message: &str, targets: Vec<usize>) -> TestimonialStub {
    TestimonialStub { message: message.to_string(), effect: Effect::Score(1), targets }
}

fn assets() -> LetterAssets {
    LetterAssets {
        blessings: vec![stub("a lucky coin", vec![2]), stub("{pronoun_subject} sang well", vec![1])],
        curses: vec![stub("lost {pronoun_possessive} keys", vec![2])],
        decoys: vec![stub("plain moss", vec![1]), stub("old fern here", vec![1])],
        flavors: vec![Flavor {
            title: "T".to_string(),
            body: "{recipients} in {time_limit}".to_string(),
            signoff: "bye".to_string(),
            footer: "F".to_string(),
        }],
        names: vec![Name { first_name: "Ann".to_string(), pronouns: Pronouns::SheHerHers }],
    }
}

#[test]
fn state_transitions() {
    assert_eq!(GameStates::default(), GameStates::Loading);
    assert_eq!(next_game_state(GameStates::Loading, GameEvent::ContentLoaded, false), GameStates::Info);
    assert_eq!(next_game_state(GameStates::Loading, GameEvent::ContentLoaded, true), GameStates::Printing);
    assert_eq!(next_game_state(GameStates::Info, GameEvent::ContinuePressed, false), GameStates::Printing);
    assert_eq!(next_game_state(GameStates::Printing, GameEvent::RevealFinished, true), GameStates::Playing);
    assert_eq!(next_game_state(GameStates::Playing, GameEvent::LetterCleared, true), GameStates::Resetting);
    assert_eq!(next_game_state(GameStates::Playing, GameEvent::LetterFailed, true), GameStates::Resetting);
    assert_eq!(next_game_state(GameStates::Resetting, GameEvent::ResetDone, true), GameStates::Printing);
    assert_eq!(next_game_state(GameStates::Info, GameEvent::RevealFinished, false), GameStates::Info);
    assert_eq!(next_game_state(GameStates::Printing, GameEvent::LetterCleared, true), GameStates::Printing);
}

#[test]
fn cleared_letter_pays_the_income() {
    let mut state = GameStates::Playing;
    let mut stats = Statistics { score: 0, money: 10, income: 5 };
    letter_cleared_observer(&mut state, &mut stats);
    assert_eq!(state, GameStates::Resetting);
    assert_eq!(stats, Statistics { score: 0, money: 15, income: 5 });
}

#[test]
fn failed_letter_resets() {
    let mut state = GameStates::Playing;
    letter_failed_observer(&mut state);
    assert_eq!(state, GameStates::Resetting);
    let mut state = GameStates::Resetting;
    resetting_timer_system(&mut state, false);
    assert_eq!(state, GameStates::Resetting);
    resetting_timer_system(&mut state, true);
    assert_eq!(state, GameStates::Printing);
}

#[test]
fn reveal_cues_follow_changes() {
    let a = LetterWidgetRevealed::default();
    assert!(trigger_reveal_sound_effects(&a, &a).is_empty());
    let b = LetterWidgetRevealed { title_revealed: true, body_chars_revealed: 3, ..a };
    assert_eq!(
        trigger_reveal_sound_effects(&a, &b),
        vec![SoundEffect::Window, SoundEffect::TextCharacter]
    );
    let c = LetterWidgetRevealed { curses_revealed: 1, finished: true, ..b };
    assert_eq!(
        trigger_reveal_sound_effects(&b, &c),
        vec![SoundEffect::TextCurse, SoundEffect::Start]
    );
}

#[test]
fn reveal_step_moves_to_playing() {
    let flavor = Flavor {
        title: "T".to_string(),
        body: String::new(),
        signoff: String::new(),
        footer: "F".to_string(),
    };
    let letter = Letter {
        interpolated_flavor: InterpolatedFlavor { body: String::new(), signoff: String::new() },
        flavor,
        recipients: 1,
        time_limit: 40,
        blessings: vec![],
        curses: vec![],
    };
    let mut state = GameStates::Printing;
    let mut revealed = LetterWidgetRevealed::default();
    let cues = letter_reveal_system(&mut state, &mut revealed, 500, &letter);
    assert_eq!(cues, vec![SoundEffect::Window]);
    assert_eq!(state, GameStates::Printing);
    // finish time: 900 + 400 + 400 + 400 + 400 + 400 + 400 + 600 + 800
    let cues = letter_reveal_system(&mut state, &mut revealed, 4200, &letter);
    assert_eq!(revealed.elapsed_ms, 4700);
    assert!(revealed.finished);
    assert_eq!(state, GameStates::Playing);
    assert_eq!(cues.last(), Some(&SoundEffect::Start));
}

#[test]
fn prompt_takes_letters_only() {
    let mut p = Prompt::default();
    for c in ['H', 'i', '1', ' ', 'é', '!'] {
        p.push_key(c);
    }
    assert_eq!(p.text, "hié");
    p.backspace();
    assert_eq!(p.text, "hi");
    p.backspace();
    p.backspace();
    p.backspace();
    assert_eq!(p.text, "");
    p.push_key('Z');
    p.clear();
    assert_eq!(p.text, "");
}

#[test]
fn countdown_runs_out() {
    let mut p = Prompt::default();
    p.start_timer(40);
    assert_eq!(p.remaining_ms, 40_000);
    assert!(!p.tick(39_999));
    assert_eq!(p.remaining_ms, 1);
    assert!(p.tick(16));
    assert_eq!(p.remaining_ms, 0);
    p.start_timer(usize::MAX);
    assert_eq!(p.remaining_ms, u64::MAX);
}

#[test]
fn new_round_letter_and_pool() {
    let mut rng = ChaCha8Rng::seed_from_u64(21);
    let mut bag = LetterBag::new(assets(), &mut rng).unwrap();
    let (letter, pool) = generate_current_letter_system(&mut bag, &mut rng).unwrap();
    let nb = letter.blessings.len();
    let nc = letter.curses.len();
    assert!(nb >= BLESSING_MIN && nb <= BLESSING_MAX);
    assert!(nc >= CURSE_MIN && nc <= CURSE_MAX);
    let nd = pool.cubes.len() - nb - nc;
    assert!(nd >= DECOY_MIN && nd <= DECOY_MAX);
    for (i, c) in pool.cubes.iter().enumerate() {
        if i < nb {
            assert_eq!(c.word, letter.blessings[i].target_word);
            assert_eq!(c.despawn_character, '+');
        } else if i < nb + nc {
            assert_eq!(c.word, letter.curses[i - nb].target_word);
            assert_eq!(c.despawn_character, 'x');
        } else {
            assert!(c.word == "moss" || c.word == "fern");
            assert_eq!(c.despawn_character, '~');
        }
    }
    assert_eq!(pool.bag.full_collection.len(), pool.cubes.len());
    assert_eq!(letter.interpolated_flavor.body, format!("{} in {}", letter.recipients, letter.time_limit));
}

#[test]
fn new_round_reports_bad_decoy() {
    let mut rng = ChaCha8Rng::seed_from_u64(21);
    let mut a = assets();
    a.decoys = vec![stub("moss", vec![3])];
    let mut bag = LetterBag::new(a, &mut rng).unwrap();
    assert_eq!(
        generate_current_letter_system(&mut bag, &mut rng).err(),
        Some(ContentError::TargetOutOfRange)
    );
}
