use chainmail::content::{ContentError, Effect, Flavor, InterpolatedFlavor, Letter, Pronouns, Testimonial};
use chainmail::matching::submit_word;
use chainmail::pool::{WordBag, WordCube, HUE_MIN, HUE_SPAN};
use chainmail::score::Statistics;
use rand::SeedableRng;
use rand_chacha::ChaCha8Rng;

fn testimonial(word: &str, effect: Effect) -> Testimonial {
    Testimonial {
        first_name: "Ann".to_string(),
        last_initial: 'B',
        pronouns: Pronouns::SheHerHers,
        message: "Ann B. ___.".to_string(),
        target_word: word.to_string(),
        effect,
        collected: false,
    }
}

fn letter(blessings: Vec<Testimonial>, curses: Vec<Testimonial>) -> Letter {
    let flavor = Flavor {
        title: "T".to_string(),
        body: "B".to_string(),
        signoff: "S".to_string(),
        footer: "F".to_string(),
    };
    Letter {
        interpolated_flavor: InterpolatedFlavor { body: "B".to_string(), signoff: "S".to_string() },
        flavor,
        recipients: 3,
        time_limit: 40,
        blessings,
        curses,
    }
}

fn strings(ws: &[&str]) -> Vec<String> {
    ws.iter().map(|w| w.to_string()).collect()
}

fn pool_words(pool: &WordBag) -> Vec<String> {
    let mut ws: Vec<String> =
        pool.bag.full_collection.iter().map(|&i| pool.cubes[i].word.clone()).collect();
    ws.sort();
    ws
}

#[test]
fn word_cube_holds_its_fields() {
    let c = WordCube::new("alpha", 200, '+');
    assert_eq!(c.word, "alpha");
    assert_eq!(c.hue, 200);
    assert_eq!(c.despawn_character, '+');
}

#[test]
fn pool_tags_each_kind() {
    let mut rng = ChaCha8Rng::seed_from_u64(1);
    let bl = vec![testimonial("alpha", Effect::Noop)];
    let cu = vec![testimonial("gamma", Effect::Noop)];
    let pool = WordBag::new(&bl, &cu, &strings(&["moss", "fern"]), &mut rng).unwrap();
    let marks: Vec<(String, char)> =
        pool.cubes.iter().map(|c| (c.word.clone(), c.despawn_character)).collect();
    assert_eq!(
        marks,
        vec![
            ("alpha".to_string(), '+'),
            ("gamma".to_string(), 'x'),
            ("moss".to_string(), '~'),
            ("fern".to_string(), '~')
        ]
    );
    for c in &pool.cubes {
        assert!(c.hue >= HUE_MIN && c.hue < HUE_MIN + HUE_SPAN);
    }
}

#[test]
fn empty_pool_is_refused() {
    let mut rng = ChaCha8Rng::seed_from_u64(1);
    assert_eq!(WordBag::new(&vec![], &vec![], &vec![], &mut rng).err(), Some(ContentError::NoWords));
}

#[test]
fn shuffle_bag_fairness() {
    let mut rng = ChaCha8Rng::seed_from_u64(42);
    let bl = vec![testimonial("alpha", Effect::Noop), testimonial("beta", Effect::Noop)];
    let decoys = strings(&["moss", "moss", "fern"]);
    let mut pool = WordBag::new(&bl, &vec![], &decoys, &mut rng).unwrap();
    for _ in 0..4 {
        let mut drawn: Vec<String> = (0..5).map(|_| pool.draw(&mut rng).unwrap().word).collect();
        drawn.sort();
        assert_eq!(drawn, strings(&["alpha", "beta", "fern", "moss", "moss"]));
    }
}

#[test]
fn pool_removal() {
    let mut rng = ChaCha8Rng::seed_from_u64(8);
    let bl = vec![testimonial("alpha", Effect::Noop), testimonial("beta", Effect::Noop)];
    let mut pool = WordBag::new(&bl, &vec![], &strings(&["moss"]), &mut rng).unwrap();
    assert!(pool.remove_and_reshuffle(&"alpha".to_string(), &mut rng));
    assert_eq!(pool_words(&pool), strings(&["beta", "moss"]));
    assert!(!pool.remove_and_reshuffle(&"alpha".to_string(), &mut rng));
    assert_eq!(pool_words(&pool), strings(&["beta", "moss"]));
    let mut drawn: Vec<String> = (0..2).map(|_| pool.draw(&mut rng).unwrap().word).collect();
    drawn.sort();
    assert_eq!(drawn, strings(&["beta", "moss"]));
}

#[test]
fn removal_takes_the_first_of_equal_words() {
    let mut rng = ChaCha8Rng::seed_from_u64(8);
    let mut pool = WordBag::new(&vec![], &vec![], &strings(&["moss", "moss"]), &mut rng).unwrap();
    assert!(pool.remove_and_reshuffle(&"moss".to_string(), &mut rng));
    assert_eq!(pool.bag.full_collection, vec![1]);
    assert!(pool.remove_and_reshuffle(&"moss".to_string(), &mut rng));
    assert!(pool.bag.full_collection.is_empty());
    assert!(pool.draw(&mut rng).is_none());
}

#[test]
fn spawn_skips_a_visible_word() {
    let mut rng = ChaCha8Rng::seed_from_u64(2);
    let mut pool = WordBag::new(&vec![], &vec![], &strings(&["moss"]), &mut rng).unwrap();
    assert!(pool.next_spawn(&strings(&["moss"]), &mut rng).is_none());
    let c = pool.next_spawn(&strings(&["fern"]), &mut rng).unwrap();
    assert_eq!(c.word, "moss");
}

#[test]
fn round_completion() {
    let mut rng = ChaCha8Rng::seed_from_u64(3);
    let mut l = letter(
        vec![testimonial("alpha", Effect::Noop), testimonial("beta", Effect::Noop)],
        vec![testimonial("gamma", Effect::Noop)],
    );
    let mut pool = WordBag::new(&l.blessings, &l.curses, &vec![], &mut rng).unwrap();
    let mut stats = Statistics::default();
    let shown = strings(&["alpha", "beta", "gamma"]);
    let mut prompt = "alpha".to_string();
    let first = submit_word(&mut l, &mut pool, &mut stats, &shown, &mut prompt, &mut rng);
    assert_eq!(first.matched, vec![0]);
    assert!(!first.cleared);
    assert!(prompt.is_empty());
    assert!(l.blessings[0].collected && !l.blessings[1].collected);
    let mut prompt = "beta".to_string();
    let second = submit_word(&mut l, &mut pool, &mut stats, &shown, &mut prompt, &mut rng);
    assert_eq!(second.matched, vec![1]);
    assert!(second.cleared);
    assert!(l.blessings.iter().all(|b| b.collected));
    assert!(!l.curses[0].collected);
    assert_eq!(pool_words(&pool), strings(&["gamma"]));
}

#[test]
fn unmatched_submission_only_clears_the_prompt() {
    let mut rng = ChaCha8Rng::seed_from_u64(4);
    let mut l = letter(vec![testimonial("alpha", Effect::Score(4))], vec![]);
    let mut pool = WordBag::new(&l.blessings, &l.curses, &vec![], &mut rng).unwrap();
    let mut stats = Statistics::default();
    let mut prompt = "zeta".to_string();
    let r = submit_word(&mut l, &mut pool, &mut stats, &strings(&["alpha"]), &mut prompt, &mut rng);
    assert!(r.matched.is_empty());
    assert!(!r.cleared);
    assert!(prompt.is_empty());
    assert_eq!(stats, Statistics::default());
    assert_eq!(pool_words(&pool), strings(&["alpha"]));
}

#[test]
fn effect_application() {
    let mut rng = ChaCha8Rng::seed_from_u64(5);
    let mut l = letter(
        vec![testimonial("alpha", Effect::Income(3)), testimonial("beta", Effect::Noop)],
        vec![testimonial("gamma", Effect::Money(-2))],
    );
    let mut pool = WordBag::new(&l.blessings, &l.curses, &vec![], &mut rng).unwrap();
    let mut stats = Statistics { score: 0, money: 10, income: 5 };
    let mut shown = strings(&["alpha", "gamma"]);
    let mut prompt = "alpha".to_string();
    submit_word(&mut l, &mut pool, &mut stats, &shown, &mut prompt, &mut rng);
    assert_eq!(stats, Statistics { score: 0, money: 10, income: 8 });
    // the matched word is taken off the screen, so a second submission finds nothing
    shown.remove(0);
    let mut prompt = "alpha".to_string();
    submit_word(&mut l, &mut pool, &mut stats, &shown, &mut prompt, &mut rng);
    assert_eq!(stats, Statistics { score: 0, money: 10, income: 8 });
    let mut prompt = "gamma".to_string();
    let r = submit_word(&mut l, &mut pool, &mut stats, &shown, &mut prompt, &mut rng);
    assert_eq!(stats, Statistics { score: 0, money: 8, income: 8 });
    assert!(l.curses[0].collected);
    assert!(!r.cleared);
}

#[test]
fn collected_blessing_does_not_fire_again_through_a_decoy() {
    let mut rng = ChaCha8Rng::seed_from_u64(6);
    let mut l = letter(
        vec![testimonial("alpha", Effect::Income(3)), testimonial("beta", Effect::Noop)],
        vec![],
    );
    let mut pool =
        WordBag::new(&l.blessings, &l.curses, &strings(&["alpha"]), &mut rng).unwrap();
    let mut stats = Statistics { score: 0, money: 0, income: 5 };
    let shown = strings(&["alpha"]);
    let mut prompt = "alpha".to_string();
    let first = submit_word(&mut l, &mut pool, &mut stats, &shown, &mut prompt, &mut rng);
    assert_eq!(first.matched, vec![0]);
    assert_eq!(stats.income, 8);
    assert_eq!(pool_words(&pool), strings(&["alpha", "beta"]));
    // the decoy with the same word is shown next and matched
    let mut prompt = "alpha".to_string();
    let second = submit_word(&mut l, &mut pool, &mut stats, &shown, &mut prompt, &mut rng);
    assert_eq!(second.matched, vec![0]);
    assert_eq!(stats.income, 8);
    assert_eq!(pool_words(&pool), strings(&["beta"]));
    assert!(l.blessings[0].collected);
    assert!(!second.cleared);
}

#[test]
fn unmatched_submission_leaves_the_pool_as_it_was() {
    let mut rng = ChaCha8Rng::seed_from_u64(7);
    let mut l = letter(vec![testimonial("alpha", Effect::Noop)], vec![]);
    let mut pool = WordBag::new(&l.blessings, &l.curses, &strings(&["moss", "fern"]), &mut rng).unwrap();
    let before = (pool.bag.full_collection.clone(), pool.bag.current_draft.clone());
    let mut stats = Statistics::default();
    let mut prompt = "zeta".to_string();
    submit_word(&mut l, &mut pool, &mut stats, &strings(&["moss"]), &mut prompt, &mut rng);
    assert_eq!((pool.bag.full_collection.clone(), pool.bag.current_draft.clone()), before);
}
