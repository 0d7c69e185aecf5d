use chainmail::content::{Effect, Flavor, InterpolatedFlavor, Letter, Pronouns, Testimonial};
use chainmail::timeline::LetterWidgetRevealed;

fn testimonial(word: &str) -> Testimonial {
    Testimonial {
        first_name: "Ann".to_string(),
        last_initial: 'B',
        pronouns: Pronouns::SheHerHers,
        message: "Ann B. ___.".to_string(),
        target_word: word.to_string(),
        effect: Effect::Noop,
        collected: false,
    }
}

/// A letter with a body of 10 characters, 2 blessings, 1 curse and a signoff
/// of 4 characters.
fn letter() -> Letter {
    let flavor = Flavor {
        title: "T".to_string(),
        body: "0123456789".to_string(),
        signoff: "abcd".to_string(),
        footer: "F".to_string(),
    };
    Letter {
        interpolated_flavor: InterpolatedFlavor {
            body: flavor.body.clone(),
            signoff: flavor.signoff.clone(),
        },
        flavor,
        recipients: 3,
        time_limit: 40,
        blessings: vec![testimonial("a"), testimonial("b")],
        curses: vec![testimonial("c")],
    }
}

fn at(ms: u32) -> LetterWidgetRevealed {
    LetterWidgetRevealed::default().next_state(ms, &letter())
}

#[test]
fn nothing_shows_at_start() {
    let s = at(0);
    assert_eq!(s, LetterWidgetRevealed::default());
    assert_eq!(s.elapsed_ms, 0);
    assert!(!s.title_revealed && !s.finished);
}

#[test]
fn title_then_body_characters() {
    assert!(!at(499).title_revealed);
    assert!(at(500).title_revealed);
    assert_eq!(at(900).body_chars_revealed, 0);
    assert_eq!(at(904).body_chars_revealed, 0);
    assert_eq!(at(905).body_chars_revealed, 1);
    assert_eq!(at(922).body_chars_revealed, 4);
    assert_eq!(at(5000).body_chars_revealed, 10);
}

#[test]
fn sections_follow_their_slots() {
    // body slot 900..950, margin to 1350, header until 1750
    assert!(!at(1749).blessings_header_revealed);
    assert!(at(1750).blessings_header_revealed);
    assert_eq!(at(1750).blessings_revealed, 0);
    assert_eq!(at(2150).blessings_revealed, 1);
    assert_eq!(at(2550).blessings_revealed, 2);
    // blessings 1750..2550, margin to 2950, header until 3350
    assert!(!at(3349).curses_header_revealed);
    assert!(at(3350).curses_header_revealed);
    assert_eq!(at(3750).curses_revealed, 1);
    // curses 3350..3750, margin to 4150, signoff 5 ms per character
    assert_eq!(at(4150).signoff_chars_revealed, 0);
    assert_eq!(at(4160).signoff_chars_revealed, 2);
    assert_eq!(at(4170).signoff_chars_revealed, 4);
    // signoff ends 4170, margin to 4570, footer at 5170, finished at 5970
    assert!(!at(5169).footer_revealed);
    assert!(at(5170).footer_revealed);
    assert!(!at(5969).finished);
    assert!(at(5970).finished);
}

#[test]
fn steps_add_up() {
    let l = letter();
    let s0 = LetterWidgetRevealed::default();
    for (d1, d2) in [(0u32, 0u32), (100, 2000), (1749, 1), (3000, 2970), (7, 9999)] {
        let two = s0.next_state(d1, &l).next_state(d2, &l);
        let one = s0.next_state(d1 + d2, &l);
        assert_eq!(two, one);
    }
}

#[test]
fn reveal_ends_and_stays() {
    let end = at(5970);
    assert!(end.title_revealed && end.blessings_header_revealed && end.curses_header_revealed);
    assert!(end.footer_revealed && end.finished);
    assert_eq!(end.body_chars_revealed, 10);
    assert_eq!(end.blessings_revealed, 2);
    assert_eq!(end.curses_revealed, 1);
    assert_eq!(end.signoff_chars_revealed, 4);
    let later = end.next_state(1_000_000, &letter());
    assert_eq!(LetterWidgetRevealed { elapsed_ms: end.elapsed_ms, ..later }, end);
}

#[test]
fn elapsed_time_stops_at_the_top() {
    let s = at(u32::MAX - 5).next_state(100, &letter());
    assert_eq!(s.elapsed_ms, u32::MAX);
    assert!(s.finished);
}
