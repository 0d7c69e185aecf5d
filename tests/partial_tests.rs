use chainmail::partial::{interpolate_and_truncate, SpanKind};

fn shown(source: &str, max: usize) -> Vec<(SpanKind, String)> {
    interpolate_and_truncate(source, max, "12", "45")
        .into_iter()
        .map(|s| (s.kind, s.text))
        .collect()
}

fn plain(t: &str) -> (SpanKind, String) {
    (SpanKind::Plain, t.to_string())
}

const SOURCE: &str = "Send to {recipients} in {time_limit}s";

#[test]
fn whole_text_with_placeholders_filled() {
    assert_eq!(
        shown(SOURCE, 100),
        vec![
            plain("Send to "),
            (SpanKind::Recipients, "12".to_string()),
            plain(" in "),
            (SpanKind::TimeLimit, "45".to_string()),
            plain("s"),
        ]
    );
}

#[test]
fn text_is_cut_after_max_characters() {
    assert_eq!(shown(SOURCE, 0), vec![]);
    assert_eq!(shown(SOURCE, 3), vec![plain("Sen")]);
    assert_eq!(shown(SOURCE, 10), vec![plain("Send to "), (SpanKind::Recipients, "12".to_string())]);
    assert_eq!(
        shown(SOURCE, 12),
        vec![plain("Send to "), (SpanKind::Recipients, "12".to_string()), plain(" i")]
    );
}

#[test]
fn placeholder_shows_whole_or_not_at_all() {
    assert_eq!(shown(SOURCE, 9), vec![plain("Send to ")]);
    assert_eq!(shown(SOURCE, 15), vec![
        plain("Send to "),
        (SpanKind::Recipients, "12".to_string()),
        plain(" in "),
    ]);
}

#[test]
fn unknown_and_unclosed_braces() {
    assert_eq!(
        shown("{name} x", 100),
        vec![(SpanKind::Unknown, "{name}".to_string()), plain(" x")]
    );
    assert_eq!(shown("a{b", 100), vec![plain("a{b")]);
    assert_eq!(shown("{a{b} c", 100), vec![(SpanKind::Unknown, "{a{b}".to_string()), plain(" c")]);
}
