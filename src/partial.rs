//! The part of a flavor text that shows while it is being revealed: the text
//! with its placeholders filled in, cut after a number of characters, where a
//! filled-in placeholder shows whole or not at all.

use crate::text::{chars_of, string_of};
use vstd::prelude::*;

verus! {

/// What a piece of shown text is.
#[derive(Clone, Copy, Debug, PartialEq, Eq, Structural)]
pub enum SpanKind {
    /// Text of the template itself.
    Plain,
    /// The filled-in `{recipients}`.
    Recipients,
    /// The filled-in `{time_limit}`.
    TimeLimit,
    /// A placeholder of another name, shown as written.
    Unknown,
}

/// A piece of shown text.
#[derive(Debug)]
pub struct Span {
    pub text: String,
    pub kind: SpanKind,
}

/// A unit of shown text: one plain character, or one whole placeholder.
pub type Unit = (SpanKind, Seq<char>);

/// Index of the first `}` in `s` at or after `from`, or `s.len()` if none.
pub open spec fn close_from(s: Seq<char>, from: int) -> int
    decreases s.len() - from,
{
    if from >= s.len() {
        s.len() as int
    } else if s[from] == '}' {
        from
    } else {
        close_from(s, from + 1)
    }
}

proof fn lemma_close_at_least(s: Seq<char>, from: int)
    requires
        0 <= from <= s.len(),
    ensures
        close_from(s, from) >= from,
    decreases s.len() - from,
{
    if from < s.len() && s[from] != '}' {
        lemma_close_at_least(s, from + 1);
    }
}

#[via_fn]
proof fn units_decreases(s: Seq<char>, recipients: Seq<char>, time_limit: Seq<char>) {
    if s.len() > 0 {
        lemma_close_at_least(s, 1);
    }
}

/// What the placeholder named `name` shows.
pub open spec fn field_unit(name: Seq<char>, recipients: Seq<char>, time_limit: Seq<char>) -> Unit {
    if name == "recipients"@ {
        (SpanKind::Recipients, recipients)
    } else if name == "time_limit"@ {
        (SpanKind::TimeLimit, time_limit)
    } else {
        (SpanKind::Unknown, seq!['{'] + name + seq!['}'])
    }
}

/// The units of `s`: a `{` up to the next `}` is a placeholder; every other
/// character, an unclosed `{` among them, is plain.
pub open spec fn units(s: Seq<char>, recipients: Seq<char>, time_limit: Seq<char>) -> Seq<Unit>
    decreases s.len(),
    via units_decreases
{
    if s.len() == 0 {
        Seq::empty()
    } else if s[0] == '{' && close_from(s, 1) < s.len() {
        let j = close_from(s, 1);
        seq![field_unit(s.subrange(1, j), recipients, time_limit)] + units(
            s.subrange(j + 1, s.len() as int),
            recipients,
            time_limit,
        )
    } else {
        seq![(SpanKind::Plain, seq![s[0]])] + units(s.drop_first(), recipients, time_limit)
    }
}

/// The leading units that fit in `max` characters.
pub open spec fn fitting(us: Seq<Unit>, max: int) -> Seq<Unit>
    decreases us.len(),
{
    if us.len() == 0 || max <= 0 || us[0].1.len() > max {
        Seq::empty()
    } else {
        seq![us[0]] + fitting(us.drop_first(), max - us[0].1.len())
    }
}

/// The units that the spans stand for: each plain character is one unit.
pub open spec fn spans_units(spans: Seq<(SpanKind, Seq<char>)>) -> Seq<Unit>
    decreases spans.len(),
{
    if spans.len() == 0 {
        Seq::empty()
    } else {
        let last = spans.last();
        spans_units(spans.drop_last()) + if last.0 == SpanKind::Plain {
            Seq::new(last.1.len(), |k: int| (SpanKind::Plain, seq![last.1[k]]))
        } else {
            seq![last]
        }
    }
}

/// Plain spans are not empty and never stand next to each other.
#[verifier::opaque]
pub open spec fn spans_grouped(spans: Seq<(SpanKind, Seq<char>)>) -> bool {
    &&& forall|k: int|
        0 <= k < spans.len() && (#[trigger] spans[k]).0 == SpanKind::Plain ==> spans[k].1.len() > 0
    &&& forall|a: int, b: int|
        #![trigger spans[a], spans[b]]
        0 <= a && b == a + 1 && b < spans.len() ==> !(spans[a].0 == SpanKind::Plain && spans[b].0
            == SpanKind::Plain)
}

pub open spec fn span_views(spans: Seq<Span>) -> Seq<(SpanKind, Seq<char>)> {
    Seq::new(spans.len(), |k: int| (spans[k].kind, spans[k].text@))
}

pub open spec fn unit_views(us: Seq<(SpanKind, Vec<char>)>) -> Seq<Unit> {
    Seq::new(us.len(), |k: int| (us[k].0, us[k].1@))
}

proof fn lemma_close_shift(s: Seq<char>, i: int, a: int)
    requires
        0 <= i <= s.len(),
        a >= 0,
    ensures
        close_from(s.subrange(i, s.len() as int), a) == close_from(s, i + a) - i,
    decreases s.len() - (i + a),
{
    let t = s.subrange(i, s.len() as int);
    if i + a < s.len() {
        assert(t[a] == s[i + a]);
        if s[i + a] != '}' {
            lemma_close_shift(s, i, a + 1);
        }
    }
}

/// Whether `a` and `b` hold the same characters.
fn same_chars(a: &Vec<char>, b: &Vec<char>) -> (r: bool)
    ensures
        r == (a@ == b@),
{
    if a.len() != b.len() {
        return false;
    }
    let mut k: usize = 0;
    while k < a.len()
        invariant
            a@.len() == b@.len(),
            k <= a@.len(),
            forall|m: int| 0 <= m < k ==> a@[m] == b@[m],
        decreases a@.len() - k,
    {
        if a[k] != b[k] {
            return false;
        }
        k = k + 1;
    }
    assert(a@ =~= b@);
    true
}

/// The characters of `s` from `from` up to `to`.
fn slice_chars(s: &Vec<char>, from: usize, to: usize) -> (r: Vec<char>)
    requires
        from <= to <= s@.len(),
    ensures
        r@ == s@.subrange(from as int, to as int),
{
    let mut r: Vec<char> = Vec::new();
    let mut k: usize = from;
    while k < to
        invariant
            from <= k <= to,
            to <= s@.len(),
            r@ == s@.subrange(from as int, k as int),
        decreases to - k,
    {
        r.push(s[k]);
        assert(r@ =~= s@.subrange(from as int, k + 1));
        k = k + 1;
    }
    r
}

fn field_unit_exec(name: Vec<char>, recipients: &Vec<char>, time_limit: &Vec<char>) -> (r: (
    SpanKind,
    Vec<char>,
))
    ensures
        (r.0, r.1@) == field_unit(name@, recipients@, time_limit@),
{
    if same_chars(&name, &chars_of("recipients")) {
        (SpanKind::Recipients, recipients.clone())
    } else if same_chars(&name, &chars_of("time_limit")) {
        (SpanKind::TimeLimit, time_limit.clone())
    } else {
        let mut text: Vec<char> = Vec::new();
        text.push('{');
        let mut k: usize = 0;
        while k < name.len()
            invariant
                k <= name@.len(),
                text@ == seq!['{'] + name@.subrange(0, k as int),
            decreases name@.len() - k,
        {
            text.push(name[k]);
            assert(text@ =~= seq!['{'] + name@.subrange(0, k + 1));
            k = k + 1;
        }
        text.push('}');
        assert(name@.subrange(0, name@.len() as int) =~= name@);
        assert(text@ =~= seq!['{'] + name@ + seq!['}']);
        (SpanKind::Unknown, text)
    }
}

/// The units of `s`.
fn split_units(s: &Vec<char>, recipients: &Vec<char>, time_limit: &Vec<char>) -> (r: Vec<
    (SpanKind, Vec<char>),
>)
    ensures
        unit_views(r@) == units(s@, recipients@, time_limit@),
{
    let n = s.len();
    let mut out: Vec<(SpanKind, Vec<char>)> = Vec::new();
    let mut i: usize = 0;
    assert(s@.subrange(0, n as int) =~= s@);
    assert(unit_views(out@) =~= Seq::<Unit>::empty());
    while i < n
        invariant
            n == s@.len(),
            i <= n,
            unit_views(out@) + units(s@.subrange(i as int, n as int), recipients@, time_limit@)
                == units(s@, recipients@, time_limit@),
        decreases n - i,
    {
        let ghost t = s@.subrange(i as int, n as int);
        let ghost before = unit_views(out@);
        assert(t[0] == s@[i as int]);
        let mut j: usize = i + 1;
        if s[i] == '{' {
            while j < n && s[j] != '}'
                invariant
                    i + 1 <= j <= n,
                    n == s@.len(),
                    close_from(s@, i + 1) == close_from(s@, j as int),
                decreases n - j,
            {
                j = j + 1;
            }
            proof {
                lemma_close_shift(s@, i as int, 1);
            }
        }
        if s[i] == '{' && j < n {
            assert(close_from(t, 1) == j - i);
            let name = slice_chars(s, i + 1, j);
            assert(t.subrange(1, j - i) =~= name@);
            assert(t.subrange(j - i + 1, t.len() as int) =~= s@.subrange(j + 1, n as int));
            let unit = field_unit_exec(name, recipients, time_limit);
            out.push(unit);
            assert(unit_views(out@) =~= before.push((unit.0, unit.1@)));
            i = j + 1;
        } else {
            proof {
                if s@[i as int] == '{' {
                    lemma_close_shift(s@, i as int, 1);
                }
            }
            let mut one: Vec<char> = Vec::new();
            one.push(s[i]);
            out.push((SpanKind::Plain, one));
            assert(unit_views(out@) =~= before.push((SpanKind::Plain, seq![s@[i as int]])));
            assert(t.drop_first() =~= s@.subrange(i + 1, n as int));
            i = i + 1;
        }
        assert(unit_views(out@) + units(s@.subrange(i as int, n as int), recipients@, time_limit@)
            =~= before + units(t, recipients@, time_limit@));
    }
    assert(s@.subrange(n as int, n as int) =~= Seq::<char>::empty());
    assert(unit_views(out@) + Seq::<Unit>::empty() =~= unit_views(out@));
    out
}

/// Plain units are single characters.
pub open spec fn plain_single(us: Seq<Unit>) -> bool {
    forall|k: int| 0 <= k < us.len() && (#[trigger] us[k]).0 == SpanKind::Plain ==> us[k].1.len() == 1
}

proof fn lemma_units_plain_single(s: Seq<char>, recipients: Seq<char>, time_limit: Seq<char>)
    ensures
        plain_single(units(s, recipients, time_limit)),
    decreases s.len(),
{
    if s.len() > 0 {
        lemma_close_at_least(s, 1);
        let us = units(s, recipients, time_limit);
        if s[0] == '{' && close_from(s, 1) < s.len() {
            let j = close_from(s, 1);
            let rest = s.subrange(j + 1, s.len() as int);
            lemma_units_plain_single(rest, recipients, time_limit);
            assert forall|k: int| 0 <= k < us.len() && (#[trigger] us[k]).0 == SpanKind::Plain implies us[k].1.len() == 1 by {
                if k > 0 {
                    assert(us[k] == units(rest, recipients, time_limit)[k - 1]);
                }
            }
        } else {
            let rest = s.drop_first();
            lemma_units_plain_single(rest, recipients, time_limit);
            assert forall|k: int| 0 <= k < us.len() && (#[trigger] us[k]).0 == SpanKind::Plain implies us[k].1.len() == 1 by {
                if k > 0 {
                    assert(us[k] == units(rest, recipients, time_limit)[k - 1]);
                }
            }
        }
    }
}

pub open spec fn plain_chars(text: Seq<char>) -> Seq<Unit> {
    Seq::new(text.len(), |k: int| (SpanKind::Plain, seq![text[k]]))
}

pub open spec fn piece_views(ps: Seq<(SpanKind, Vec<char>)>) -> Seq<(SpanKind, Seq<char>)> {
    Seq::new(ps.len(), |k: int| (ps[k].0, ps[k].1@))
}

proof fn lemma_spans_units_push(ps: Seq<(SpanKind, Seq<char>)>, x: (SpanKind, Seq<char>))
    ensures
        spans_units(ps.push(x)) == spans_units(ps) + if x.0 == SpanKind::Plain {
            plain_chars(x.1)
        } else {
            seq![x]
        },
{
    assert(ps.push(x).drop_last() =~= ps);
}

proof fn lemma_grouped_empty()
    ensures
        spans_grouped(Seq::<(SpanKind, Seq<char>)>::empty()),
{
    reveal(spans_grouped);
}

proof fn lemma_grouped_push(ps: Seq<(SpanKind, Seq<char>)>, x: (SpanKind, Seq<char>))
    requires
        spans_grouped(ps),
        x.0 == SpanKind::Plain ==> x.1.len() > 0 && (ps.len() == 0 || ps.last().0
            != SpanKind::Plain),
    ensures
        spans_grouped(ps.push(x)),
{
    reveal(spans_grouped);
    let q = ps.push(x);
    assert forall|k: int| 0 <= k < q.len() && (#[trigger] q[k]).0 == SpanKind::Plain implies q[k].1.len() > 0 by {
        if k < ps.len() {
            assert(q[k] == ps[k]);
        }
    }
    assert forall|a: int, b: int|
        #![trigger q[a], q[b]]
        0 <= a && b == a + 1 && b < q.len() implies !(q[a].0 == SpanKind::Plain && q[b].0
            == SpanKind::Plain) by {
        assert(q[a] == ps[a]);
        if b < ps.len() {
            assert(q[b] == ps[b]);
        }
    }
}

proof fn lemma_grouped_grow_last(ps: Seq<(SpanKind, Seq<char>)>, c: char)
    requires
        spans_grouped(ps),
        ps.len() > 0,
        ps.last().0 == SpanKind::Plain,
    ensures
        spans_grouped(ps.drop_last().push((SpanKind::Plain, ps.last().1.push(c)))),
{
    reveal(spans_grouped);
    let q = ps.drop_last().push((SpanKind::Plain, ps.last().1.push(c)));
    assert forall|k: int| 0 <= k < q.len() && (#[trigger] q[k]).0 == SpanKind::Plain implies q[k].1.len() > 0 by {
        if k < ps.len() - 1 {
            assert(q[k] == ps[k]);
        }
    }
    assert forall|a: int, b: int|
        #![trigger q[a], q[b]]
        0 <= a && b == a + 1 && b < q.len() implies !(q[a].0 == SpanKind::Plain && q[b].0
            == SpanKind::Plain) by {
        assert(q[a] == ps[a]);
        if b < ps.len() - 1 {
            assert(q[b] == ps[b]);
        } else {
            assert(ps[b].0 == SpanKind::Plain);
        }
    }
}

/// The spans of the pieces `ps`.
fn to_spans(ps: &Vec<(SpanKind, Vec<char>)>) -> (r: Vec<Span>)
    ensures
        span_views(r@) == piece_views(ps@),
{
    let mut out: Vec<Span> = Vec::new();
    let mut k: usize = 0;
    while k < ps.len()
        invariant
            k <= ps@.len(),
            out@.len() == k,
            span_views(out@) == piece_views(ps@).subrange(0, k as int),
        decreases ps@.len() - k,
    {
        let text = string_of(&ps[k].1);
        let ghost before = out@;
        out.push(Span { text, kind: ps[k].0 });
        assert forall|m: int| 0 <= m < k implies out@[m] == before[m] by {}
        assert(span_views(out@) =~= piece_views(ps@).subrange(0, k + 1));
        k = k + 1;
    }
    assert(piece_views(ps@).subrange(0, k as int) =~= piece_views(ps@));
    out
}

/// Adds the unit `(kind, text)` to the spans `out`: a plain character joins
/// a plain span at the end, anything else starts a span.
fn add_unit(out: &mut Vec<(SpanKind, Vec<char>)>, kind: SpanKind, text: &Vec<char>)
    requires
        spans_grouped(piece_views(old(out)@)),
        kind == SpanKind::Plain ==> text@.len() == 1,
    ensures
        spans_grouped(piece_views(final(out)@)),
        spans_units(piece_views(final(out)@)) == spans_units(piece_views(old(out)@)).push(
            (kind, text@),
        ),
{
    let ghost before = piece_views(out@);
    let ghost u = (kind, text@);
    if kind == SpanKind::Plain {
        let c = text[0];
        assert(u == (SpanKind::Plain, seq![c]));
        let last_plain = out.len() > 0 && out[out.len() - 1].0 == SpanKind::Plain;
        if last_plain {
            let (k0, mut t) = out.pop().unwrap();
            let ghost mid = piece_views(out@);
            assert(mid =~= before.drop_last());
            let ghost old_text = t@;
            assert(before =~= mid.push((SpanKind::Plain, old_text)));
            t.push(c);
            out.push((k0, t));
            assert(piece_views(out@) =~= mid.push((SpanKind::Plain, old_text.push(c))));
            assert(plain_chars(old_text.push(c)) =~= plain_chars(old_text).push(u));
            proof {
                lemma_spans_units_push(mid, (SpanKind::Plain, old_text.push(c)));
                lemma_spans_units_push(mid, (SpanKind::Plain, old_text));
                lemma_grouped_grow_last(before, c);
            }
            assert(spans_units(piece_views(out@)) =~= spans_units(before).push(u));
        } else {
            let mut one: Vec<char> = Vec::new();
            one.push(c);
            out.push((SpanKind::Plain, one));
            assert(piece_views(out@) =~= before.push((SpanKind::Plain, seq![c])));
            assert(plain_chars(seq![c]) =~= seq![u]);
            proof {
                lemma_spans_units_push(before, (SpanKind::Plain, seq![c]));
                lemma_grouped_push(before, (SpanKind::Plain, seq![c]));
            }
            assert(spans_units(piece_views(out@)) =~= spans_units(before).push(u));
        }
    } else {
        let copy = slice_chars(text, 0, text.len());
        assert(copy@ =~= text@);
        out.push((kind, copy));
        assert(piece_views(out@) =~= before.push(u));
        proof {
            lemma_spans_units_push(before, u);
            lemma_grouped_push(before, u);
        }
    }
}

/// Groups the leading units of `us` that fit in `max` characters into spans.
fn fit_and_group(us: &Vec<(SpanKind, Vec<char>)>, max: usize) -> (r: Vec<(SpanKind, Vec<char>)>)
    requires
        plain_single(unit_views(us@)),
    ensures
        spans_units(piece_views(r@)) == fitting(unit_views(us@), max as int),
        spans_grouped(piece_views(r@)),
{
    let ghost uv = unit_views(us@);
    let n = us.len();
    let mut out: Vec<(SpanKind, Vec<char>)> = Vec::new();
    let mut left = max;
    let mut i: usize = 0;
    assert(uv.subrange(0, n as int) =~= uv);
    assert(piece_views(out@) =~= Seq::<(SpanKind, Seq<char>)>::empty());
    proof {
        lemma_grouped_empty();
    }
    while i < n && left > 0 && us[i].1.len() <= left
        invariant
            n == us@.len(),
            uv == unit_views(us@),
            plain_single(uv),
            i <= n,
            spans_units(piece_views(out@)) + fitting(uv.subrange(i as int, n as int), left as int)
                == fitting(uv, max as int),
            spans_grouped(piece_views(out@)),
        decreases n - i,
    {
        let ghost u = uv[i as int];
        let ghost rest = uv.subrange(i as int, n as int);
        assert(rest[0] == u);
        assert(rest.drop_first() =~= uv.subrange(i + 1, n as int));
        let ghost before = spans_units(piece_views(out@));
        let len = us[i].1.len();
        add_unit(&mut out, us[i].0, &us[i].1);
        left = left - len;
        i = i + 1;
        assert(spans_units(piece_views(out@)) + fitting(uv.subrange(i as int, n as int), left as int)
            =~= before + fitting(rest, (left + len) as int));
    }
    assert(fitting(uv.subrange(i as int, n as int), left as int) =~= Seq::<Unit>::empty());
    assert(spans_units(piece_views(out@)) + Seq::<Unit>::empty() =~= spans_units(piece_views(out@)));
    out
}

/// The part of `source` that shows after `max_characters` characters of its
/// filled-in text: plain text in maximal pieces, each placeholder filled in as
/// a piece of its own, shown only where it fits whole; the text stops at the
/// first piece that does not fit.
pub fn interpolate_and_truncate(
    source: &str,
    max_characters: usize,
    recipients: &str,
    time_limit: &str,
) -> (r: Vec<Span>)
    ensures
        spans_units(span_views(r@)) == fitting(
            units(source@, recipients@, time_limit@),
            max_characters as int,
        ),
        spans_grouped(span_views(r@)),
{
    let s = chars_of(source);
    let rec = chars_of(recipients);
    let tl = chars_of(time_limit);
    let us = split_units(&s, &rec, &tl);
    proof {
        lemma_units_plain_single(s@, rec@, tl@);
    }
    let pieces = fit_and_group(&us, max_characters);
    to_spans(&pieces)
}

} // verus!
