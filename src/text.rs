//! Text operations on letters: splitting into words, masking a word, and
//! replacing placeholders.

use vstd::prelude::*;
use vstd::string::StrSliceExecFns;

verus! {

/// Unicode's White_Space property, which `char::is_whitespace` tests.
pub open spec fn white(c: char) -> bool {
    let u = c as u32;
    ||| 0x9 <= u <= 0xd
    ||| u == 0x20
    ||| u == 0x85
    ||| u == 0xa0
    ||| u == 0x1680
    ||| 0x2000 <= u <= 0x200a
    ||| u == 0x2028
    ||| u == 0x2029
    ||| u == 0x202f
    ||| u == 0x205f
    ||| u == 0x3000
}

/// The word in progress, as a list of zero or one words.
pub open spec fn flush(cur: Seq<char>) -> Seq<Seq<char>> {
    if cur.len() > 0 {
        seq![cur]
    } else {
        Seq::empty()
    }
}

/// The words of `s`, after a word in progress `cur`.
pub open spec fn split_from(s: Seq<char>, cur: Seq<char>) -> Seq<Seq<char>>
    decreases s.len(),
{
    if s.len() == 0 {
        flush(cur)
    } else if white(s[0]) {
        flush(cur) + split_from(s.drop_first(), Seq::empty())
    } else {
        split_from(s.drop_first(), cur.push(s[0]))
    }
}

/// The words of `s`: its maximal runs of non-whitespace characters.
pub open spec fn words(s: Seq<char>) -> Seq<Seq<char>> {
    split_from(s, Seq::empty())
}

/// Bytes that UTF-8 takes for `c`.
pub open spec fn char_width(c: char) -> nat {
    let u = c as u32;
    if u <= 0x7f {
        1
    } else if u <= 0x7ff {
        2
    } else if u <= 0xffff {
        3
    } else {
        4
    }
}

/// Length of the UTF-8 encoding of `w`, in bytes.
pub open spec fn utf8_len(w: Seq<char>) -> nat
    decreases w.len(),
{
    if w.len() == 0 {
        0
    } else {
        utf8_len(w.drop_last()) + char_width(w.last())
    }
}

pub open spec fn underscores(n: nat) -> Seq<char> {
    Seq::new(n, |_i: int| '_')
}

/// The words joined by single spaces.
pub open spec fn join_words(ws: Seq<Seq<char>>) -> Seq<char>
    decreases ws.len(),
{
    if ws.len() == 0 {
        Seq::empty()
    } else if ws.len() == 1 {
        ws[0]
    } else {
        join_words(ws.drop_last()) + seq![' '] + ws.last()
    }
}

/// The words with word `k` replaced by as many underscores as it has bytes.
pub open spec fn masked_words(ws: Seq<Seq<char>>, k: int) -> Seq<Seq<char>> {
    Seq::new(
        ws.len(),
        |j: int|
            if j == k {
                underscores(utf8_len(ws[j]))
            } else {
                ws[j]
            },
    )
}

/// `s` as single-spaced words, word `k` masked.
pub open spec fn masked(s: Seq<char>, k: int) -> Seq<char> {
    join_words(masked_words(words(s), k))
}

/// `s` with each occurrence of `pat`, from the left and not overlapping,
/// replaced by `rep`.
pub open spec fn replaced(s: Seq<char>, pat: Seq<char>, rep: Seq<char>) -> Seq<char>
    decreases s.len(),
{
    if s.len() == 0 {
        s
    } else if pat.len() > 0 && pat.len() <= s.len() && s.subrange(0, pat.len() as int) == pat {
        rep + replaced(s.subrange(pat.len() as int, s.len() as int), pat, rep)
    } else {
        seq![s[0]] + replaced(s.drop_first(), pat, rep)
    }
}

/// Decimal digit `d`.
pub open spec fn digit(d: nat) -> char {
    (48 + d) as char
}

/// The decimal numeral of `n`, without sign or padding.
pub open spec fn decimal(n: nat) -> Seq<char>
    decreases n,
{
    if n < 10 {
        seq![digit(n)]
    } else {
        decimal(n / 10).push(digit(n % 10))
    }
}

/// Relies on `String::push`: the character is appended.
#[verifier::external_body]
pub(crate) fn push_char(s: &mut String, c: char)
    ensures
        final(s)@ == old(s)@.push(c),
{
    s.push(c)
}

/// Relies on `ToString` of `usize` (through `Display`): its decimal numeral.
#[verifier::external_body]
pub(crate) fn decimal_string(n: usize) -> (r: String)
    ensures
        r@ == decimal(n as nat),
{
    n.to_string()
}

/// Whether `c` is whitespace, as `char::is_whitespace` decides it.
pub fn is_white(c: char) -> (r: bool)
    ensures
        r == white(c),
{
    let u = c as u32;
    (0x9 <= u && u <= 0xd) || u == 0x20 || u == 0x85 || u == 0xa0 || u == 0x1680 || (0x2000
        <= u && u <= 0x200a) || u == 0x2028 || u == 0x2029 || u == 0x202f || u == 0x205f || u
        == 0x3000
}

/// The characters of `s`.
pub fn chars_of(s: &str) -> (r: Vec<char>)
    ensures
        r@ == s@,
{
    let n = s.unicode_len();
    let mut r: Vec<char> = Vec::new();
    let mut i: usize = 0;
    while i < n
        invariant
            n == s@.len(),
            i <= n,
            r@ == s@.subrange(0, i as int),
        decreases n - i,
    {
        r.push(s.get_char(i));
        i = i + 1;
    }
    assert(r@ =~= s@);
    r
}

/// A string of the characters `cs`.
pub fn string_of(cs: &Vec<char>) -> (r: String)
    ensures
        r@ == cs@,
{
    let mut r = String::new();
    let mut i: usize = 0;
    while i < cs.len()
        invariant
            i <= cs.len(),
            r@ == cs@.subrange(0, i as int),
        decreases cs.len() - i,
    {
        push_char(&mut r, cs[i]);
        assert(r@ =~= cs@.subrange(0, i + 1));
        i = i + 1;
    }
    assert(r@ =~= cs@);
    r
}

/// Appends `w` to `out`.
pub fn extend_chars(out: &mut Vec<char>, w: &Vec<char>)
    ensures
        final(out)@ == old(out)@ + w@,
{
    let mut i: usize = 0;
    while i < w.len()
        invariant
            i <= w.len(),
            out@ == old(out)@ + w@.subrange(0, i as int),
        decreases w.len() - i,
    {
        out.push(w[i]);
        assert(out@ =~= old(out)@ + w@.subrange(0, i + 1));
        i = i + 1;
    }
    assert(w@.subrange(0, w.len() as int) =~= w@);
}

proof fn lemma_split_step(s: Seq<char>, i: int, cur: Seq<char>)
    requires
        0 <= i < s.len(),
    ensures
        split_from(s.subrange(i, s.len() as int), cur) == if white(s[i]) {
            flush(cur) + split_from(s.subrange(i + 1, s.len() as int), Seq::empty())
        } else {
            split_from(s.subrange(i + 1, s.len() as int), cur.push(s[i]))
        },
{
    assert(s.subrange(i, s.len() as int).drop_first() =~= s.subrange(i + 1, s.len() as int));
}

/// The words of `s`.
pub fn split_words(s: &Vec<char>) -> (r: Vec<Vec<char>>)
    ensures
        r@.map_values(|w: Vec<char>| w@) == words(s@),
{
    let mut out: Vec<Vec<char>> = Vec::new();
    let mut cur: Vec<char> = Vec::new();
    let mut i: usize = 0;
    assert(out@.map_values(|w: Vec<char>| w@) =~= Seq::<Seq<char>>::empty());
    assert(s@.subrange(0, s.len() as int) =~= s@);
    assert(cur@ =~= Seq::<char>::empty());
    while i < s.len()
        invariant
            i <= s.len(),
            out@.map_values(|w: Vec<char>| w@) + split_from(s@.subrange(i as int, s.len() as int), cur@)
                == words(s@),
        decreases s.len() - i,
    {
        let c = s[i];
        proof {
            lemma_split_step(s@, i as int, cur@);
        }
        if is_white(c) {
            if cur.len() > 0 {
                let ghost before = out@.map_values(|w: Vec<char>| w@);
                out.push(cur);
                assert(out@.map_values(|w: Vec<char>| w@) =~= before + flush(cur@));
            } else {
                assert(flush(cur@) =~= Seq::<Seq<char>>::empty());
                assert(out@.map_values(|w: Vec<char>| w@) + flush(cur@) =~= out@.map_values(|w: Vec<char>| w@));
            }
            cur = Vec::new();
            assert(cur@ =~= Seq::<char>::empty());
        } else {
            cur.push(c);
        }
        i = i + 1;
    }
    assert(s@.subrange(s.len() as int, s.len() as int) =~= Seq::<char>::empty());
    if cur.len() > 0 {
        let ghost before = out@.map_values(|w: Vec<char>| w@);
        out.push(cur);
        assert(out@.map_values(|w: Vec<char>| w@) =~= before + flush(cur@));
    } else {
        assert(out@.map_values(|w: Vec<char>| w@) + flush(cur@) =~= out@.map_values(|w: Vec<char>| w@));
    }
    out
}

/// The word at `word_index` among the words of `text`, if there is one.
pub fn get_word_at_index(text: &str, word_index: usize) -> (r: Option<String>)
    ensures
        r is Some <==> word_index < words(text@).len(),
        r matches Some(w) ==> w@ == words(text@)[word_index as int],
{
    let cs = chars_of(text);
    let ws = split_words(&cs);
    if word_index < ws.len() {
        Some(string_of(&ws[word_index]))
    } else {
        None
    }
}

/// Appends `n` underscores to `out`.
fn push_underscores(out: &mut Vec<char>, n: usize)
    ensures
        final(out)@ == old(out)@ + underscores(n as nat),
{
    let mut i: usize = 0;
    while i < n
        invariant
            i <= n,
            out@ == old(out)@ + underscores(i as nat),
        decreases n - i,
    {
        out.push('_');
        assert(out@ =~= old(out)@ + underscores((i + 1) as nat));
        i = i + 1;
    }
}

fn char_width_exec(c: char) -> (r: usize)
    ensures
        r == char_width(c),
{
    let u = c as u32;
    if u <= 0x7f {
        1
    } else if u <= 0x7ff {
        2
    } else if u <= 0xffff {
        3
    } else {
        4
    }
}

/// Appends to `out` as many underscores as `w` has bytes.
fn push_masked(out: &mut Vec<char>, w: &Vec<char>)
    ensures
        final(out)@ == old(out)@ + underscores(utf8_len(w@)),
{
    let mut i: usize = 0;
    assert(w@.subrange(0, 0) =~= Seq::<char>::empty());
    assert(old(out)@ =~= old(out)@ + underscores(0));
    while i < w.len()
        invariant
            i <= w.len(),
            out@ == old(out)@ + underscores(utf8_len(w@.subrange(0, i as int))),
        decreases w.len() - i,
    {
        let ghost before = utf8_len(w@.subrange(0, i as int));
        assert(w@.subrange(0, i + 1).drop_last() =~= w@.subrange(0, i as int));
        let n = char_width_exec(w[i]);
        push_underscores(out, n);
        assert(underscores(before) + underscores(n as nat) =~= underscores((before + n) as nat));
        i = i + 1;
    }
    assert(w@.subrange(0, w.len() as int) =~= w@);
}

proof fn lemma_join_step(ws: Seq<Seq<char>>, j: int)
    requires
        0 <= j < ws.len(),
    ensures
        join_words(ws.subrange(0, j + 1)) == if j == 0 {
            ws[0]
        } else {
            join_words(ws.subrange(0, j)) + seq![' '] + ws[j]
        },
{
    if j > 0 {
        assert(ws.subrange(0, j + 1).drop_last() =~= ws.subrange(0, j));
    }
}

/// `text` as its words joined by single spaces, with the word at
/// `word_index` replaced by as many underscores as it has bytes.
pub fn replace_word_with_underscores(text: String, word_index: usize) -> (r: String)
    ensures
        r@ == masked(text@, word_index as int),
{
    let cs = chars_of(text.as_str());
    let ws = split_words(&cs);
    let ghost all = ws@.map_values(|w: Vec<char>| w@);
    let ghost mw = masked_words(all, word_index as int);
    let mut out: Vec<char> = Vec::new();
    let mut j: usize = 0;
    assert(mw.subrange(0, 0) =~= Seq::<Seq<char>>::empty());
    while j < ws.len()
        invariant
            j <= ws.len(),
            all == ws@.map_values(|w: Vec<char>| w@),
            mw == masked_words(all, word_index as int),
            out@ == join_words(mw.subrange(0, j as int)),
        decreases ws.len() - j,
    {
        proof {
            lemma_join_step(mw, j as int);
        }
        let ghost before = out@;
        assert(all[j as int] == ws@[j as int]@);
        if j > 0 {
            out.push(' ');
        }
        if j == word_index {
            push_masked(&mut out, &ws[j]);
        } else {
            extend_chars(&mut out, &ws[j]);
        }
        assert(j > 0 ==> out@ =~= before + seq![' '] + mw[j as int]);
        assert(j == 0 ==> out@ =~= mw[j as int]);
        j = j + 1;
    }
    assert(mw.subrange(0, ws.len() as int) =~= mw);
    string_of(&out)
}

/// Whether `pat` is non-empty and occurs in `s` at `i`.
fn matches_at(s: &Vec<char>, i: usize, pat: &Vec<char>) -> (r: bool)
    requires
        i <= s.len(),
    ensures
        r == (pat.len() > 0 && i + pat.len() <= s.len() && s@.subrange(
            i as int,
            i + pat.len(),
        ) == pat@),
{
    if pat.len() == 0 || pat.len() > s.len() - i {
        return false;
    }
    let mut k: usize = 0;
    while k < pat.len()
        invariant
            k <= pat.len(),
            i + pat.len() <= s.len(),
            forall|m: int| 0 <= m < k ==> s@[i + m] == pat@[m],
        decreases pat.len() - k,
    {
        if s[i + k] != pat[k] {
            assert(s@.subrange(i as int, i + pat.len())[k as int] != pat@[k as int]);
            return false;
        }
        k = k + 1;
    }
    assert(s@.subrange(i as int, i + pat.len()) =~= pat@);
    true
}

/// `s` with each occurrence of `pat`, from the left and not overlapping,
/// replaced by `rep`, as `str::replace` does it.
pub fn replace_all(s: &Vec<char>, pat: &Vec<char>, rep: &Vec<char>) -> (r: Vec<char>)
    ensures
        r@ == replaced(s@, pat@, rep@),
{
    let mut out: Vec<char> = Vec::new();
    let mut i: usize = 0;
    assert(s@.subrange(0, s.len() as int) =~= s@);
    while i < s.len()
        invariant
            i <= s.len(),
            out@ + replaced(s@.subrange(i as int, s.len() as int), pat@, rep@) == replaced(
                s@,
                pat@,
                rep@,
            ),
        decreases s.len() - i,
    {
        let ghost t = s@.subrange(i as int, s.len() as int);
        let ghost before = out@;
        if matches_at(s, i, pat) {
            assert(t.subrange(0, pat.len() as int) =~= s@.subrange(i as int, i + pat.len()));
            assert(t.subrange(pat.len() as int, t.len() as int) =~= s@.subrange(
                i + pat.len(),
                s.len() as int,
            ));
            extend_chars(&mut out, rep);
            i = i + pat.len();
            assert(out@ + replaced(s@.subrange(i as int, s.len() as int), pat@, rep@) =~= before
                + replaced(t, pat@, rep@));
        } else {
            assert(pat.len() > 0 && pat.len() <= t.len() ==> t.subrange(0, pat.len() as int)
                =~= s@.subrange(i as int, i + pat.len()));
            assert(t.drop_first() =~= s@.subrange(i + 1, s.len() as int));
            out.push(s[i]);
            i = i + 1;
            assert(out@ + replaced(s@.subrange(i as int, s.len() as int), pat@, rep@) =~= before
                + replaced(t, pat@, rep@));
        }
    }
    assert(s@.subrange(s.len() as int, s.len() as int) =~= Seq::<char>::empty());
    assert(out@ + Seq::<char>::empty() =~= out@);
    out
}

} // verus!
