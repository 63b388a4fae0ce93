//! Text primitives: trimming, splitting, searching and number formatting.
//!
//! Text is modelled as the sequence of its characters.

use vstd::prelude::*;
use vstd::utf8::*;
use crate::lists::{no_items, put};

verus! {

/// The mathematical model of a piece of text.
pub type Text = Seq<char>;

/// `String::push`: the character is appended at the end.
pub assume_specification[ String::push ](s: &mut String, ch: char)
    ensures
        final(s)@ == old(s)@.push(ch),
;

/// The characters with the Unicode property `White_Space`.
pub open spec fn is_white(c: char) -> bool {
    ||| '\u{9}' <= c <= '\u{d}'
    ||| c == ' '
    ||| c == '\u{85}'
    ||| c == '\u{a0}'
    ||| c == '\u{1680}'
    ||| '\u{2000}' <= c <= '\u{200a}'
    ||| c == '\u{2028}'
    ||| c == '\u{2029}'
    ||| c == '\u{202f}'
    ||| c == '\u{205f}'
    ||| c == '\u{3000}'
}

/// Whether `c` is white space.
pub fn is_white_space(c: char) -> (r: bool)
    ensures
        r == is_white(c),
{
    ('\u{9}' <= c && c <= '\u{d}') || c == ' ' || c == '\u{85}' || c == '\u{a0}' || c == '\u{1680}'
        || ('\u{2000}' <= c && c <= '\u{200a}') || c == '\u{2028}' || c == '\u{2029}' || c
        == '\u{202f}' || c == '\u{205f}' || c == '\u{3000}'
}

/// The characters of `s`, in order.
pub fn chars_of(s: &str) -> (r: Vec<char>)
    ensures
        r@ == s@,
{
    let mut r: Vec<char> = Vec::new();
    for c in it: s.chars()
        invariant
            it.seq() == s@,
            r@ == s@.take(it.index()),
    {
        r.push(c);
        assert(s@.take(it.index() + 1) =~= s@.take(it.index()).push(c));
    }
    assert(s@.take(s@.len() as int) =~= s@);
    r
}

/// The text made of the characters `from..to`.
pub fn slice(chars: &Vec<char>, from: usize, to: usize) -> (r: String)
    requires
        from <= to <= chars@.len(),
    ensures
        r@ == chars@.subrange(from as int, to as int),
{
    let mut r: String = String::new();
    let mut i: usize = from;
    while i < to
        invariant
            from <= i <= to <= chars@.len(),
            r@ == chars@.subrange(from as int, i as int),
        decreases to - i,
    {
        r.push(chars[i]);
        i = i + 1;
        assert(chars@.subrange(from as int, i as int) =~= chars@.subrange(
            from as int,
            i - 1,
        ).push(chars@[i - 1]));
    }
    r
}

/// Whether two texts hold the same characters.
pub fn same(a: &str, b: &str) -> (r: bool)
    ensures
        r == (a@ == b@),
{
    let x: Vec<char> = chars_of(a);
    let y: Vec<char> = chars_of(b);
    if x.len() != y.len() {
        return false;
    }
    let mut i: usize = 0;
    while i < x.len()
        invariant
            i <= x@.len(),
            x@.len() == y@.len(),
            x@ == a@,
            y@ == b@,
            forall|j: int| 0 <= j < i ==> x@[j] == y@[j],
        decreases x@.len() - i,
    {
        if x[i] != y[i] {
            return false;
        }
        i = i + 1;
    }
    assert(x@ =~= y@);
    true
}

/// `text` without its leading white space.
pub open spec fn trim_start(text: Text) -> Text
    decreases text.len(),
{
    if text.len() > 0 && is_white(text[0]) {
        trim_start(text.skip(1))
    } else {
        text
    }
}

/// `text` without its trailing white space.
pub open spec fn trim_end(text: Text) -> Text
    decreases text.len(),
{
    if text.len() > 0 && is_white(text.last()) {
        trim_end(text.drop_last())
    } else {
        text
    }
}

/// `text` without the white space around it.
pub open spec fn trimmed(text: Text) -> Text {
    trim_end(trim_start(text))
}

/// Every character of `text` is white space.
pub open spec fn all_white(text: Text) -> bool {
    forall|i: int| 0 <= i < text.len() ==> is_white(#[trigger] text[i])
}

/// Neither end of `text` is white space.
pub open spec fn is_trimmed(text: Text) -> bool {
    text.len() > 0 ==> !is_white(text[0]) && !is_white(text.last())
}

proof fn lemma_trim_start(text: Text, n: int)
    requires
        0 <= n <= text.len(),
        all_white(text.take(n)),
        n < text.len() ==> !is_white(text[n]),
    ensures
        trim_start(text) == text.skip(n),
    decreases n,
{
    if n == 0 {
        assert(text.skip(0) =~= text);
    } else {
        assert(text[0] == text.take(n)[0]);
        assert forall|i: int| 0 <= i < n - 1 implies is_white(#[trigger] text.skip(1).take(n - 1)[i]) by {
            assert(text.skip(1).take(n - 1)[i] == text.take(n)[i + 1]);
        }
        lemma_trim_start(text.skip(1), n - 1);
        assert(text.skip(1).skip(n - 1) =~= text.skip(n));
    }
}

proof fn lemma_trim_end(text: Text, n: int)
    requires
        0 <= n <= text.len(),
        all_white(text.skip(n)),
        n > 0 ==> !is_white(text[n - 1]),
    ensures
        trim_end(text) == text.take(n),
    decreases text.len() - n,
{
    if n == text.len() {
        assert(text.take(n) =~= text);
    } else {
        assert(text.last() == text.skip(n).last());
        assert forall|i: int| 0 <= i < text.len() - 1 - n implies is_white(#[trigger] text.drop_last().skip(n)[i]) by {
            assert(text.drop_last().skip(n)[i] == text.skip(n)[i]);
        }
        lemma_trim_end(text.drop_last(), n);
        assert(text.drop_last().take(n) =~= text.take(n));
    }
}

proof fn lemma_trim_start_parts(text: Text) -> (n: int)
    ensures
        0 <= n <= text.len(),
        trim_start(text) == text.skip(n),
        all_white(text.take(n)),
        n < text.len() ==> !is_white(text[n]),
    decreases text.len(),
{
    if text.len() > 0 && is_white(text[0]) {
        let m = lemma_trim_start_parts(text.skip(1));
        assert(text.skip(1).skip(m) =~= text.skip(m + 1));
        assert forall|i: int| 0 <= i < m + 1 implies is_white(#[trigger] text.take(m + 1)[i]) by {
            if i > 0 {
                assert(text.take(m + 1)[i] == text.skip(1).take(m)[i - 1]);
            }
        }
        m + 1
    } else {
        assert(text.skip(0) =~= text);
        0
    }
}

proof fn lemma_trim_end_parts(text: Text) -> (n: int)
    ensures
        0 <= n <= text.len(),
        trim_end(text) == text.take(n),
        all_white(text.skip(n)),
        n > 0 ==> !is_white(text[n - 1]),
    decreases text.len(),
{
    if text.len() > 0 && is_white(text.last()) {
        let m = lemma_trim_end_parts(text.drop_last());
        assert(text.drop_last().take(m) =~= text.take(m));
        assert forall|i: int| 0 <= i < text.len() - m implies is_white(#[trigger] text.skip(m)[i]) by {
            if i < text.len() - m - 1 {
                assert(text.skip(m)[i] == text.drop_last().skip(m)[i]);
            }
        }
        m
    } else {
        assert(text.take(text.len() as int) =~= text);
        text.len() as int
    }
}

/// Trimming removes white space at both ends, all of it, and nothing else.
pub proof fn law_trimmed_removes_only_outer_white_space(text: Text)
    ensures
        is_trimmed(trimmed(text)),
        exists|before: Text, after: Text|
            all_white(before) && all_white(after) && text == #[trigger] (before + trimmed(text)
                + after),
{
    let n = lemma_trim_start_parts(text);
    let inner = trim_start(text);
    let m = lemma_trim_end_parts(inner);
    let before = text.take(n);
    let after = inner.skip(m);
    assert(text =~= before + trimmed(text) + after);
    assert(trimmed(text).len() > 0 ==> trimmed(text)[0] == text[n]);
}

/// Trimming a second time changes nothing.
pub proof fn law_trimmed_is_idempotent(text: Text)
    ensures
        trimmed(trimmed(text)) == trimmed(text),
{
    law_trimmed_removes_only_outer_white_space(text);
    let t = trimmed(text);
    lemma_trim_start(t, 0);
    lemma_trim_end(t, t.len() as int);
    assert(t.skip(0) =~= t);
    assert(t.take(t.len() as int) =~= t);
}

/// `text` without the white space around it.
pub fn trim(text: &str) -> (r: String)
    ensures
        r@ == trimmed(text@),
{
    let chars: Vec<char> = chars_of(text);
    let mut start: usize = 0;
    while start < chars.len() && is_white_space(chars[start])
        invariant
            start <= chars@.len(),
            all_white(chars@.take(start as int)),
        ensures
            start <= chars@.len(),
            all_white(chars@.take(start as int)),
            start < chars@.len() ==> !is_white(chars@[start as int]),
        decreases chars@.len() - start,
    {
        assert(chars@.take(start + 1) =~= chars@.take(start as int).push(chars@[start as int]));
        start = start + 1;
    }
    let ghost inner = chars@.skip(start as int);
    let mut end: usize = chars.len();
    proof {
        lemma_trim_start(chars@, start as int);
    }
    while end > start && is_white_space(chars[end - 1])
        invariant
            start <= end <= chars@.len(),
            inner == chars@.skip(start as int),
            all_white(inner.skip(end - start)),
        ensures
            start <= end <= chars@.len(),
            all_white(inner.skip(end - start)),
            end > start ==> !is_white(chars@[end - 1]),
        decreases end,
    {
        assert forall|i: int| 0 <= i < inner.skip(end - 1 - start).len() implies is_white(
            #[trigger] inner.skip(end - 1 - start)[i],
        ) by {
            if i > 0 {
                assert(inner.skip(end - 1 - start)[i] == inner.skip(end - start)[i - 1]);
            }
        }
        end = end - 1;
    }
    proof {
        lemma_trim_end(inner, end - start);
        assert(inner.take(end - start) =~= chars@.subrange(start as int, end as int));
    }
    slice(&chars, start, end)
}

/// The position of the first `c` in `text`, or the length of `text`.
pub open spec fn find(text: Text, c: char) -> int
    decreases text.len(),
{
    if text.len() == 0 || text[0] == c {
        0
    } else {
        1 + find(text.skip(1), c)
    }
}

pub proof fn lemma_find(text: Text, c: char, n: int)
    requires
        0 <= n <= text.len(),
        forall|i: int| 0 <= i < n ==> text[i] != c,
        n < text.len() ==> text[n] == c,
    ensures
        find(text, c) == n,
    decreases n,
{
    if n > 0 {
        lemma_find(text.skip(1), c, n - 1);
    }
}

pub proof fn lemma_find_parts(text: Text, c: char)
    ensures
        0 <= find(text, c) <= text.len(),
        forall|i: int| 0 <= i < find(text, c) ==> text[i] != c,
        find(text, c) < text.len() ==> text[find(text, c)] == c,
    decreases text.len(),
{
    if text.len() > 0 && text[0] != c {
        lemma_find_parts(text.skip(1), c);
        assert forall|i: int| 0 <= i < find(text, c) implies text[i] != c by {
            if i > 0 {
                assert(text[i] == text.skip(1)[i - 1]);
            }
        }
    }
}

/// The first position at or after `from` that holds `c`, or the length.
pub fn find_from(chars: &Vec<char>, c: char, from: usize) -> (r: usize)
    requires
        from <= chars@.len(),
    ensures
        from <= r <= chars@.len(),
        r == from + find(chars@.skip(from as int), c),
{
    let mut i: usize = from;
    while i < chars.len() && chars[i] != c
        invariant
            from <= i <= chars@.len(),
            forall|j: int| from <= j < i ==> chars@[j] != c,
        ensures
            from <= i <= chars@.len(),
            forall|j: int| from <= j < i ==> chars@[j] != c,
            i < chars@.len() ==> chars@[i as int] == c,
        decreases chars@.len() - i,
    {
        i = i + 1;
    }
    proof {
        lemma_find(chars@.skip(from as int), c, i - from);
    }
    i
}

/// Whether `needle` occurs in `text`.
pub open spec fn holds(text: Text, needle: Text) -> bool {
    exists|i: int|
        0 <= i <= text.len() - needle.len() && #[trigger] text.subrange(i, i + needle.len())
            == needle
}

/// Whether `needle` stands in `chars` at position `at`.
pub(crate) fn stands_at(chars: &Vec<char>, at: usize, needle: &Vec<char>) -> (r: bool)
    requires
        at <= chars@.len(),
    ensures
        r == (at + needle@.len() <= chars@.len() && chars@.subrange(at as int, at + needle@.len())
            == needle@),
{
    let total: usize = chars.len();
    if needle.len() > total - at {
        return false;
    }
    let mut i: usize = 0;
    while i < needle.len()
        invariant
            i <= needle@.len(),
            total == chars@.len(),
            at + needle@.len() <= chars@.len(),
            forall|j: int| 0 <= j < i ==> chars@[at + j] == needle@[j],
        decreases needle@.len() - i,
    {
        if chars[at + i] != needle[i] {
            assert(chars@.subrange(at as int, at + needle@.len())[i as int] != needle@[i as int]);
            return false;
        }
        i = i + 1;
    }
    assert(chars@.subrange(at as int, at + needle@.len()) =~= needle@);
    true
}

/// Whether `needle` occurs in `text`.
pub fn contains(text: &str, needle: &str) -> (r: bool)
    ensures
        r == holds(text@, needle@),
{
    let chars: Vec<char> = chars_of(text);
    let wanted: Vec<char> = chars_of(needle);
    let mut i: usize = 0;
    loop
        invariant
            i <= chars@.len(),
            chars@ == text@,
            wanted@ == needle@,
            forall|j: int|
                0 <= j < i && j + wanted@.len() <= chars@.len() ==> #[trigger] chars@.subrange(
                    j,
                    j + wanted@.len(),
                ) != wanted@,
        decreases chars@.len() - i,
    {
        if stands_at(&chars, i, &wanted) {
            return true;
        }
        if i == chars.len() {
            return false;
        }
        i = i + 1;
    }
}

/// `text` with every leading occurrence of `prefix` removed.
pub open spec fn strip_all(text: Text, prefix: Text) -> Text
    decreases text.len(),
{
    if prefix.len() > 0 && prefix.is_prefix_of(text) {
        strip_all(text.skip(prefix.len() as int), prefix)
    } else {
        text
    }
}

/// `text` with every leading occurrence of `prefix` removed.
pub fn strip_prefixes(text: &str, prefix: &str) -> (r: String)
    ensures
        r@ == strip_all(text@, prefix@),
{
    let chars: Vec<char> = chars_of(text);
    let wanted: Vec<char> = chars_of(prefix);
    let mut at: usize = 0;
    assert(chars@.skip(0) =~= chars@);
    let total: usize = chars.len();
    while wanted.len() > 0
        invariant
            at <= chars@.len(),
            total == chars@.len(),
            strip_all(chars@.skip(at as int), wanted@) == strip_all(chars@, wanted@),
        ensures
            at <= chars@.len(),
            strip_all(chars@, wanted@) == chars@.skip(at as int),
        decreases chars@.len() - at,
    {
        let found: bool = stands_at(&chars, at, &wanted);
        proof {
            let rest = chars@.skip(at as int);
            if at + wanted@.len() <= chars@.len() {
                assert(rest.subrange(0, wanted@.len() as int) =~= chars@.subrange(
                    at as int,
                    at + wanted@.len(),
                ));
                assert(rest.skip(wanted@.len() as int) =~= chars@.skip(at + wanted@.len()));
            }
        }
        if !found {
            break;
        }
        at = at + wanted.len();
    }
    assert(chars@.skip(at as int) =~= chars@.subrange(at as int, chars@.len() as int));
    slice(&chars, at, chars.len())
}

/// `line` without a carriage return at its end.
pub open spec fn without_return(line: Text) -> Text {
    if line.len() > 0 && line.last() == '\r' {
        line.drop_last()
    } else {
        line
    }
}

/// The lines of `text`. A line ends at a line feed, which takes a carriage
/// return before it along; the last line may lack the line feed.
pub open spec fn lines(text: Text) -> Seq<Text>
    decreases text.len(),
{
    let n = find(text, '\n');
    proof {
        lemma_find_parts(text, '\n');
    }
    if text.len() == 0 {
        Seq::empty()
    } else if n < text.len() {
        seq![without_return(text.take(n))] + lines(text.skip(n + 1))
    } else {
        seq![text]
    }
}

/// No line holds a line feed.
pub proof fn law_lines_hold_no_line_feed(text: Text, i: int)
    requires
        0 <= i < lines(text).len(),
    ensures
        !lines(text)[i].contains('\n'),
    decreases text.len(),
{
    lemma_find_parts(text, '\n');
    let n = find(text, '\n');
    if n < text.len() && i > 0 {
        law_lines_hold_no_line_feed(text.skip(n + 1), i - 1);
        assert(lines(text)[i] == lines(text.skip(n + 1))[i - 1]);
    }
}

/// The lines of `text`.
pub fn lines_of(text: &str) -> (r: Vec<String>)
    ensures
        r.deep_view() == lines(text@),
{
    let chars: Vec<char> = chars_of(text);
    let total: usize = chars.len();
    let mut r: Vec<String> = no_items();
    let mut start: usize = 0;
    assert(chars@.skip(0) =~= chars@);
    assert(lines(chars@) =~= r.deep_view() + lines(chars@.skip(0)));
    while start < total
        invariant
            start <= total,
            total == chars@.len(),
            lines(chars@) == r.deep_view() + lines(chars@.skip(start as int)),
        decreases total - start,
    {
        let ghost rest = chars@.skip(start as int);
        let ghost before = r.deep_view();
        let end: usize = find_from(&chars, '\n', start);
        if end < total {
            let mut stop: usize = end;
            if stop > start && chars[stop - 1] == '\r' {
                stop = stop - 1;
            }
            put(&mut r, slice(&chars, start, stop));
            proof {
                let line = rest.take(end - start);
                assert(line.len() > 0 ==> line.last() == chars@[end - 1]);
                assert(without_return(line) =~= chars@.subrange(start as int, stop as int));
                assert(rest.skip(end - start + 1) =~= chars@.skip(end + 1));
                assert(before + (seq![without_return(line)] + lines(chars@.skip(end + 1)))
                    =~= before.push(without_return(line)) + lines(chars@.skip(end + 1)));
            }
            start = end + 1;
        } else {
            put(&mut r, slice(&chars, start, end));
            proof {
                assert(chars@.subrange(start as int, end as int) =~= rest);
                assert(lines(rest) =~= seq![rest]);
                assert(lines(chars@.skip(end as int)) =~= Seq::<Text>::empty());
                assert(before + seq![rest] =~= before.push(rest) + Seq::<Text>::empty());
            }
            start = end;
        }
    }
    proof {
        assert(lines(chars@.skip(start as int)) =~= Seq::<Text>::empty());
        assert(r.deep_view() + Seq::<Text>::empty() =~= r.deep_view());
    }
    r
}

/// The lines that are not blank, each trimmed.
pub open spec fn tidy(lines: Seq<Text>) -> Seq<Text>
    decreases lines.len(),
{
    if lines.len() == 0 {
        Seq::empty()
    } else {
        let before = tidy(lines.drop_last());
        let line = trimmed(lines.last());
        if line.len() > 0 {
            before.push(line)
        } else {
            before
        }
    }
}

/// The lines of `text` that are not blank, each trimmed.
pub open spec fn entries(text: Text) -> Seq<Text> {
    tidy(lines(text))
}

/// The lines of `text` that are not blank, each trimmed.
pub fn entries_of(text: &str) -> (r: Vec<String>)
    ensures
        r.deep_view() == entries(text@),
{
    let all: Vec<String> = lines_of(text);
    let ghost model = all.deep_view();
    let mut r: Vec<String> = no_items();
    let mut i: usize = 0;
    assert(model.take(0) =~= Seq::<Text>::empty());
    while i < all.len()
        invariant
            i <= all@.len(),
            model == all.deep_view(),
            r.deep_view() == tidy(model.take(i as int)),
        decreases all@.len() - i,
    {
        let line: String = trim(all[i].as_str());
        proof {
            assert(model.take(i + 1).drop_last() =~= model.take(i as int));
            assert(model.take(i + 1).last() == all@[i as int]@);
        }
        if !line.as_str().is_empty() {
            put(&mut r, line);
        }
        i = i + 1;
    }
    assert(model.take(i as int) =~= model);
    r
}

/// Every entry is trimmed and not empty.
pub proof fn lemma_tidy_items(lines: Seq<Text>, i: int)
    requires
        0 <= i < tidy(lines).len(),
    ensures
        tidy(lines)[i].len() > 0,
        is_trimmed(tidy(lines)[i]),
    decreases lines.len(),
{
    if lines.len() > 0 {
        law_trimmed_removes_only_outer_white_space(lines.last());
        if i < tidy(lines.drop_last()).len() {
            lemma_tidy_items(lines.drop_last(), i);
        }
    }
}

/// What stands before the first `c` and what stands after it.
pub open spec fn cut(text: Text, c: char) -> Option<(Text, Text)> {
    let n = find(text, c);
    if n < text.len() {
        Some((text.take(n), text.skip(n + 1)))
    } else {
        None
    }
}

/// What stands before the first `c` and what stands after it.
pub fn cut_at(text: &str, c: char) -> (r: Option<(String, String)>)
    ensures
        r.deep_view() == cut(text@, c),
{
    let chars: Vec<char> = chars_of(text);
    assert(chars@.skip(0) =~= chars@);
    let n: usize = find_from(&chars, c, 0);
    if n < chars.len() {
        let a: String = slice(&chars, 0, n);
        let b: String = slice(&chars, n + 1, chars.len());
        assert(a@ =~= text@.take(n as int));
        assert(b@ =~= text@.skip(n + 1));
        Some((a, b))
    } else {
        None
    }
}

/// A text that starts with a piece free of `c` and then `c` is cut there.
pub proof fn lemma_cut_joined(before: Text, c: char, after: Text)
    requires
        !before.contains(c),
    ensures
        cut(before.push(c) + after, c) == Some((before, after)),
{
    let text = before.push(c) + after;
    assert forall|i: int| 0 <= i < before.len() implies text[i] != c by {
        assert(text[i] == before[i]);
        assert(before.contains(before[i]));
    }
    lemma_find(text, c, before.len() as int);
    assert(text.take(before.len() as int) =~= before);
    assert(text.skip(before.len() as int + 1) =~= after);
}

/// How often `c` stands in `text`.
pub open spec fn count_of(text: Text, c: char) -> nat
    decreases text.len(),
{
    if text.len() == 0 {
        0
    } else {
        count_of(text.skip(1), c) + if text[0] == c {
            1nat
        } else {
            0nat
        }
    }
}

pub proof fn lemma_cut_parts(text: Text, c: char)
    ensures
        cut(text, c) is None <==> count_of(text, c) == 0,
        cut(text, c) matches Some((before, after)) ==> {
            &&& !before.contains(c)
            &&& before.push(c) + after == text
            &&& count_of(text, c) == count_of(after, c) + 1
        },
    decreases text.len(),
{
    lemma_find_parts(text, c);
    if text.len() > 0 {
        if text[0] == c {
            assert(text.take(0).push(c) + text.skip(1) =~= text);
        } else {
            lemma_cut_parts(text.skip(1), c);
            let n = find(text, c);
            if n < text.len() {
                assert(text.take(n).push(c) + text.skip(n + 1) =~= text);
                assert(text.skip(1).skip(n) =~= text.skip(n + 1));
            }
        }
    }
}

/// The texts joined with `separator` between them.
pub open spec fn joined(items: Seq<Text>, separator: Text) -> Text
    decreases items.len(),
{
    if items.len() == 0 {
        Seq::empty()
    } else if items.len() == 1 {
        items[0]
    } else {
        joined(items.drop_last(), separator) + separator + items.last()
    }
}

/// The texts joined with `separator` between them.
pub fn join(items: &Vec<String>, separator: &str) -> (r: String)
    ensures
        r@ == joined(items.deep_view(), separator@),
{
    let ghost model = items.deep_view();
    let mut r: String = String::new();
    let mut i: usize = 0;
    assert(model.take(0) =~= Seq::<Text>::empty());
    while i < items.len()
        invariant
            i <= items@.len(),
            model == items.deep_view(),
            r@ == joined(model.take(i as int), separator@),
        decreases items@.len() - i,
    {
        proof {
            assert(model.take(i + 1).drop_last() =~= model.take(i as int));
            assert(model.take(i + 1).last() == items@[i as int]@);
        }
        if i > 0 {
            r.append(separator);
        }
        r.append(items[i].as_str());
        assert(i == 0 ==> r@ =~= items@[0]@);
        i = i + 1;
    }
    assert(model.take(i as int) =~= model);
    r
}

/// The decimal digit of a number below ten.
pub open spec fn digit(d: nat) -> char {
    (48 + d) as char
}

/// `n` in decimal notation.
pub open spec fn decimal(n: nat) -> Text
    decreases n,
{
    if n < 10 {
        seq![digit(n)]
    } else {
        decimal(n / 10).push(digit(n % 10))
    }
}

/// The number that a sequence of decimal digits denotes.
pub open spec fn decimal_value(text: Text) -> int
    decreases text.len(),
{
    if text.len() == 0 {
        0
    } else {
        decimal_value(text.drop_last()) * 10 + (text.last() as int - 48)
    }
}

/// Decimal notation denotes the number it was made from.
pub proof fn law_decimal_denotes(n: nat)
    ensures
        decimal_value(decimal(n)) == n,
    decreases n,
{
    reveal_with_fuel(decimal_value, 2);
    if n < 10 {
        assert(decimal(n).drop_last() =~= Seq::<char>::empty());
    } else {
        law_decimal_denotes(n / 10);
        assert(decimal(n).drop_last() =~= decimal(n / 10));
    }
}

/// `n` in decimal notation.
pub fn number(n: usize) -> (r: String)
    ensures
        r@ == decimal(n as nat),
    decreases n,
{
    let last: u8 = (n % 10) as u8;
    let c: char = (48u8 + last) as char;
    if n < 10 {
        let mut r: String = String::new();
        r.push(c);
        assert(r@ =~= seq![digit(n as nat)]);
        r
    } else {
        let mut r: String = number(n / 10);
        r.push(c);
        r
    }
}

/// `text` with spaces before it, up to `width` characters.
pub open spec fn padded(text: Text, width: nat) -> Text {
    if text.len() < width {
        repeated(' ', (width - text.len()) as nat) + text
    } else {
        text
    }
}

/// `text` with spaces before it, up to `width` characters.
pub fn pad(text: &str, width: usize) -> (r: String)
    ensures
        r@ == padded(text@, width as nat),
{
    let have: usize = chars_of(text).len();
    if have < width {
        repeat(' ', width - have).concat(text)
    } else {
        text.to_string()
    }
}

/// Whether the first `n` bytes of the UTF-8 form of `text` end at a character's end.
pub open spec fn splits_at(text: Text, n: int) -> bool {
    is_char_boundary(encode_utf8(text), n)
}

/// The text that the first `n` bytes of the UTF-8 form of `text` hold.
pub open spec fn first_bytes(text: Text, n: int) -> Text {
    decode_utf8(encode_utf8(text).subrange(0, n))
}

/// Whether the first `n` bytes of `text` end at a character's end.
pub fn can_split(text: &str, n: usize) -> (r: bool)
    ensures
        r == splits_at(text@, n as int),
{
    text.is_char_boundary(n)
}

/// The text that the first `n` bytes of `text` hold.
pub fn head(text: &str, n: usize) -> (r: String)
    requires
        splits_at(text@, n as int),
    ensures
        r@ == first_bytes(text@, n as int),
{
    let (a, _b) = text.split_at(n);
    proof {
        encode_utf8_decode_utf8(a@);
    }
    a.to_owned()
}

/// Of ASCII text the first `n` bytes are the first `n` characters.
pub proof fn law_first_bytes_of_ascii(text: Text, n: int)
    requires
        is_ascii_chars(text),
        0 <= n <= text.len(),
    ensures
        splits_at(text, n),
        first_bytes(text, n) == text.take(n),
{
    let bytes = encode_utf8(text);
    let start = text.take(n);
    is_ascii_chars_encode_utf8(text);
    encode_utf8_valid_utf8(text);
    assert(is_ascii_chars(start));
    is_ascii_chars_encode_utf8(start);
    assert(encode_utf8(start) =~= bytes.subrange(0, n));
    encode_utf8_decode_utf8(start);
    lemma_ascii_boundary(text, n);
}

proof fn lemma_ascii_boundary(text: Text, n: int)
    requires
        is_ascii_chars(text),
        0 <= n <= text.len(),
    ensures
        splits_at(text, n),
    decreases text.len(),
{
    encode_utf8_valid_utf8(text);
    is_ascii_chars_encode_utf8(text);
    if n > 0 {
        encode_utf8_first_scalar(text);
        let rest = text.drop_first();
        assert(is_ascii_chars(rest));
        is_ascii_chars_encode_utf8(rest);
        assert(pop_first_scalar(encode_utf8(text)) =~= encode_utf8(rest));
        lemma_ascii_boundary(rest, n - 1);
    }
}

/// `c`, `n` times.
pub open spec fn repeated(c: char, n: nat) -> Text {
    Seq::new(n, |i: int| c)
}

/// `c`, `n` times.
pub fn repeat(c: char, n: usize) -> (r: String)
    ensures
        r@ == repeated(c, n as nat),
{
    let mut r: String = String::new();
    let mut i: usize = 0;
    assert(r@ =~= repeated(c, 0));
    while i < n
        invariant
            i <= n,
            r@ == repeated(c, i as nat),
        decreases n - i,
    {
        r.push(c);
        i = i + 1;
        assert(r@ =~= repeated(c, i as nat));
    }
    r
}

/// White space is what Unicode lists under that name, by code points.
pub proof fn law_white_space_by_code_point(c: char)
    ensures
        is_white(c) <==> {
            let n = c as u32;
            ||| 9 <= n <= 13
            ||| n == 32
            ||| n == 0x85
            ||| n == 0xa0
            ||| n == 0x1680
            ||| 0x2000 <= n <= 0x200a
            ||| n == 0x2028
            ||| n == 0x2029
            ||| n == 0x202f
            ||| n == 0x205f
            ||| n == 0x3000
        },
{
}

/// Of a text with white space around it, trimming leaves what stands between.
pub proof fn law_trimmed_is_what_stands_between(before: Text, inner: Text, after: Text)
    requires
        forall|i: int| 0 <= i < before.len() ==> is_white(#[trigger] before[i]),
        forall|i: int| 0 <= i < after.len() ==> is_white(#[trigger] after[i]),
        inner.len() > 0 ==> !is_white(inner[0]) && !is_white(inner[inner.len() - 1]),
    ensures
        trimmed(before + inner + after) == inner,
{
    let text = before + inner + after;
    let n: int = if inner.len() > 0 {
        before.len() as int
    } else {
        text.len() as int
    };
    assert forall|i: int| 0 <= i < n implies is_white(#[trigger] text.take(n)[i]) by {
        if i < before.len() {
            assert(text[i] == before[i]);
        } else {
            assert(text[i] == after[i - before.len()]);
        }
    }
    lemma_trim_start(text, n);
    let rest = text.skip(n);
    let m = inner.len() as int;
    assert forall|i: int| 0 <= i < rest.skip(m).len() implies is_white(
        #[trigger] rest.skip(m)[i],
    ) by {
        assert(rest.skip(m)[i] == after[i]);
    }
    assert(m > 0 ==> rest[m - 1] == inner[m - 1]);
    lemma_trim_end(rest, m);
    assert(rest.take(m) =~= inner);
}

/// A text holds another exactly if it is that one with something, or nothing,
/// before and after it.
pub proof fn law_holding_is_standing_between(text: Text, needle: Text)
    ensures
        holds(text, needle) <==> exists|a: Text, b: Text| text == #[trigger] (a + needle + b),
{
    if holds(text, needle) {
        let i = choose|i: int|
            0 <= i <= text.len() - needle.len() && #[trigger] text.subrange(i, i + needle.len())
                == needle;
        let a = text.take(i);
        let b = text.skip(i + needle.len());
        assert(text =~= a + needle + b) by {
            assert forall|k: int| 0 <= k < text.len() implies text[k] == (a + needle + b)[k] by {
                if i <= k < i + needle.len() {
                    assert(text.subrange(i, i + needle.len())[k - i] == text[k]);
                }
            }
        }
    }
    if exists|a: Text, b: Text| text == #[trigger] (a + needle + b) {
        let (a, b) = choose|a: Text, b: Text| text == #[trigger] (a + needle + b);
        let i = a.len() as int;
        assert(text.subrange(i, i + needle.len()) =~= needle);
    }
}

/// Stripping takes away one prefix after the other, and stops where none stands.
pub proof fn law_stripping_goes_prefix_by_prefix(text: Text, prefix: Text)
    requires
        prefix.len() > 0,
    ensures
        strip_all(prefix + text, prefix) == strip_all(text, prefix),
        !prefix.is_prefix_of(text) ==> strip_all(text, prefix) == text,
        !prefix.is_prefix_of(strip_all(text, prefix)),
    decreases text.len(),
{
    assert(prefix.is_prefix_of(prefix + text));
    assert((prefix + text).skip(prefix.len() as int) =~= text);
    if prefix.is_prefix_of(text) {
        law_stripping_goes_prefix_by_prefix(text.skip(prefix.len() as int), prefix);
    }
}

/// Stripping nothing changes nothing.
pub proof fn law_stripping_nothing_changes_nothing(text: Text)
    ensures
        strip_all(text, Seq::empty()) == text,
{
}

/// Joining puts the separator between the items, and nowhere else.
pub proof fn law_joined_puts_the_separator_between(a: Seq<Text>, b: Seq<Text>, separator: Text)
    ensures
        joined(Seq::empty(), separator) == Seq::<char>::empty(),
        a.len() == 1 ==> joined(a, separator) == a[0],
        a.len() > 0 && b.len() > 0 ==> joined(a + b, separator) == joined(a, separator) + separator
            + joined(b, separator),
    decreases b.len(),
{
    if a.len() > 0 && b.len() > 0 {
        assert((a + b).drop_last() =~= a + b.drop_last());
        if b.len() == 1 {
            assert(a + b.drop_last() =~= a);
        } else {
            law_joined_puts_the_separator_between(a, b.drop_last(), separator);
            assert(joined(a + b, separator) =~= joined(a, separator) + separator + joined(
                b,
                separator,
            ));
        }
    }
}

/// A line up to a line feed is the first line of a text, without a carriage return
/// at its end; the lines of what follows are the others. A text without a line
/// feed is one line.
pub proof fn law_lines_end_at_line_feeds(line: Text, rest: Text)
    requires
        !line.contains('\n'),
    ensures
        lines(line.push('\n') + rest) == seq![
            if line.len() > 0 && line[line.len() - 1] == '\r' {
                line.take(line.len() - 1)
            } else {
                line
            },
        ] + lines(rest),
        line.len() > 0 ==> lines(line) == seq![line],
        lines(Seq::empty()) == Seq::<Text>::empty(),
{
    let text = line.push('\n') + rest;
    lemma_cut_joined(line, '\n', rest);
    assert forall|i: int| 0 <= i < line.len() implies text[i] != '\n' && line[i] != '\n' by {
        assert(text[i] == line[i]);
        assert(line.contains(line[i]));
    }
    lemma_find(text, '\n', line.len() as int);
    lemma_find(line, '\n', line.len() as int);
    assert(text.take(line.len() as int) =~= line);
    assert(text.skip(line.len() as int + 1) =~= rest);
    assert(line.drop_last() =~= line.take(line.len() - 1));
}

/// The text without a line feed at its end.
pub open spec fn without_last_feed(text: Text) -> Text {
    if text.len() > 0 && text[text.len() - 1] == '\n' {
        text.take(text.len() - 1)
    } else {
        text
    }
}

/// The text without its carriage returns.
pub open spec fn without_returns(text: Text) -> Text {
    text.filter(|c: char| c != '\r')
}

proof fn lemma_without_returns(a: Text, b: Text)
    ensures
        without_returns(a + b) == without_returns(a) + without_returns(b),
        without_returns(without_return(a)) == without_returns(a),
        without_returns(seq!['\n']) == seq!['\n'],
{
    let f = |c: char| c != '\r';
    Seq::filter_distributes_over_add(a, b, f);
    reveal(Seq::filter);
    if a.len() > 0 && a.last() == '\r' {
        assert(a.filter(f) == a.drop_last().filter(f));
    }
    assert(seq!['\n'].drop_last() =~= Seq::<char>::empty());
    assert(seq!['\n'].filter(f) =~= seq!['\n']);
}

proof fn lemma_no_returns(text: Text)
    requires
        !text.contains('\r'),
    ensures
        without_returns(text) == text,
    decreases text.len(),
{
    reveal(Seq::filter);
    if text.len() > 0 {
        assert(text.contains(text.last()));
        assert forall|i: int| 0 <= i < text.len() - 1 implies text.drop_last()[i] != '\r' by {
            assert(text.contains(text[i]));
        }
        lemma_no_returns(text.drop_last());
        assert(text.drop_last().push(text.last()) =~= text);
    }
}

/// The lines of a text, put together again with line feeds, are the text, up to
/// carriage returns and a line feed at its end; and exactly the text, up to that
/// line feed, where it has no carriage returns.
pub proof fn law_lines_put_together_are_the_text(text: Text)
    ensures
        without_returns(joined(lines(text), seq!['\n'])) == without_returns(
            without_last_feed(text),
        ),
        !text.contains('\r') ==> joined(lines(text), seq!['\n']) == without_last_feed(text),
    decreases text.len(),
{
    let feed = seq!['\n'];
    lemma_find_parts(text, '\n');
    let n = find(text, '\n');
    if text.len() == 0 {
        assert(without_last_feed(text) =~= joined(lines(text), feed));
    } else if n == text.len() {
        assert(joined(lines(text), feed) == text);
    } else {
        let line = text.take(n);
        let rest = text.skip(n + 1);
        let short = without_return(line);
        assert(lines(text) == seq![short] + lines(rest));
        law_lines_put_together_are_the_text(rest);
        lemma_without_returns(line, feed);
        if rest.len() == 0 {
            assert(lines(text) =~= seq![short]);
            assert(without_last_feed(text) =~= line);
        } else {
            law_joined_puts_the_separator_between(seq![short], lines(rest), feed);
            let tail = joined(lines(rest), feed);
            assert(lines(rest).len() > 0);
            assert(joined(lines(text), feed) == short + feed + tail);
            lemma_without_returns(short + feed, tail);
            lemma_without_returns(short, feed);
            lemma_without_returns(line + feed, without_last_feed(rest));
            assert(without_last_feed(text) =~= line + feed + without_last_feed(rest));
        }
        if !text.contains('\r') {
            assert forall|i: int| 0 <= i < rest.len() implies rest[i] != '\r' by {
                assert(text.contains(text[n + 1 + i]));
            }
            if line.len() > 0 {
                assert(text.contains(text[n - 1]));
            }
            assert(!rest.contains('\r'));
            assert(short == line);
            if rest.len() > 0 {
                assert(joined(lines(text), feed) =~= without_last_feed(text));
            }
        }
    }
}

proof fn lemma_tidy_parts(a: Seq<Text>, b: Seq<Text>)
    ensures
        tidy(a + b) == tidy(a) + tidy(b),
    decreases b.len(),
{
    if b.len() == 0 {
        assert(a + b =~= a);
        assert(tidy(a) + tidy(b) =~= tidy(a));
    } else {
        assert((a + b).drop_last() =~= a + b.drop_last());
        lemma_tidy_parts(a, b.drop_last());
        assert(tidy(a + b) =~= tidy(a) + tidy(b));
    }
}

proof fn lemma_tidy_one(line: Text)
    ensures
        tidy(seq![line]) == if trimmed(line).len() > 0 {
            seq![trimmed(line)]
        } else {
            Seq::empty()
        },
{
    reveal_with_fuel(tidy, 2);
    assert(seq![line].drop_last() =~= Seq::<Text>::empty());
    assert(tidy(seq![line]) =~= if trimmed(line).len() > 0 {
        seq![trimmed(line)]
    } else {
        Seq::empty()
    });
}

proof fn lemma_trimmed_return(line: Text)
    ensures
        trimmed(without_return(line)) == trimmed(line),
{
    if line.len() > 0 && line.last() == '\r' {
        let short = line.drop_last();
        law_trimmed_removes_only_outer_white_space(short);
        let (before, after) = choose|before: Text, after: Text|
            all_white(before) && all_white(after) && short == #[trigger] (before + trimmed(short)
                + after);
        law_trimmed_is_what_stands_between(before, trimmed(short), after.push('\r'));
        assert(line =~= short.push('\r'));
        assert((before + trimmed(short) + after).push('\r') =~= before + trimmed(short) + after.push(
            '\r',
        ));
    }
}

/// The entries of two texts with a line feed between them are those of the first
/// and then those of the second. A text without a line feed has itself, trimmed,
/// as its only entry, unless it is all white space.
pub proof fn law_entries_are_the_trimmed_lines(a: Text, b: Text)
    ensures
        entries(a.push('\n') + b) == entries(a) + entries(b),
        !a.contains('\n') ==> entries(a) == if exists|i: int|
            0 <= i < a.len() && !is_white(#[trigger] a[i]) {
            seq![trimmed(a)]
        } else {
            Seq::empty()
        },
    decreases a.len(),
{
    lemma_find_parts(a, '\n');
    let n = find(a, '\n');
    if n == a.len() {
        assert(!a.contains('\n'));
        law_lines_end_at_line_feeds(a, b);
        assert(lines(a.push('\n') + b) == seq![without_return(a)] + lines(b));
        lemma_tidy_parts(seq![without_return(a)], lines(b));
        lemma_tidy_one(without_return(a));
        lemma_tidy_one(a);
        lemma_trimmed_return(a);
        lemma_trimmed_empty(a);
        if a.len() == 0 {
            assert(entries(a) =~= tidy(seq![a]));
        }
    } else {
        let line = a.take(n);
        let rest = a.skip(n + 1);
        let whole = a.push('\n') + b;
        assert(a.contains(a[n]));
        assert forall|i: int| 0 <= i < line.len() implies line[i] != '\n' by {
            assert(line[i] == a[i]);
        }
        assert(!line.contains('\n'));
        assert(line.push('\n') + rest =~= a);
        assert(line.push('\n') + (rest.push('\n') + b) =~= whole);
        law_lines_end_at_line_feeds(line, rest);
        law_lines_end_at_line_feeds(line, rest.push('\n') + b);
        law_entries_are_the_trimmed_lines(rest, b);
        let first = seq![without_return(line)];
        assert(lines(a) == first + lines(rest));
        assert(lines(whole) == first + lines(rest.push('\n') + b));
        lemma_tidy_parts(first, lines(rest));
        lemma_tidy_parts(first, lines(rest.push('\n') + b));
        assert(entries(whole) =~= entries(a) + entries(b));
    }
}

proof fn lemma_trimmed_empty(text: Text)
    ensures
        trimmed(text).len() > 0 <==> exists|i: int|
            0 <= i < text.len() && !is_white(#[trigger] text[i]),
{
    law_trimmed_removes_only_outer_white_space(text);
    let (before, after) = choose|before: Text, after: Text|
        all_white(before) && all_white(after) && text == #[trigger] (before + trimmed(text)
            + after);
    let t = trimmed(text);
    if t.len() > 0 {
        assert(text[before.len() as int] == t[0]);
    } else {
        assert forall|i: int| 0 <= i < text.len() implies is_white(#[trigger] text[i]) by {
            if i < before.len() {
                assert(text[i] == before[i]);
            } else {
                assert(text[i] == after[i - before.len()]);
            }
        }
    }
}

/// Nothing is left of a text by trimming exactly if it is all white space.
pub proof fn law_trimmed_is_empty_for_white_space_only(text: Text)
    ensures
        trimmed(text).len() == 0 <==> forall|i: int|
            0 <= i < text.len() ==> is_white(#[trigger] text[i]),
{
    lemma_trimmed_empty(text);
}

/// A number below ten is written as its digit; a digit put behind a number that is
/// not zero makes ten times that number and the digit.
pub proof fn law_decimal_is_written_in_digits(n: nat, d: nat)
    requires
        d < 10,
    ensures
        decimal(d) == seq!["0123456789"@[d as int]],
        n > 0 ==> decimal(10 * n + d) == decimal(n).push("0123456789"@[d as int]),
{
    reveal_strlit("0123456789");
    assert(digit(d) == "0123456789"@[d as int]);
    if n > 0 {
        assert((10 * n + d) / 10 == n);
        assert((10 * n + d) % 10 == d);
    }
}

/// Padding puts spaces before the text, as many as are missing, and nothing else.
pub proof fn law_padding_is_spaces_in_front(text: Text, width: nat, i: int)
    ensures
        padded(text, width).len() == if text.len() < width {
            width
        } else {
            text.len()
        },
        0 <= i < padded(text, width).len() ==> padded(text, width)[i] == if i < padded(
            text,
            width,
        ).len() - text.len() {
            ' '
        } else {
            text[i - (padded(text, width).len() - text.len())]
        },
{
}

/// Repeating gives as many characters as asked for, all of them the same.
pub proof fn law_repeated_is_all_the_same(c: char, n: nat, i: int)
    ensures
        repeated(c, n).len() == n,
        0 <= i < n ==> repeated(c, n)[i] == c,
{
}

/// The first bytes of a text are bytes of it: their text is encoded by them.
pub proof fn law_first_bytes_are_bytes_of_the_text(text: Text, n: int)
    requires
        0 <= n <= encode_utf8(text).len(),
        splits_at(text, n),
    ensures
        encode_utf8(first_bytes(text, n)) == encode_utf8(text).subrange(0, n),
{
    encode_utf8_valid_utf8(text);
    valid_utf8_split(encode_utf8(text), n);
    decode_utf8_encode_utf8(encode_utf8(text).subrange(0, n));
}

/// A character occurs as often in two texts together as in each.
pub proof fn law_counting_adds_up(a: Text, b: Text, c: char)
    ensures
        count_of(a + b, c) == count_of(a, c) + count_of(b, c),
        count_of(Seq::empty(), c) == 0,
        count_of(seq![c], c) == 1,
        a.len() == 1 && a[0] != c ==> count_of(a, c) == 0,
    decreases a.len(),
{
    reveal_with_fuel(count_of, 2);
    if a.len() == 0 {
        assert(a + b =~= b);
    } else {
        law_counting_adds_up(a.skip(1), b, c);
        assert((a + b).skip(1) =~= a.skip(1) + b);
    }
}

} // verus!
