//! Coloured text for the terminal.
//!
//! A message is made of spans, each with a tone. Whether tones show depends on
//! the terminal, which is asked once when a line is painted. Where they do, a tone
//! is written in the escape sequences that the crate `colored` writes.

use vstd::prelude::*;
use crate::text::{chars_of, holds, stands_at, Text};

verus! {

/// How a span of text looks.
#[derive(Clone, Copy, Debug, PartialEq, Eq, Structural)]
pub enum Tone {
    Plain,
    Green,
    BrightGreen,
    BoldBrightGreen,
    Yellow,
    Blue,
    Cyan,
    Red,
    White,
    Bold,
    Dimmed,
}

/// The escape sequence that ends a tone.
pub open spec fn reset() -> Text {
    "\x1b[0m"@
}

/// The escape sequence that starts the tone with the given parameters.
pub open spec fn start(parameters: Text) -> Text {
    "\x1b["@ + parameters + "m"@
}

/// `text` with `code` after each end of a tone in it, so that the outer tone
/// goes on after an inner one.
pub open spec fn resumed(text: Text, code: Text) -> Text
    decreases text.len(),
{
    if text.len() == 0 {
        Seq::empty()
    } else if reset().len() > 0 && reset().is_prefix_of(text) {
        reset() + code + resumed(text.skip(reset().len() as int), code)
    } else {
        seq![text[0]] + resumed(text.skip(1), code)
    }
}

/// Whether tones show, as `ShouldColorize::should_colorize` of the crate `colored`
/// decides from the terminal and the environment. Nothing is said of the answer.
#[verifier::external_body]
fn tones_show() -> (r: bool) {
    colored::control::SHOULD_COLORIZE.should_colorize()
}

/// The parameters of a tone's escape sequence.
pub open spec fn parameters(tone: Tone) -> Text {
    match tone {
        Tone::Plain => Seq::empty(),
        Tone::Green => "32"@,
        Tone::BrightGreen => "92"@,
        Tone::BoldBrightGreen => "1;92"@,
        Tone::Yellow => "33"@,
        Tone::Blue => "34"@,
        Tone::Cyan => "36"@,
        Tone::Red => "31"@,
        Tone::White => "37"@,
        Tone::Bold => "1"@,
        Tone::Dimmed => "2"@,
    }
}

/// The parameters of a tone's escape sequence.
fn parameters_of(tone: Tone) -> (r: &'static str)
    ensures
        r@ == parameters(tone),
{
    match tone {
        Tone::Plain => {
            proof {
                reveal_strlit("");
                assert(""@ =~= Seq::<char>::empty());
            }
            ""
        },
        Tone::Green => "32",
        Tone::BrightGreen => "92",
        Tone::BoldBrightGreen => "1;92",
        Tone::Yellow => "33",
        Tone::Blue => "34",
        Tone::Cyan => "36",
        Tone::Red => "31",
        Tone::White => "37",
        Tone::Bold => "1",
        Tone::Dimmed => "2",
    }
}

/// A piece of text and how it looks.
#[derive(Debug, PartialEq, Eq)]
pub struct Span {
    pub tone: Tone,
    pub text: String,
}

/// The model of a [`Span`].
pub struct SpanModel {
    pub tone: Tone,
    pub text: Text,
}

impl DeepView for Span {
    type V = SpanModel;

    open spec fn deep_view(&self) -> SpanModel {
        SpanModel { tone: self.tone, text: self.text@ }
    }
}

/// The text of `span` as it is shown, where tones show or do not.
pub open spec fn shown_text(shown: bool, span: SpanModel) -> Text {
    if shown && span.tone != Tone::Plain {
        let code = start(parameters(span.tone));
        code + resumed(span.text, code) + reset()
    } else {
        span.text
    }
}

/// The spans one after the other, as they are shown.
pub open spec fn shown_line(shown: bool, spans: Seq<SpanModel>) -> Text
    decreases spans.len(),
{
    if spans.len() == 0 {
        Seq::empty()
    } else {
        shown_line(shown, spans.drop_last()) + shown_text(shown, spans.last())
    }
}

/// `text` with `code` after each end of a tone in it.
fn resume(text: &str, code: &str) -> (r: String)
    ensures
        r@ == resumed(text@, code@),
{
    let chars: Vec<char> = chars_of(text);
    let end: Vec<char> = chars_of("\x1b[0m");
    let total: usize = chars.len();
    let mut r: String = String::new();
    let mut i: usize = 0;
    proof {
        reveal_strlit("\x1b[0m");
        assert(chars@.skip(0) =~= chars@);
        assert(r@ + resumed(chars@, code@) =~= resumed(chars@, code@));
    }
    while i < total
        invariant
            i <= total,
            total == chars@.len(),
            end@ == reset(),
            end@.len() == 4,
            resumed(chars@, code@) == r@ + resumed(chars@.skip(i as int), code@),
        decreases total - i,
    {
        let ghost before = r@;
        let ghost rest = chars@.skip(i as int);
        let found: bool = stands_at(&chars, i, &end);
        proof {
            if i + 4 <= chars@.len() {
                assert(rest.subrange(0, 4) =~= chars@.subrange(i as int, i + 4));
            }
        }
        if found {
            r.append("\x1b[0m");
            r.append(code);
            proof {
                assert(rest.skip(4) =~= chars@.skip(i + 4));
                let tail = resumed(chars@.skip(i + 4), code@);
                assert(before + (reset() + code@ + tail) =~= before + reset() + code@ + tail);
            }
            i = i + 4;
        } else {
            r.push(chars[i]);
            proof {
                assert(rest.skip(1) =~= chars@.skip(i + 1));
                let tail = resumed(chars@.skip(i + 1), code@);
                assert(before + (seq![rest[0]] + tail) =~= before.push(rest[0]) + tail);
            }
            i = i + 1;
        }
    }
    proof {
        assert(chars@.skip(i as int) =~= Seq::<char>::empty());
        assert(r@ + Seq::<char>::empty() =~= r@);
    }
    r
}

/// The text of `span` as it is shown, where tones show or do not.
pub fn paint_when(shown: bool, span: &Span) -> (r: String)
    ensures
        r@ == shown_text(shown, span.deep_view()),
{
    if shown && span.tone != Tone::Plain {
        let code: String = "\x1b[".to_string().concat(parameters_of(span.tone)).concat("m");
        let inner: String = resume(span.text.as_str(), code.as_str());
        code.concat(inner.as_str()).concat("\x1b[0m")
    } else {
        span.text.clone()
    }
}

/// The spans one after the other, as they are shown.
pub fn paint_all_when(shown: bool, spans: &Vec<Span>) -> (r: String)
    ensures
        r@ == shown_line(shown, spans.deep_view()),
{
    let ghost model = spans.deep_view();
    let mut r: String = String::new();
    let mut i: usize = 0;
    assert(model.take(0) =~= Seq::<SpanModel>::empty());
    while i < spans.len()
        invariant
            i <= spans@.len(),
            model == spans.deep_view(),
            r@ == shown_line(shown, model.take(i as int)),
        decreases spans@.len() - i,
    {
        proof {
            assert(model.take(i + 1).drop_last() =~= model.take(i as int));
            assert(model.take(i + 1).last() == spans@[i as int].deep_view());
        }
        r.append(paint_when(shown, &spans[i]).as_str());
        i = i + 1;
    }
    assert(model.take(i as int) =~= model);
    r
}

/// The text of `span`, in its tone if the terminal shows tones.
pub fn paint(span: &Span) -> (r: String)
    ensures
        r@ == shown_text(true, span.deep_view()) || r@ == shown_text(false, span.deep_view()),
{
    paint_when(tones_show(), span)
}

/// The spans one after the other, all of them in their tones or none, as the
/// terminal shows tones or not.
pub fn paint_all(spans: &Vec<Span>) -> (r: String)
    ensures
        r@ == shown_line(true, spans.deep_view()) || r@ == shown_line(false, spans.deep_view()),
{
    paint_all_when(tones_show(), spans)
}

/// Text that holds no end of a tone is shown in one piece, with nothing before
/// and after it but the start and the end of its tone.
pub proof fn law_painted_text_stays_whole(span: SpanModel)
    requires
        span.tone != Tone::Plain,
        !holds(span.text, reset()),
    ensures
        shown_text(true, span) == start(parameters(span.tone)) + span.text + reset(),
        shown_text(false, span) == span.text,
{
    lemma_resumed_plain(span.text, start(parameters(span.tone)));
}

proof fn lemma_resumed_plain(text: Text, code: Text)
    requires
        !holds(text, reset()),
    ensures
        resumed(text, code) == text,
    decreases text.len(),
{
    reveal_strlit("\x1b[0m");
    let n = reset().len() as int;
    if text.len() > 0 {
        if reset().is_prefix_of(text) {
            assert(text.subrange(0, 0 + n) =~= reset());
        }
        let rest = text.skip(1);
        assert forall|i: int| 0 <= i <= rest.len() - n implies #[trigger] rest.subrange(i, i + n)
            != reset() by {
            assert(rest.subrange(i, i + n) =~= text.subrange(i + 1, i + 1 + n));
        }
        lemma_resumed_plain(rest, code);
        assert(seq![text[0]] + rest =~= text);
    }
}

proof fn lemma_start_sequences()
    ensures
        start("32"@) == "\x1b[32m"@,
        start("92"@) == "\x1b[92m"@,
        start("1;92"@) == "\x1b[1;92m"@,
        start("33"@) == "\x1b[33m"@,
        start("34"@) == "\x1b[34m"@,
        start("36"@) == "\x1b[36m"@,
        start("31"@) == "\x1b[31m"@,
        start("37"@) == "\x1b[37m"@,
        start("1"@) == "\x1b[1m"@,
        start("2"@) == "\x1b[2m"@,
{
    reveal_strlit("\x1b[");
    reveal_strlit("m");
    reveal_strlit("32");
    reveal_strlit("\x1b[32m");
    assert("\x1b["@ + "32"@ + "m"@ =~= "\x1b[32m"@);
    reveal_strlit("92");
    reveal_strlit("\x1b[92m");
    assert("\x1b["@ + "92"@ + "m"@ =~= "\x1b[92m"@);
    reveal_strlit("1;92");
    reveal_strlit("\x1b[1;92m");
    assert("\x1b["@ + "1;92"@ + "m"@ =~= "\x1b[1;92m"@);
    reveal_strlit("33");
    reveal_strlit("\x1b[33m");
    assert("\x1b["@ + "33"@ + "m"@ =~= "\x1b[33m"@);
    reveal_strlit("34");
    reveal_strlit("\x1b[34m");
    assert("\x1b["@ + "34"@ + "m"@ =~= "\x1b[34m"@);
    reveal_strlit("36");
    reveal_strlit("\x1b[36m");
    assert("\x1b["@ + "36"@ + "m"@ =~= "\x1b[36m"@);
    reveal_strlit("31");
    reveal_strlit("\x1b[31m");
    assert("\x1b["@ + "31"@ + "m"@ =~= "\x1b[31m"@);
    reveal_strlit("37");
    reveal_strlit("\x1b[37m");
    assert("\x1b["@ + "37"@ + "m"@ =~= "\x1b[37m"@);
    reveal_strlit("1");
    reveal_strlit("\x1b[1m");
    assert("\x1b["@ + "1"@ + "m"@ =~= "\x1b[1m"@);
    reveal_strlit("2");
    reveal_strlit("\x1b[2m");
    assert("\x1b["@ + "2"@ + "m"@ =~= "\x1b[2m"@);
}

/// Text without escape sequences is shown between the escape sequence of its tone
/// and the one that ends tones; plain text, and all text where tones do not show, is
/// shown as it is.
pub proof fn law_tones_by_their_escape_sequences(text: Text)
    requires
        !text.contains('\x1b'),
    ensures
        shown_text(true, (SpanModel { tone: Tone::Plain, text })) == text,
        shown_text(true, (SpanModel { tone: Tone::Green, text })) == "\x1b[32m"@ + text + "\x1b[0m"@,
        shown_text(true, (SpanModel { tone: Tone::BrightGreen, text })) == "\x1b[92m"@ + text + "\x1b[0m"@,
        shown_text(true, (SpanModel { tone: Tone::BoldBrightGreen, text })) == "\x1b[1;92m"@ + text + "\x1b[0m"@,
        shown_text(true, (SpanModel { tone: Tone::Yellow, text })) == "\x1b[33m"@ + text + "\x1b[0m"@,
        shown_text(true, (SpanModel { tone: Tone::Blue, text })) == "\x1b[34m"@ + text + "\x1b[0m"@,
        shown_text(true, (SpanModel { tone: Tone::Cyan, text })) == "\x1b[36m"@ + text + "\x1b[0m"@,
        shown_text(true, (SpanModel { tone: Tone::Red, text })) == "\x1b[31m"@ + text + "\x1b[0m"@,
        shown_text(true, (SpanModel { tone: Tone::White, text })) == "\x1b[37m"@ + text + "\x1b[0m"@,
        shown_text(true, (SpanModel { tone: Tone::Bold, text })) == "\x1b[1m"@ + text + "\x1b[0m"@,
        shown_text(true, (SpanModel { tone: Tone::Dimmed, text })) == "\x1b[2m"@ + text + "\x1b[0m"@,
        forall|tone: Tone|
            #[trigger] shown_text(false, (SpanModel { tone, text })) == text,
{
    reveal_strlit("\x1b[0m");
    assert(!holds(text, reset())) by {
        if holds(text, reset()) {
            let i = choose|i: int|
                0 <= i <= text.len() - reset().len() && #[trigger] text.subrange(
                    i,
                    i + reset().len(),
                ) == reset();
            assert(text.subrange(i, i + reset().len())[0] == '\x1b');
            assert(text.contains(text[i]));
        }
    }
    lemma_start_sequences();
    lemma_resumed_plain(text, "\x1b[32m"@);
    lemma_resumed_plain(text, "\x1b[92m"@);
    lemma_resumed_plain(text, "\x1b[1;92m"@);
    lemma_resumed_plain(text, "\x1b[33m"@);
    lemma_resumed_plain(text, "\x1b[34m"@);
    lemma_resumed_plain(text, "\x1b[36m"@);
    lemma_resumed_plain(text, "\x1b[31m"@);
    lemma_resumed_plain(text, "\x1b[37m"@);
    lemma_resumed_plain(text, "\x1b[1m"@);
    lemma_resumed_plain(text, "\x1b[2m"@);
}

/// Where a tone first ends within a text that has a tone of its own, that tone
/// starts again there, and the rest is shown like a text of its own.
pub proof fn law_outer_tones_go_on(before: Text, after: Text, tone: Tone)
    requires
        !holds(before, "\x1b[0m"@),
        tone != Tone::Plain,
    ensures
        shown_text(true, (SpanModel { tone, text: before + "\x1b[0m"@ + after })) == start(
            parameters(tone),
        ) + before + "\x1b[0m"@ + shown_text(true, (SpanModel { tone, text: after })),
{
    let code = start(parameters(tone));
    lemma_resumed_at(before, after, code);
    assert(code + (before + reset() + code + resumed(after, code)) + reset() =~= code + before
        + reset() + (code + resumed(after, code) + reset()));
}

proof fn lemma_resumed_at(before: Text, after: Text, code: Text)
    requires
        !holds(before, reset()),
    ensures
        resumed(before + reset() + after, code) == before + reset() + code + resumed(after, code),
    decreases before.len(),
{
    reveal_strlit("\x1b[0m");
    let text = before + reset() + after;
    if before.len() == 0 {
        assert(reset().is_prefix_of(text));
        assert(text.skip(reset().len() as int) =~= after);
        assert(before + reset() + code + resumed(after, code) =~= reset() + code + resumed(
            after,
            code,
        ));
    } else {
        assert(!reset().is_prefix_of(text)) by {
            if reset().is_prefix_of(text) {
                let first = text.subrange(0, 4);
                assert(first[0] == '\x1b' && first[1] == '[' && first[2] == '0' && first[3] == 'm');
                if before.len() < 4 {
                    assert(text[before.len() as int] == reset()[0]);
                    assert(first[before.len() as int] == '\x1b');
                } else {
                    assert(before.subrange(0, 0int + reset().len()) =~= first);
                }
            }
        }
        let rest = before.skip(1);
        assert(!holds(rest, reset())) by {
            if holds(rest, reset()) {
                let i = choose|i: int|
                    0 <= i <= rest.len() - reset().len() && #[trigger] rest.subrange(
                        i,
                        i + reset().len(),
                    ) == reset();
                assert(before.subrange(i + 1, i + 1 + reset().len()) =~= rest.subrange(
                    i,
                    i + reset().len(),
                ));
            }
        }
        lemma_resumed_at(rest, after, code);
        assert(text.skip(1) =~= rest + reset() + after);
        assert(seq![text[0]] + (rest + reset() + code + resumed(after, code)) =~= before + reset()
            + code + resumed(after, code));
    }
}

/// A line is shown span by span, in order.
pub proof fn law_lines_are_shown_span_by_span(shown: bool, a: Seq<SpanModel>, b: Seq<SpanModel>)
    ensures
        shown_line(shown, Seq::empty()) == Seq::<char>::empty(),
        a.len() == 1 ==> shown_line(shown, a) == shown_text(shown, a[0]),
        shown_line(shown, a + b) == shown_line(shown, a) + shown_line(shown, b),
    decreases b.len(),
{
    reveal_with_fuel(shown_line, 2);
    if a.len() == 1 {
        assert(a.drop_last() =~= Seq::<SpanModel>::empty());
        assert(shown_line(shown, a) =~= shown_text(shown, a[0]));
    }
    if b.len() == 0 {
        assert(a + b =~= a);
        assert(shown_line(shown, a) + shown_line(shown, b) =~= shown_line(shown, a));
    } else {
        assert((a + b).drop_last() =~= a + b.drop_last());
        law_lines_are_shown_span_by_span(shown, a, b.drop_last());
        assert(shown_line(shown, a + b) =~= shown_line(shown, a) + shown_line(shown, b));
    }
}

/// The model of a span holds its tone and its text.
pub proof fn law_models_hold_every_span(span: Span)
    ensures
        span.deep_view().tone == span.tone,
        span.deep_view().text == span.text@,
{
}

/// Plain text, and any text where tones do not show, is shown as it is, whatever it
/// holds; any other text is shown with something before it and behind it.
pub proof fn law_only_tones_that_show_add_anything(shown: bool, span: SpanModel)
    ensures
        !shown || span.tone == Tone::Plain ==> shown_text(shown, span) == span.text,
        shown && span.tone != Tone::Plain ==> "\x1b["@.is_prefix_of(shown_text(shown, span))
            && "\x1b[0m"@.is_suffix_of(shown_text(shown, span)),
{
    if shown && span.tone != Tone::Plain {
        let text = shown_text(shown, span);
        let code = start(parameters(span.tone));
        let n = "\x1b["@.len() as int;
        assert(text.subrange(0, n) =~= "\x1b["@);
        assert(text.subrange(text.len() - reset().len(), text.len() as int) =~= reset());
    }
}

} // verus!
