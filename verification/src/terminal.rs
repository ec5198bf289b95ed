//! The text that shows an effect on a terminal: ANSI control sequences, made
//! by `termion`, around half-block glyphs.

use crate::display::{span_views, Span, SpanView};
use crate::effect::{Effect, EffectView};
use vstd::prelude::*;
use vstd::string::StringExecFns;

verus! {

/// The character of the decimal digit `d`.
pub open spec fn digit_char(d: nat) -> char {
    (0x30 + d) as char
}

/// The decimal numeral of `n`, without leading zeros.
pub open spec fn decimal(n: nat) -> Seq<char>
    decreases n,
{
    if n < 10 {
        seq![digit_char(n)]
    } else {
        decimal(n / 10).push(digit_char(n % 10))
    }
}

/// The control sequence that moves the cursor to the cell in column `column`
/// of line `line`, both counted from 1: `ESC [ line ; column H`.
pub open spec fn goto_text(column: u16, line: u16) -> Seq<char> {
    seq!['\x1b', '['] + decimal(line as nat) + seq![';'] + decimal(column as nat) + seq!['H']
}

/// The control sequence that clears the whole screen: `ESC [ 2 J`.
pub open spec fn clear_text() -> Seq<char> {
    seq!['\x1b', '[', '2', 'J']
}

/// The character that shows a glyph: a blank, the lower half block, the upper
/// half block or the full block. A value above 3 names no glyph and shows as
/// a blank.
pub open spec fn glyph_char(glyph: u8) -> char {
    if glyph == 1 {
        '\u{2584}'
    } else if glyph == 2 {
        '\u{2580}'
    } else if glyph == 3 {
        '\u{2588}'
    } else {
        ' '
    }
}

/// The characters of a run of glyphs.
pub open spec fn glyphs_text(glyphs: Seq<u8>) -> Seq<char> {
    glyphs.map_values(|g: u8| glyph_char(g))
}

/// The text of one span: the cursor goes to its first cell, then its glyphs
/// follow.
pub open spec fn span_text(span: SpanView) -> Seq<char> {
    goto_text(span.column, span.line) + glyphs_text(span.glyphs)
}

/// The text of a run of spans, one after the other.
pub open spec fn spans_text(spans: Seq<SpanView>) -> Seq<char>
    decreases spans.len(),
{
    if spans.len() == 0 {
        Seq::empty()
    } else {
        spans_text(spans.drop_last()) + span_text(spans.last())
    }
}

/// The text that shows an effect: nothing where there is nothing to show.
pub open spec fn effect_text(effect: EffectView) -> Seq<char> {
    match effect {
        EffectView::Cleared => clear_text(),
        EffectView::Drawn(spans) => spans_text(spans),
        _ => Seq::empty(),
    }
}

/// The cursor movement as `termion` writes it, through
/// `String::from(termion::cursor::Goto(column, line))`.
///
/// Trusted: the text is `ESC [`, the line in decimal, `;`, the column in
/// decimal, and `H`.
#[verifier::external_body]
pub(crate) fn cursor_to(column: u16, line: u16) -> (text: String)
    ensures
        text@ == goto_text(column, line),
{
    String::from(termion::cursor::Goto(column, line))
}

/// The screen clearing as `termion` writes it, through the `AsRef<str>` of
/// `termion::clear::All`.
///
/// Trusted: the text is `ESC [ 2 J`.
#[verifier::external_body]
pub(crate) fn clear_all() -> (text: &'static str)
    ensures
        text@ == clear_text(),
{
    termion::clear::All.as_ref()
}

/// The text of one glyph.
pub fn glyph_str(glyph: u8) -> (text: &'static str)
    ensures
        text@ == seq![glyph_char(glyph)],
{
    proof {
        reveal_strlit(" ");
        reveal_strlit("\u{2584}");
        reveal_strlit("\u{2580}");
        reveal_strlit("\u{2588}");
    }
    let text = if glyph == 1 {
        "\u{2584}"
    } else if glyph == 2 {
        "\u{2580}"
    } else if glyph == 3 {
        "\u{2588}"
    } else {
        " "
    };
    assert(text@ =~= seq![glyph_char(glyph)]);
    text
}

/// Appends the text of one span to `out`.
pub fn paint_span(out: &mut String, span: &Span)
    ensures
        final(out)@ == old(out)@ + span_text(span@),
{
    let ghost before = out@;
    let goto = cursor_to(span.column, span.line);
    out.append(goto.as_str());
    let mut k: usize = 0;
    while k < span.glyphs.len()
        invariant
            k <= span.glyphs@.len(),
            out@ == before + goto_text(span.column, span.line) + glyphs_text(
                span.glyphs@.take(k as int),
            ),
        decreases span.glyphs@.len() - k,
    {
        out.append(glyph_str(span.glyphs[k]));
        proof {
            let done = span.glyphs@.take(k as int);
            let more = span.glyphs@.take(k + 1);
            assert(glyphs_text(more) =~= glyphs_text(done) + seq![glyph_char(span.glyphs@[k as int])]);
            assert(out@ =~= before + goto_text(span.column, span.line) + glyphs_text(more));
        }
        k += 1;
    }
    assert(span.glyphs@.take(k as int) =~= span.glyphs@);
    assert(out@ =~= before + span_text(span@));
}

/// The text that shows `effect` on a terminal.
pub fn paint(effect: &Effect) -> (text: String)
    ensures
        text@ == effect_text(effect@),
{
    let mut text = String::new();
    match effect {
        Effect::Cleared => {
            text.append(clear_all());
            assert(text@ =~= clear_text());
        },
        Effect::Drawn(spans) => {
            let mut j: usize = 0;
            while j < spans.len()
                invariant
                    j <= spans@.len(),
                    text@ == spans_text(span_views(spans@.take(j as int))),
                decreases spans@.len() - j,
            {
                paint_span(&mut text, &spans[j]);
                proof {
                    let done = span_views(spans@.take(j as int));
                    let more = span_views(spans@.take(j + 1));
                    assert(more.drop_last() =~= done);
                    assert(more.last() == spans@[j as int]@);
                }
                j += 1;
            }
            assert(spans@.take(j as int) =~= spans@);
        },
        _ => {},
    }
    text
}

} // verus!
