//! Styled text: what is shown, apart from whether the terminal shows colors.

use colored::Colorize;
use vstd::prelude::*;

use crate::text::{holds, law_nothing_to_replace, replaced};

verus! {

/// How a piece of text is shown.
#[derive(Clone, Copy, Debug, PartialEq, Eq, Structural)]
pub enum Style {
    Plain,
    Dimmed,
    Green,
    Red,
    RedBold,
    RedDimmed,
    Yellow,
    YellowBold,
    Cyan,
    CyanBold,
    BrightBlue,
    WhiteBold,
    BrightWhiteBold,
}

/// A piece of text in one style.
#[derive(Debug)]
pub struct Span {
    pub style: Style,
    pub text: String,
}

/// The value of a `Span`.
#[verifier::ext_equal]
pub struct SpanView {
    pub style: Style,
    pub text: Seq<char>,
}

impl DeepView for Span {
    type V = SpanView;

    open spec fn deep_view(&self) -> SpanView {
        SpanView { style: self.style, text: self.text@ }
    }
}

/// `text` in `style`.
pub open spec fn span(style: Style, text: Seq<char>) -> SpanView {
    SpanView { style, text }
}

/// The escape sequence that switches a style on.
pub open spec fn switch_on(style: Style) -> Seq<char> {
    match style {
        Style::Plain => Seq::empty(),
        Style::Dimmed => "\x1B[2m"@,
        Style::Green => "\x1B[32m"@,
        Style::Red => "\x1B[31m"@,
        Style::RedBold => "\x1B[1;31m"@,
        Style::RedDimmed => "\x1B[2;31m"@,
        Style::Yellow => "\x1B[33m"@,
        Style::YellowBold => "\x1B[1;33m"@,
        Style::Cyan => "\x1B[36m"@,
        Style::CyanBold => "\x1B[1;36m"@,
        Style::BrightBlue => "\x1B[94m"@,
        Style::WhiteBold => "\x1B[1;37m"@,
        Style::BrightWhiteBold => "\x1B[1;97m"@,
    }
}

/// `text` between the sequences that switch `style` on and everything off. A
/// sequence inside `text` that switches everything off is followed by `style`
/// anew.
pub open spec fn painted(style: Style, text: Seq<char>) -> Seq<char> {
    let off = "\x1B[0m"@;
    if style == Style::Plain {
        text
    } else {
        switch_on(style) + replaced(text, off, off + switch_on(style)) + off
    }
}

/// The spans in a row, those with `true` in `colors` painted, the others bare.
pub open spec fn rendering(spans: Seq<SpanView>, colors: Seq<bool>) -> Seq<char>
    decreases spans.len(),
{
    if spans.len() == 0 {
        Seq::empty()
    } else {
        let s = spans.last();
        rendering(spans.drop_last(), colors.drop_last()) + if colors.last() {
            painted(s.style, s.text)
        } else {
            s.text
        }
    }
}

/// Whether `r` is a rendering of the spans, whichever of them are painted.
pub open spec fn renders(spans: Seq<SpanView>, r: Seq<char>) -> bool {
    exists|colors: Seq<bool>| colors.len() == spans.len() && r == rendering(spans, colors)
}

/// Calls `dimmed` of `colored::Colorize`, and `to_string` on the result, which gives the
/// text bare or painted. Which of the two it is rests on the terminal, on environment
/// variables and on `colored::control`, and is left open.
#[verifier::external_body]
fn dimmed(text: &str) -> (r: String)
    ensures
        r@ == text@ || r@ == painted(Style::Dimmed, text@),
{
    text.dimmed().to_string()
}

/// Calls `green` of `colored::Colorize`, and `to_string` on the result, which gives the
/// text bare or painted. Which of the two it is rests on the terminal, on environment
/// variables and on `colored::control`, and is left open.
#[verifier::external_body]
fn green(text: &str) -> (r: String)
    ensures
        r@ == text@ || r@ == painted(Style::Green, text@),
{
    text.green().to_string()
}

/// Calls `red` of `colored::Colorize`, and `to_string` on the result, which gives the
/// text bare or painted. Which of the two it is rests on the terminal, on environment
/// variables and on `colored::control`, and is left open.
#[verifier::external_body]
fn red(text: &str) -> (r: String)
    ensures
        r@ == text@ || r@ == painted(Style::Red, text@),
{
    text.red().to_string()
}

/// Calls `red` and `bold` of `colored::Colorize`, and `to_string` on the result, which gives the
/// text bare or painted. Which of the two it is rests on the terminal, on environment
/// variables and on `colored::control`, and is left open.
#[verifier::external_body]
fn red_bold(text: &str) -> (r: String)
    ensures
        r@ == text@ || r@ == painted(Style::RedBold, text@),
{
    text.red().bold().to_string()
}

/// Calls `red` and `dimmed` of `colored::Colorize`, and `to_string` on the result, which gives the
/// text bare or painted. Which of the two it is rests on the terminal, on environment
/// variables and on `colored::control`, and is left open.
#[verifier::external_body]
fn red_dimmed(text: &str) -> (r: String)
    ensures
        r@ == text@ || r@ == painted(Style::RedDimmed, text@),
{
    text.red().dimmed().to_string()
}

/// Calls `yellow` of `colored::Colorize`, and `to_string` on the result, which gives the
/// text bare or painted. Which of the two it is rests on the terminal, on environment
/// variables and on `colored::control`, and is left open.
#[verifier::external_body]
fn yellow(text: &str) -> (r: String)
    ensures
        r@ == text@ || r@ == painted(Style::Yellow, text@),
{
    text.yellow().to_string()
}

/// Calls `yellow` and `bold` of `colored::Colorize`, and `to_string` on the result, which gives the
/// text bare or painted. Which of the two it is rests on the terminal, on environment
/// variables and on `colored::control`, and is left open.
#[verifier::external_body]
fn yellow_bold(text: &str) -> (r: String)
    ensures
        r@ == text@ || r@ == painted(Style::YellowBold, text@),
{
    text.yellow().bold().to_string()
}

/// Calls `cyan` of `colored::Colorize`, and `to_string` on the result, which gives the
/// text bare or painted. Which of the two it is rests on the terminal, on environment
/// variables and on `colored::control`, and is left open.
#[verifier::external_body]
fn cyan(text: &str) -> (r: String)
    ensures
        r@ == text@ || r@ == painted(Style::Cyan, text@),
{
    text.cyan().to_string()
}

/// Calls `cyan` and `bold` of `colored::Colorize`, and `to_string` on the result, which gives the
/// text bare or painted. Which of the two it is rests on the terminal, on environment
/// variables and on `colored::control`, and is left open.
#[verifier::external_body]
fn cyan_bold(text: &str) -> (r: String)
    ensures
        r@ == text@ || r@ == painted(Style::CyanBold, text@),
{
    text.cyan().bold().to_string()
}

/// Calls `bright_blue` of `colored::Colorize`, and `to_string` on the result, which gives the
/// text bare or painted. Which of the two it is rests on the terminal, on environment
/// variables and on `colored::control`, and is left open.
#[verifier::external_body]
fn bright_blue(text: &str) -> (r: String)
    ensures
        r@ == text@ || r@ == painted(Style::BrightBlue, text@),
{
    text.bright_blue().to_string()
}

/// Calls `bold` and `white` of `colored::Colorize`, and `to_string` on the result, which gives the
/// text bare or painted. Which of the two it is rests on the terminal, on environment
/// variables and on `colored::control`, and is left open.
#[verifier::external_body]
fn white_bold(text: &str) -> (r: String)
    ensures
        r@ == text@ || r@ == painted(Style::WhiteBold, text@),
{
    text.bold().white().to_string()
}

/// Calls `bold` and `bright_white` of `colored::Colorize`, and `to_string` on the result, which gives the
/// text bare or painted. Which of the two it is rests on the terminal, on environment
/// variables and on `colored::control`, and is left open.
#[verifier::external_body]
fn bright_white_bold(text: &str) -> (r: String)
    ensures
        r@ == text@ || r@ == painted(Style::BrightWhiteBold, text@),
{
    text.bold().bright_white().to_string()
}

/// `text` in `style`, bare or painted.
fn paint(style: Style, text: &str) -> (r: String)
    ensures
        r@ == text@ || r@ == painted(style, text@),
{
    match style {
        Style::Plain => text.to_string(),
        Style::Dimmed => dimmed(text),
        Style::Green => green(text),
        Style::Red => red(text),
        Style::RedBold => red_bold(text),
        Style::RedDimmed => red_dimmed(text),
        Style::Yellow => yellow(text),
        Style::YellowBold => yellow_bold(text),
        Style::Cyan => cyan(text),
        Style::CyanBold => cyan_bold(text),
        Style::BrightBlue => bright_blue(text),
        Style::WhiteBold => white_bold(text),
        Style::BrightWhiteBold => bright_white_bold(text),
    }
}

/// The text to send to the terminal for a row of spans.
pub fn render(spans: &Vec<Span>) -> (r: String)
    ensures
        renders(spans.deep_view(), r@),
{
    let mut r = String::new();
    let ghost mut colors: Seq<bool> = Seq::empty();
    let mut i: usize = 0;
    while i < spans.len()
        invariant
            i <= spans.len(),
            colors.len() == i,
            r@ == rendering(spans.deep_view().take(i as int), colors),
        decreases spans.len() - i,
    {
        let s = &spans[i];
        let ghost all = spans.deep_view();
        let piece = paint(s.style, s.text.as_str());
        r.append(piece.as_str());
        proof {
            let c = piece@ != s.text@;
            assert(all.take(i + 1).drop_last() =~= all.take(i as int));
            assert(colors.push(c).drop_last() =~= colors);
            colors = colors.push(c);
        }
        i += 1;
    }
    assert(spans.deep_view().take(i as int) =~= spans.deep_view());
    r
}

/// A span of `text` in `style`.
pub fn styled(style: Style, text: &str) -> (r: Span)
    ensures
        r.deep_view() == span(style, text@),
{
    Span { style, text: text.to_string() }
}

/// A copy of a row of spans.
pub fn copy_spans(spans: &Vec<Span>) -> (r: Vec<Span>)
    ensures
        r.deep_view() == spans.deep_view(),
{
    let mut r: Vec<Span> = Vec::new();
    let mut i: usize = 0;
    while i < spans.len()
        invariant
            i <= spans.len(),
            r.len() == i,
            forall|k: int| 0 <= k < i ==> (#[trigger] r@[k]).deep_view() == spans@[k].deep_view(),
        decreases spans.len() - i,
    {
        r.push(styled(spans[i].style, spans[i].text.as_str()));
        i += 1;
    }
    assert(r.deep_view() =~= spans.deep_view());
    r
}

/// A span of `text` as it is.
pub fn plain(text: &str) -> (r: Span)
    ensures
        r.deep_view() == span(Style::Plain, text@),
{
    styled(Style::Plain, text)
}

/// Law: a text that switches nothing off is painted by what stands before and behind
/// it, and a plain one is not painted at all.
pub proof fn law_painting_wraps_the_text(style: Style, text: Seq<char>)
    requires
        !holds(text, "\x1B[0m"@),
    ensures
        style != Style::Plain ==> painted(style, text) == switch_on(style) + text + "\x1B[0m"@,
        painted(Style::Plain, text) == text,
{
    law_nothing_to_replace(text, "\x1B[0m"@, "\x1B[0m"@ + switch_on(style));
}

/// Law: rows of spans are shown one behind the other.
pub proof fn law_rows_are_shown_in_order(
    first: Seq<SpanView>,
    second: Seq<SpanView>,
    colors: Seq<bool>,
)
    requires
        colors.len() == first.len() + second.len(),
    ensures
        rendering(first + second, colors) == rendering(first, colors.take(first.len() as int))
            + rendering(second, colors.skip(first.len() as int)),
    decreases second.len(),
{
    if second.len() == 0 {
        assert(first + second =~= first);
        assert(colors.take(first.len() as int) =~= colors);
    } else {
        let all = first + second;
        assert(all.drop_last() =~= first + second.drop_last());
        assert(all.last() == second.last());
        let front = colors.drop_last();
        law_rows_are_shown_in_order(first, second.drop_last(), front);
        assert(front.take(first.len() as int) =~= colors.take(first.len() as int));
        assert(front.skip(first.len() as int) =~= colors.skip(first.len() as int).drop_last());
        assert(colors.skip(first.len() as int).last() == colors.last());
        let s = second.last();
        let shown = if colors.last() {
            painted(s.style, s.text)
        } else {
            s.text
        };
        assert(rendering(all, colors) =~= rendering(first, colors.take(first.len() as int))
            + rendering(second, colors.skip(first.len() as int)));
    }
}

/// Law: without colors a span is its text.
pub proof fn law_bare_spans_are_their_text(s: SpanView)
    ensures
        rendering(seq![s], seq![false]) == s.text,
        rendering(seq![s], seq![true]) == painted(s.style, s.text),
{
    assert(seq![s].drop_last() =~= seq![]);
    reveal_with_fuel(rendering, 2);
    assert(rendering(seq![s], seq![false]) =~= s.text);
    assert(rendering(seq![s], seq![true]) =~= painted(s.style, s.text));
}

} // verus!
