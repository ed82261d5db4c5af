//! Rendering of error reports: terminal colours (through `colored`),
//! `{:?}` renderings, and the shared layout of a report that points at a
//! source line.

use colored::Colorize;
use vstd::prelude::*;
use crate::text::{append_str, decimal, decimal_len, push_char, repeat_char, repeated};

verus! {

/// The escape sequence that ends a coloured span.
pub open spec fn ansi_reset() -> Seq<char> {
    seq!['\x1b', '[', '0', 'm']
}

/// `s` preceded by the escape sequence that selects foreground colour
/// `code` and followed by the reset sequence.
pub open spec fn ansi_wrap(code: Seq<char>, s: Seq<char>) -> Seq<char> {
    seq!['\x1b', '['] + code + seq!['m'] + s + ansi_reset()
}

/// The escape sequence that selects foreground colour `code`.
pub open spec fn ansi_style(code: Seq<char>) -> Seq<char> {
    seq!['\x1b', '['] + code + seq!['m']
}

/// `s` with the escape sequence `style` put back after every reset
/// sequence in it, scanning from the left (what `colored` does to the
/// resets inside a text it colours).
pub open spec fn escape_resets(s: Seq<char>, style: Seq<char>) -> Seq<char>
    decreases s.len(),
{
    if s.len() < 4 {
        s
    } else if s.take(4) == ansi_reset() {
        ansi_reset() + style + escape_resets(s.skip(4), style)
    } else {
        seq![s[0]] + escape_resets(s.drop_first(), style)
    }
}

/// `r` is one of the ways `colored` may render `s` in colour `code`: as is
/// when colouring is off; when it is on, wrapped in the colour's escape and
/// the reset sequence, with the colour's escape put back after every reset
/// inside `s`.
pub open spec fn painted(s: Seq<char>, code: Seq<char>, r: Seq<char>) -> bool {
    r == s || r == ansi_wrap(code, escape_resets(s, ansi_style(code)))
}

/// `s` as `colored` renders it in colour `code` when colouring is on
/// (`on`) or off.
pub open spec fn coloured(s: Seq<char>, code: Seq<char>, on: bool) -> Seq<char> {
    if on {
        ansi_wrap(code, escape_resets(s, ansi_style(code)))
    } else {
        s
    }
}

/// The colour code of red.
pub open spec fn red_code() -> Seq<char> {
    seq!['3', '1']
}

/// The colour code of cyan.
pub open spec fn cyan_code() -> Seq<char> {
    seq!['3', '6']
}

/// The colour code of green.
pub open spec fn green_code() -> Seq<char> {
    seq!['3', '2']
}

/// The colour code of yellow.
pub open spec fn yellow_code() -> Seq<char> {
    seq!['3', '3']
}

/// Calls `colored::Colorize::red` on `s` and renders the coloured string
/// with `Display`. Whether escape codes are written depends on the
/// environment (colored's `SHOULD_COLORIZE`), so the result is only said to
/// be one of the two renderings.
#[verifier::external_body]
pub(crate) fn paint_red(s: &str) -> (r: String)
    ensures
        painted(s@, red_code(), r@),
{
    s.red().to_string()
}

/// Calls `colored::Colorize::cyan` on `s` and renders the coloured string
/// with `Display`; as for `paint_red`, only the two possible renderings are
/// stated.
#[verifier::external_body]
pub(crate) fn paint_cyan(s: &str) -> (r: String)
    ensures
        painted(s@, cyan_code(), r@),
{
    s.cyan().to_string()
}

/// Calls `colored::Colorize::green` on `s` and renders the coloured string
/// with `Display`; as for `paint_red`, only the two possible renderings are
/// stated.
#[verifier::external_body]
pub(crate) fn paint_green(s: &str) -> (r: String)
    ensures
        painted(s@, green_code(), r@),
{
    s.green().to_string()
}

/// Calls `colored::Colorize::yellow` on `s` and renders the coloured string
/// with `Display`; as for `paint_red`, only the two possible renderings are
/// stated.
#[verifier::external_body]
pub(crate) fn paint_yellow(s: &str) -> (r: String)
    ensures
        painted(s@, yellow_code(), r@),
{
    s.yellow().to_string()
}

/// What `format!("{:?}", s)` writes for a string (quoted and escaped).
pub uninterp spec fn debug_text(s: Seq<char>) -> Seq<char>;

/// What `format!("{:?}", c)` writes for a character (quoted and escaped).
pub uninterp spec fn debug_char_text(c: char) -> Seq<char>;

/// Calls `format!("{:?}", s)`; the rendering is named by `debug_text`.
#[verifier::external_body]
pub(crate) fn debug_str(s: &str) -> (r: String)
    ensures
        r@ == debug_text(s@),
{
    format!("{:?}", s)
}

/// Calls `format!("{:?}", c)`; the rendering is named by `debug_char_text`.
#[verifier::external_body]
pub(crate) fn debug_char(c: char) -> (r: String)
    ensures
        r@ == debug_char_text(c),
{
    format!("{:?}", c)
}

/// The gutter that frames a quoted source line:
/// ```text
/// <pad spaces><bar1>
///  <number> <bar2> <line>
/// <pad spaces><bar3>
/// ```
pub open spec fn gutter(
    pad: nat,
    bar1: Seq<char>,
    number: Seq<char>,
    bar2: Seq<char>,
    line: Seq<char>,
    bar3: Seq<char>,
) -> Seq<char> {
    repeated(' ', pad) + bar1 + seq!['\n', ' '] + number + seq![' '] + bar2 + seq![' '] + line
        + seq!['\n'] + repeated(' ', pad) + bar3
}

pub fn render_gutter(
    pad: usize,
    bar1: &str,
    number: &str,
    bar2: &str,
    line: &str,
    bar3: &str,
) -> (r: String)
    ensures
        r@ == gutter(pad as nat, bar1@, number@, bar2@, line@, bar3@),
{
    let mut s = repeat_char(' ', pad);
    append_str(&mut s, bar1);
    push_char(&mut s, '\n');
    push_char(&mut s, ' ');
    append_str(&mut s, number);
    push_char(&mut s, ' ');
    append_str(&mut s, bar2);
    push_char(&mut s, ' ');
    append_str(&mut s, line);
    push_char(&mut s, '\n');
    let tail = repeat_char(' ', pad);
    append_str(&mut s, tail.as_str());
    append_str(&mut s, bar3);
    assert(s@ =~= gutter(pad as nat, bar1@, number@, bar2@, line@, bar3@));
    s
}

/// The report of a lexing or parsing error:
/// `<label> <description>\n<path>\n<gutter>\n`.
pub open spec fn located_report(
    label: Seq<char>,
    description: Seq<char>,
    path: Seq<char>,
    block: Seq<char>,
) -> Seq<char> {
    label + seq![' '] + description + seq!['\n'] + path + seq!['\n'] + block + seq!['\n']
}

pub fn render_located_report(label: &str, description: &str, path: &str, block: &str) -> (r:
    String)
    ensures
        r@ == located_report(label@, description@, path@, block@),
{
    let mut s = String::new();
    append_str(&mut s, label);
    push_char(&mut s, ' ');
    append_str(&mut s, description);
    push_char(&mut s, '\n');
    append_str(&mut s, path);
    push_char(&mut s, '\n');
    append_str(&mut s, block);
    push_char(&mut s, '\n');
    assert(s@ =~= located_report(label@, description@, path@, block@));
    s
}

/// `a` followed by a space and `b` (`format!("{} {}", a, b)`).
pub open spec fn spaced(a: Seq<char>, b: Seq<char>) -> Seq<char> {
    a + seq![' '] + b
}

pub fn join_spaced(a: &str, b: &str) -> (r: String)
    ensures
        r@ == spaced(a@, b@),
{
    let mut s = String::new();
    append_str(&mut s, a);
    push_char(&mut s, ' ');
    append_str(&mut s, b);
    assert(s@ =~= spaced(a@, b@));
    s
}

/// The framed source line of a report for line number `n`, for given
/// renderings of the three bars: the bars are indented by two more spaces
/// than `n` has digits.
pub open spec fn numbered_gutter(
    n: nat,
    shown: Seq<char>,
    line: Seq<char>,
    bars: (Seq<char>, Seq<char>, Seq<char>),
) -> Seq<char> {
    gutter(decimal(n).len() + 2, bars.0, shown, bars.1, line, bars.2)
}

/// The three bars of a gutter, each a rendering of `|` in cyan.
pub open spec fn cyan_bars(bars: (Seq<char>, Seq<char>, Seq<char>)) -> bool {
    &&& painted("|"@, cyan_code(), bars.0)
    &&& painted("|"@, cyan_code(), bars.1)
    &&& painted("|"@, cyan_code(), bars.2)
}

/// Renders the gutter for line number `n`, showing `shown` as the number:
/// `(bar, bar, bar)` are painted here.
pub fn paint_gutter(n: usize, shown: &str, line: &str) -> (r: String)
    ensures
        exists|bars: (Seq<char>, Seq<char>, Seq<char>)|
            cyan_bars(bars) && r@ == numbered_gutter(n as nat, shown@, line@, bars),
{
    let pad = decimal_len(n);
    let b1 = paint_cyan("|");
    let b2 = paint_cyan("|");
    let b3 = paint_cyan("|");
    let r = render_gutter(pad + 2, b1.as_str(), shown, b2.as_str(), line, b3.as_str());
    assert(cyan_bars((b1@, b2@, b3@)));
    assert(r@ == numbered_gutter(n as nat, shown@, line@, (b1@, b2@, b3@)));
    r
}

} // verus!
