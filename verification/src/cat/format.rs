//! The line formatter: what one input line becomes on output.

use vstd::prelude::*;
use crate::cat::config::Config;
use crate::cat::config::ConfigView;

verus! {

/// The width to which a line number is padded.
pub const NUMBER_WIDTH: u64 = 6;

/// The text of `line` with every tab replaced by the two characters `^I`.
pub open spec fn tabs_shown(line: Seq<char>) -> Seq<char>
    decreases line.len(),
{
    if line.len() == 0 {
        line
    } else if line.last() == '\t' {
        tabs_shown(line.drop_last()).push('^').push('I')
    } else {
        tabs_shown(line.drop_last()).push(line.last())
    }
}

/// The character that writes the decimal digit `d`.
pub open spec fn digit_char(d: nat) -> char
    recommends
        d < 10,
{
    (d + 48) as char
}

/// The decimal numeral of `n`, without sign or leading zeros.
pub open spec fn decimal(n: nat) -> Seq<char>
    decreases n,
{
    if n < 10 {
        seq![digit_char(n)]
    } else {
        decimal(n / 10).push(digit_char(n % 10))
    }
}

/// `text` behind as many spaces as bring it to `width` characters; a text
/// that is already as long or longer is left as it is.
pub open spec fn right_aligned(text: Seq<char>, width: nat) -> Seq<char> {
    if text.len() >= width {
        text
    } else {
        Seq::new((width - text.len()) as nat, |i: int| ' ') + text
    }
}

/// The prefix of a numbered line: the number, right-aligned in six
/// columns or as many as it needs, and a tab.
pub open spec fn number_prefix(n: nat) -> Seq<char> {
    right_aligned(decimal(n), NUMBER_WIDTH as nat).push('\t')
}

/// Whether a line with the content `raw` gets a number.
pub open spec fn numbered(config: ConfigView, raw: Seq<char>) -> bool {
    config.number_lines || (config.number_nonblank_lines && raw.len() > 0)
}

/// The value of the line counter after a line with the content `raw`,
/// where it was `counter` before.
pub open spec fn counter_after(config: ConfigView, raw: Seq<char>, counter: nat) -> nat {
    if numbered(config, raw) {
        counter + 1
    } else {
        counter
    }
}

/// The content of an output line: `raw`, with its tabs shown if asked.
pub open spec fn content(raw: Seq<char>, show_tabs: bool) -> Seq<char> {
    if show_tabs {
        tabs_shown(raw)
    } else {
        raw
    }
}

/// The numeric prefix of the output line for `raw`, where `counter`
/// lines were numbered before it: empty if the line gets no number.
pub open spec fn line_prefix(config: ConfigView, raw: Seq<char>, counter: nat) -> Seq<char> {
    if numbered(config, raw) {
        number_prefix(counter + 1)
    } else {
        Seq::empty()
    }
}

/// What marks the end of an output line: `$` if asked, else nothing.
pub open spec fn end_marker(show_ends: bool) -> Seq<char> {
    if show_ends {
        seq!['$']
    } else {
        Seq::empty()
    }
}

/// The output line for the input line `raw`, where `counter` lines were
/// numbered before it: the numeric prefix, the content and the end
/// marker, in this order.
pub open spec fn formatted(config: ConfigView, raw: Seq<char>, counter: nat) -> Seq<char> {
    line_prefix(config, raw, counter) + content(raw, config.show_tabs) + end_marker(
        config.show_ends,
    )
}

/// Appends the content of `line` to `out`, with every tab written as `^I`
/// if `show_tabs` is set and as it is otherwise.
pub fn push_content(out: &mut String, line: &str, show_tabs: bool)
    ensures
        final(out)@ == old(out)@ + content(line@, show_tabs),
{
    let ghost start = out@;
    for c in it: line.chars()
        invariant
            it.seq() == line@,
            out@ == start + content(line@.take(it.index()), show_tabs),
    {
        proof {
            let upto = line@.take(it.index() + 1);
            assert(upto.drop_last() == line@.take(it.index()));
            assert(upto.last() == c);
        }
        if show_tabs && c == '\t' {
            out.push('^');
            out.push('I');
        } else {
            out.push(c);
        }
    }
    assert(line@.take(line@.len() as int) == line@);
}

/// The number of characters of the decimal numeral of `n`.
fn decimal_width(n: u64) -> (width: u64)
    ensures
        width == decimal(n as nat).len(),
{
    let mut width: u64 = 1;
    let mut rest: u64 = n;
    while rest >= 10
        invariant
            1 <= width,
            width + rest <= n + 1,
            decimal(n as nat).len() == decimal(rest as nat).len() + width - 1,
        decreases rest,
    {
        rest = rest / 10;
        width = width + 1;
    }
    width
}

/// Appends the decimal numeral of `n` to `out`.
fn push_decimal(out: &mut String, n: u64)
    ensures
        final(out)@ == old(out)@ + decimal(n as nat),
    decreases n,
{
    if n >= 10 {
        push_decimal(out, n / 10);
    }
    let digit: u8 = (n % 10) as u8;
    out.push((digit + 48) as char);
}

/// Appends to `out` the prefix of a line with the number `n`: the
/// number, right-aligned in six columns or as many as it needs, and a tab.
pub fn push_number_prefix(out: &mut String, n: u64)
    ensures
        final(out)@ == old(out)@ + number_prefix(n as nat),
{
    let ghost start = out@;
    let width: u64 = decimal_width(n);
    let mut column: u64 = width;
    while column < NUMBER_WIDTH
        invariant
            width <= column,
            column > width ==> column <= NUMBER_WIDTH,
            out@ == start + Seq::new((column - width) as nat, |i: int| ' '),
        decreases NUMBER_WIDTH - column,
    {
        out.push(' ');
        column = column + 1;
    }
    push_decimal(out, n);
    out.push('\t');
}

/// Formats one input line. `raw_line` is the line without its
/// terminator and `counter` the number of lines numbered so far, which
/// grows by one if this line gets a number. Returns the output line,
/// without terminator, and whether the line was numbered.
pub fn format_line(raw_line: &str, counter: &mut u64, config: &Config) -> (out: (String, bool))
    requires
        numbered(config@, raw_line@) ==> *old(counter) < u64::MAX,
    ensures
        out.0@ == formatted(config@, raw_line@, *old(counter) as nat),
        out.1 == numbered(config@, raw_line@),
        *final(counter) as nat == counter_after(config@, raw_line@, *old(counter) as nat),
{
    let mut line = String::new();
    let number = config.number_lines() || (config.number_nonblank_lines() && !raw_line.is_empty());
    if number {
        *counter = *counter + 1;
        push_number_prefix(&mut line, *counter);
    }
    push_content(&mut line, raw_line, config.show_tabs());
    if config.show_ends() {
        line.push('$');
    }
    assert(line@ =~= formatted(config@, raw_line@, *old(counter) as nat));
    (line, number)
}

} // verus!
