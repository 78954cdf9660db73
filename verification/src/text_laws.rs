//! What holds of every text that is searched, trimmed, cut or put in order.
use crate::flags::{cut, is_char};
use crate::lists::{first, lemma_first};
use crate::naming::{first_line, number, parsed, title};
use crate::order::{before, points, text_before};
use crate::text::{
    ascii_lowered, decimal, digit, ends, has, is_gap, is_space, runs, stands_at, starts, trimmed,
    trimmed_end, trimmed_start, words,
};
use vstd::prelude::*;

verus! {

/// A text has another exactly where it is something, the other and something
/// again; it starts with another where nothing comes before it, and ends with
/// one where nothing comes behind it.
pub proof fn what_a_text_has_stands_between(text: Seq<char>, part: Seq<char>)
    ensures
        has(text, part) <==> exists|a: Seq<char>, b: Seq<char>| text == #[trigger] (a + part + b),
        starts(text, part) <==> exists|b: Seq<char>| text == #[trigger] (part + b),
        ends(text, part) <==> exists|a: Seq<char>| text == #[trigger] (a + part),
{
    if has(text, part) {
        let at = choose|at: int| stands_at(text, part, at);
        let (a, b) = (text.take(at), text.skip(at + part.len()));
        assert(text =~= a + part + b);
    }
    if exists|a: Seq<char>, b: Seq<char>| text == #[trigger] (a + part + b) {
        let (a, b) = choose|a: Seq<char>, b: Seq<char>| text == #[trigger] (a + part + b);
        assert(text.subrange(a.len() as int, a.len() as int + part.len()) =~= part);
        assert(stands_at(text, part, a.len() as int));
    }
    if starts(text, part) {
        assert(text =~= part + text.skip(part.len() as int));
    }
    if exists|b: Seq<char>| text == #[trigger] (part + b) {
        assert(text.take(part.len() as int) =~= part);
    }
    if ends(text, part) {
        assert(text =~= text.take(text.len() - part.len()) + part);
    }
    if exists|a: Seq<char>| text == #[trigger] (a + part) {
        assert(text.skip(text.len() - part.len()) =~= part);
    }
}

/// How far the white space a text opens with goes.
proof fn lemma_trimmed_start(text: Seq<char>) -> (from: int)
    ensures
        0 <= from <= text.len(),
        trimmed_start(text) == text.skip(from),
        forall|i: int| 0 <= i < from ==> is_space(#[trigger] text[i]),
        from < text.len() ==> !is_space(text[from]),
    decreases text.len(),
{
    if text.len() == 0 || !is_space(text[0]) {
        assert(text.skip(0) =~= text);
        0
    } else {
        let rest = text.drop_first();
        let from = lemma_trimmed_start(rest);
        assert(rest.skip(from) =~= text.skip(from + 1));
        assert forall|i: int| 0 <= i < from + 1 implies is_space(#[trigger] text[i]) by {
            if i > 0 {
                assert(rest[i - 1] == text[i]);
            }
        }
        from + 1
    }
}

/// Where the white space a text closes with begins.
proof fn lemma_trimmed_end(text: Seq<char>) -> (to: int)
    ensures
        0 <= to <= text.len(),
        trimmed_end(text) == text.take(to),
        forall|i: int| to <= i < text.len() ==> is_space(#[trigger] text[i]),
        to > 0 ==> !is_space(text[to - 1]),
    decreases text.len(),
{
    if text.len() == 0 || !is_space(text.last()) {
        assert(text.take(text.len() as int) =~= text);
        text.len() as int
    } else {
        let rest = text.drop_last();
        let to = lemma_trimmed_end(rest);
        assert(rest.take(to) =~= text.take(to));
        assert forall|i: int| to <= i < text.len() implies is_space(#[trigger] text[i]) by {
            if i < rest.len() {
                assert(rest[i] == text[i]);
            }
        }
        to
    }
}

/// Trimming takes the white space off either end and nothing else: what is left
/// stands in the text as it was, with nothing but white space around it, and
/// neither opens nor closes with any.
pub proof fn trimming_takes_the_ends_off(text: Seq<char>) -> (ends: (int, int))
    ensures
        0 <= ends.0 <= ends.1 <= text.len(),
        trimmed(text) == text.subrange(ends.0, ends.1),
        forall|i: int| 0 <= i < ends.0 ==> is_space(#[trigger] text[i]),
        forall|i: int| ends.1 <= i < text.len() ==> is_space(#[trigger] text[i]),
        ends.0 < ends.1 ==> !is_space(text[ends.0]) && !is_space(text[ends.1 - 1]),
        ends.0 == ends.1 ==> forall|i: int| 0 <= i < text.len() ==> is_space(#[trigger] text[i]),
{
    let from = lemma_trimmed_start(text);
    let rest = text.skip(from);
    let to = lemma_trimmed_end(rest);
    assert(rest.take(to) =~= text.subrange(from, from + to));
    assert forall|i: int| from + to <= i < text.len() implies is_space(#[trigger] text[i]) by {
        assert(rest[i - from] == text[i]);
    }
    if to > 0 {
        assert(rest[to - 1] == text[from + to - 1]);
        assert(rest[0] == text[from]);
    } else if from < text.len() {
        assert(rest[0] == text[from]);
    }
    (from, from + to)
}

/// White space is the tab, the line breaks, the spaces of every width and the
/// separators of lines and paragraphs, and no other character.
pub proof fn white_space_is_what_shows_nothing(c: char)
    ensures
        is_space(c) <==> set![
            0x9u32,
            0xa,
            0xb,
            0xc,
            0xd,
            0x20,
            0x85,
            0xa0,
            0x1680,
            0x2000,
            0x2001,
            0x2002,
            0x2003,
            0x2004,
            0x2005,
            0x2006,
            0x2007,
            0x2008,
            0x2009,
            0x200a,
            0x2028,
            0x2029,
            0x202f,
            0x205f,
            0x3000,
        ].contains(c as u32),
{
}

/// A text whose last character is no gap has a last run.
proof fn lemma_open(text: Seq<char>, also: Seq<char>)
    requires
        text.len() > 0,
        !is_gap(text.last(), also),
    ensures
        runs(text, also).len() > 0,
    decreases text.len(),
{
    if text.len() > 1 && !is_gap(text[text.len() - 2], also) {
        assert(text.drop_last().last() == text[text.len() - 2]);
        lemma_open(text.drop_last(), also);
    }
}

/// A gap parts the runs before it from those behind it.
proof fn lemma_gap(a: Seq<char>, gap: char, b: Seq<char>, also: Seq<char>)
    requires
        is_gap(gap, also),
    ensures
        runs(a.push(gap) + b, also) == runs(a, also) + runs(b, also),
    decreases b.len(),
{
    let text = a.push(gap) + b;
    if b.len() == 0 {
        assert(text =~= a.push(gap));
        assert(text.drop_last() =~= a);
        assert(runs(a, also) + runs(b, also) =~= runs(a, also));
    } else {
        let rest = b.drop_last();
        assert(text.drop_last() =~= a.push(gap) + rest);
        lemma_gap(a, gap, rest, also);
        assert(text.last() == b.last());
        if is_gap(b.last(), also) {
        } else if b.len() == 1 {
            assert(text[text.len() - 2] == gap);
            assert(runs(rest, also) =~= Seq::empty());
            assert(runs(text, also) =~= runs(a, also) + runs(b, also));
        } else {
            assert(text[text.len() - 2] == b[b.len() - 2]);
            if !is_gap(b[b.len() - 2], also) {
                assert(rest.last() == b[b.len() - 2]);
                lemma_open(rest, also);
            }
            assert(runs(text, also) =~= runs(a, also) + runs(b, also));
        }
    }
}

/// A text without a gap is one run.
proof fn lemma_one_run(text: Seq<char>, also: Seq<char>)
    requires
        text.len() > 0,
        forall|i: int| 0 <= i < text.len() ==> !is_gap(#[trigger] text[i], also),
    ensures
        runs(text, also) == seq![text],
    decreases text.len(),
{
    let rest = text.drop_last();
    assert(!is_gap(text[text.len() - 1], also));
    if text.len() == 1 {
        assert(rest =~= Seq::empty());
        assert(runs(rest, also) =~= Seq::empty());
        assert(text =~= seq![text[0]]);
        assert(runs(text, also) =~= seq![text]);
    } else {
        assert(!is_gap(text[text.len() - 2], also));
        lemma_one_run(rest, also);
        assert(text =~= rest.push(text.last()));
        assert(runs(text, also) =~= seq![text]);
    }
}

/// White space parts words and is in none of them: a text with none is one
/// word, two texts with some between them have the words of the one and then
/// those of the other, and no text has no word.
pub proof fn white_space_parts_words(a: Seq<char>, gap: char, b: Seq<char>)
    requires
        is_space(gap),
    ensures
        words(a.push(gap) + b) == words(a) + words(b),
        words(Seq::<char>::empty()).len() == 0,
        a.len() > 0 && (forall|i: int| 0 <= i < a.len() ==> !is_space(#[trigger] a[i])) ==> words(a)
            == seq![a],
{
    let none = Seq::<char>::empty();
    lemma_gap(a, gap, b, none);
    if a.len() > 0 && (forall|i: int| 0 <= i < a.len() ==> !is_space(#[trigger] a[i])) {
        assert forall|i: int| 0 <= i < a.len() implies !is_gap(#[trigger] a[i], none) by {
            assert(!is_space(a[i]));
        }
        lemma_one_run(a, none);
    }
}

/// Made small, a text is as long as it was; every ASCII capital is its small
/// letter, thirty-two code points on, and every other character is itself.
pub proof fn capitals_are_made_small(text: Seq<char>, at: int)
    requires
        0 <= at < text.len(),
    ensures
        ascii_lowered(text).len() == text.len(),
        65 <= text[at] as u32 <= 90 ==> ascii_lowered(text)[at] as u32 == text[at] as u32 + 32,
        !(65 <= text[at] as u32 <= 90) ==> ascii_lowered(text)[at] == text[at],
{
}

/// A number is written from its last digit: that is what is left of it after
/// its tens, and the digits before it are the tens written. So no number
/// starts with a zero but zero.
pub proof fn a_number_is_written_by_its_tens(n: nat)
    ensures
        decimal(n).len() > 0,
        decimal(n).last() as u32 == 48 + n % 10,
        n < 10 ==> decimal(n).len() == 1,
        n >= 10 ==> decimal(n).drop_last() == decimal(n / 10),
        n > 0 ==> decimal(n)[0] != '0',
    decreases n,
{
    assert(digit(n % 10) as u32 == 48 + n % 10);
    if n >= 10 {
        a_number_is_written_by_its_tens(n / 10);
        assert(decimal(n).drop_last() =~= decimal(n / 10));
        assert(decimal(n)[0] == decimal(n / 10)[0]);
    } else if n > 0 {
        assert(digit(n) as u32 == 48 + n);
    }
}

/// The digits of a number spell it.
proof fn lemma_spelled(n: nat)
    ensures
        number(decimal(n)) == n,
        forall|i: int| 0 <= i < decimal(n).len() ==> '0' <= (#[trigger] decimal(n)[i]) <= '9',
        decimal(n).len() > 0,
    decreases n,
{
    a_number_is_written_by_its_tens(n);
    let text = decimal(n);
    if n >= 10 {
        lemma_spelled(n / 10);
        assert forall|i: int| 0 <= i < text.len() implies '0' <= (#[trigger] text[i]) <= '9' by {
            if i < text.len() - 1 {
                assert(text.drop_last()[i] == text[i]);
            }
        }
    } else {
        assert(text.drop_last() =~= Seq::empty());
        assert(number(text.drop_last()) == 0);
    }
}

/// A number that was written out is read back as what it was, with a plus sign
/// in front or without.
pub proof fn a_written_number_reads_back(n: nat)
    requires
        n <= usize::MAX,
    ensures
        parsed(decimal(n)) == Some(n as usize),
        parsed(seq!['+'] + decimal(n)) == Some(n as usize),
{
    lemma_spelled(n);
    assert((seq!['+'] + decimal(n)).drop_first() =~= decimal(n));
    assert(decimal(n)[0] != '+');
}

/// A text with anything in it but digits, one sign in front of them apart, is
/// no number, and neither is one without a digit.
pub proof fn what_is_not_all_digits_is_no_number(text: Seq<char>, at: int)
    requires
        text.len() == 0 || text == seq!['+'] || (0 <= at < text.len() && !('0' <= text[at]
            && text[at] <= '9') && (at > 0 || text[at] != '+')),
    ensures
        parsed(text) is None,
{
    if text.len() > 0 && text != seq!['+'] {
        if text[0] == '+' {
            assert(text.drop_first()[at - 1] == text[at]);
        }
    } else if text.len() > 0 {
        assert(text.drop_first() =~= Seq::empty());
    }
}

/// A text is cut in two at the first of a character: that character is not in
/// what comes before it, and the two halves with it between them are the text.
/// Without one there is no cut.
pub proof fn a_cut_is_at_the_first(a: Seq<char>, on: char, b: Seq<char>)
    ensures
        !a.contains(on) ==> cut(a.push(on) + b, on) == Some((a, b)),
        !a.contains(on) <==> cut(a, on) is None,
{
    let text = a.push(on) + b;
    if !a.contains(on) {
        assert forall|i: int| 0 <= i < a.len() implies !is_char(on)(#[trigger] text[i]) by {
            assert(text[i] == a[i]);
            assert(a.contains(a[i]));
        }
        assert(text[a.len() as int] == on);
        lemma_first(text, is_char(on), a.len() as int);
        assert(text.take(a.len() as int) =~= a);
        assert(text.skip(a.len() as int + 1) =~= b);
        assert forall|i: int| 0 <= i < a.len() implies !is_char(on)(#[trigger] a[i]) by {
            assert(a.contains(a[i]));
        }
        lemma_first(a, is_char(on), a.len() as int);
    } else {
        crate::lists::lemma_first_bounds(a, is_char(on));
        let k = choose|k: int| 0 <= k < a.len() && a[k] == on;
        if first(a, is_char(on)) >= a.len() {
            assert(!is_char(on)(a[k]));
        }
    }
}

/// The title of a comment is what comes before its first comma, semicolon or
/// full stop.
pub proof fn a_title_ends_at_the_first_stop(comment: Seq<char>) -> (at: int)
    ensures
        0 <= at <= comment.len(),
        title(comment) == comment.take(at),
        forall|i: int|
            0 <= i < at ==> (#[trigger] comment[i]) != ',' && comment[i] != ';' && comment[i]
                != '.',
        at < comment.len() ==> comment[at] == ',' || comment[at] == ';' || comment[at] == '.',
    decreases comment.len(),
{
    if comment.len() == 0 || comment[0] == ',' || comment[0] == ';' || comment[0] == '.' {
        assert(comment.take(0) =~= Seq::empty());
        0
    } else {
        let rest = comment.drop_first();
        let at = a_title_ends_at_the_first_stop(rest);
        assert(seq![comment[0]] + rest.take(at) =~= comment.take(at + 1));
        assert forall|i: int| 0 <= i < at + 1 implies (#[trigger] comment[i]) != ',' && comment[i]
            != ';' && comment[i] != '.' by {
            if i > 0 {
                assert(rest[i - 1] == comment[i]);
            }
        }
        at + 1
    }
}

/// The first line of a text is its first that is not blank, trimmed, and empty
/// where every line is blank.
pub proof fn the_first_line_is_not_blank(lines: Seq<Seq<char>>) -> (at: int)
    ensures
        0 <= at <= lines.len(),
        forall|i: int| 0 <= i < at ==> trimmed(#[trigger] lines[i]).len() == 0,
        at < lines.len() ==> trimmed(lines[at]).len() > 0 && first_line(lines) == trimmed(
            lines[at],
        ),
        at == lines.len() ==> first_line(lines).len() == 0,
    decreases lines.len(),
{
    if lines.len() == 0 || trimmed(lines[0]).len() > 0 {
        0
    } else {
        let rest = lines.drop_first();
        let at = the_first_line_is_not_blank(rest);
        assert forall|i: int| 0 <= i < at + 1 implies trimmed(#[trigger] lines[i]).len() == 0 by {
            if i > 0 {
                assert(rest[i - 1] == lines[i]);
            }
        }
        at + 1
    }
}

/// Numbers in dictionary order, told by the first place where they differ.
proof fn lemma_before_at(a: Seq<int>, b: Seq<int>, at: int)
    requires
        0 <= at <= a.len(),
        at < b.len(),
        forall|i: int| 0 <= i < at ==> a[i] == b[i],
        at < a.len() ==> a[at] != b[at],
    ensures
        before(a, b) <==> at == a.len() || a[at] < b[at],
    decreases at,
{
    if at > 0 {
        assert(a[0] == b[0]);
        lemma_before_at(a.drop_first(), b.drop_first(), at - 1);
    }
}

/// Of two texts that are the same up to a place, the one that ends there comes
/// first, and otherwise the one with the smaller code point there.
pub proof fn texts_are_ordered_by_where_they_part(a: Seq<char>, b: Seq<char>, at: int)
    requires
        0 <= at <= a.len(),
        at < b.len(),
        a.take(at) == b.take(at),
        at < a.len() ==> a[at] != b[at],
    ensures
        text_before(a, b) <==> at == a.len() || a[at] < b[at],
        !text_before(a, a),
{
    assert forall|i: int| 0 <= i < at implies points(a)[i] == points(b)[i] by {
        assert(a.take(at)[i] == a[i]);
        assert(b.take(at)[i] == b[i]);
        assert(points(a)[i] == a[i] as int);
        assert(points(b)[i] == b[i] as int);
    }
    assert(points(b)[at] == b[at] as int);
    if at < a.len() {
        assert(points(a)[at] == a[at] as int);
    }
    lemma_before_at(points(a), points(b), at);
    crate::order::lemma_before_irreflexive(points(a));
}

} // verus!
