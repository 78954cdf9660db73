//! Names for queries nobody has named, and numbers out of text.
use crate::text::{
    chars_of, joined, split, split_on, starts, starts_with, text_of, texts, trim, trimmed, words,
    words_of,
};
use vstd::prelude::*;

verus! {

/// The longest a suggested name is, in characters.
pub const NAME_LENGTH: usize = 48;

/// How many words of a statement its suggested name is made of.
pub const NAME_WORDS: usize = 6;

/// Whether a character is a comma or a semicolon.
pub open spec fn is_stop(c: char) -> bool {
    c == ',' || c == ';'
}

/// A text without the commas and semicolons it opens with.
pub open spec fn unstopped_start(text: Seq<char>) -> Seq<char>
    decreases text.len(),
{
    if text.len() == 0 || !is_stop(text[0]) {
        text
    } else {
        unstopped_start(text.drop_first())
    }
}

/// A text without the commas and semicolons it closes with.
pub open spec fn unstopped_end(text: Seq<char>) -> Seq<char>
    decreases text.len(),
{
    if text.len() == 0 || !is_stop(text.last()) {
        text
    } else {
        unstopped_end(text.drop_last())
    }
}

/// A text without the commas and semicolons at either end.
pub open spec fn unstopped(text: Seq<char>) -> Seq<char> {
    unstopped_end(unstopped_start(text))
}

/// As many of the words as fit behind a text, with a space between, the first
/// that does not ending it.
pub open spec fn packed(out: Seq<char>, list: Seq<Seq<char>>, max: nat) -> Seq<char>
    decreases list.len(),
{
    if list.len() == 0 || out.len() + list[0].len() + 1 > max {
        out
    } else if out.len() == 0 {
        packed(list[0], list.drop_first(), max)
    } else {
        packed(out.push(' ') + list[0], list.drop_first(), max)
    }
}

/// A text cut to at most so many characters on a word boundary.
pub open spec fn clipped(text: Seq<char>, max: nat) -> Seq<char> {
    if unstopped(text).len() <= max {
        unstopped(text)
    } else {
        packed(Seq::empty(), words(unstopped(text)), max)
    }
}

proof fn lemma_packed_fits(out: Seq<char>, list: Seq<Seq<char>>, max: nat)
    requires
        out.len() <= max,
    ensures
        packed(out, list, max).len() <= max,
    decreases list.len(),
{
    if list.len() > 0 && out.len() + list[0].len() + 1 <= max {
        if out.len() == 0 {
            lemma_packed_fits(list[0], list.drop_first(), max);
        } else {
            lemma_packed_fits(out.push(' ') + list[0], list.drop_first(), max);
        }
    }
}

/// A clipped text is never longer than it was asked to be.
pub proof fn a_clipped_text_fits(text: Seq<char>, max: nat)
    ensures
        clipped(text, max).len() <= max,
{
    lemma_packed_fits(Seq::empty(), words(unstopped(text)), max);
}

/// Whether a character is a comma or a semicolon.
fn stop(c: char) -> (answer: bool)
    ensures
        answer == is_stop(c),
{
    c == ',' || c == ';'
}

/// A text without the commas and semicolons at either end.
fn without_stops(text: &str) -> (out: String)
    ensures
        out@ == unstopped(text@),
{
    let chars = chars_of(text);
    let mut from: usize = 0;
    assert(chars@.skip(0) =~= chars@);
    while from < chars.len() && stop(chars[from])
        invariant
            from <= chars@.len(),
            unstopped_start(chars@.skip(from as int)) == unstopped_start(chars@),
        decreases chars@.len() - from,
    {
        assert(chars@.skip(from as int).drop_first() =~= chars@.skip(from + 1));
        from += 1;
    }
    let ghost rest = chars@.skip(from as int);
    assert(unstopped_start(chars@) == rest);
    let mut to: usize = chars.len();
    assert(chars@.subrange(from as int, to as int) =~= rest);
    while from < to && stop(chars[to - 1])
        invariant
            from <= to <= chars@.len(),
            unstopped_end(chars@.subrange(from as int, to as int)) == unstopped_end(rest),
        decreases to - from,
    {
        assert(chars@.subrange(from as int, to as int).drop_last() =~= chars@.subrange(
            from as int,
            to - 1,
        ));
        to -= 1;
    }
    text_of(&chars, from, to)
}

/// `text`, cut to at most `max` characters on a word boundary.
pub fn clip(text: &str, max: usize) -> (out: String)
    ensures
        out@ == clipped(text@, max as nat),
{
    let plain = without_stops(text);
    let chars = chars_of(plain.as_str());
    if chars.len() <= max {
        return plain;
    }
    let list = words_of(plain.as_str());
    let ghost all = texts(list@);
    let mut out = String::new();
    let mut length: usize = 0;
    let mut at: usize = 0;
    assert(all.skip(0) =~= all);
    assert(out@ =~= Seq::<char>::empty());
    while at < list.len()
        invariant
            at <= list@.len(),
            all == texts(list@),
            length == out@.len(),
            length <= max,
            packed(out@, all.skip(at as int), max as nat) == clipped(text@, max as nat),
        decreases list@.len() - at,
    {
        assert(all.skip(at as int)[0] == list@[at as int]@);
        assert(all.skip(at as int).drop_first() =~= all.skip(at + 1));
        let width: usize = list[at].as_str().unicode_len();
        if max - length < width || max - length - width < 1 {
            return out;
        }
        if length > 0 {
            out.push(' ');
            length += 1;
        } else {
            assert(out@ =~= Seq::<char>::empty());
            assert(out@ + list@[at as int]@ =~= list@[at as int]@);
        }
        out.append(list[at].as_str());
        length += width;
        at += 1;
    }
    assert(all.skip(at as int).len() == 0);
    out
}

/// The first line of a text that is not blank, without the white space around
/// it.
pub open spec fn first_line(lines: Seq<Seq<char>>) -> Seq<char>
    decreases lines.len(),
{
    if lines.len() == 0 {
        Seq::empty()
    } else if trimmed(lines[0]).len() > 0 {
        trimmed(lines[0])
    } else {
        first_line(lines.drop_first())
    }
}

/// Whether a character ends the title of a comment.
pub open spec fn ends_title(c: char) -> bool {
    c == ',' || c == ';' || c == '.'
}

/// The part of a comment before its first comma, semicolon or full stop.
pub open spec fn title(comment: Seq<char>) -> Seq<char>
    decreases comment.len(),
{
    if comment.len() == 0 || ends_title(comment[0]) {
        Seq::empty()
    } else {
        seq![comment[0]] + title(comment.drop_first())
    }
}

/// What a statement would be called: the title of the comment it opens with,
/// or failing one its first few words.
pub open spec fn statement_name(sql: Seq<char>) -> Seq<char> {
    let first = first_line(split(sql, '\n'));
    if starts(first, "--"@) {
        clipped(trimmed(title(first.skip(2))), NAME_LENGTH as nat)
    } else {
        let list = words(sql);
        clipped(
            joined(
                list.take(
                    if list.len() < NAME_WORDS {
                        list.len() as int
                    } else {
                        NAME_WORDS as int
                    },
                ),
                " "@,
            ),
            NAME_LENGTH as nat,
        )
    }
}

/// The name suggested for a query nobody has named.
pub open spec fn suggestion(sql: Seq<char>) -> Seq<char> {
    if statement_name(sql).len() == 0 {
        "Untitled query"@
    } else {
        statement_name(sql)
    }
}

/// The part of a comment before its first comma, semicolon or full stop.
fn title_of(chars: &Vec<char>, from: usize) -> (text: String)
    requires
        from <= chars@.len(),
    ensures
        text@ == title(chars@.skip(from as int)),
{
    let mut to: usize = from;
    let ghost comment = chars@.skip(from as int);
    assert(chars@.subrange(from as int, from as int) + title(comment) =~= title(comment));
    while to < chars.len() && !(chars[to] == ',' || chars[to] == ';' || chars[to] == '.')
        invariant
            from <= to <= chars@.len(),
            comment == chars@.skip(from as int),
            chars@.subrange(from as int, to as int) + title(chars@.skip(to as int)) == title(
                comment,
            ),
        decreases chars@.len() - to,
    {
        assert(chars@.skip(to as int).drop_first() =~= chars@.skip(to + 1));
        assert(chars@.subrange(from as int, to as int) + title(chars@.skip(to as int))
            =~= chars@.subrange(from as int, to + 1) + title(chars@.skip(to + 1)));
        to += 1;
    }
    assert(title(chars@.skip(to as int)).len() == 0);
    assert(chars@.subrange(from as int, to as int) =~= title(comment));
    text_of(chars, from, to)
}

/// A name for a query nobody has named: the first few words of the statement,
/// which is almost always `select something from somewhere`.
///
/// A statement that opens with a comment has already been named by whoever
/// wrote it, and the clause before the first comma is the title: what follows
/// it is the qualifier the author added for themselves.
pub fn suggest_name(sql: &str) -> (name: String)
    ensures
        name@ == suggestion(sql@),
{
    let lines = split_on(sql, '\n');
    let ghost all = texts(lines@);
    let mut first = String::new();
    let mut at: usize = 0;
    let mut found: bool = false;
    assert(all.skip(0) =~= all);
    while at < lines.len() && !found
        invariant
            at <= lines@.len(),
            all == texts(lines@),
            !found ==> first@.len() == 0 && first_line(all.skip(at as int)) == first_line(all),
            found ==> first@ == first_line(all),
        decreases lines@.len() - at,
    {
        assert(all.skip(at as int)[0] == lines@[at as int]@);
        assert(all.skip(at as int).drop_first() =~= all.skip(at + 1));
        let line = trim(lines[at].as_str());
        if !line.as_str().is_empty() {
            first = line;
            found = true;
        }
        at += 1;
    }
    proof {
        if !found {
            assert(all.skip(at as int).len() == 0);
            assert(first@ =~= first_line(all));
        }
        reveal_strlit("--");
    }
    let name = if starts_with(first.as_str(), "--") {
        let chars = chars_of(first.as_str());
        let clause = title_of(&chars, 2);
        clip(trim(clause.as_str()).as_str(), NAME_LENGTH)
    } else {
        let list = words_of(sql);
        let ghost words_all = texts(list@);
        let mut few: Vec<String> = Vec::new();
        let mut next: usize = 0;
        while next < list.len() && next < NAME_WORDS
            invariant
                next <= list@.len(),
                next <= NAME_WORDS,
                words_all == texts(list@),
                texts(few@) == words_all.take(next as int),
            decreases list@.len() - next,
        {
            let ghost had = texts(few@);
            few.push(list[next].clone());
            assert(texts(few@) =~= had.push(words_all[next as int]));
            next += 1;
            assert(texts(few@) =~= words_all.take(next as int));
        }
        clip(crate::text::join(&few, " ").as_str(), NAME_LENGTH)
    };
    if name.as_str().is_empty() {
        "Untitled query".to_owned()
    } else {
        name
    }
}

/// A suggested name is never empty and never longer than a name may be.
pub proof fn a_suggested_name_can_be_used(sql: Seq<char>)
    ensures
        0 < suggestion(sql).len() <= NAME_LENGTH,
{
    let first = first_line(split(sql, '\n'));
    let list = words(sql);
    a_clipped_text_fits(trimmed(title(first.skip(2))), NAME_LENGTH as nat);
    a_clipped_text_fits(
        joined(
            list.take(
                if list.len() < NAME_WORDS {
                    list.len() as int
                } else {
                    NAME_WORDS as int
                },
            ),
            " "@,
        ),
        NAME_LENGTH as nat,
    );
    reveal_strlit("Untitled query");
}

/// Whether a character is a decimal digit.
pub open spec fn is_digit(c: char) -> bool {
    '0' <= c && c <= '9'
}

/// The number some digits spell.
pub open spec fn number(digits: Seq<char>) -> nat
    decreases digits.len(),
{
    if digits.len() == 0 {
        0
    } else {
        10 * number(digits.drop_last()) + (digits.last() as u32 - 48) as nat
    }
}

/// The digits of a number that may have a plus sign in front.
pub open spec fn unsigned_digits(text: Seq<char>) -> Seq<char> {
    if text.len() > 0 && text[0] == '+' {
        text.drop_first()
    } else {
        text
    }
}

/// The number a text spells, if it spells one that fits: digits and nothing
/// else, at least one of them, with a plus sign in front or without.
pub open spec fn parsed(text: Seq<char>) -> Option<usize> {
    let digits = unsigned_digits(text);
    if digits.len() > 0 && (forall|i: int| 0 <= i < digits.len() ==> is_digit(#[trigger] digits[i]))
        && number(digits) <= usize::MAX {
        Some(number(digits) as usize)
    } else {
        None
    }
}

proof fn lemma_number_grows(digits: Seq<char>, n: int)
    requires
        0 <= n <= digits.len(),
        forall|i: int| 0 <= i < digits.len() ==> is_digit(#[trigger] digits[i]),
    ensures
        number(digits.take(n)) <= number(digits),
    decreases digits.len() - n,
{
    if n < digits.len() {
        lemma_number_grows(digits, n + 1);
        assert(digits.take(n + 1).drop_last() =~= digits.take(n));
    } else {
        assert(digits.take(n) =~= digits);
    }
}

/// The number a text spells, if it spells one.
pub fn parse_number(text: &str) -> (n: Option<usize>)
    ensures
        n == parsed(text@),
{
    let chars = chars_of(text);
    let from: usize = if chars.len() > 0 && chars[0] == '+' {
        1
    } else {
        0
    };
    let ghost digits = unsigned_digits(text@);
    assert(digits =~= chars@.skip(from as int));
    if from == chars.len() {
        return None;
    }
    let mut n: usize = 0;
    let mut at: usize = from;
    assert(digits.take(0) =~= Seq::empty());
    while at < chars.len()
        invariant
            from <= at <= chars@.len(),
            chars@ == text@,
            digits == unsigned_digits(text@),
            digits == chars@.skip(from as int),
            digits.len() > 0,
            forall|i: int| 0 <= i < at - from ==> is_digit(#[trigger] digits[i]),
            n == number(digits.take(at - from)),
        decreases chars@.len() - at,
    {
        let c = chars[at];
        let ghost k = at - from;
        assert(digits[k] == c);
        if !('0' <= c && c <= '9') {
            assert(!is_digit(digits[k]));
            return None;
        }
        let value: usize = (c as u32 - 48) as usize;
        proof {
            assert(digits.take(k + 1).drop_last() =~= digits.take(k));
            assert(number(digits.take(k + 1)) == 10 * n + value);
            if forall|i: int| 0 <= i < digits.len() ==> is_digit(#[trigger] digits[i]) {
                lemma_number_grows(digits, k + 1);
            }
        }
        let tens = match n.checked_mul(10) {
            Some(tens) => tens,
            None => {
                return None;
            },
        };
        n = match tens.checked_add(value) {
            Some(sum) => sum,
            None => {
                return None;
            },
        };
        at += 1;
    }
    assert(digits.take(at - from) =~= digits);
    Some(n)
}

/// A text without its underscores.
pub open spec fn without_underscores(text: Seq<char>) -> Seq<char> {
    text.filter(|c: char| c != '_')
}

/// A number with underscores among its digits, as a benchmark flag is written.
/// Anything unparseable is ignored rather than failing a launch over a typo.
pub fn flag_number(text: &str) -> (n: Option<usize>)
    ensures
        n == parsed(without_underscores(text@)),
{
    let chars = chars_of(text);
    let ghost keep = |c: char| c != '_';
    let mut plain = String::new();
    let mut at: usize = 0;
    proof {
        crate::lists::lemma_filter_none(text@, keep);
    }
    assert(plain@ =~= text@.take(0).filter(keep));
    while at < chars.len()
        invariant
            at <= chars@.len(),
            chars@ == text@,
            keep == (|c: char| c != '_'),
            plain@ == text@.take(at as int).filter(keep),
        decreases chars@.len() - at,
    {
        proof {
            crate::lists::lemma_filter_step(text@, keep, at as int);
        }
        if chars[at] != '_' {
            plain.push(chars[at]);
        }
        at += 1;
    }
    proof {
        crate::lists::lemma_filter_all(text@, keep);
    }
    parse_number(plain.as_str())
}

} // verus!
