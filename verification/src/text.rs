//! Text as sequences of characters.
//!
//! A `String` and a `&str` are both viewed as a `Seq<char>`. Everything here is
//! stated over that view, and the functions that walk a text character by
//! character unpack it into a `Vec<char>` first.
use vstd::prelude::*;

verus! {

/// `String::push` appends one character to the end of the text.
pub assume_specification[ String::push ](text: &mut String, c: char)
    ensures
        final(text)@ == old(text)@.push(c),
;

/// The texts that a list of strings holds.
pub open spec fn texts(list: Seq<String>) -> Seq<Seq<char>> {
    Seq::new(list.len(), |i: int| list[i]@)
}

/// What an optional string holds.
pub open spec fn maybe(text: Option<String>) -> Option<Seq<char>> {
    match text {
        Some(text) => Some(text@),
        None => None,
    }
}

/// The characters of a text, unpacked.
pub fn chars_of(text: &str) -> (chars: Vec<char>)
    ensures
        chars@ == text@,
{
    let mut chars: Vec<char> = Vec::new();
    for c in it: text.chars()
        invariant
            chars@ == it.seq().take(it.index()),
    {
        chars.push(c);
    }
    assert(text@.take(text@.len() as int) =~= text@);
    chars
}

/// Append `chars[from..to]` to a text.
pub fn push_chars(out: &mut String, chars: &Vec<char>, from: usize, to: usize)
    requires
        from <= to <= chars@.len(),
    ensures
        final(out)@ == old(out)@ + chars@.subrange(from as int, to as int),
{
    let mut at: usize = from;
    assert(chars@.subrange(from as int, from as int) =~= Seq::empty());
    assert(out@ + Seq::<char>::empty() =~= out@);
    while at < to
        invariant
            from <= at <= to <= chars@.len(),
            out@ == old(out)@ + chars@.subrange(from as int, at as int),
        decreases to - at,
    {
        out.push(chars[at]);
        at += 1;
        assert(chars@.subrange(from as int, at as int) =~= chars@.subrange(
            from as int,
            at - 1,
        ).push(chars@[at - 1]));
    }
}

/// The text of `chars[from..to]`.
pub fn text_of(chars: &Vec<char>, from: usize, to: usize) -> (text: String)
    requires
        from <= to <= chars@.len(),
    ensures
        text@ == chars@.subrange(from as int, to as int),
{
    let mut out = String::new();
    push_chars(&mut out, chars, from, to);
    assert(out@ =~= chars@.subrange(from as int, to as int));
    out
}

/// Whether two texts are the same, character for character.
pub fn same(a: &str, b: &str) -> (answer: bool)
    ensures
        answer == (a@ == b@),
{
    let left = chars_of(a);
    let right = chars_of(b);
    if left.len() != right.len() {
        return false;
    }
    let mut at: usize = 0;
    while at < left.len()
        invariant
            at <= left@.len() == right@.len(),
            left@ == a@,
            right@ == b@,
            forall|i: int| 0 <= i < at ==> left@[i] == right@[i],
        decreases left@.len() - at,
    {
        if left[at] != right[at] {
            assert(a@[at as int] != b@[at as int]);
            return false;
        }
        at += 1;
    }
    assert(left@ =~= right@);
    true
}

/// Whether two optional texts are the same.
pub fn same_maybe(a: &Option<String>, b: &Option<String>) -> (answer: bool)
    ensures
        answer == (maybe(*a) == maybe(*b)),
{
    match (a, b) {
        (Some(a), Some(b)) => same(a.as_str(), b.as_str()),
        (None, None) => true,
        _ => false,
    }
}

/// The decimal digit for a value below ten.
pub open spec fn digit(n: nat) -> char
    recommends
        n < 10,
{
    (48 + n) as char
}

/// A number in decimal, with no sign, no separator and no leading zero.
pub open spec fn decimal(n: nat) -> Seq<char>
    decreases n,
{
    if n < 10 {
        seq![digit(n)]
    } else {
        decimal(n / 10).push(digit(n % 10))
    }
}

/// Append a number in decimal.
pub fn push_decimal(out: &mut String, n: u64)
    ensures
        final(out)@ == old(out)@ + decimal(n as nat),
    decreases n,
{
    if n >= 10 {
        push_decimal(out, n / 10);
    }
    let last: u8 = (n % 10) as u8;
    out.push((48u8 + last) as char);
    assert(out@ =~= old(out)@ + decimal(n as nat));
}

/// A number in decimal.
pub fn decimal_text(n: u64) -> (text: String)
    ensures
        text@ == decimal(n as nat),
{
    let mut out = String::new();
    push_decimal(&mut out, n);
    assert(out@ =~= decimal(n as nat));
    out
}

/// The characters Unicode calls white space.
pub open spec fn is_space(c: char) -> bool {
    let n = c as u32;
    ||| 0x9 <= n <= 0xd
    ||| n == 0x20
    ||| n == 0x85
    ||| n == 0xa0
    ||| n == 0x1680
    ||| 0x2000 <= n <= 0x200a
    ||| n == 0x2028
    ||| n == 0x2029
    ||| n == 0x202f
    ||| n == 0x205f
    ||| n == 0x3000
}

/// Whether a character is white space.
pub fn space(c: char) -> (answer: bool)
    ensures
        answer == is_space(c),
{
    let n: u32 = c as u32;
    (0x9 <= n && n <= 0xd) || n == 0x20 || n == 0x85 || n == 0xa0 || n == 0x1680 || (0x2000 <= n
        && n <= 0x200a) || n == 0x2028 || n == 0x2029 || n == 0x202f || n == 0x205f || n == 0x3000
}

/// An ASCII capital as its small letter, and anything else as it is.
pub open spec fn ascii_lower(c: char) -> char {
    if 'A' <= c && c <= 'Z' {
        (c as u32 + 32) as char
    } else {
        c
    }
}

/// A text with its ASCII capitals made small.
pub open spec fn ascii_lowered(text: Seq<char>) -> Seq<char> {
    text.map_values(|c: char| ascii_lower(c))
}

/// An ASCII capital as its small letter, and anything else as it is.
pub fn lower(c: char) -> (out: char)
    ensures
        out == ascii_lower(c),
{
    if 'A' <= c && c <= 'Z' {
        (c as u8 + 32) as char
    } else {
        c
    }
}

/// A text with its ASCII capitals made small.
pub fn lowered(text: &str) -> (out: String)
    ensures
        out@ == ascii_lowered(text@),
{
    let chars = chars_of(text);
    let mut out = String::new();
    let mut at: usize = 0;
    while at < chars.len()
        invariant
            at <= chars@.len(),
            chars@ == text@,
            out@ == ascii_lowered(text@).take(at as int),
        decreases chars@.len() - at,
    {
        out.push(lower(chars[at]));
        at += 1;
        assert(out@ =~= ascii_lowered(text@).take(at as int));
    }
    assert(out@ =~= ascii_lowered(text@));
    out
}

/// The texts between the occurrences of a separator, empty ones kept.
pub open spec fn split(text: Seq<char>, on: char) -> Seq<Seq<char>>
    decreases text.len(),
{
    if text.len() == 0 {
        seq![text]
    } else {
        let before = split(text.drop_last(), on);
        if text.last() == on {
            before.push(Seq::empty())
        } else {
            before.update(before.len() - 1, before.last().push(text.last()))
        }
    }
}

/// Splitting always yields at least one piece.
pub proof fn lemma_split_len(text: Seq<char>, on: char)
    ensures
        split(text, on).len() >= 1,
    decreases text.len(),
{
    if text.len() > 0 {
        lemma_split_len(text.drop_last(), on);
    }
}

/// Cut a text at every occurrence of a separator, keeping empty pieces.
pub fn split_on(text: &str, on: char) -> (pieces: Vec<String>)
    ensures
        texts(pieces@) == split(text@, on),
{
    let chars = chars_of(text);
    let mut done: Vec<String> = Vec::new();
    let mut last = String::new();
    let mut at: usize = 0;
    assert(last@ =~= text@.take(0));
    assert(texts(done@).push(last@) =~= split(text@.take(0), on));
    while at < chars.len()
        invariant
            at <= chars@.len(),
            chars@ == text@,
            texts(done@).push(last@) == split(text@.take(at as int), on),
        decreases chars@.len() - at,
    {
        let c = chars[at];
        let ghost before = split(text@.take(at as int), on);
        let ghost old_done = texts(done@);
        let ghost old_last = last@;
        if c == on {
            done.push(last);
            last = String::new();
            assert(texts(done@) =~= before);
        } else {
            last.push(c);
            assert(old_done.push(old_last).update(old_done.len() as int, old_last.push(c))
                =~= old_done.push(old_last.push(c)));
        }
        at += 1;
        assert(text@.take(at as int).drop_last() =~= text@.take(at - 1));
    }
    assert(text@.take(at as int) =~= text@);
    let ghost old_done = texts(done@);
    done.push(last);
    assert(texts(done@) =~= split(text@, on));
    done
}

/// Whether a text starts with another.
pub open spec fn starts(text: Seq<char>, prefix: Seq<char>) -> bool {
    prefix.len() <= text.len() && text.take(prefix.len() as int) == prefix
}

/// Whether a text ends with another.
pub open spec fn ends(text: Seq<char>, suffix: Seq<char>) -> bool {
    suffix.len() <= text.len() && text.skip(text.len() - suffix.len()) == suffix
}

/// Whether `needle` stands in `text` at `at`.
pub open spec fn stands_at(text: Seq<char>, needle: Seq<char>, at: int) -> bool {
    0 <= at && at + needle.len() <= text.len() && text.subrange(at, at + needle.len()) == needle
}

/// Whether a text has another somewhere in it.
pub open spec fn has(text: Seq<char>, needle: Seq<char>) -> bool {
    exists|at: int| stands_at(text, needle, at)
}

/// Whether `needle` stands in `text` at `at`.
pub fn found_at(text: &Vec<char>, needle: &Vec<char>, at: usize) -> (answer: bool)
    requires
        at <= text@.len(),
    ensures
        answer == stands_at(text@, needle@, at as int),
{
    if text.len() - at < needle.len() {
        return false;
    }
    let mut i: usize = 0;
    while i < needle.len()
        invariant
            at <= text@.len() == text.len(),
            i <= needle@.len() <= text@.len() - at,
            forall|k: int| 0 <= k < i ==> text@[at + k] == needle@[k],
        decreases needle@.len() - i,
    {
        if text[at + i] != needle[i] {
            assert(text@.subrange(at as int, at + needle@.len())[i as int] != needle@[i as int]);
            return false;
        }
        i += 1;
    }
    assert(text@.subrange(at as int, at + needle@.len()) =~= needle@);
    true
}

/// Whether a text starts with another.
pub fn starts_with(text: &str, prefix: &str) -> (answer: bool)
    ensures
        answer == starts(text@, prefix@),
{
    let text = chars_of(text);
    let prefix = chars_of(prefix);
    let answer = found_at(&text, &prefix, 0);
    proof {
        if prefix@.len() <= text@.len() {
            assert(text@.take(prefix@.len() as int) =~= text@.subrange(0, prefix@.len() as int));
        }
    }
    answer
}

/// Whether a text ends with another.
pub fn ends_with(text: &str, suffix: &str) -> (answer: bool)
    ensures
        answer == ends(text@, suffix@),
{
    let text = chars_of(text);
    let suffix = chars_of(suffix);
    if text.len() < suffix.len() {
        return false;
    }
    let answer = found_at(&text, &suffix, text.len() - suffix.len());
    assert(text@.skip(text@.len() - suffix@.len()) =~= text@.subrange(
        text@.len() - suffix@.len(),
        text@.len() as int,
    ));
    answer
}

/// Whether a text has another somewhere in it.
pub fn contains(text: &str, needle: &str) -> (answer: bool)
    ensures
        answer == has(text@, needle@),
{
    let hay = chars_of(text);
    let pin = chars_of(needle);
    let mut at: usize = 0;
    while at < hay.len()
        invariant
            at <= hay@.len(),
            hay@ == text@,
            pin@ == needle@,
            forall|i: int| 0 <= i < at ==> !stands_at(text@, needle@, i),
        decreases hay@.len() - at,
    {
        if found_at(&hay, &pin, at) {
            return true;
        }
        at += 1;
    }
    found_at(&hay, &pin, at)
}

/// Texts put one after another with a separator between them.
pub open spec fn joined(list: Seq<Seq<char>>, with: Seq<char>) -> Seq<char>
    decreases list.len(),
{
    if list.len() == 0 {
        Seq::empty()
    } else if list.len() == 1 {
        list[0]
    } else {
        joined(list.drop_last(), with) + with + list.last()
    }
}

/// Cutting a text at a separator loses nothing: the pieces put back together
/// with it are the text.
pub proof fn splitting_loses_nothing(text: Seq<char>, on: char)
    ensures
        joined(split(text, on), seq![on]) == text,
    decreases text.len(),
{
    if text.len() > 0 {
        let before = split(text.drop_last(), on);
        let pieces = split(text, on);
        splitting_loses_nothing(text.drop_last(), on);
        lemma_split_len(text.drop_last(), on);
        assert(text =~= text.drop_last().push(text.last()));
        if text.last() == on {
            assert(pieces.drop_last() =~= before);
            assert(joined(pieces, seq![on]) =~= text.drop_last() + seq![on] + Seq::empty());
        } else {
            assert(pieces.drop_last() =~= before.drop_last());
            assert(pieces.last() == before.last().push(text.last()));
        }
        assert(joined(pieces, seq![on]) =~= text);
    }
}

/// How often a character is in a text.
pub open spec fn occurrences(text: Seq<char>, c: char) -> nat
    decreases text.len(),
{
    if text.len() == 0 {
        0
    } else {
        occurrences(text.drop_last(), c) + if text.last() == c {
            1nat
        } else {
            0
        }
    }
}

/// A text cut at a separator comes to one piece more than it has separators,
/// and no piece has one in it.
pub proof fn every_separator_cuts(text: Seq<char>, on: char)
    ensures
        split(text, on).len() == occurrences(text, on) + 1,
        forall|i: int|
            0 <= i < split(text, on).len() ==> !(#[trigger] split(text, on)[i]).contains(on),
    decreases text.len(),
{
    let pieces = split(text, on);
    if text.len() > 0 {
        let before = split(text.drop_last(), on);
        every_separator_cuts(text.drop_last(), on);
        assert forall|i: int| 0 <= i < pieces.len() implies !(#[trigger] pieces[i]).contains(on) by {
            if i < before.len() {
                assert(!before[i].contains(on));
                if i == before.len() - 1 && text.last() != on {
                    let grown = before[i].push(text.last());
                    assert(pieces[i] == grown);
                    assert forall|k: int| 0 <= k < grown.len() implies grown[k] != on by {
                        if k < before[i].len() {
                            assert(before[i].contains(before[i][k]));
                        }
                    }
                }
            }
        }
    }
}

/// Put texts one after another with a separator between them.
pub fn join(list: &Vec<String>, with: &str) -> (out: String)
    ensures
        out@ == joined(texts(list@), with@),
{
    let mut out = String::new();
    let mut at: usize = 0;
    assert(texts(list@).take(0) =~= Seq::empty());
    while at < list.len()
        invariant
            at <= list@.len(),
            out@ == joined(texts(list@).take(at as int), with@),
        decreases list@.len() - at,
    {
        if at > 0 {
            out.append(with);
        }
        out.append(list[at].as_str());
        at += 1;
        assert(texts(list@).take(at as int).drop_last() =~= texts(list@).take(at - 1));
        assert(out@ =~= joined(texts(list@).take(at as int), with@));
    }
    assert(texts(list@).take(at as int) =~= texts(list@));
    out
}

/// Whether any character of a text is not white space.
pub open spec fn has_ink(text: Seq<char>) -> bool {
    exists|i: int| 0 <= i < text.len() && !is_space(#[trigger] text[i])
}

/// Whether a text is nothing but white space.
pub fn is_blank(text: &str) -> (answer: bool)
    ensures
        answer == !has_ink(text@),
{
    let chars = chars_of(text);
    let mut at: usize = 0;
    while at < chars.len()
        invariant
            at <= chars@.len(),
            chars@ == text@,
            forall|i: int| 0 <= i < at ==> is_space(#[trigger] text@[i]),
        decreases chars@.len() - at,
    {
        if !space(chars[at]) {
            assert(!is_space(text@[at as int]));
            return false;
        }
        at += 1;
    }
    true
}

/// A text without the white space it opens with.
pub open spec fn trimmed_start(text: Seq<char>) -> Seq<char>
    decreases text.len(),
{
    if text.len() == 0 || !is_space(text[0]) {
        text
    } else {
        trimmed_start(text.drop_first())
    }
}

/// A text without the white space it closes with.
pub open spec fn trimmed_end(text: Seq<char>) -> Seq<char>
    decreases text.len(),
{
    if text.len() == 0 || !is_space(text.last()) {
        text
    } else {
        trimmed_end(text.drop_last())
    }
}

/// A text without the white space at either end.
pub open spec fn trimmed(text: Seq<char>) -> Seq<char> {
    trimmed_end(trimmed_start(text))
}

/// A text without the white space at either end.
pub fn trim(text: &str) -> (out: String)
    ensures
        out@ == trimmed(text@),
{
    let chars = chars_of(text);
    let mut from: usize = 0;
    assert(chars@.skip(0) =~= chars@);
    while from < chars.len() && space(chars[from])
        invariant
            from <= chars@.len(),
            trimmed_start(chars@.skip(from as int)) == trimmed_start(chars@),
        decreases chars@.len() - from,
    {
        assert(chars@.skip(from as int).drop_first() =~= chars@.skip(from + 1));
        from += 1;
    }
    let ghost rest = chars@.skip(from as int);
    assert(trimmed_start(chars@) == rest);
    let mut to: usize = chars.len();
    assert(chars@.subrange(from as int, to as int) =~= rest);
    while from < to && space(chars[to - 1])
        invariant
            from <= to <= chars@.len(),
            trimmed_end(chars@.subrange(from as int, to as int)) == trimmed_end(rest),
        decreases to - from,
    {
        assert(chars@.subrange(from as int, to as int).drop_last() =~= chars@.subrange(
            from as int,
            to - 1,
        ));
        to -= 1;
    }
    text_of(&chars, from, to)
}

/// Whether a character separates words: white space, or one of some others.
pub open spec fn is_gap(c: char, also: Seq<char>) -> bool {
    is_space(c) || also.contains(c)
}

/// The runs of characters between gaps.
pub open spec fn runs(text: Seq<char>, also: Seq<char>) -> Seq<Seq<char>>
    decreases text.len(),
{
    if text.len() == 0 {
        Seq::empty()
    } else {
        let before = runs(text.drop_last(), also);
        let c = text.last();
        if is_gap(c, also) {
            before
        } else if text.len() == 1 || is_gap(text[text.len() - 2], also) {
            before.push(seq![c])
        } else {
            before.update(before.len() - 1, before.last().push(c))
        }
    }
}

/// The runs of characters between white space.
pub open spec fn words(text: Seq<char>) -> Seq<Seq<char>> {
    runs(text, Seq::empty())
}

/// A text whose last character is no gap has a last run.
proof fn lemma_runs_open(text: Seq<char>, also: Seq<char>)
    requires
        text.len() > 0,
        !is_gap(text.last(), also),
    ensures
        runs(text, also).len() > 0,
    decreases text.len(),
{
    if text.len() > 1 && !is_gap(text[text.len() - 2], also) {
        assert(text.drop_last().last() == text[text.len() - 2]);
        lemma_runs_open(text.drop_last(), also);
    }
}

/// Whether a character separates words.
fn gap(c: char, also: &Vec<char>) -> (answer: bool)
    ensures
        answer == is_gap(c, also@),
{
    if space(c) {
        return true;
    }
    let mut at: usize = 0;
    while at < also.len()
        invariant
            at <= also@.len(),
            forall|i: int| 0 <= i < at ==> also@[i] != c,
            !is_space(c),
        decreases also@.len() - at,
    {
        if also[at] == c {
            assert(also@.contains(c));
            return true;
        }
        at += 1;
    }
    false
}

/// The runs of characters between gaps.
pub fn runs_of(text: &str, also: &Vec<char>) -> (out: Vec<String>)
    ensures
        texts(out@) == runs(text@, also@),
{
    let chars = chars_of(text);
    let mut out: Vec<String> = Vec::new();
    let mut at: usize = 0;
    assert(texts(out@) =~= runs(text@.take(0), also@));
    while at < chars.len()
        invariant
            at <= chars@.len(),
            chars@ == text@,
            texts(out@) == runs(text@.take(at as int), also@),
        decreases chars@.len() - at,
    {
        let c = chars[at];
        let ghost before = runs(text@.take(at as int), also@);
        let ghost seen = text@.take(at as int);
        assert(text@.take(at + 1).drop_last() =~= seen);
        if !gap(c, also) {
            if at == 0 || gap(chars[at - 1], also) {
                let mut word = String::new();
                word.push(c);
                out.push(word);
                assert(word@ =~= seq![c]);
                assert(texts(out@) =~= before.push(seq![c]));
            } else {
                proof {
                    lemma_runs_open(seen, also@);
                }
                let ghost list = out@;
                assert(before.len() == list.len());
                let mut word = out.pop().unwrap();
                assert(word@ == before.last());
                word.push(c);
                out.push(word);
                assert(texts(out@) =~= before.update(before.len() - 1, before.last().push(c)));
            }
        }
        at += 1;
    }
    assert(text@.take(at as int) =~= text@);
    out
}

/// The runs of characters between white space.
pub fn words_of(text: &str) -> (out: Vec<String>)
    ensures
        texts(out@) == words(text@),
{
    let none: Vec<char> = Vec::new();
    assert(none@ =~= Seq::<char>::empty());
    runs_of(text, &none)
}

} // verus!
