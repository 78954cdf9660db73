//! What a query is called where nobody has named it.
use crate::naming::{clipped, first_line, packed, statement_name, suggestion, title, unstopped};
use crate::text::{is_space, joined, split, starts, trimmed, words};
use crate::text_laws::{a_title_ends_at_the_first_stop, trimming_takes_the_ends_off};
use vstd::prelude::*;

verus! {

/// A text without a separator is one piece.
proof fn lemma_one_piece(text: Seq<char>, on: char)
    requires
        forall|i: int| 0 <= i < text.len() ==> (#[trigger] text[i]) != on,
    ensures
        split(text, on) == seq![text],
    decreases text.len(),
{
    if text.len() > 0 {
        let rest = text.drop_last();
        assert forall|i: int| 0 <= i < rest.len() implies (#[trigger] rest[i]) != on by {
            assert(rest[i] == text[i]);
        }
        lemma_one_piece(rest, on);
        assert(text[text.len() - 1] != on);
        assert(text =~= rest.push(text.last()));
        assert(split(text, on) =~= seq![text]);
    }
}

/// The first piece of a text is what comes before its first separator.
proof fn lemma_first_piece(a: Seq<char>, on: char, b: Seq<char>)
    requires
        forall|i: int| 0 <= i < a.len() ==> (#[trigger] a[i]) != on,
    ensures
        split(a.push(on) + b, on).len() >= 2,
        split(a.push(on) + b, on)[0] == a,
    decreases b.len(),
{
    let text = a.push(on) + b;
    if b.len() == 0 {
        lemma_one_piece(a, on);
        assert(text =~= a.push(on));
        assert(text.drop_last() =~= a);
    } else {
        assert(text.drop_last() =~= a.push(on) + b.drop_last());
        lemma_first_piece(a, on, b.drop_last());
    }
}

/// A text that neither opens nor closes with white space is trimmed.
proof fn lemma_trimmed(text: Seq<char>)
    requires
        text.len() > 0,
        !is_space(text[0]),
        !is_space(text.last()),
    ensures
        trimmed(text) == text,
{
    let ends = trimming_takes_the_ends_off(text);
    if ends.0 > 0 {
        assert(is_space(text[0]));
    }
    if ends.1 < text.len() {
        assert(is_space(text[text.len() - 1]));
    }
    assert(text.subrange(0, text.len() as int) =~= text);
}

/// A query that opens with a comment is called what the comment says, up to its
/// first stop; what comes behind the comment has no say in it.
pub proof fn a_query_is_called_what_its_comment_says(name: Seq<char>, rest: Seq<char>)
    requires
        0 < name.len() <= 48,
        !is_space(name[0]) && !is_space(name.last()),
        forall|i: int|
            0 <= i < name.len() ==> (#[trigger] name[i]) != '\n' && name[i] != ',' && name[i] != ';'
                && name[i] != '.',
    ensures
        suggestion(("-- "@ + name).push('\n') + rest) == name,
{
    reveal_strlit("-- ");
    reveal_strlit("--");
    let line = "-- "@ + name;
    let sql = line.push('\n') + rest;
    assert forall|i: int| 0 <= i < line.len() implies (#[trigger] line[i]) != '\n' by {
        if i >= 3 {
            assert(line[i] == name[i - 3]);
        }
    }
    lemma_first_piece(line, '\n', rest);
    assert(line[0] == '-');
    assert(line.last() == name.last());
    lemma_trimmed(line);
    let lines = split(sql, '\n');
    assert(first_line(lines) == line);
    assert(line.take(2) =~= "--"@);
    assert(starts(line, "--"@));
    let comment = line.skip(2);
    assert(comment =~= seq![' '] + name);
    let at = a_title_ends_at_the_first_stop(comment);
    if at < comment.len() {
        if at > 0 {
            assert(comment[at] == name[at - 1]);
        } else {
            assert(comment[0] == ' ');
        }
        assert(false);
    }
    assert(comment.take(comment.len() as int) =~= comment);
    assert(title(comment) == comment);
    let ends = trimming_takes_the_ends_off(comment);
    assert(comment[1] == name[0]);
    assert(comment[comment.len() - 1] == name.last());
    if ends.0 == 0 {
        if ends.0 < ends.1 {
            assert(is_space(comment[0]));
        } else {
            assert(is_space(comment[1]));
        }
        assert(false);
    }
    if ends.0 > 1 {
        assert(is_space(comment[1]));
    }
    if ends.1 < comment.len() {
        assert(is_space(comment[comment.len() - 1]));
    }
    assert(comment.subrange(1, comment.len() as int) =~= name);
    assert(trimmed(comment) == name);
    assert(unstopped(name) == name);
    assert(clipped(name, 48) == name);
}

/// How many words a clipped text keeps: as many as fit, with spaces between, and
/// the next would not. The number is how many.
pub proof fn a_clipped_text_keeps_what_fits(list: Seq<Seq<char>>, max: nat) -> (kept: int)
    requires
        forall|i: int| 0 <= i < list.len() ==> (#[trigger] list[i]).len() > 0,
    ensures
        0 <= kept <= list.len(),
        packed(Seq::empty(), list, max) == joined(list.take(kept), " "@),
        kept < list.len() ==> joined(list.take(kept), " "@).len() + list[kept].len() + 1 > max,
{
    assert(list.take(0) =~= Seq::empty());
    assert(list.skip(0) =~= list);
    lemma_packed(list, 0, max)
}

/// Packing goes on from the words that are there.
proof fn lemma_packed(list: Seq<Seq<char>>, at: int, max: nat) -> (kept: int)
    requires
        0 <= at <= list.len(),
        forall|i: int| 0 <= i < list.len() ==> (#[trigger] list[i]).len() > 0,
    ensures
        at <= kept <= list.len(),
        packed(joined(list.take(at), " "@), list.skip(at), max) == joined(list.take(kept), " "@),
        kept < list.len() ==> joined(list.take(kept), " "@).len() + list[kept].len() + 1 > max,
    decreases list.len() - at,
{
    reveal_strlit(" ");
    let out = joined(list.take(at), " "@);
    let rest = list.skip(at);
    if at == list.len() || out.len() + list[at].len() + 1 > max {
        if at < list.len() {
            assert(rest[0] == list[at]);
        }
        at
    } else {
        assert(rest[0] == list[at]);
        assert(rest.drop_first() =~= list.skip(at + 1));
        let more = list.take(at + 1);
        assert(more.drop_last() =~= list.take(at));
        assert(more.last() == list[at]);
        if at == 0 {
            assert(out.len() == 0);
            assert(more.len() == 1);
            assert(joined(more, " "@) == list[0]);
        } else {
            lemma_joined_nonempty(list.take(at));
            assert(out.push(' ') + list[at] =~= out + " "@ + list[at]);
            assert(joined(more, " "@) == out + " "@ + list[at]);
        }
        lemma_packed(list, at + 1, max)
    }
}

/// Words put together are something.
proof fn lemma_joined_nonempty(list: Seq<Seq<char>>)
    requires
        list.len() > 0,
        forall|i: int| 0 <= i < list.len() ==> (#[trigger] list[i]).len() > 0,
    ensures
        joined(list, " "@).len() > 0,
{
    assert(list[list.len() - 1].len() > 0);
}

/// A query without a comment is called by its first words, as many as a name
/// has; where they fit, they are all there.
pub proof fn a_query_is_called_by_its_first_words(sql: Seq<char>, list: Seq<Seq<char>>)
    requires
        words(sql) == list,
        !starts(first_line(split(sql, '\n')), "--"@),
    ensures
        list.len() <= 6 ==> statement_name(sql) == clipped(
            joined(list, " "@),
            48,
        ),
        list.len() > 6 ==> statement_name(sql) == clipped(
            joined(list.take(6), " "@),
            48,
        ),
        statement_name(sql).len() == 0 ==> suggestion(sql) == "Untitled query"@,
        statement_name(sql).len() > 0 ==> suggestion(sql) == statement_name(sql),
{
    if list.len() <= 6 {
        assert(list.take(list.len() as int) =~= list);
    }
}

} // verus!
