//! Which statements count as reading.
use crate::session::{ends_word, keyword, opens_a_read, word_end, word_start};
use crate::text::{ascii_lowered, is_space};
use vstd::prelude::*;

verus! {

/// Seven words open a statement that only reads, and every other statement
/// counts as one that writes.
pub proof fn seven_words_open_a_read(word: Seq<char>)
    ensures
        opens_a_read(word) <==> seq![
            "select"@,
            "with"@,
            "show"@,
            "explain"@,
            "table"@,
            "values"@,
            "fetch"@,
        ].contains(word),
{
    let words = seq![
        "select"@,
        "with"@,
        "show"@,
        "explain"@,
        "table"@,
        "values"@,
        "fetch"@,
    ];
    assert(words[0] == "select"@);
    assert(words[1] == "with"@);
    assert(words[2] == "show"@);
    assert(words[3] == "explain"@);
    assert(words[4] == "table"@);
    assert(words[5] == "values"@);
    assert(words[6] == "fetch"@);
    if words.contains(word) {
        let k = choose|k: int| 0 <= k < words.len() && words[k] == word;
        assert(k == 0 || k == 1 || k == 2 || k == 3 || k == 4 || k == 5 || k == 6);
    }
}

/// The gaps before a word are passed over.
proof fn lemma_start(sql: Seq<char>, at: int, to: int)
    requires
        0 <= at <= to < sql.len(),
        forall|i: int|
            at <= i < to ==> is_space(#[trigger] sql[i]) || sql[i] == '(' || sql[i] == ';',
        !is_space(sql[to]) && sql[to] != '(' && sql[to] != ';',
        !(to + 1 < sql.len() && sql[to] == '-' && sql[to + 1] == '-'),
    ensures
        word_start(sql, at, false) == to,
    decreases to - at,
{
    if at < to {
        assert(is_space(sql[at]) || sql[at] == '(' || sql[at] == ';');
        lemma_start(sql, at + 1, to);
    }
}

/// A word goes on to what ends it.
proof fn lemma_end(sql: Seq<char>, at: int, to: int)
    requires
        0 <= at <= to <= sql.len(),
        forall|i: int| at <= i < to ==> !ends_word(#[trigger] sql[i]),
        to < sql.len() ==> ends_word(sql[to]),
    ensures
        word_end(sql, at) == to,
    decreases to - at,
{
    if at < to {
        assert(!ends_word(sql[at]));
        lemma_end(sql, at + 1, to);
    }
}

/// A statement is told by its first word, whatever its case: the white space, the
/// brackets and the semicolons before it do not count, and neither does what
/// comes behind it.
pub proof fn a_statement_is_told_by_its_first_word(
    before: Seq<char>,
    word: Seq<char>,
    rest: Seq<char>,
)
    requires
        forall|i: int|
            0 <= i < before.len() ==> is_space(#[trigger] before[i]) || before[i] == '('
                || before[i] == ';',
        word.len() > 0,
        forall|i: int|
            0 <= i < word.len() ==> !is_space(#[trigger] word[i]) && word[i] != '(' && word[i]
                != ';' && word[i] != '-',
        rest.len() > 0 ==> is_space(rest[0]) || rest[0] == '(' || rest[0] == ';',
    ensures
        keyword(before + word + rest) == ascii_lowered(word),
{
    let sql = before + word + rest;
    let from = before.len() as int;
    let to = from + word.len();
    assert forall|i: int| 0 <= i < from implies is_space(#[trigger] sql[i]) || sql[i] == '('
        || sql[i] == ';' by {
        assert(sql[i] == before[i]);
    }
    assert(sql[from] == word[0]);
    lemma_start(sql, 0, from);
    assert forall|i: int| from <= i < to implies !ends_word(#[trigger] sql[i]) by {
        assert(sql[i] == word[i - from]);
    }
    if to < sql.len() {
        assert(sql[to] == rest[0]);
    }
    lemma_end(sql, from, to);
    assert(sql.subrange(from, to) =~= word);
}

} // verus!
