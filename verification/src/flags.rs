//! What the switches of a launch say.
use crate::catalog::RelationRef;
use crate::lists::{first, group_views, lemma_first, views};
use crate::naming::{parse_number, parsed};
use crate::pane::{Chip, ChipView, Join, ResultsTab};
use crate::text::{
    chars_of, same, split, split_on, starts, starts_with, text_of, texts, trim, trimmed,
};
use crate::window::{name, names, InspectorTab, ObjectOp, SidebarTab};
use vstd::prelude::*;

verus! {

broadcast use group_views;

/// Whether a character is another.
pub open spec fn is_char(on: char) -> spec_fn(char) -> bool {
    |c: char| c == on
}

/// A text cut in two at the first of a character, which is in neither half.
pub open spec fn cut(text: Seq<char>, on: char) -> Option<(Seq<char>, Seq<char>)> {
    let at = first(text, is_char(on));
    if at < text.len() {
        Some((text.take(at), text.skip(at + 1)))
    } else {
        None
    }
}

/// Two halves of a text, as values.
pub open spec fn halves(pair: Option<(String, String)>) -> Option<(Seq<char>, Seq<char>)> {
    match pair {
        Some(pair) => Some((pair.0@, pair.1@)),
        None => None,
    }
}

/// A text cut in two at the first of a character.
pub fn split_once(text: &str, on: char) -> (pair: Option<(String, String)>)
    ensures
        halves(pair) == cut(text@, on),
{
    let chars = chars_of(text);
    let mut at: usize = 0;
    while at < chars.len() && chars[at] != on
        invariant
            at <= chars@.len(),
            chars@ == text@,
            forall|i: int| 0 <= i < at ==> (#[trigger] text@[i]) != on,
        decreases chars@.len() - at,
    {
        at += 1;
    }
    proof {
        lemma_first(text@, is_char(on), at as int);
    }
    if at < chars.len() {
        let before = text_of(&chars, 0, at);
        let after = text_of(&chars, at + 1, chars.len());
        assert(before@ =~= text@.take(at as int));
        assert(after@ =~= text@.skip(at + 1));
        Some((before, after))
    } else {
        None
    }
}

/// The relation a `schema.table` names.
pub fn table_named(text: &str) -> (relation: Option<RelationRef>)
    ensures
        name(relation) == cut(text@, '.'),
{
    match split_once(text, '.') {
        Some((schema, table)) => Some(RelationRef { schema, name: table }),
        None => None,
    }
}

/// The relations some pieces name. A piece that names none is passed over.
pub open spec fn tables_in(pieces: Seq<Seq<char>>) -> Seq<(Seq<char>, Seq<char>)>
    decreases pieces.len(),
{
    if pieces.len() == 0 {
        Seq::empty()
    } else {
        let before = tables_in(pieces.drop_last());
        let piece = trimmed(pieces.last());
        match cut(piece, '.') {
            Some(table) => before.push(table),
            None => before,
        }
    }
}

/// The relations a list with commas in it names, in order.
pub fn tables_named(spec: &str) -> (tables: Vec<RelationRef>)
    ensures
        names(tables@) == tables_in(split(spec@, ',')),
{
    let pieces = split_on(spec, ',');
    let ghost all = texts(pieces@);
    let mut tables: Vec<RelationRef> = Vec::new();
    let mut at: usize = 0;
    assert(names(tables@) =~= tables_in(all.take(0)));
    while at < pieces.len()
        invariant
            at <= pieces@.len(),
            all == texts(pieces@),
            names(tables@) == tables_in(all.take(at as int)),
        decreases pieces@.len() - at,
    {
        let ghost had = names(tables@);
        assert(all.take(at + 1).drop_last() =~= all.take(at as int));
        let piece = trim(pieces[at].as_str());
        if let Some(table) = table_named(piece.as_str()) {
            tables.push(table);
            assert(names(tables@) =~= had.push(table.parts()));
        }
        at += 1;
    }
    assert(all.take(at as int) =~= all);
    tables
}

/// The cell a `row,column` names.
pub open spec fn cell_in(text: Seq<char>) -> Option<(usize, usize)> {
    match cut(text, ',') {
        Some(pair) => match (parsed(trimmed(pair.0)), parsed(trimmed(pair.1))) {
            (Some(row), Some(col)) => Some((row, col)),
            _ => None,
        },
        None => None,
    }
}

/// The cell a `row,column` names.
pub fn cell_named(text: &str) -> (cell: Option<(usize, usize)>)
    ensures
        cell == cell_in(text@),
{
    match split_once(text, ',') {
        Some((row, col)) => {
            let row = parse_number(trim(row.as_str()).as_str());
            let col = parse_number(trim(col.as_str()).as_str());
            match (row, col) {
                (Some(row), Some(col)) => Some((row, col)),
                _ => None,
            }
        },
        None => None,
    }
}

/// Whether a text is another.
pub open spec fn is_text(word: Seq<char>) -> spec_fn(Seq<char>) -> bool {
    |text: Seq<char>| text == word
}

/// The operator a word spells: its place in the list of spellings.
pub open spec fn operator_in(words: Seq<Seq<char>>, word: Seq<char>) -> Option<usize> {
    let at = first(words, is_text(word));
    if at < words.len() {
        Some(at as usize)
    } else {
        None
    }
}

/// The operator a word spells.
pub fn operator_named(words: &Vec<String>, word: &str) -> (op: Option<usize>)
    ensures
        op == operator_in(texts(words@), word@),
{
    let ghost all = texts(words@);
    let mut at: usize = 0;
    while at < words.len()
        invariant
            at <= words@.len(),
            all == texts(words@),
            forall|i: int| 0 <= i < at ==> !is_text(word@)(#[trigger] all[i]),
        decreases words@.len() - at,
    {
        if same(words[at].as_str(), word) {
            proof {
                lemma_first(all, is_text(word@), at as int);
            }
            return Some(at);
        }
        at += 1;
    }
    proof {
        lemma_first(all, is_text(word@), at as int);
    }
    None
}

/// The condition a term says: a column, an operator and what is left, with an
/// `or` in front or without. A term without an operator says none.
pub open spec fn chip_in(term: Seq<char>, words: Seq<Seq<char>>) -> Option<ChipView> {
    let (join, rest) = joined_by(trimmed(term));
    match cut(rest, ' ') {
        None => None,
        Some(pair) => {
            let (word, value) = match cut(pair.1, ' ') {
                Some(more) => more,
                None => (pair.1, Seq::empty()),
            };
            match operator_in(words, word) {
                Some(op) => Some(ChipView { column: pair.0, op, value, join }),
                None => None,
            }
        },
    }
}

/// How a term joins the one before it, and the rest of it.
pub open spec fn joined_by(term: Seq<char>) -> (Join, Seq<char>) {
    if starts(term, "or "@) {
        (Join::Or, term.skip(3))
    } else {
        (Join::And, term)
    }
}

/// An optional condition, as a value.
pub open spec fn chip_view(chip: Option<Chip>) -> Option<ChipView> {
    match chip {
        Some(chip) => Some(chip@),
        None => None,
    }
}

/// The condition a term says.
pub fn chip_named(term: &str, words: &Vec<String>) -> (chip: Option<Chip>)
    ensures
        chip_view(chip) == chip_in(term@, texts(words@)),
{
    let said = trim(term);
    let (join, rest) = if starts_with(said.as_str(), "or ") {
        let chars = chars_of(said.as_str());
        proof {
            reveal_strlit("or ");
        }
        let rest = text_of(&chars, 3, chars.len());
        assert(rest@ =~= said@.skip(3));
        (Join::Or, rest)
    } else {
        (Join::And, said)
    };
    match split_once(rest.as_str(), ' ') {
        None => None,
        Some((column, tail)) => {
            let (word, value) = match split_once(tail.as_str(), ' ') {
                Some((word, value)) => (word, value),
                None => (tail, String::new()),
            };
            match operator_named(words, word.as_str()) {
                Some(op) => {
                    let chip = Chip { column, op, value, join };
                    assert(chip@ =~= chip_in(term@, texts(words@))->Some_0);
                    Some(chip)
                },
                None => None,
            }
        },
    }
}

/// The conditions some terms say. A term that says none is passed over.
pub open spec fn chips_in(terms: Seq<Seq<char>>, words: Seq<Seq<char>>) -> Seq<ChipView>
    decreases terms.len(),
{
    if terms.len() == 0 {
        Seq::empty()
    } else {
        let before = chips_in(terms.drop_last(), words);
        match chip_in(terms.last(), words) {
            Some(chip) => before.push(chip),
            None => before,
        }
    }
}

/// The conditions a list with commas in it says, in order.
pub fn chips_named(spec: &str, words: &Vec<String>) -> (chips: Vec<Chip>)
    ensures
        views(chips@) == chips_in(split(spec@, ','), texts(words@)),
{
    let terms = split_on(spec, ',');
    let ghost all = texts(terms@);
    let mut chips: Vec<Chip> = Vec::new();
    let mut at: usize = 0;
    assert(views(chips@) =~= chips_in(all.take(0), texts(words@)));
    while at < terms.len()
        invariant
            at <= terms@.len(),
            all == texts(terms@),
            views(chips@) == chips_in(all.take(at as int), texts(words@)),
        decreases terms@.len() - at,
    {
        assert(all.take(at + 1).drop_last() =~= all.take(at as int));
        if let Some(chip) = chip_named(terms[at].as_str(), words) {
            chips.push(chip);
        }
        at += 1;
    }
    assert(all.take(at as int) =~= all);
    chips
}

/// The sidebar tab a word names.
pub open spec fn sidebar_in(word: Seq<char>) -> Option<SidebarTab> {
    if word == "database"@ {
        Some(SidebarTab::Database)
    } else if word == "queries"@ {
        Some(SidebarTab::Queries)
    } else if word == "history"@ {
        Some(SidebarTab::History)
    } else {
        None
    }
}

/// The sidebar tab a word names.
pub fn sidebar_named(word: &str) -> (tab: Option<SidebarTab>)
    ensures
        tab == sidebar_in(word@),
{
    if same(word, "database") {
        Some(SidebarTab::Database)
    } else if same(word, "queries") {
        Some(SidebarTab::Queries)
    } else if same(word, "history") {
        Some(SidebarTab::History)
    } else {
        None
    }
}

/// The face of the results a word names.
pub open spec fn results_in(word: Seq<char>) -> Option<ResultsTab> {
    if word == "data"@ {
        Some(ResultsTab::Data)
    } else if word == "structure"@ {
        Some(ResultsTab::Structure)
    } else if word == "ddl"@ {
        Some(ResultsTab::Ddl)
    } else if word == "privileges"@ {
        Some(ResultsTab::Privileges)
    } else if word == "messages"@ {
        Some(ResultsTab::Messages)
    } else {
        None
    }
}

/// The face of the results a word names.
pub fn results_named(word: &str) -> (tab: Option<ResultsTab>)
    ensures
        tab == results_in(word@),
{
    if same(word, "data") {
        Some(ResultsTab::Data)
    } else if same(word, "structure") {
        Some(ResultsTab::Structure)
    } else if same(word, "ddl") {
        Some(ResultsTab::Ddl)
    } else if same(word, "privileges") {
        Some(ResultsTab::Privileges)
    } else if same(word, "messages") {
        Some(ResultsTab::Messages)
    } else {
        None
    }
}

/// The face of the inspector a word names.
pub open spec fn inspector_in(word: Seq<char>) -> Option<InspectorTab> {
    if word == "row"@ {
        Some(InspectorTab::Row)
    } else if word == "table"@ {
        Some(InspectorTab::Table)
    } else {
        None
    }
}

/// The face of the inspector a word names.
pub fn inspector_named(word: &str) -> (tab: Option<InspectorTab>)
    ensures
        tab == inspector_in(word@),
{
    if same(word, "row") {
        Some(InspectorTab::Row)
    } else if same(word, "table") {
        Some(InspectorTab::Table)
    } else {
        None
    }
}

/// The operation on an object a word names.
pub open spec fn operation_in(word: Seq<char>) -> Option<ObjectOp> {
    if word == "rename"@ {
        Some(ObjectOp::Rename)
    } else if word == "truncate"@ {
        Some(ObjectOp::Truncate)
    } else if word == "drop"@ {
        Some(ObjectOp::Drop)
    } else {
        None
    }
}

/// The operation on an object a word names.
pub fn operation_named(word: &str) -> (op: Option<ObjectOp>)
    ensures
        op == operation_in(word@),
{
    if same(word, "rename") {
        Some(ObjectOp::Rename)
    } else if same(word, "truncate") {
        Some(ObjectOp::Truncate)
    } else if same(word, "drop") {
        Some(ObjectOp::Drop)
    } else {
        None
    }
}

} // verus!
