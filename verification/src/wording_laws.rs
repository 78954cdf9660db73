//! What the few words for a count, a time, a day or a table say.
use crate::binary64::a_whole_quotient_is_exact;
use crate::catalog::{catalog_has, schema_has, RelationRef, Role, SchemaSnapshot};
use crate::clock::{clock, heading, local_second};
use crate::flags::{
    cell_in, chip_in, cut, inspector_in, is_text, joined_by, operation_in, operator_in, results_in,
    sidebar_in, tables_in,
};
use crate::lists::lemma_first;
use crate::pane::{ChipView, Join};
use crate::text::{decimal, digit, is_space, joined, starts, texts, trimmed, words};
use crate::text_laws::{a_cut_is_at_the_first, a_written_number_reads_back, white_space_parts_words};
use crate::window::SidebarTab;
use crate::wording::{
    count_text, counted, estimate, expiry, first_word, grouped, role_line, scan_count, tenths,
};
use vstd::prelude::*;

verus! {

/// One of a thing is one of it, and any other number of them takes the plural:
/// the word for many, or the word for one with an `s` behind it, or with `es`
/// where it ends in an `x` or an `s`.
pub proof fn one_is_not_many(n: nat, one: Seq<char>, many: Seq<char>)
    ensures
        counted(1, one, many) == decimal(1).push(' ') + one,
        n != 1 ==> counted(n, one, many) == decimal(n).push(' ') + many,
        count_text(1, one) == "1 "@ + one,
        n != 1 && one.len() > 0 && (one.last() == 'x' || one.last() == 's') ==> count_text(n, one)
            == grouped(n, ',').push(' ') + one + "es"@,
        n != 1 && !(one.len() > 0 && (one.last() == 'x' || one.last() == 's')) ==> count_text(
            n,
            one,
        ) == (grouped(n, ',').push(' ') + one).push('s'),
        n < 1000 ==> grouped(n, ',') == decimal(n),
{
    if n != 1 {
        if one.len() > 0 && (one.last() == 'x' || one.last() == 's') {
            assert(grouped(n, ',').push(' ') + (one + "es"@) =~= grouped(n, ',').push(' ') + one
                + "es"@);
        } else {
            assert(grouped(n, ',').push(' ') + one.push('s') =~= (grouped(n, ',').push(' ')
                + one).push('s'));
        }
    }
}

/// What an unfinished walk has found is never given as how many there are.
pub proof fn a_sample_is_not_an_inventory(n: nat)
    ensures
        scan_count(n, false) == grouped(n, ',') + " scanned"@,
        scan_count(1, true) == grouped(1, ',') + " key"@,
        n != 1 ==> scan_count(n, true) == grouped(n, ',') + " keys"@,
{
}

/// A key that never expires says nothing of it, and one that does says how long
/// it has.
pub proof fn a_key_says_how_long_it_has(seconds: i64, time_left: Seq<char>)
    ensures
        expiry(None, time_left) is None,
        seconds < 0 ==> expiry(Some(seconds), time_left) is None,
        seconds >= 0 ==> expiry(Some(seconds), time_left) == Some(time_left),
{
}

/// A role's row has room for two facts, and the first of them is that the role
/// is the one connected as. A role with nothing to say of itself says how many
/// roles it belongs to, if any.
pub proof fn a_role_says_two_things(role: Role)
    ensures
        ({
            let said = texts(role.attributes@);
            &&& said.len() == 0 ==> role_line(role, true) == Some("you"@)
            &&& said.len() > 0 ==> role_line(role, true) == Some("you"@ + " · "@ + said[0])
            &&& said.len() == 1 ==> role_line(role, false) == Some(said[0])
            &&& said.len() > 1 ==> role_line(role, false) == Some(said[0] + " · "@ + said[1])
            &&& said.len() == 0 && role.member_of@.len() > 0 ==> role_line(role, false) == Some(
                "member of "@ + decimal(role.member_of@.len()),
            )
            &&& said.len() == 0 && role.member_of@.len() == 0 ==> role_line(role, false) is None
        }),
{
    reveal_with_fuel(joined, 3);
    let said = texts(role.attributes@);
    let none = Seq::<Seq<char>>::empty();
    let you = seq!["you"@];
    if said.len() == 0 {
        assert(you + said.take(0) =~= you);
        assert(none + said.take(0) =~= none);
    } else {
        let both = you + said.take(1);
        assert(both =~= seq!["you"@, said[0]]);
        assert(both.drop_last() =~= you);
        if said.len() == 1 {
            assert(none + said.take(1) =~= seq![said[0]]);
        } else {
            let two = none + said.take(2);
            assert(two =~= seq![said[0], said[1]]);
            assert(two.drop_last() =~= seq![said[0]]);
        }
    }
}

/// A day is today, or yesterday, or so many days ago within the week, and so
/// many whole weeks ago from there on.
pub proof fn a_day_is_told_by_how_long_ago_it_was(today: int, days: nat, weeks: nat, over: nat)
    requires
        2 <= days < 7,
        1 <= weeks,
        over < 7,
    ensures
        heading(today, today) == "Today"@,
        heading(today, today - 1) == "Yesterday"@,
        heading(today, today - days) == decimal(days) + " days ago"@,
        heading(today, today - (7 * weeks + over)) == decimal(weeks) + " weeks ago"@,
{
    let ago = today - (today - (7 * weeks + over));
    assert(ago / 7 == weeks);
}

/// A time of day is two digits of the hour, two of the minute and two of the
/// second, with colons between.
pub proof fn a_time_is_hours_minutes_seconds(hour: nat, minute: nat, second: nat)
    requires
        hour < 24,
        minute < 60,
        second < 60,
    ensures
        clock(hour * 3600 + minute * 60 + second) == seq![
            digit(hour / 10),
            digit(hour % 10),
            ':',
            digit(minute / 10),
            digit(minute % 10),
            ':',
            digit(second / 10),
            digit(second % 10),
        ],
{
    let all = hour * 3600 + minute * 60 + second;
    assert(all / 3600 == hour);
    assert(all % 3600 == minute * 60 + second);
    assert((minute * 60 + second) / 60 == minute);
    assert(all % 60 == second);
}

/// A second is a thousand milliseconds, on either side of the epoch, and a zone
/// east of Greenwich is that much ahead.
pub proof fn a_second_is_a_thousand_milliseconds(second: int, over: int, offset: int)
    requires
        0 <= over < 1000,
    ensures
        local_second(second * 1000 + over, offset) == second + offset,
{
}

/// An estimate says a dash where nobody has counted, nothing but the number
/// below a thousand, and so many thousands, millions or billions above; what is
/// a whole number of those is that number.
pub proof fn an_estimate_is_about_right(rows: int, some: nat)
    requires
        1 <= some < 1000,
    ensures
        rows < 0 ==> estimate(rows) == "—"@,
        estimate(0) == "0"@,
        estimate(some as int) == "~"@ + decimal(some),
        estimate((some * 1_000) as int) == ("~"@ + decimal(some)).push('k'),
        estimate((some * 1_000_000) as int) == ("~"@ + decimal(some)).push('.').push('0').push('M'),
        estimate((some * 1_000_000_000) as int) == ("~"@ + decimal(some)).push('.').push('0').push('B'),
{
    a_whole_quotient_is_exact(some, 1_000, 1);
    a_whole_quotient_is_exact(some, 1_000_000, 10);
    a_whole_quotient_is_exact(some, 1_000_000_000, 10);
    assert(some * 10 / 10 == some);
    assert(some * 10 % 10 == 0);
    assert(tenths(some * 10) == decimal(some).push('.').push('0'));
    assert(("~"@ + tenths(some * 10)).push('M') =~= ("~"@ + decimal(some)).push('.').push('0').push(
        'M',
    ));
    assert(("~"@ + tenths(some * 10)).push('B') =~= ("~"@ + decimal(some)).push('.').push('0').push(
        'B',
    ));
}

/// A relation is written as its schema, a full stop and its name, and what is
/// written so is read back, unless a full stop is in the schema's own name.
pub proof fn a_qualified_name_reads_back(reference: RelationRef)
    ensures
        reference.spec_qualified() == reference.schema@ + "."@ + reference.name@,
        !reference.schema@.contains('.') ==> cut(reference.spec_qualified(), '.') == Some(
            (reference.schema@, reference.name@),
        ),
{
    reveal_strlit(".");
    assert(reference.schema@ + "."@ =~= reference.schema@.push('.'));
    a_cut_is_at_the_first(reference.schema@, '.', reference.name@);
}

/// A catalog has a relation exactly where one of its schemas has that name and
/// one of the relations of that schema the other.
pub proof fn a_catalog_has_what_is_listed(
    snapshot: SchemaSnapshot,
    schema: int,
    at: int,
    relation: (Seq<char>, Seq<char>),
)
    ensures
        0 <= schema < snapshot.schemas@.len() && 0 <= at
            < snapshot.schemas@[schema].relations@.len() ==> catalog_has(
            snapshot,
            (
                snapshot.schemas@[schema].name@,
                snapshot.schemas@[schema].relations@[at].reference.name@,
            ),
        ),
        (forall|i: int, j: int|
            0 <= i < snapshot.schemas@.len() && 0 <= j < snapshot.schemas@[i].relations@.len()
                && snapshot.schemas@[i].name@ == relation.0 ==> (
            #[trigger] snapshot.schemas@[i].relations@[j]).reference.name@ != relation.1)
            ==> !catalog_has(snapshot, relation),
{
    if 0 <= schema < snapshot.schemas@.len() && 0 <= at
        < snapshot.schemas@[schema].relations@.len() {
        assert(schema_has(
            snapshot.schemas@[schema],
            snapshot.schemas@[schema].relations@[at].reference.name@,
        ));
    }
}

/// The words that name a place to start in each name another, and nothing else
/// names one.
pub proof fn every_place_has_its_word(word: Seq<char>)
    ensures
        sidebar_in(word) is Some <==> word == "database"@ || word == "queries"@ || word
            == "history"@,
        sidebar_in("database"@) == Some(SidebarTab::Database),
        sidebar_in("queries"@) == Some(SidebarTab::Queries),
        sidebar_in("history"@) == Some(SidebarTab::History),
        results_in(word) is Some <==> word == "data"@ || word == "structure"@ || word == "ddl"@
            || word == "privileges"@ || word == "messages"@,
        results_in("data"@)->Some_0 is Data,
        results_in("structure"@)->Some_0 is Structure,
        results_in("ddl"@)->Some_0 is Ddl,
        results_in("privileges"@)->Some_0 is Privileges,
        results_in("messages"@)->Some_0 is Messages,
        inspector_in(word) is Some <==> word == "row"@ || word == "table"@,
        inspector_in("row"@)->Some_0 is Row,
        inspector_in("table"@)->Some_0 is Table,
        operation_in(word) is Some <==> word == "rename"@ || word == "truncate"@ || word
            == "drop"@,
        operation_in("rename"@)->Some_0 is Rename,
        operation_in("truncate"@)->Some_0 is Truncate,
        operation_in("drop"@)->Some_0 is Drop,
{
    reveal_strlit("database");
    reveal_strlit("queries");
    reveal_strlit("history");
    reveal_strlit("data");
    reveal_strlit("structure");
    reveal_strlit("ddl");
    reveal_strlit("privileges");
    reveal_strlit("messages");
    reveal_strlit("row");
    reveal_strlit("table");
    reveal_strlit("rename");
    reveal_strlit("truncate");
    reveal_strlit("drop");
    assert("database"@[0] == 'd' && "queries"@[0] == 'q' && "history"@[0] == 'h');
    assert("data"@.len() == 4 && "structure"@.len() == 9 && "ddl"@.len() == 3);
    assert("privileges"@.len() == 10 && "messages"@.len() == 8);
    assert("row"@[0] == 'r' && "table"@[0] == 't');
    assert("rename"@[0] == 'r' && "truncate"@[0] == 't' && "drop"@[0] == 'd');
}

/// A number is its own trimmed self.
proof fn lemma_number_trimmed(n: nat)
    ensures
        trimmed(decimal(n)) == decimal(n),
        !decimal(n).contains(','),
{
    lemma_digits(n);
    let text = decimal(n);
    assert('0' <= text[0] <= '9');
    assert('0' <= text[text.len() - 1] <= '9');
    if text.contains(',') {
        let k = choose|k: int| 0 <= k < text.len() && text[k] == ',';
        assert('0' <= text[k] <= '9');
    }
}

/// A number is digits.
proof fn lemma_digits(n: nat)
    ensures
        decimal(n).len() > 0,
        forall|i: int| 0 <= i < decimal(n).len() ==> '0' <= (#[trigger] decimal(n)[i]) <= '9',
    decreases n,
{
    assert(digit(n % 10) as u32 == 48 + n % 10);
    if n >= 10 {
        lemma_digits(n / 10);
    }
}

/// A cell is named by its row and its column, in that order, with a comma
/// between.
pub proof fn a_cell_is_its_row_and_its_column(row: nat, col: nat)
    requires
        row <= usize::MAX,
        col <= usize::MAX,
    ensures
        cell_in(decimal(row).push(',') + decimal(col)) == Some((row as usize, col as usize)),
{
    lemma_number_trimmed(row);
    lemma_number_trimmed(col);
    a_cut_is_at_the_first(decimal(row), ',', decimal(col));
    a_written_number_reads_back(row);
    a_written_number_reads_back(col);
}

/// The tables of a list are those its pieces name, in order, and a piece that
/// names none is passed over.
pub proof fn a_list_of_tables_is_read_piece_by_piece(
    pieces: Seq<Seq<char>>,
    schema: Seq<char>,
    name: Seq<char>,
    piece: Seq<char>,
)
    requires
        !schema.contains('.'),
        trimmed(schema.push('.') + name) == schema.push('.') + name,
        !trimmed(piece).contains('.'),
    ensures
        tables_in(Seq::empty()).len() == 0,
        tables_in(pieces.push(schema.push('.') + name)) == tables_in(pieces).push((schema, name)),
        tables_in(pieces.push(piece)) == tables_in(pieces),
{
    let named = schema.push('.') + name;
    a_cut_is_at_the_first(schema, '.', name);
    a_cut_is_at_the_first(trimmed(piece), '.', name);
    assert(pieces.push(named).drop_last() =~= pieces);
    assert(pieces.push(piece).drop_last() =~= pieces);
}

/// A term says a column, an operator and a value, with spaces between; the value
/// may have spaces of its own, and an `or ` in front makes it an alternative to
/// the term before it.
pub proof fn a_term_is_column_operator_value(
    list: Seq<Seq<char>>,
    at: int,
    column: Seq<char>,
    value: Seq<char>,
)
    requires
        0 <= at < list.len() <= usize::MAX,
        !column.contains(' '),
        !list[at].contains(' '),
        forall|i: int| 0 <= i < at ==> (#[trigger] list[i]) != list[at],
        ({
            let term = column.push(' ') + (list[at].push(' ') + value);
            &&& trimmed(term) == term
            &&& trimmed("or "@ + term) == "or "@ + term
            &&& !starts(term, "or "@)
        }),
    ensures
        ({
            let term = column.push(' ') + (list[at].push(' ') + value);
            &&& chip_in(term, list) == Some(
                ChipView { column, op: at as usize, value, join: Join::And },
            )
            &&& chip_in("or "@ + term, list) == Some(
                ChipView { column, op: at as usize, value, join: Join::Or },
            )
        }),
{
    reveal_strlit("or ");
    let word = list[at];
    let rest = word.push(' ') + value;
    let term = column.push(' ') + rest;
    let or = "or "@ + term;
    a_cut_is_at_the_first(column, ' ', rest);
    a_cut_is_at_the_first(word, ' ', value);
    assert forall|i: int| 0 <= i < at implies !is_text(word)(#[trigger] list[i]) by {
        assert(list[i] != list[at]);
    }
    lemma_first(list, is_text(word), at);
    assert(operator_in(list, word) == Some(at as usize));
    assert(or.take(3) =~= "or "@);
    assert(or.skip(3) =~= term);
    assert(joined_by(or) == (Join::Or, term));
    assert(joined_by(term) == (Join::And, term));
}

/// A version is told by its first word, and one without a word by all of it.
pub proof fn a_version_is_its_first_word(version: Seq<char>, gap: char, build: Seq<char>)
    requires
        version.len() > 0,
        forall|i: int| 0 <= i < version.len() ==> !is_space(#[trigger] version[i]),
        is_space(gap),
    ensures
        first_word(version) == version,
        first_word(version.push(gap) + build) == version,
        first_word(Seq::empty()) == Seq::<char>::empty(),
{
    white_space_parts_words(version, gap, build);
    assert((seq![version] + words(build))[0] == version);
}

} // verus!
