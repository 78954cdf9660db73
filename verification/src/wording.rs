//! Counts, estimates and versions in the few words a narrow column has room
//! for.
use crate::binary64::{scaled_quotient, scaled_quotient_of};
use crate::catalog::Role;
use crate::text::{
    decimal, decimal_text, digit, ends, ends_with, joined, maybe, push_decimal, texts, words,
    words_of,
};
use vstd::prelude::*;

verus! {

/// A count and the noun for it.
pub open spec fn counted(count: nat, one: Seq<char>, many: Seq<char>) -> Seq<char> {
    decimal(count).push(' ') + if count == 1 {
        one
    } else {
        many
    }
}

/// `1 column`, `12 columns`.
pub fn plural(count: usize, one: &str, many: &str) -> (text: String)
    ensures
        text@ == counted(count as nat, one@, many@),
{
    let mut text = decimal_text(count as u64);
    text.push(' ');
    if count == 1 {
        text.append(one);
    } else {
        text.append(many);
    }
    text
}

/// How many keys a walk found: how many there are once it reached the end,
/// and how far it got until then.
pub open spec fn scan_count(count: nat, complete: bool) -> Seq<char> {
    grouped(count, ',') + if !complete {
        " scanned"@
    } else if count == 1 {
        " key"@
    } else {
        " keys"@
    }
}

/// `8,409 keys` or `8,409 scanned`, which one being the whole point.
///
/// A scan is a sample and not an inventory, so a count that came out of an
/// unfinished walk is labelled as how far it got rather than as how many there
/// are.
pub fn scanned(count: usize, complete: bool) -> (text: String)
    ensures
        text@ == scan_count(count as nat, complete),
{
    let mut text = thousands(count);
    if !complete {
        text.append(" scanned");
    } else if count == 1 {
        text.append(" key");
    } else {
        text.append(" keys");
    }
    text
}

/// The grey text on a key's row: the time it has left, and nothing when it has
/// forever.
pub open spec fn expiry(ttl: Option<i64>, time_left: Seq<char>) -> Option<Seq<char>> {
    match ttl {
        Some(seconds) => if seconds >= 0 {
            Some(time_left)
        } else {
            None
        },
        None => None,
    }
}

/// The grey text on a key's row: how long it has left, and nothing when it has
/// forever.
pub fn ttl_meta(ttl: Option<i64>, time_left: &String) -> (text: Option<String>)
    ensures
        maybe(text) == expiry(ttl, time_left@),
{
    match ttl {
        Some(seconds) => if seconds >= 0 {
            Some(time_left.clone())
        } else {
            None
        },
        None => None,
    }
}

/// The first word of a version, and the whole of it when it has no words.
pub open spec fn first_word(version: Seq<char>) -> Seq<char> {
    if words(version).len() == 0 {
        version
    } else {
        words(version)[0]
    }
}

/// `16.4 (Homebrew)` becomes `16.4`. The build string is interesting exactly
/// once, and a narrow column is not where it belongs.
pub fn short_version(version: &str) -> (text: String)
    ensures
        text@ == first_word(version@),
{
    let list = words_of(version);
    assert(texts(list@).len() == list@.len());
    if list.len() == 0 {
        version.to_owned()
    } else {
        let text = list[0].clone();
        assert(texts(list@)[0] == text@);
        text
    }
}

/// A number of tenths, with the point.
pub open spec fn tenths(n: nat) -> Seq<char> {
    decimal(n / 10).push('.').push(digit(n % 10))
}

/// An estimated row count: a dash when nobody has counted, the number itself
/// below a thousand, and thousands, millions or billions above.
pub open spec fn estimate(rows: int) -> Seq<char> {
    let n = rows as nat;
    if rows < 0 {
        "—"@
    } else if rows == 0 {
        "0"@
    } else if rows < 1_000 {
        "~"@ + decimal(n)
    } else if rows < 1_000_000 {
        ("~"@ + decimal(scaled_quotient(n, 1_000, 1))).push('k')
    } else if rows < 1_000_000_000 {
        ("~"@ + tenths(scaled_quotient(n, 1_000_000, 10))).push('M')
    } else {
        ("~"@ + tenths(scaled_quotient(n, 1_000_000_000, 10))).push('B')
    }
}

/// Append a number of tenths, with the point.
fn push_tenths(out: &mut String, n: u64)
    ensures
        final(out)@ == old(out)@ + tenths(n as nat),
{
    push_decimal(out, n / 10);
    out.push('.');
    let last: u8 = (n % 10) as u8;
    out.push((48u8 + last) as char);
    assert(out@ =~= old(out)@ + tenths(n as nat));
}

/// A row count, phrased as the estimate it is.
///
/// A negative count means the table has never been analysed, which is
/// different from empty and worth not lying about.
pub fn row_estimate(rows: i64) -> (text: String)
    ensures
        text@ == estimate(rows as int),
{
    if rows < 0 {
        return "—".to_owned();
    }
    if rows == 0 {
        return "0".to_owned();
    }
    let n: u64 = rows as u64;
    let mut text = "~".to_owned();
    if n < 1_000 {
        push_decimal(&mut text, n);
    } else if n < 1_000_000 {
        push_decimal(&mut text, scaled_quotient_of(n, 1_000, 1));
        text.push('k');
    } else if n < 1_000_000_000 {
        push_tenths(&mut text, scaled_quotient_of(n, 1_000_000, 10));
        text.push('M');
    } else {
        push_tenths(&mut text, scaled_quotient_of(n, 1_000_000_000, 10));
        text.push('B');
    }
    text
}

/// How many facts about a role its row has room for.
pub const SHOWN: usize = 2;

/// What a role's row says: which one you are before anything else, then what
/// is special about it, as far as there is room; failing both, how many roles
/// it inherits from.
pub open spec fn role_line(role: Role, mine: bool) -> Option<Seq<char>> {
    let first = if mine {
        seq!["you"@]
    } else {
        Seq::empty()
    };
    let room = SHOWN - first.len();
    let attributes = texts(role.attributes@);
    let parts = first + attributes.take(if room < attributes.len() {
        room
    } else {
        attributes.len() as int
    });
    if parts.len() > 0 {
        Some(joined(parts, " · "@))
    } else if role.member_of@.len() > 0 {
        Some("member of "@ + decimal(role.member_of@.len()))
    } else {
        None
    }
}

/// A role's line in the sidebar's narrow right-hand column.
pub fn role_meta(role: &Role, mine: bool) -> (text: Option<String>)
    ensures
        maybe(text) == role_line(*role, mine),
{
    let mut parts: Vec<String> = Vec::new();
    if mine {
        parts.push("you".to_owned());
    }
    let ghost first = texts(parts@);
    let ghost attributes = texts(role.attributes@);
    proof {
        if mine {
            assert(first =~= seq!["you"@]);
        } else {
            assert(first =~= Seq::empty());
        }
    }
    let mut at: usize = 0;
    assert(first + attributes.take(0) =~= first);
    while parts.len() < SHOWN && at < role.attributes.len()
        invariant
            at <= role.attributes@.len(),
            attributes == texts(role.attributes@),
            parts@.len() == first.len() + at,
            parts@.len() <= SHOWN,
            texts(parts@) == first + attributes.take(at as int),
        decreases role.attributes@.len() - at,
    {
        parts.push(role.attributes[at].clone());
        at += 1;
        assert(texts(parts@) =~= first + attributes.take(at as int));
    }
    if parts.len() > 0 {
        Some(crate::text::join(&parts, " · "))
    } else if role.member_of.len() > 0 {
        let mut text = "member of ".to_owned();
        push_decimal(&mut text, role.member_of.len() as u64);
        Some(text)
    } else {
        None
    }
}

/// A number below a thousand as three digits.
pub open spec fn three_digits(n: nat) -> Seq<char> {
    seq![digit(n / 100), digit(n / 10 % 10), digit(n % 10)]
}

/// A number in decimal, with a separator between groups of three digits.
pub open spec fn grouped(n: nat, separator: char) -> Seq<char>
    decreases n,
{
    if n < 1000 {
        decimal(n)
    } else {
        grouped(n / 1000, separator).push(separator) + three_digits(n % 1000)
    }
}

/// Append a number in decimal, its digits grouped in threes.
pub fn push_grouped(out: &mut String, n: u64, separator: char)
    ensures
        final(out)@ == old(out)@ + grouped(n as nat, separator),
    decreases n,
{
    if n < 1000 {
        push_decimal(out, n);
        return ;
    }
    push_grouped(out, n / 1000, separator);
    out.push(separator);
    let rest: u64 = n % 1000;
    let (a, b, c): (u8, u8, u8) = ((rest / 100) as u8, (rest / 10 % 10) as u8, (rest % 10) as u8);
    out.push((48u8 + a) as char);
    out.push((48u8 + b) as char);
    out.push((48u8 + c) as char);
    assert(out@ =~= old(out)@ + grouped(n as nat, separator));
}

/// `1284913` as `1,284,913`. Counts are read, not computed, so they get
/// separators; values inside cells never do.
pub fn thousands(n: usize) -> (text: String)
    ensures
        text@ == grouped(n as nat, ','),
{
    let mut text = String::new();
    push_grouped(&mut text, n as u64, ',');
    assert(text@ =~= grouped(n as nat, ','));
    text
}

/// Whether a character is another than this one.
pub open spec fn other_than(one: char) -> spec_fn(char) -> bool {
    |c: char| c != one
}

/// Grouping a number's digits changes none of them: without the separators it
/// is the number in decimal.
#[verifier::spinoff_prover]
#[verifier::rlimit(40)]
pub proof fn grouping_keeps_the_digits(n: nat, separator: char)
    requires
        !('0' <= separator && separator <= '9'),
    ensures
        grouped(n, separator).filter(other_than(separator)) == decimal(n),
    decreases n,
{
    let keep = other_than(separator);
    if n < 1000 {
        lemma_decimal_has_no(n, separator);
        lemma_filter_keeps(decimal(n), separator);
    } else {
        let high = grouped(n / 1000, separator);
        let low = three_digits(n % 1000);
        grouping_keeps_the_digits(n / 1000, separator);
        let all = high.push(separator) + low;
        assert(all =~= high.push(separator).push(low[0]).push(low[1]).push(low[2]));
        let (a, b, c) = (
            high.push(separator),
            high.push(separator).push(low[0]),
            high.push(separator).push(low[0]).push(low[1]),
        );
        lemma_digit((n % 1000) / 100);
        lemma_digit((n % 1000) / 10 % 10);
        lemma_digit((n % 1000) % 10);
        reveal(Seq::filter);
        assert(a.drop_last() =~= high);
        assert(b.drop_last() =~= a);
        assert(c.drop_last() =~= b);
        assert(all.drop_last() =~= c);
        assert(a.filter(keep) == high.filter(keep));
        assert(b.filter(keep) == a.filter(keep).push(low[0]));
        assert(c.filter(keep) == b.filter(keep).push(low[1]));
        assert(all.filter(keep) == c.filter(keep).push(low[2]));
        let m = n % 1000;
        assert(n / 10 == (n / 1000) * 100 + m / 10);
        assert(n / 10 / 10 == (n / 1000) * 10 + m / 100);
        assert(n / 10 / 10 / 10 == n / 1000);
        assert(decimal(n) == decimal(n / 10).push(digit(n % 10)));
        assert(decimal(n / 10) == decimal(n / 10 / 10).push(digit(n / 10 % 10)));
        assert(decimal(n / 10 / 10) == decimal(n / 10 / 10 / 10).push(digit(n / 10 / 10 % 10)));
        assert(n % 10 == m % 10);
        assert((n / 10) % 10 == (m / 10) % 10);
        assert((n / 10 / 10) % 10 == m / 100);
    }
}

/// A number in decimal holds digits only.
proof fn lemma_decimal_has_no(n: nat, c: char)
    requires
        !('0' <= c && c <= '9'),
    ensures
        forall|i: int| 0 <= i < decimal(n).len() ==> #[trigger] decimal(n)[i] != c,
    decreases n,
{
    lemma_digit(n % 10);
    if n >= 10 {
        lemma_decimal_has_no(n / 10, c);
    }
    assert forall|i: int| 0 <= i < decimal(n).len() implies #[trigger] decimal(n)[i] != c by {
        if n >= 10 && i < decimal(n / 10).len() {
            assert(decimal(n)[i] == decimal(n / 10)[i]);
        } else {
            assert(decimal(n)[i] == digit(n % 10));
        }
    }
}

/// A digit is one of the ten.
proof fn lemma_digit(n: nat)
    requires
        n < 10,
    ensures
        '0' <= digit(n) && digit(n) <= '9',
{
    assert(digit(n) as u32 == 48 + n);
}

/// Filtering out what is not there changes nothing.
proof fn lemma_filter_keeps(text: Seq<char>, c: char)
    requires
        forall|i: int| 0 <= i < text.len() ==> #[trigger] text[i] != c,
    ensures
        text.filter(other_than(c)) == text,
    decreases text.len(),
{
    reveal(Seq::filter);
    if text.len() > 0 {
        lemma_filter_keeps(text.drop_last(), c);
        assert(text =~= text.drop_last().push(text.last()));
    } else {
        assert(text.filter(other_than(c)) =~= text);
    }
}

/// More than one of a noun. Enough English for the nouns there are to count.
pub open spec fn many(noun: Seq<char>) -> Seq<char> {
    if noun.len() > 0 && (noun.last() == 'x' || noun.last() == 's') {
        noun + "es"@
    } else {
        noun.push('s')
    }
}

/// A count with its noun, large counts grouped.
pub open spec fn count_text(n: nat, noun: Seq<char>) -> Seq<char> {
    if n == 1 {
        "1 "@ + noun
    } else {
        grouped(n, ',').push(' ') + many(noun)
    }
}

/// `1 row`, `2 rows`. A status bar that says "1 rows" is a status bar nobody
/// proof-read.
pub fn count_of(n: usize, noun: &str) -> (text: String)
    ensures
        text@ == count_text(n as nat, noun@),
{
    if n == 1 {
        let mut text = "1 ".to_owned();
        text.append(noun);
        return text;
    }
    let mut text = thousands(n);
    text.push(' ');
    text.append(noun);
    proof {
        reveal_strlit("x");
        reveal_strlit("s");
        reveal_strlit("es");
        assert("x"@ =~= seq!['x']);
        assert("s"@ =~= seq!['s']);
        lemma_ends_with_one(noun@, 'x');
        lemma_ends_with_one(noun@, 's');
    }
    if ends_with(noun, "x") || ends_with(noun, "s") {
        text.append("es");
    } else {
        text.push('s');
    }
    assert(text@ =~= count_text(n as nat, noun@));
    text
}

proof fn lemma_ends_with_one(text: Seq<char>, c: char)
    ensures
        ends(text, seq![c]) <==> text.len() > 0 && text.last() == c,
{
    if text.len() > 0 {
        assert(text.skip(text.len() - 1) =~= seq![text.last()]);
        assert(seq![text.last()][0] == text.last());
        assert(seq![c][0] == c);
    }
}

} // verus!
