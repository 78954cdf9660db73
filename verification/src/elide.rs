//! A label that keeps the end of a name when the row is too narrow for it.
//!
//! Names written to a convention share their beginnings, and elided at the end
//! they all become the same word. The rule here is:
//!
//! * it fits: draw the name, no ellipsis anywhere;
//! * it does not: keep the whole last word, spend what is left on the start of
//!   the name, and put one ellipsis between them;
//! * the last word alone does not fit: drop the head entirely and elide the
//!   word's own start.
use crate::icon::IconColor;
use crate::label::LabelSize;
use crate::text::{chars_of, push_chars};
use vstd::prelude::*;
use vstd::utf8::{char_is_scalar, encode_scalar, encode_utf8};

verus! {

/// A label that gives up its middle.
#[derive(Debug)]
pub struct ElidedLabel {
    pub text: String,
    pub size: LabelSize,
    pub color: IconColor,
    pub mono: bool,
}

impl ElidedLabel {
    /// A label of the usual size and colour.
    pub fn new(text: &str) -> (label: ElidedLabel)
        ensures
            label.text@ == text@,
            label == (ElidedLabel {
                text: label.text,
                size: LabelSize::Default,
                color: IconColor::Default,
                mono: false,
            }),
    {
        ElidedLabel {
            text: text.to_owned(),
            size: LabelSize::Default,
            color: IconColor::Default,
            mono: false,
        }
    }

    /// Of another size.
    pub fn size(self, size: LabelSize) -> (label: ElidedLabel)
        ensures
            label == (ElidedLabel { size, ..self }),
    {
        ElidedLabel { size, ..self }
    }

    /// Of another colour.
    pub fn color(self, color: IconColor) -> (label: ElidedLabel)
        ensures
            label == (ElidedLabel { color, ..self }),
    {
        ElidedLabel { color, ..self }
    }

    /// In the code face.
    pub fn mono(self) -> (label: ElidedLabel)
        ensures
            label == (ElidedLabel { mono: true, ..self }),
    {
        ElidedLabel { mono: true, ..self }
    }

    /// In the code face where that is asked for, and as it is otherwise.
    pub fn when_mono(self, mono: bool) -> (label: ElidedLabel)
        ensures
            label == (ElidedLabel { mono: self.mono || mono, ..self }),
    {
        if mono {
            self.mono()
        } else {
            self
        }
    }
}

/// How many bytes a character takes in a text.
pub open spec fn width_in_bytes(c: char) -> nat {
    if (c as u32) < 0x80 {
        1
    } else if (c as u32) < 0x800 {
        2
    } else if (c as u32) < 0x10000 {
        3
    } else {
        4
    }
}

/// How many bytes some characters take.
pub open spec fn bytes_of(text: Seq<char>) -> nat
    decreases text.len(),
{
    if text.len() == 0 {
        0
    } else {
        bytes_of(text.drop_last()) + width_in_bytes(text.last())
    }
}

/// Whether a name is cut at a place: after its last underscore, where there is
/// something after it, and otherwise at the first character that starts in the
/// second half of its bytes.
pub open spec fn is_cut(text: Seq<char>, at: int) -> bool {
    &&& 0 <= at <= text.len()
    &&& if has_last_word(text) {
        &&& 0 < at < text.len()
        &&& text[at - 1] == '_'
        &&& forall|i: int| at <= i < text.len() ==> text[i] != '_'
    } else {
        &&& bytes_of(text.take(at)) >= bytes_of(text) / 2
        &&& forall|i: int| 0 <= i < at ==> bytes_of(#[trigger] text.take(i)) < bytes_of(text) / 2
    }
}

/// Whether a name has an underscore, the last one with something after it.
pub open spec fn has_last_word(text: Seq<char>) -> bool {
    text.contains('_') && text.last() != '_'
}

/// A name is cut at one place only.
pub proof fn a_name_is_cut_at_one_place(text: Seq<char>, a: int, b: int)
    requires
        is_cut(text, a),
        is_cut(text, b),
    ensures
        a == b,
{
    if has_last_word(text) {
        if a < b {
            assert(text[b - 1] == '_');
        } else if b < a {
            assert(text[a - 1] == '_');
        }
    } else if a < b {
        assert(bytes_of(text.take(a)) < bytes_of(text) / 2);
    } else if b < a {
        assert(bytes_of(text.take(b)) < bytes_of(text) / 2);
    }
}

/// How many bytes a character takes in a text.
fn char_bytes(c: char) -> (n: u128)
    ensures
        n == width_in_bytes(c),
{
    let code = c as u32;
    if code < 0x80 {
        1
    } else if code < 0x800 {
        2
    } else if code < 0x10000 {
        3
    } else {
        4
    }
}

/// A text takes at most four bytes a character.
proof fn lemma_bytes_bound(text: Seq<char>)
    ensures
        bytes_of(text) <= 4 * text.len(),
    decreases text.len(),
{
    if text.len() > 0 {
        lemma_bytes_bound(text.drop_last());
    }
}

/// A longer start takes no fewer bytes.
proof fn lemma_bytes_grow(text: Seq<char>, i: int, j: int)
    requires
        0 <= i <= j <= text.len(),
    ensures
        bytes_of(text.take(i)) <= bytes_of(text.take(j)),
    decreases j - i,
{
    if i < j {
        lemma_bytes_grow(text, i, j - 1);
        assert(text.take(j).drop_last() =~= text.take(j - 1));
    }
}

/// The first character takes its bytes before the others.
proof fn lemma_bytes_first(text: Seq<char>)
    requires
        text.len() > 0,
    ensures
        bytes_of(text) == width_in_bytes(text[0]) + bytes_of(text.drop_first()),
    decreases text.len(),
{
    if text.len() == 1 {
        assert(text.drop_last() =~= Seq::empty());
        assert(text.drop_first() =~= Seq::empty());
    } else {
        lemma_bytes_first(text.drop_last());
        assert(text.drop_last().drop_first() =~= text.drop_first().drop_last());
    }
}

/// The bytes a text takes are those of its encoding.
pub proof fn the_bytes_are_those_of_the_encoding(text: Seq<char>)
    ensures
        bytes_of(text) == encode_utf8(text).len(),
    decreases text.len(),
{
    if text.len() > 0 {
        lemma_bytes_first(text);
        the_bytes_are_those_of_the_encoding(text.drop_first());
        char_is_scalar(text[0]);
        assert(encode_scalar(text[0] as u32).len() == width_in_bytes(text[0]));
    }
}

/// Where a name is cut when it has to be cut: after the last underscore,
/// because the convention that wrote these names put the distinguishing word
/// there. A name with no underscore is cut in the middle, which is the best
/// guess left. The place is counted in bytes, and a character starts there.
pub fn cut(text: &str) -> (at: usize)
    ensures
        exists|place: int|
            is_cut(text@, place) && at == bytes_of(#[trigger] text@.take(place)),
{
    let place = cut_place(text);
    let chars = chars_of(text);
    let whole: usize = text.as_bytes().len();
    let mut at: usize = 0;
    let mut seen: usize = 0;
    proof {
        the_bytes_are_those_of_the_encoding(text@);
        assert(text@.take(text@.len() as int) =~= text@);
        assert(text@.take(0) =~= Seq::empty());
    }
    while seen < place
        invariant
            seen <= place <= chars@.len(),
            chars@ == text@,
            whole == bytes_of(text@.take(text@.len() as int)),
            at == bytes_of(text@.take(seen as int)),
        decreases place - seen,
    {
        proof {
            assert(text@.take(seen + 1).drop_last() =~= text@.take(seen as int));
            lemma_bytes_grow(text@, seen + 1, text@.len() as int);
        }
        at += char_bytes(chars[seen]) as usize;
        seen += 1;
    }
    at
}

/// Where a name is cut, counted in characters.
fn cut_place(text: &str) -> (at: usize)
    ensures
        is_cut(text@, at as int),
{
    let chars = chars_of(text);
    let mut at: usize = chars.len();
    while at > 0 && chars[at - 1] != '_'
        invariant
            at <= chars@.len(),
            forall|i: int| at <= i < chars@.len() ==> chars@[i] != '_',
        decreases at,
    {
        at -= 1;
    }
    if at > 0 && at < chars.len() {
        assert(text@[at - 1] == '_');
        assert(text@.contains('_'));
        return at;
    }
    assert(!has_last_word(text@));
    let mut total: u128 = 0;
    let mut seen: usize = 0;
    while seen < chars.len()
        invariant
            seen <= chars@.len(),
            chars@.len() <= usize::MAX,
            total == bytes_of(chars@.take(seen as int)),
        decreases chars@.len() - seen,
    {
        proof {
            assert(chars@.take(seen + 1).drop_last() =~= chars@.take(seen as int));
            lemma_bytes_bound(chars@.take(seen as int));
        }
        total += char_bytes(chars[seen]);
        seen += 1;
    }
    assert(chars@.take(seen as int) =~= chars@);
    let half = total / 2;
    let mut at: usize = 0;
    let mut bytes: u128 = 0;
    assert(chars@.take(0) =~= Seq::empty());
    while bytes < half
        invariant
            at <= chars@.len(),
            chars@ == text@,
            chars@.len() <= usize::MAX,
            half == bytes_of(text@) / 2,
            bytes == bytes_of(chars@.take(at as int)),
            forall|i: int| 0 <= i < at ==> bytes_of(#[trigger] text@.take(i)) < half,
        decreases chars@.len() - at,
    {
        proof {
            if at == chars@.len() {
                assert(chars@.take(at as int) =~= chars@);
                assert(false);
            }
            assert(chars@.take(at + 1).drop_last() =~= chars@.take(at as int));
            lemma_bytes_bound(chars@.take(at as int));
        }
        bytes += char_bytes(chars[at]);
        at += 1;
    }
    at
}

/// What the text system says of a name: how wide each start of it is, how wide
/// each end of it is, and how wide an ellipsis is.
pub struct Measure {
    /// The width of the first characters, by how many.
    pub starts: Vec<u64>,
    /// The width of what is left, by where it starts.
    pub ends: Vec<u64>,
    pub ellipsis: u64,
}

/// Whether a measure is of a text.
pub open spec fn measures(measure: Measure, text: Seq<char>) -> bool {
    measure.starts@.len() == text.len() + 1 && measure.ends@.len() == text.len() + 1
}

/// Whether an end of a name fits beside an ellipsis.
pub open spec fn end_fits(measure: Measure, room: u64, at: int) -> bool {
    measure.ends@[at] + measure.ellipsis <= room
}

/// The first end of a name, from a place on, that fits beside an ellipsis, and
/// the end of the name where none does.
pub open spec fn first_end(measure: Measure, room: u64, at: int, len: int) -> int
    decreases len - at,
{
    if at >= len || end_fits(measure, room, at) {
        at
    } else {
        first_end(measure, room, at + 1, len)
    }
}

/// How many characters of a head fit in a budget, up to where it is cut.
pub open spec fn head_len(measure: Measure, budget: int, at: int, cut: int) -> int
    decreases cut - at,
{
    if at >= cut || measure.starts@[at + 1] > budget {
        at
    } else {
        head_len(measure, budget, at + 1, cut)
    }
}

/// A text without the underscores at its end.
pub open spec fn without_trailing(text: Seq<char>) -> Seq<char>
    decreases text.len(),
{
    if text.len() > 0 && text.last() == '_' {
        without_trailing(text.drop_last())
    } else {
        text
    }
}

/// The text to draw in some room, for a name that is cut at a place.
pub open spec fn fitted(text: Seq<char>, room: u64, measure: Measure, cut: int) -> Seq<char> {
    let len = text.len() as int;
    if measure.starts@[len] <= room {
        text
    } else if measure.ends@[cut] + measure.ellipsis >= room {
        "\u{2026}"@ + text.skip(first_end(measure, room, cut, len))
    } else {
        let budget = room - measure.ends@[cut] - measure.ellipsis;
        without_trailing(text.take(head_len(measure, budget, 0, cut))) + "\u{2026}"@ + text.skip(
            cut,
        )
    }
}

/// The text to draw in some room.
///
/// The ellipsis stands in for the separator as well as for the letters: a name
/// cut in half, rather than a word with a hole in it.
pub fn fit(text: &str, room: u64, measure: &Measure) -> (drawn: String)
    requires
        measures(*measure, text@),
    ensures
        exists|at: int| is_cut(text@, at) && drawn@ == #[trigger] fitted(text@, room, *measure, at),
{
    let chars = chars_of(text);
    let len = chars.len();
    let place = cut_place(text);
    let mut drawn = String::new();
    if measure.starts[len] <= room {
        push_chars(&mut drawn, &chars, 0, len);
        assert(drawn@ =~= fitted(text@, room, *measure, place as int));
        return drawn;
    }
    let wide = match measure.ends[place].checked_add(measure.ellipsis) {
        Some(sum) => sum >= room,
        None => true,
    };
    if wide {
        // No room for the last word either. What is left of the word is worth
        // more than as many letters from the front of the name.
        let mut from: usize = place;
        let mut fits = false;
        while from < len && !fits
            invariant
                place <= from <= len,
                len == chars@.len(),
                chars@ == text@,
                measures(*measure, text@),
                fits ==> from < len && end_fits(*measure, room, from as int),
                first_end(*measure, room, place as int, len as int) == first_end(
                    *measure,
                    room,
                    from as int,
                    len as int,
                ),
            decreases len - from, if fits { 0int } else { 1int },
        {
            let here = match measure.ends[from].checked_add(measure.ellipsis) {
                Some(sum) => sum <= room,
                None => false,
            };
            if here {
                fits = true;
            } else {
                from += 1;
            }
        }
        drawn.append("\u{2026}");
        push_chars(&mut drawn, &chars, from, len);
        assert(drawn@ =~= fitted(text@, room, *measure, place as int));
        return drawn;
    }
    let budget: u64 = room - measure.ends[place] - measure.ellipsis;
    let mut end: usize = 0;
    while end < place && measure.starts[end + 1] <= budget
        invariant
            end <= place <= len,
            len == chars@.len(),
            chars@ == text@,
            measures(*measure, text@),
            head_len(*measure, budget as int, 0, place as int) == head_len(
                *measure,
                budget as int,
                end as int,
                place as int,
            ),
        decreases place - end,
    {
        end += 1;
    }
    let ghost whole = end;
    assert(text@.take(end as int) == text@.take(whole as int));
    while end > 0 && chars[end - 1] == '_'
        invariant
            end <= whole <= place <= len,
            len == chars@.len(),
            chars@ == text@,
            without_trailing(text@.take(end as int)) == without_trailing(
                text@.take(whole as int),
            ),
        decreases end,
    {
        assert(text@.take(end as int).drop_last() =~= text@.take(end - 1));
        assert(text@.take(end as int).last() == '_');
        end -= 1;
    }
    proof {
        if end > 0 {
            assert(text@.take(end as int).last() == chars@[end - 1]);
        }
        assert(without_trailing(text@.take(end as int)) == text@.take(end as int));
    }
    push_chars(&mut drawn, &chars, 0, end);
    assert(drawn@ =~= text@.take(end as int));
    drawn.append("\u{2026}");
    push_chars(&mut drawn, &chars, place, len);
    assert(drawn@ =~= fitted(text@, room, *measure, place as int));
    drawn
}

/// How wide a text is, where every character has a width of its own.
pub open spec fn span(text: Seq<char>, width: spec_fn(char) -> nat) -> nat
    decreases text.len(),
{
    if text.len() == 0 {
        0
    } else {
        span(text.drop_last(), width) + width(text.last())
    }
}

/// The width of two texts is the sum of their widths.
proof fn lemma_span_add(a: Seq<char>, b: Seq<char>, width: spec_fn(char) -> nat)
    ensures
        span(a + b, width) == span(a, width) + span(b, width),
    decreases b.len(),
{
    if b.len() == 0 {
        assert(a + b =~= a);
    } else {
        lemma_span_add(a, b.drop_last(), width);
        assert((a + b).drop_last() =~= a + b.drop_last());
    }
}

/// Taking underscores off the end makes nothing wider.
proof fn lemma_trailing_narrows(text: Seq<char>, width: spec_fn(char) -> nat)
    ensures
        span(without_trailing(text), width) <= span(text, width),
    decreases text.len(),
{
    if text.len() > 0 && text.last() == '_' {
        lemma_trailing_narrows(text.drop_last(), width);
    }
}

/// The end that is chosen fits, or is nothing at all.
proof fn lemma_first_end(measure: Measure, room: u64, at: int, len: int)
    requires
        0 <= at <= len,
    ensures
        at <= first_end(measure, room, at, len) <= len,
        first_end(measure, room, at, len) < len ==> end_fits(
            measure,
            room,
            first_end(measure, room, at, len),
        ),
    decreases len - at,
{
    if at < len && !end_fits(measure, room, at) {
        lemma_first_end(measure, room, at + 1, len);
    }
}

/// The head that is chosen is within its budget.
proof fn lemma_head_len(measure: Measure, budget: int, at: int, cut: int)
    requires
        0 <= at <= cut,
        measure.starts@[at] <= budget,
    ensures
        at <= head_len(measure, budget, at, cut) <= cut,
        measure.starts@[head_len(measure, budget, at, cut)] <= budget,
    decreases cut - at,
{
    if at < cut && measure.starts@[at + 1] <= budget {
        lemma_head_len(measure, budget, at + 1, cut);
    }
}

/// What is drawn fits in the room there is, as long as an ellipsis does.
pub proof fn what_is_drawn_fits(
    text: Seq<char>,
    room: u64,
    measure: Measure,
    cut: int,
    width: spec_fn(char) -> nat,
)
    requires
        is_cut(text, cut),
        measures(measure, text),
        forall|i: int|
            0 <= i <= text.len() ==> (#[trigger] measure.starts@[i]) == span(text.take(i), width),
        forall|i: int|
            0 <= i <= text.len() ==> (#[trigger] measure.ends@[i]) == span(text.skip(i), width),
        measure.ellipsis == span("\u{2026}"@, width),
        measure.ellipsis <= room,
    ensures
        span(fitted(text, room, measure, cut), width) <= room,
{
    let len = text.len() as int;
    let dots = "\u{2026}"@;
    assert(text.take(len) =~= text);
    if measure.starts@[len] <= room {
    } else if measure.ends@[cut] + measure.ellipsis >= room {
        let from = first_end(measure, room, cut, len);
        lemma_first_end(measure, room, cut, len);
        lemma_span_add(dots, text.skip(from), width);
        if from == len {
            assert(text.skip(from) =~= Seq::empty());
        } else {
            assert(measure.ends@[from] == span(text.skip(from), width));
        }
    } else {
        let budget = room - measure.ends@[cut] - measure.ellipsis;
        assert(text.take(0) =~= Seq::empty());
        assert(measure.starts@[0] == 0);
        lemma_head_len(measure, budget, 0, cut);
        let end = head_len(measure, budget, 0, cut);
        assert(measure.starts@[end] == span(text.take(end), width));
        lemma_trailing_narrows(text.take(end), width);
        let head = without_trailing(text.take(end));
        lemma_span_add(head, dots, width);
        lemma_span_add(head + dots, text.skip(cut), width);
    }
}

} // verus!
