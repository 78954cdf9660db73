//! What a reference reads as, told by the key it is of and the row it is in.
use crate::catalog::{ForeignKey, Relation};
use crate::following::{is_called, key_has, key_part, key_parts, reference_of, HeldView};
use crate::lists::{first, lemma_first, lemma_first_bounds};
use crate::text::{joined, texts};
use vstd::prelude::*;

verus! {

/// Whether a column of the rows on screen is the first that goes by the name of
/// a column of a key, and has something in it.
pub open spec fn holds(key: ForeignKey, held: Seq<HeldView>, at: int, place: int) -> bool {
    &&& 0 <= place < held.len()
    &&& held[place].name == key.columns@[at]@
    &&& held[place].literal is Some
    &&& forall|i: int| 0 <= i < place ==> (#[trigger] held[i]).name != key.columns@[at]@
}

/// Texts put one after another with ` and ` between each two neighbours.
proof fn lemma_folded(parts: Seq<Seq<char>>)
    requires
        parts.len() > 0,
    ensures
        joined(parts, " and "@) == parts.drop_first().fold_left(
            parts[0],
            |clause: Seq<char>, part: Seq<char>| clause + " and "@ + part,
        ),
    decreases parts.len(),
{
    let glue = |clause: Seq<char>, part: Seq<char>| clause + " and "@ + part;
    if parts.len() > 1 {
        let front = parts.drop_last();
        lemma_folded(front);
        assert(parts.drop_first().drop_last() =~= front.drop_first());
        assert(front[0] == parts[0]);
    }
}

/// The conditions of a key whose columns are all there.
proof fn lemma_parts(key: ForeignKey, held: Seq<HeldView>, places: Seq<int>, count: int)
    requires
        0 <= count <= key.columns@.len() <= key.targets@.len(),
        places.len() == key.columns@.len(),
        forall|i: int| 0 <= i < places.len() ==> #[trigger] holds(key, held, i, places[i]),
    ensures
        key_parts(key, held, count) == Some(
            Seq::new(
                count as nat,
                |i: int| key.targets@[i]@ + " = "@ + held[places[i]].literal->Some_0,
            ),
        ),
    decreases count,
{
    let want = Seq::new(
        count as nat,
        |i: int| key.targets@[i]@ + " = "@ + held[places[i]].literal->Some_0,
    );
    if count > 0 {
        lemma_parts(key, held, places, count - 1);
        let at = count - 1;
        assert(holds(key, held, at, places[at]));
        lemma_first(held, is_called(key.columns@[at]@), places[at]);
        assert(key_parts(key, held, count)->Some_0 =~= want);
    } else {
        assert(key_parts(key, held, count)->Some_0 =~= want);
    }
}

/// A field of a row refers to one row: the one that matches every column of the
/// first key the field is a column of. Each column is one condition, the key's
/// own column of the other table with what this row has in the column, and all
/// of them have to hold: they are put together with ` and `, in the key's order.
pub proof fn a_reference_names_one_row(
    relation: Relation,
    held: Seq<HeldView>,
    column: Seq<char>,
    at: int,
    places: Seq<int>,
)
    requires
        0 <= at < relation.foreign_keys@.len(),
        exists|j: int|
            0 <= j < relation.foreign_keys@[at].columns@.len()
                && #[trigger] relation.foreign_keys@[at].columns@[j]@ == column,
        forall|i: int, j: int|
            0 <= i < at && 0 <= j < relation.foreign_keys@[i].columns@.len()
                ==> #[trigger] relation.foreign_keys@[i].columns@[j]@ != column,
        relation.foreign_keys@[at].columns@.len() <= relation.foreign_keys@[at].targets@.len(),
        places.len() == relation.foreign_keys@[at].columns@.len(),
        forall|i: int|
            0 <= i < places.len() ==> #[trigger] holds(
                relation.foreign_keys@[at],
                held,
                i,
                places[i],
            ),
    ensures
        ({
            let key = relation.foreign_keys@[at];
            let condition = |i: int|
                key.targets@[i]@ + " = "@ + held[places[i]].literal->Some_0;
            let reference = reference_of(relation, held, column);
            &&& reference is Some
            &&& reference->Some_0.0 == (key.target.schema@, key.target.name@)
            &&& places.len() == 1 ==> reference->Some_0.1 == condition(0)
            &&& places.len() == 2 ==> reference->Some_0.1 == condition(0) + " and "@ + condition(1)
            &&& places.len() == 3 ==> reference->Some_0.1 == condition(0) + " and "@ + condition(1)
                + " and "@ + condition(2)
            &&& reference->Some_0.1 == Seq::new((places.len() - 1) as nat, |i: int| condition(i + 1)).fold_left(
                condition(0),
                |clause: Seq<char>, part: Seq<char>| clause + " and "@ + part,
            )
        }),
{
    let keys = relation.foreign_keys@;
    let key = keys[at];
    let j = choose|j: int| 0 <= j < key.columns@.len() && #[trigger] key.columns@[j]@ == column;
    assert(texts(key.columns@)[j] == column);
    assert(key_has(column)(key));
    assert forall|i: int| 0 <= i < at implies !key_has(column)(#[trigger] keys[i]) by {
        if texts(keys[i].columns@).contains(column) {
            let k = choose|k: int|
                0 <= k < texts(keys[i].columns@).len() && texts(keys[i].columns@)[k] == column;
            assert(keys[i].columns@[k]@ == column);
        }
    }
    lemma_first(keys, key_has(column), at);
    let n = key.columns@.len() as int;
    lemma_parts(key, held, places, n);
    let parts = Seq::new(
        n as nat,
        |i: int| key.targets@[i]@ + " = "@ + held[places[i]].literal->Some_0,
    );
    let condition = |i: int| key.targets@[i]@ + " = "@ + held[places[i]].literal->Some_0;
    lemma_folded(parts);
    assert(parts.drop_first() =~= Seq::new((n - 1) as nat, |i: int| condition(i + 1)));
    if n == 2 {
        assert(joined(parts, " and "@) == joined(parts.drop_last(), " and "@) + " and "@
            + parts.last());
    } else if n == 3 {
        let two = parts.drop_last();
        assert(joined(two, " and "@) == joined(two.drop_last(), " and "@) + " and "@ + two.last());
        assert(joined(parts, " and "@) == joined(two, " and "@) + " and "@ + parts.last());
    }
}

/// A field that is a column of no key refers to nothing.
pub proof fn a_field_of_no_key_refers_to_nothing(
    relation: Relation,
    held: Seq<HeldView>,
    column: Seq<char>,
)
    requires
        forall|i: int, j: int|
            0 <= i < relation.foreign_keys@.len() && 0 <= j
                < relation.foreign_keys@[i].columns@.len()
                ==> #[trigger] relation.foreign_keys@[i].columns@[j]@ != column,
    ensures
        reference_of(relation, held, column) is None,
{
    let keys = relation.foreign_keys@;
    lemma_first_bounds(keys, key_has(column));
    let at = first(keys, key_has(column));
    if at < keys.len() {
        assert(key_has(column)(keys[at]));
        let k = choose|k: int|
            0 <= k < texts(keys[at].columns@).len() && texts(keys[at].columns@)[k] == column;
        assert(keys[at].columns@[k]@ == column);
    }
}

/// Where a column of the key is null in the row, or is not among the rows on
/// screen, the field refers to nothing.
pub proof fn a_reference_with_a_hole_refers_to_nothing(
    relation: Relation,
    held: Seq<HeldView>,
    column: Seq<char>,
    at: int,
    hole: int,
)
    requires
        0 <= at < relation.foreign_keys@.len(),
        exists|j: int|
            0 <= j < relation.foreign_keys@[at].columns@.len()
                && #[trigger] relation.foreign_keys@[at].columns@[j]@ == column,
        forall|i: int, j: int|
            0 <= i < at && 0 <= j < relation.foreign_keys@[i].columns@.len()
                ==> #[trigger] relation.foreign_keys@[i].columns@[j]@ != column,
        0 <= hole < relation.foreign_keys@[at].columns@.len(),
        forall|i: int|
            0 <= i < held.len() && (#[trigger] held[i]).name
                == relation.foreign_keys@[at].columns@[hole]@ ==> held[i].literal is None,
    ensures
        reference_of(relation, held, column) is None,
{
    let keys = relation.foreign_keys@;
    let key = keys[at];
    let j = choose|j: int| 0 <= j < key.columns@.len() && #[trigger] key.columns@[j]@ == column;
    assert(texts(key.columns@)[j] == column);
    assert(key_has(column)(key));
    assert forall|i: int| 0 <= i < at implies !key_has(column)(#[trigger] keys[i]) by {
        if texts(keys[i].columns@).contains(column) {
            let k = choose|k: int|
                0 <= k < texts(keys[i].columns@).len() && texts(keys[i].columns@)[k] == column;
            assert(keys[i].columns@[k]@ == column);
        }
    }
    lemma_first(keys, key_has(column), at);
    let meant = is_called(key.columns@[hole]@);
    lemma_first_bounds(held, meant);
    let place = first(held, meant);
    if place < held.len() {
        assert(meant(held[place]));
    }
    assert(key_part(key, held, hole) is None);
    lemma_hole(key, held, hole, key.columns@.len() as int);
}

/// One column that is no condition leaves none of the key.
proof fn lemma_hole(key: ForeignKey, held: Seq<HeldView>, at: int, count: int)
    requires
        0 <= at < count,
        key_part(key, held, at) is None,
    ensures
        key_parts(key, held, count) is None,
    decreases count,
{
    if at < count - 1 {
        lemma_hole(key, held, at, count - 1);
    }
}

} // verus!
