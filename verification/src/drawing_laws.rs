//! What the left panel draws, told by what there is to draw.
use crate::history::{in_scope, listed, HistoryScope, HistoryView};
use crate::sidebar::{
    asked, drawn_rows, is_above, is_drawn, is_hidden, is_kept, is_shut, lineage, other_ids,
    row_face, turned, ClickView, Tag, TreeRow,
};
use crate::text::has;
use crate::tree::Entry;
use vstd::prelude::*;

verus! {

/// Whether a row of the tree is among the drawn ones.
pub open spec fn is_on_screen(drawn: Seq<TreeRow>, place: int) -> bool {
    exists|k: int| 0 <= k < drawn.len() && (#[trigger] drawn[k]).place as int == place
}

/// Whether a row of the tree stands over another: it comes first, and nothing
/// from there down to the other is as far out as it.
pub open spec fn stands_over(list: Seq<Entry>, over: int, under: int) -> bool {
    &&& 0 <= over < under
    &&& forall|k: int| over < k <= under ==> list[over].row.depth < (#[trigger] list[k]).row.depth
}

/// What is drawn of the first rows.
proof fn lemma_drawn(
    list: Seq<Entry>,
    count: int,
    collapsed: Seq<usize>,
    folded: Seq<Seq<char>>,
    needle: Option<Seq<char>>,
    selected: Option<usize>,
    tags: Seq<Tag>,
)
    requires
        0 <= count <= list.len() <= usize::MAX,
    ensures
        ({
            let drawn = drawn_rows(list, count, collapsed, folded, needle, selected, tags);
            &&& forall|k: int|
                0 <= k < drawn.len() ==> (#[trigger] drawn[k]).place < count && is_drawn(
                    list,
                    drawn[k].place as int,
                    collapsed,
                    folded,
                    needle,
                ) && drawn[k] == row_face(
                    list,
                    drawn[k].place as int,
                    collapsed,
                    needle is Some,
                    selected,
                    tags,
                )
            &&& forall|j: int, k: int|
                0 <= j < k < drawn.len() ==> (#[trigger] drawn[j]).place < (
                #[trigger] drawn[k]).place
            &&& forall|at: int|
                0 <= at < count && is_drawn(list, at, collapsed, folded, needle)
                    ==> #[trigger] is_on_screen(drawn, at)
        }),
    decreases count,
{
    if count > 0 {
        lemma_drawn(list, count - 1, collapsed, folded, needle, selected, tags);
        let before = drawn_rows(list, count - 1, collapsed, folded, needle, selected, tags);
        let drawn = drawn_rows(list, count, collapsed, folded, needle, selected, tags);
        assert forall|at: int|
            0 <= at < count && is_drawn(list, at, collapsed, folded, needle) implies
        #[trigger] is_on_screen(drawn, at) by {
            if at < count - 1 {
                assert(is_on_screen(before, at));
                let k = choose|k: int|
                    0 <= k < before.len() && (#[trigger] before[k]).place as int == at;
                assert(drawn[k] == before[k]);
            } else {
                assert(drawn[before.len() as int].place == at);
            }
        }
    }
}

/// Without a filter, exactly the rows are on screen that have no closed row
/// above them, in the order of the tree, each as deep as it is, and lit where it
/// is the selected one.
pub proof fn what_is_not_folded_away_is_on_screen(
    list: Seq<Entry>,
    collapsed: Seq<usize>,
    folded: Seq<Seq<char>>,
    selected: Option<usize>,
    tags: Seq<Tag>,
    at: int,
)
    requires
        0 <= at < list.len() <= usize::MAX,
    ensures
        ({
            let drawn = drawn_rows(
                list,
                list.len() as int,
                collapsed,
                folded,
                None,
                selected,
                tags,
            );
            &&& is_on_screen(drawn, at) <==> !(exists|j: int|
                #[trigger] stands_over(list, j, at) && list[j].row.expandable
                    && collapsed.contains(list[j].id))
            &&& forall|j: int, k: int|
                0 <= j < k < drawn.len() ==> (#[trigger] drawn[j]).place < (
                #[trigger] drawn[k]).place
            &&& forall|k: int|
                0 <= k < drawn.len() ==> {
                    let row = #[trigger] drawn[k];
                    let entry = list[row.place as int];
                    &&& row.place < list.len()
                    &&& row.id == entry.id
                    &&& row.indent == entry.row.depth as usize
                    &&& row.selected == (selected == Some(entry.id))
                    &&& !entry.row.expandable ==> row.disclosure is Leaf
                    &&& entry.row.expandable && collapsed.contains(entry.id) ==> row.disclosure
                        is Collapsed
                    &&& entry.row.expandable && !collapsed.contains(entry.id) ==> row.disclosure
                        is Expanded
                }
        }),
{
    lemma_drawn(list, list.len() as int, collapsed, folded, None, selected, tags);
    let drawn = drawn_rows(list, list.len() as int, collapsed, folded, None, selected, tags);
    if is_hidden(list, collapsed, at) {
        let j = choose|j: int| #[trigger] is_above(list, j, at) && is_shut(list[j], collapsed);
        assert(stands_over(list, j, at));
    }
    if exists|j: int|
        #[trigger] stands_over(list, j, at) && list[j].row.expandable && collapsed.contains(
            list[j].id,
        ) {
        let j = choose|j: int|
            #[trigger] stands_over(list, j, at) && list[j].row.expandable && collapsed.contains(
                list[j].id,
            );
        assert(is_above(list, j, at));
    }
    if is_on_screen(drawn, at) {
        let k = choose|k: int| 0 <= k < drawn.len() && (#[trigger] drawn[k]).place as int == at;
        assert(is_drawn(list, drawn[k].place as int, collapsed, folded, None));
    }
}

/// With a filter, exactly the rows are on screen that have the needle in their
/// name, or have a row that does under them, whatever is closed; and none of
/// them is drawn closed.
pub proof fn a_filter_shows_what_it_finds(
    list: Seq<Entry>,
    collapsed: Seq<usize>,
    folded: Seq<Seq<char>>,
    needle: Seq<char>,
    selected: Option<usize>,
    tags: Seq<Tag>,
    at: int,
)
    requires
        0 <= at < list.len() <= usize::MAX,
    ensures
        ({
            let drawn = drawn_rows(
                list,
                list.len() as int,
                collapsed,
                folded,
                Some(needle),
                selected,
                tags,
            );
            &&& is_on_screen(drawn, at) <==> exists|i: int|
                0 <= i < list.len() && has(folded[i], needle) && (#[trigger] lineage(
                    list,
                    i,
                )).contains(list[at].id)
            &&& forall|k: int|
                0 <= k < drawn.len() ==> !((#[trigger] drawn[k]).disclosure is Collapsed)
            &&& has(folded[at], needle) ==> is_on_screen(drawn, at)
        }),
{
    lemma_drawn(list, list.len() as int, collapsed, folded, Some(needle), selected, tags);
    let drawn = drawn_rows(
        list,
        list.len() as int,
        collapsed,
        folded,
        Some(needle),
        selected,
        tags,
    );
    if is_on_screen(drawn, at) {
        let k = choose|k: int| 0 <= k < drawn.len() && (#[trigger] drawn[k]).place as int == at;
        assert(is_drawn(list, drawn[k].place as int, collapsed, folded, Some(needle)));
    }
    if has(folded[at], needle) {
        let line = lineage(list, at);
        assert(line[line.len() - 1] == list[at].id);
        assert(line.contains(list[at].id));
        assert(is_kept(list, folded, needle, list[at].id));
    }
    assert(is_kept(list, folded, needle, list[at].id) <==> exists|i: int|
        0 <= i < list.len() && has(folded[i], needle) && (#[trigger] lineage(list, i)).contains(
            list[at].id,
        ));
}

/// What a filter keeps was there.
proof fn lemma_kept_was_there(ids: Seq<usize>, keep: spec_fn(usize) -> bool, id: usize)
    requires
        ids.filter(keep).contains(id),
    ensures
        ids.contains(id),
    decreases ids.len(),
{
    reveal(Seq::filter);
    if ids.len() > 0 {
        let rest = ids.drop_last();
        let kept = ids.filter(keep);
        let k = choose|k: int| 0 <= k < kept.len() && kept[k] == id;
        if k < rest.filter(keep).len() {
            assert(rest.filter(keep)[k] == id);
            lemma_kept_was_there(rest, keep, id);
            let j = choose|j: int| 0 <= j < rest.len() && rest[j] == id;
            assert(ids[j] == id);
        } else {
            assert(ids[ids.len() - 1] == id);
        }
    }
}

/// Turning a row opens it where it is closed and closes it where it is open, and
/// turns no other.
pub proof fn turning_a_row_turns_that_row(collapsed: Seq<usize>, id: usize, other: usize)
    ensures
        turned(collapsed, id).contains(id) == !collapsed.contains(id),
        other != id ==> turned(collapsed, id).contains(other) == collapsed.contains(other),
{
    broadcast use vstd::seq_lib::group_filter_ensures;

    let after = turned(collapsed, id);
    if collapsed.contains(id) {
        let keep = other_ids(id);
        if collapsed.contains(other) && other != id {
            let k = choose|k: int| 0 <= k < collapsed.len() && collapsed[k] == other;
            assert(keep(collapsed[k]));
            assert(after.contains(collapsed[k]));
        }
        if after.contains(other) {
            let k = choose|k: int| 0 <= k < after.len() && after[k] == other;
            assert(keep(after[k]));
            lemma_kept_was_there(collapsed, keep, other);
        }
        if after.contains(id) {
            let k = choose|k: int| 0 <= k < after.len() && after[k] == id;
            assert(keep(after[k]));
        }
    } else {
        assert(after[collapsed.len() as int] == id);
        if collapsed.contains(other) {
            let k = choose|k: int| 0 <= k < collapsed.len() && collapsed[k] == other;
            assert(after[k] == other);
        }
        if after.contains(other) && other != id {
            let k = choose|k: int| 0 <= k < after.len() && after[k] == other;
            assert(collapsed[k] == other);
        }
    }
}

/// A click does what the row is for: a connection with nothing under it is
/// opened, a database is opened on its server, a row that points at something
/// opens that, and any other row that can be folded is.
pub proof fn a_click_does_what_the_row_is_for(entry: Entry)
    ensures
        entry.row.kind is Connection && !entry.row.expandable ==> asked(entry)
            == ClickView::Connect(entry.connection),
        entry.row.kind is Database ==> asked(entry) == ClickView::Database(
            entry.connection,
            entry.database,
            entry.row.name,
        ),
        !(entry.row.kind is Connection) && !(entry.row.kind is Database) && entry.row.target
            is Some ==> asked(entry) == ClickView::Open(
            entry.connection,
            entry.database,
            entry.row.target->Some_0,
        ),
        !(entry.row.kind is Database) && entry.row.expandable && entry.row.target is None ==> asked(
            entry,
        ) is Turn,
        !(entry.row.kind is Connection) && !(entry.row.kind is Database) && !entry.row.expandable
            && entry.row.target is None ==> asked(entry) is Nothing,
{
}

/// The history lists everything, or what this window recorded, in order.
pub proof fn the_history_lists_its_scope(
    list: Seq<HistoryView>,
    scope: HistoryScope,
    mine: Seq<i64>,
    at: int,
)
    requires
        0 <= at < list.len() <= usize::MAX,
    ensures
        scope is Everything ==> listed(list, scope, mine).contains(at as usize),
        scope is ThisWindow ==> (listed(list, scope, mine).contains(at as usize) <==> mine.contains(
            list[at].id,
        )),
{
    lemma_listed(list, scope, mine, at);
}

/// What the history lists.
proof fn lemma_listed(list: Seq<HistoryView>, scope: HistoryScope, mine: Seq<i64>, at: int)
    requires
        0 <= at <= usize::MAX,
        list.len() <= usize::MAX,
    ensures
        listed(list, scope, mine).contains(at as usize) <==> at < list.len() && (scope
            is Everything || mine.contains(list[at].id)),
    decreases list.len(),
{
    if list.len() > 0 {
        let rest = list.drop_last();
        lemma_listed(rest, scope, mine, at);
        let before = listed(rest, scope, mine);
        let all = listed(list, scope, mine);
        let last = list.len() - 1;
        if in_scope(list[last], scope, mine) {
            assert(all[before.len() as int] == last as usize);
        }
        if before.contains(at as usize) {
            let k = choose|k: int| 0 <= k < before.len() && before[k] == at as usize;
            assert(all[k] == at as usize);
        }
        if all.contains(at as usize) && !before.contains(at as usize) {
            let k = choose|k: int| 0 <= k < all.len() && all[k] == at as usize;
            if k < before.len() {
                assert(before[k] == at as usize);
            }
        }
        if at < last {
            assert(rest[at] == list[at]);
        }
    }
}

} // verus!
