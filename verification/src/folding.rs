//! Which branches of the sidebar start closed.
use crate::lists::{lemma_filter_all, lemma_filter_none, lemma_filter_step};
use crate::tree::{entries, Entry, NodeKind, TreeNode};
use vstd::prelude::*;

verus! {

/// How many objects a single schema may have and still start open.
pub const MANY_OBJECTS: usize = 200;

/// Where the branch that starts before `at`, at a depth, ends.
pub open spec fn reach(list: Seq<Entry>, depth: nat, at: int) -> int
    decreases list.len() - at,
{
    if at < 0 || at >= list.len() || list[at].row.depth <= depth {
        at
    } else {
        reach(list, depth, at + 1)
    }
}

/// How many rows are schemas.
pub open spec fn schema_count(list: Seq<Entry>) -> nat {
    list.filter(|n: Entry| n.row.kind is Schema).len()
}

/// How many rows are at least so deep.
pub open spec fn deep_count(list: Seq<Entry>, depth: nat) -> nat {
    list.filter(|n: Entry| n.row.depth >= depth).len()
}

/// How deep the first schema is, and two where there is none.
pub open spec fn schema_level(list: Seq<Entry>) -> nat
    decreases list.len(),
{
    if list.len() == 0 {
        2
    } else if list[0].row.kind is Schema {
        list[0].row.depth
    } else {
        schema_level(list.drop_first())
    }
}

/// How deep a row has to be to start closed: as deep as the schemas, or two
/// levels deeper where there is one schema only and it is not enormous.
pub open spec fn floor(list: Seq<Entry>) -> nat {
    let level = schema_level(list);
    if schema_count(list) == 1 && deep_count(list, level + 2) <= MANY_OBJECTS {
        level + 2
    } else {
        level
    }
}

/// The ids of the rows that start closed in one catalog's worth of rows.
pub open spec fn closed_in(list: Seq<Entry>) -> Seq<usize> {
    list.filter(|n: Entry| n.row.expandable && n.row.depth >= floor(list)).map_values(
        |n: Entry| n.id,
    )
}

/// The ids that start closed inside the databases of a list, each judged on
/// its own.
pub open spec fn closed_in_databases(list: Seq<Entry>, at: int) -> Seq<usize>
    decreases list.len() - at,
{
    if at < 0 || at >= list.len() {
        Seq::empty()
    } else if list[at].row.kind is Database {
        let end = reach(list, list[at].row.depth, at + 1);
        if at < end <= list.len() {
            closed_in(list.subrange(at + 1, end)) + closed_in_databases(list, end)
        } else {
            Seq::empty()
        }
    } else {
        closed_in_databases(list, at + 1)
    }
}

/// The rows that are inside no database. A database's own row is one of them:
/// it stays open either way.
pub open spec fn outside(list: Seq<Entry>, at: int) -> Seq<Entry>
    decreases list.len() - at,
{
    if at < 0 || at >= list.len() {
        Seq::empty()
    } else if list[at].row.kind is Database {
        let end = reach(list, list[at].row.depth, at + 1);
        if at < end <= list.len() {
            seq![list[at]] + outside(list, end)
        } else {
            Seq::empty()
        }
    } else {
        seq![list[at]] + outside(list, at + 1)
    }
}

/// The ids that start closed under one connection.
pub open spec fn closed_under_root(list: Seq<Entry>) -> Seq<usize> {
    closed_in_databases(list, 0) + closed_in(outside(list, 0))
}

/// Where the rows of the connection that starts before `at` end.
pub open spec fn next_root(list: Seq<Entry>, at: int) -> int
    decreases list.len() - at,
{
    if at < 0 || at >= list.len() || list[at].row.kind is Connection {
        at
    } else {
        next_root(list, at + 1)
    }
}

/// The ids that start closed in the rows from `at` on, one connection at a
/// time.
pub open spec fn closed_from(list: Seq<Entry>, at: int) -> Seq<usize>
    decreases list.len() - at,
{
    if at < 0 || at >= list.len() {
        Seq::empty()
    } else {
        let end = next_root(list, at + 1);
        if at < end <= list.len() {
            closed_under_root(list.subrange(at, end)) + closed_from(list, end)
        } else {
            Seq::empty()
        }
    }
}

/// The rows that a list of places picks out.
pub open spec fn chosen(nodes: Seq<TreeNode>, places: Seq<usize>) -> Seq<Entry> {
    Seq::new(places.len(), |i: int| nodes[places[i] as int].entry())
}

/// How deep a row has to be to start closed.
fn floor_of(nodes: &[TreeNode], places: &Vec<usize>) -> (depth: u128)
    requires
        forall|i: int| 0 <= i < places@.len() ==> (#[trigger] places@[i]) < nodes@.len(),
    ensures
        depth == floor(chosen(nodes@, places@)),
{
    let ghost list = chosen(nodes@, places@);
    let ghost is_schema = |n: Entry| n.row.kind is Schema;
    let mut schemas: usize = 0;
    let mut level: u128 = 2;
    let mut at: usize = 0;
    proof {
        lemma_filter_none(list, is_schema);
    }
    assert(list.skip(0) =~= list);
    while at < places.len()
        invariant
            at <= places@.len(),
            forall|i: int| 0 <= i < places@.len() ==> (#[trigger] places@[i]) < nodes@.len(),
                list == chosen(nodes@, places@),
            is_schema == (|n: Entry| n.row.kind is Schema),
            schemas == list.take(at as int).filter(is_schema).len(),
            schemas <= at,
            level <= usize::MAX,
            schemas == 0 ==> level == 2 && schema_level(list) == schema_level(
                list.skip(at as int),
            ),
            schemas > 0 ==> level == schema_level(list),
        decreases places@.len() - at,
    {
        let node = &nodes[places[at]];
        assert(list[at as int] == node.entry());
        proof {
            lemma_filter_step(list, is_schema, at as int);
            assert(list.skip(at as int)[0] == list[at as int]);
            assert(list.skip(at as int).drop_first() =~= list.skip(at + 1));
        }
        if node.kind == NodeKind::Schema {
            if schemas == 0 {
                level = node.depth as u128;
            }
            schemas += 1;
        }
        at += 1;
    }
    proof {
        lemma_filter_all(list, is_schema);
        assert(list.skip(at as int).len() == 0);
    }
    let ghost is_deep = |n: Entry| n.row.depth >= level + 2;
    let mut objects: usize = 0;
    let mut next: usize = 0;
    proof {
        lemma_filter_none(list, is_deep);
    }
    while next < places.len()
        invariant
            next <= places@.len(),
            forall|i: int| 0 <= i < places@.len() ==> (#[trigger] places@[i]) < nodes@.len(),
            list == chosen(nodes@, places@),
            level <= usize::MAX,
            is_deep == (|n: Entry| n.row.depth >= level + 2),
            objects == list.take(next as int).filter(is_deep).len(),
            objects <= next,
        decreases places@.len() - next,
    {
        let node = &nodes[places[next]];
        assert(list[next as int] == node.entry());
        proof {
            lemma_filter_step(list, is_deep, next as int);
        }
        if node.depth as u128 >= level + 2 {
            objects += 1;
        }
        next += 1;
    }
    proof {
        lemma_filter_all(list, is_deep);
        assert(list.filter(is_deep).len() == deep_count(list, schema_level(list) + 2)) by {
            let other = |n: Entry| n.row.depth >= schema_level(list) + 2;
            assert(is_deep =~= other);
        }
    }
    // Not if that schema is enormous. A thousand tables listed on arrival is a
    // scroll bar, not a starting point.
    if schemas == 1 && objects <= MANY_OBJECTS {
        level + 2
    } else {
        level
    }
}

/// Append the ids that start closed in one catalog's worth of rows.
fn collapse(nodes: &[TreeNode], places: &Vec<usize>, ids: &mut Vec<usize>)
    requires
        forall|i: int| 0 <= i < places@.len() ==> (#[trigger] places@[i]) < nodes@.len(),
    ensures
        final(ids)@ == old(ids)@ + closed_in(chosen(nodes@, places@)),
{
    let ghost list = chosen(nodes@, places@);
    let ghost start = ids@;
    let depth = floor_of(nodes, places);
    let ghost shut = |n: Entry| n.row.expandable && n.row.depth >= floor(list);
    let ghost id = |n: Entry| n.id;
    let mut at: usize = 0;
    proof {
        lemma_filter_none(list, shut);
        assert(start + list.take(0).filter(shut).map_values(id) =~= start);
    }
    while at < places.len()
        invariant
            at <= places@.len(),
            forall|i: int| 0 <= i < places@.len() ==> (#[trigger] places@[i]) < nodes@.len(),
            list == chosen(nodes@, places@),
            depth == floor(list),
            shut == (|n: Entry| n.row.expandable && n.row.depth >= floor(list)),
            id == (|n: Entry| n.id),
            ids@ == start + list.take(at as int).filter(shut).map_values(id),
        decreases places@.len() - at,
    {
        let node = &nodes[places[at]];
        assert(list[at as int] == node.entry());
        proof {
            lemma_filter_step(list, shut, at as int);
        }
        let ghost had = list.take(at as int).filter(shut);
        if node.expandable && node.depth as u128 >= depth {
            ids.push(node.id);
            assert(had.push(node.entry()).map_values(id) =~= had.map_values(id).push(node.id));
        }
        at += 1;
        assert(ids@ =~= start + list.take(at as int).filter(shut).map_values(id));
    }
    proof {
        lemma_filter_all(list, shut);
    }
}

/// Where the subtree rooted at `start` ends, looking no further than `limit`.
fn extent(nodes: &[TreeNode], from: usize, start: usize, limit: usize) -> (end: usize)
    requires
        from <= start < limit <= nodes@.len(),
    ensures
        start < end <= limit,
        from + reach(
            entries(nodes@).subrange(from as int, limit as int),
            nodes@[start as int].depth as nat,
            start + 1 - from,
        ) == end,
{
    let ghost list = entries(nodes@).subrange(from as int, limit as int);
    let depth = nodes[start].depth;
    let mut end: usize = start + 1;
    while end < limit && nodes[end].depth > depth
        invariant
            from <= start < end <= limit <= nodes@.len(),
            list == entries(nodes@).subrange(from as int, limit as int),
            depth == nodes@[start as int].depth,
            reach(list, depth as nat, end - from) == reach(list, depth as nat, start + 1 - from),
        decreases limit - end,
    {
        assert(list[end - from] == nodes@[end as int].entry());
        end += 1;
    }
    proof {
        if end < limit {
            assert(list[end - from] == nodes@[end as int].entry());
        }
    }
    end
}

/// Append the ids that start closed under one connection, whose rows are those
/// from `from` to `to`.
fn collapse_root(nodes: &[TreeNode], from: usize, to: usize, ids: &mut Vec<usize>)
    requires
        from <= to <= nodes@.len(),
    ensures
        final(ids)@ == old(ids)@ + closed_under_root(entries(nodes@).subrange(from as int, to as int)),
{
    let ghost list = entries(nodes@).subrange(from as int, to as int);
    let ghost start = ids@;
    let mut rest: Vec<usize> = Vec::new();
    let mut at: usize = from;
    assert(chosen(nodes@, rest@) + outside(list, 0) =~= outside(list, 0));
    while at < to
        invariant
            from <= at <= to <= nodes@.len(),
                forall|i: int| 0 <= i < rest@.len() ==> (#[trigger] rest@[i]) < nodes@.len(),
            list == entries(nodes@).subrange(from as int, to as int),
            ids@ + closed_in_databases(list, at - from) == start + closed_in_databases(list, 0),
            chosen(nodes@, rest@) + outside(list, at - from) == outside(list, 0),
        decreases to - at,
    {
        let ghost had = chosen(nodes@, rest@);
        let ghost before = ids@;
        assert(list[at - from] == nodes@[at as int].entry());
        rest.push(at);
        assert(chosen(nodes@, rest@) =~= had.push(list[at - from]));
        if nodes[at].kind == NodeKind::Database {
            let end = extent(nodes, from, at, to);
            let mut inside: Vec<usize> = Vec::new();
            let mut next: usize = at + 1;
            while next < end
                invariant
                    at < next <= end <= nodes@.len(),
                    inside@.len() == next - at - 1,
                    forall|i: int| 0 <= i < inside@.len() ==> (#[trigger] inside@[i]) == at + 1 + i,
                decreases end - next,
            {
                inside.push(next);
                next += 1;
            }
            assert(chosen(nodes@, inside@) =~= list.subrange(at + 1 - from, end - from));
            collapse(nodes, &inside, ids);
            assert(ids@ + closed_in_databases(list, end - from) =~= before + closed_in_databases(
                list,
                at - from,
            ));
            assert(chosen(nodes@, rest@) + outside(list, end - from) =~= had + outside(
                list,
                at - from,
            ));
            at = end;
        } else {
            assert(chosen(nodes@, rest@) + outside(list, at + 1 - from) =~= had + outside(
                list,
                at - from,
            ));
            at += 1;
        }
    }
    assert(ids@ + closed_in_databases(list, to - from) =~= ids@);
    assert(chosen(nodes@, rest@) + outside(list, to - from) =~= chosen(nodes@, rest@));
    collapse(nodes, &rest, ids);
    assert(ids@ =~= start + closed_under_root(list));
}

/// Ids of the rows that should start closed.
///
/// Everything below the schemas, because a server with forty schemas would
/// otherwise open to a tree thousands of rows long. The connection and the
/// database stay open: a tree whose root is shut is a tree that looks broken.
///
/// The exception is a database with a single schema, which is what most of
/// them are. There is no choice to make there, so its folders open with it;
/// what is inside them does not, because that is where the row counts get
/// large.
///
/// Judged one catalog at a time. "One schema, so open it" is a fact about a
/// single database, and with several of them on screen at once a count over
/// the whole tree would let one connection decide how another one opens.
pub fn initially_collapsed(nodes: &[TreeNode]) -> (ids: Vec<usize>)
    ensures
        ids@ == closed_from(entries(nodes@), 0),
{
    let mut ids: Vec<usize> = Vec::new();
    let mut at: usize = 0;
    assert(ids@ + closed_from(entries(nodes@), 0) =~= closed_from(entries(nodes@), 0));
    while at < nodes.len()
        invariant
            at <= nodes@.len(),
                ids@ + closed_from(entries(nodes@), at as int) == closed_from(entries(nodes@), 0),
        decreases nodes@.len() - at,
    {
        let mut end: usize = at + 1;
        while end < nodes.len() && nodes[end].kind != NodeKind::Connection
            invariant
                at < end <= nodes@.len(),
                next_root(entries(nodes@), end as int) == next_root(entries(nodes@), at + 1),
            decreases nodes@.len() - end,
        {
            end += 1;
        }
        let ghost before = ids@;
        collapse_root(nodes, at, end, &mut ids);
        assert(ids@ + closed_from(entries(nodes@), end as int) =~= before + closed_from(
            entries(nodes@),
            at as int,
        ));
        at = end;
    }
    assert(ids@ + closed_from(entries(nodes@), at as int) =~= ids@);
    ids
}

} // verus!
