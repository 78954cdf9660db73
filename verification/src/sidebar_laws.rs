//! What holds of the sidebar of several connections.
use crate::folding::{
    closed_from, closed_in, closed_in_databases, closed_under_root, floor, next_root, outside,
    reach,
};
use crate::tree::{server_entries, server_rows, sidebar, Entry, ServerView};
use crate::tree_laws::{
    databases_are_one_deep, in_visit_order, shown, the_root_and_its_databases_start_open,
    the_tree_is_in_visit_order,
};
use vstd::prelude::*;

verus! {

/// The sidebar of some connections and then some more is the one sidebar and
/// then the other.
pub proof fn sidebars_stand_end_to_end(a: Seq<ServerView>, b: Seq<ServerView>)
    ensures
        sidebar(a + b) == sidebar(a) + sidebar(b),
    decreases b.len(),
{
    if b.len() == 0 {
        assert(a + b =~= a);
        assert(sidebar(a) + sidebar(b) =~= sidebar(a));
    } else {
        sidebars_stand_end_to_end(a, b.drop_last());
        assert((a + b).drop_last() =~= a + b.drop_last());
        assert(sidebar(a + b) =~= sidebar(a) + sidebar(b));
    }
}

/// Where the rows of a connection start in the sidebar.
pub open spec fn run_start(servers: Seq<ServerView>, x: int) -> int {
    sidebar(servers.take(x)).len() as int
}

/// Every connection has one run of the sidebar, in the order the connections
/// are in: the runs leave nothing over, and each opens with the one row of it
/// that stands for a connection, at the top.
pub proof fn every_connection_has_a_run(servers: Seq<ServerView>, x: int)
    requires
        0 <= x < servers.len(),
    ensures
        run_start(servers, 0) == 0,
        run_start(servers, servers.len() as int) == sidebar(servers).len(),
        0 <= run_start(servers, x) < run_start(servers, x + 1) <= sidebar(servers).len(),
        sidebar(servers).subrange(run_start(servers, x), run_start(servers, x + 1))
            == server_entries(servers[x]),
        forall|i: int|
            run_start(servers, x) <= i < run_start(servers, x + 1) ==> {
                let entry = #[trigger] sidebar(servers)[i];
                &&& entry.connection == servers[x].id
                &&& (entry.row.kind is Connection <==> i == run_start(servers, x))
                &&& (entry.row.depth == 0 <==> i == run_start(servers, x))
            },
{
    let list = sidebar(servers);
    let mine = server_entries(servers[x]);
    let front = sidebar(servers.take(x));
    let back = sidebar(servers.skip(x + 1));
    assert(servers.take(0) =~= Seq::empty());
    assert(servers.take(servers.len() as int) =~= servers);
    assert(servers.take(x + 1).drop_last() =~= servers.take(x));
    assert(servers.take(x + 1) + servers.skip(x + 1) =~= servers);
    sidebars_stand_end_to_end(servers.take(x + 1), servers.skip(x + 1));
    assert(list == front + mine + back);
    the_tree_is_in_visit_order(servers[x]);
    assert(list.subrange(front.len() as int, (front.len() + mine.len()) as int) =~= mine);
    assert forall|i: int| run_start(servers, x) <= i < run_start(servers, x + 1) implies {
        let entry = #[trigger] list[i];
        &&& entry.connection == servers[x].id
        &&& (entry.row.kind is Connection <==> i == run_start(servers, x))
        &&& (entry.row.depth == 0 <==> i == run_start(servers, x))
    } by {
        assert(list[i] == mine[i - front.len()]);
        assert(mine[i - front.len()].row == server_rows(servers[x])[i - front.len()]);
    }
}

/// The whole sidebar is in visit order.
pub proof fn the_sidebar_is_in_visit_order(servers: Seq<ServerView>)
    ensures
        in_visit_order(shown(sidebar(servers)), 0),
    decreases servers.len(),
{
    if servers.len() > 0 {
        let front = sidebar(servers.drop_last());
        let mine = server_entries(servers.last());
        let all = shown(sidebar(servers));
        the_sidebar_is_in_visit_order(servers.drop_last());
        the_tree_is_in_visit_order(servers.last());
        let own = server_rows(servers.last());
        assert forall|i: int| 0 <= i < all.len() implies #[trigger] all[i] == if i < front.len() {
            shown(front)[i]
        } else {
            own[i - front.len()]
        } by {
            assert(sidebar(servers)[i] == (front + mine)[i]);
        }
        assert forall|i: int, j: int|
            #![trigger all[i], all[j]]
            0 <= i && j == i + 1 && j < all.len() implies all[j].depth <= all[i].depth + 1 by {
            if j < front.len() {
                assert(all[i] == shown(front)[i] && all[j] == shown(front)[j]);
            } else if i >= front.len() {
                assert(all[i] == own[i - front.len()] && all[j] == own[j - front.len()]);
            } else {
                assert(all[j] == own[0]);
            }
        }
    }
}

/// What starts closed under each of some connections.
pub open spec fn all_closed(servers: Seq<ServerView>) -> Seq<usize>
    decreases servers.len(),
{
    if servers.len() == 0 {
        Seq::empty()
    } else {
        all_closed(servers.drop_last()) + closed_under_root(server_entries(servers.last()))
    }
}

proof fn lemma_all_closed_add(a: Seq<ServerView>, b: Seq<ServerView>)
    ensures
        all_closed(a + b) == all_closed(a) + all_closed(b),
    decreases b.len(),
{
    if b.len() == 0 {
        assert(a + b =~= a);
        assert(all_closed(a) + all_closed(b) =~= all_closed(a));
    } else {
        lemma_all_closed_add(a, b.drop_last());
        assert((a + b).drop_last() =~= a + b.drop_last());
        assert(all_closed(a + b) =~= all_closed(a) + all_closed(b));
    }
}

/// The rows up to the next connection are passed over.
proof fn lemma_next_root(list: Seq<Entry>, at: int, end: int)
    requires
        0 <= at <= end <= list.len(),
        forall|i: int| at <= i < end ==> !((#[trigger] list[i]).row.kind is Connection),
        end < list.len() ==> list[end].row.kind is Connection,
    ensures
        next_root(list, at) == end,
    decreases end - at,
{
    if at < end {
        lemma_next_root(list, at + 1, end);
    }
}

/// From a connection's run on, what starts closed is what does in that run, and
/// then in those after it.
proof fn lemma_closed_from(servers: Seq<ServerView>, x: int)
    requires
        0 <= x <= servers.len(),
    ensures
        all_closed(servers.take(x)) + closed_from(sidebar(servers), run_start(servers, x))
            == all_closed(servers),
    decreases servers.len() - x,
{
    let list = sidebar(servers);
    assert(servers.take(servers.len() as int) =~= servers);
    if x == servers.len() {
        assert(all_closed(servers) + Seq::<usize>::empty() =~= all_closed(servers));
    } else {
        let start = run_start(servers, x);
        let end = run_start(servers, x + 1);
        every_connection_has_a_run(servers, x);
        if x + 1 < servers.len() {
            every_connection_has_a_run(servers, x + 1);
            assert(list[end].row.kind is Connection);
        }
        lemma_next_root(list, start + 1, end);
        lemma_closed_from(servers, x + 1);
        assert(servers.take(x + 1).drop_last() =~= servers.take(x));
        let mine = closed_under_root(server_entries(servers[x]));
        assert(closed_from(list, start) == mine + closed_from(list, end));
        assert(all_closed(servers.take(x)) + (mine + closed_from(list, end)) =~= all_closed(
            servers.take(x + 1),
        ) + closed_from(list, end));
    }
}

/// What starts closed in the sidebar is what starts closed under each
/// connection, judged by its own rows.
pub proof fn connections_are_folded_one_by_one(servers: Seq<ServerView>)
    ensures
        closed_from(sidebar(servers), 0) == all_closed(servers),
{
    lemma_closed_from(servers, 0);
    assert(servers.take(0) =~= Seq::empty());
    assert(Seq::<usize>::empty() + closed_from(sidebar(servers), 0) =~= closed_from(
        sidebar(servers),
        0,
    ));
}

/// What starts closed in the sidebar of some connections and then some more is
/// what does for the one and for the other: neither changes how the other
/// starts.
pub proof fn what_starts_closed_is_the_union(a: Seq<ServerView>, b: Seq<ServerView>)
    ensures
        closed_from(sidebar(a + b), 0) == closed_from(sidebar(a), 0) + closed_from(sidebar(b), 0),
{
    connections_are_folded_one_by_one(a);
    connections_are_folded_one_by_one(b);
    connections_are_folded_one_by_one(a + b);
    lemma_all_closed_add(a, b);
}

/// Whether a row stands for a connection or a database.
pub open spec fn is_upper(entry: Entry) -> bool {
    entry.row.kind is Connection || entry.row.kind is Database
}

/// Whether an id is that of a row of a list that stands for neither a
/// connection nor a database.
pub open spec fn is_lower_id(list: Seq<Entry>, id: usize) -> bool {
    exists|k: int| 0 <= k < list.len() && (#[trigger] list[k]).id == id && !is_upper(list[k])
}

/// An id that starts closed is that of a row deep enough.
proof fn lemma_closed_row(list: Seq<Entry>, id: usize) -> (k: int)
    requires
        closed_in(list).contains(id),
    ensures
        0 <= k < list.len(),
        list[k].id == id,
        list[k].row.depth >= floor(list),
{
    let shut = |n: Entry| n.row.expandable && n.row.depth >= floor(list);
    let ids = |n: Entry| n.id;
    let kept = list.filter(shut);
    let at = choose|i: int| 0 <= i < closed_in(list).len() && closed_in(list)[i] == id;
    assert(closed_in(list) == kept.map_values(ids));
    assert(kept[at].id == id);
    list.lemma_filter_contains_rev(shut, kept[at]);
    list.lemma_filter_pred(shut, at);
    let k = choose|k: int| 0 <= k < list.len() && list[k] == kept[at];
    k
}

/// A row that is inside no database is a row of the list.
proof fn lemma_outside_within(list: Seq<Entry>, at: int, i: int) -> (k: int)
    requires
        0 <= at <= list.len(),
        0 <= i < outside(list, at).len(),
    ensures
        at <= k < list.len(),
        list[k] == outside(list, at)[i],
    decreases list.len() - at,
{
    if i == 0 {
        at
    } else if list[at].row.kind is Database {
        let end = reach(list, list[at].row.depth, at + 1);
        assert(outside(list, at)[i] == outside(list, end)[i - 1]);
        lemma_outside_within(list, end, i - 1)
    } else {
        assert(outside(list, at)[i] == outside(list, at + 1)[i - 1]);
        lemma_outside_within(list, at + 1, i - 1)
    }
}

/// A branch is deeper than the row it hangs from.
proof fn lemma_reach_deep(list: Seq<Entry>, depth: nat, at: int, i: int)
    requires
        0 <= at <= i < reach(list, depth, at),
    ensures
        i < list.len(),
        list[i].row.depth > depth,
    decreases list.len() - at,
{
    if at < i {
        lemma_reach_deep(list, depth, at + 1, i);
    }
}

/// Inside the databases only what is below them starts closed.
proof fn lemma_closed_in_databases(list: Seq<Entry>, at: int, id: usize)
    requires
        0 <= at <= list.len(),
        forall|i: int|
            0 <= i < list.len() ==> (((#[trigger] list[i]).row.kind is Database
                ==> list[i].row.depth == 1) && (list[i].row.kind is Connection
                ==> list[i].row.depth == 0)),
        closed_in_databases(list, at).contains(id),
    ensures
        is_lower_id(list, id),
    decreases list.len() - at,
{
    if at < list.len() {
        if list[at].row.kind is Database {
            let end = reach(list, list[at].row.depth, at + 1);
            if at < end <= list.len() {
                let branch = list.subrange(at + 1, end);
                let rest = closed_in_databases(list, end);
                let i = choose|i: int|
                    0 <= i < (closed_in(branch) + rest).len() && (closed_in(branch) + rest)[i]
                        == id;
                if i < closed_in(branch).len() {
                    assert(closed_in(branch)[i] == id);
                    let k = lemma_closed_row(branch, id);
                    assert(branch[k] == list[at + 1 + k]);
                    lemma_reach_deep(list, list[at].row.depth, at + 1, at + 1 + k);
                    assert(list[at + 1 + k].id == id && !is_upper(list[at + 1 + k]));
                } else {
                    assert(rest[i - closed_in(branch).len()] == id);
                    lemma_closed_in_databases(list, end, id);
                }
            }
        } else {
            lemma_closed_in_databases(list, at + 1, id);
        }
    }
}

/// Nothing that starts closed under a connection is a connection or a database.
proof fn lemma_closed_under_root(server: ServerView, id: usize)
    requires
        closed_under_root(server_entries(server)).contains(id),
    ensures
        is_lower_id(server_entries(server), id),
{
    let list = server_entries(server);
    assert(shown(list) =~= server_rows(server));
    the_root_and_its_databases_start_open(server, list);
    databases_are_one_deep(server);
    the_tree_is_in_visit_order(server);
    assert forall|i: int| 0 <= i < list.len() implies (((#[trigger] list[i]).row.kind is Database
        ==> list[i].row.depth == 1) && (list[i].row.kind is Connection ==> list[i].row.depth
        == 0)) by {
        assert(list[i].row == server_rows(server)[i]);
    }
    let inside = closed_in_databases(list, 0);
    let apart = closed_in(outside(list, 0));
    let i = choose|i: int| 0 <= i < (inside + apart).len() && (inside + apart)[i] == id;
    if i < inside.len() {
        assert(inside[i] == id);
        lemma_closed_in_databases(list, 0, id);
    } else {
        assert(apart[i - inside.len()] == id);
        let n = lemma_closed_row(outside(list, 0), id);
        let k = lemma_outside_within(list, 0, n);
        assert(list[k].id == id && !is_upper(list[k]));
    }
}

/// Every connection and every database starts open: an id that starts closed is
/// that of a row that is neither.
pub proof fn what_starts_closed_is_below_the_databases(servers: Seq<ServerView>, id: usize)
    requires
        closed_from(sidebar(servers), 0).contains(id),
    ensures
        is_lower_id(sidebar(servers), id),
    decreases servers.len(),
{
    connections_are_folded_one_by_one(servers);
    if servers.len() > 0 {
        let front = servers.drop_last();
        let mine = server_entries(servers.last());
        let i = choose|i: int| 0 <= i < all_closed(servers).len() && all_closed(servers)[i] == id;
        if i < all_closed(front).len() {
            connections_are_folded_one_by_one(front);
            assert(all_closed(front)[i] == id);
            what_starts_closed_is_below_the_databases(front, id);
            let k = choose|k: int|
                0 <= k < sidebar(front).len() && (#[trigger] sidebar(front)[k]).id == id
                    && !is_upper(sidebar(front)[k]);
            assert(sidebar(servers)[k] == sidebar(front)[k]);
        } else {
            assert(closed_under_root(mine)[i - all_closed(front).len()] == id);
            lemma_closed_under_root(servers.last(), id);
            let k = choose|k: int|
                0 <= k < mine.len() && (#[trigger] mine[k]).id == id && !is_upper(mine[k]);
            assert(sidebar(servers)[sidebar(front).len() + k] == mine[k]);
        }
    }
}

/// Where no two rows share an id, no connection and no database starts closed.
pub proof fn connections_and_databases_start_open(servers: Seq<ServerView>, at: int)
    requires
        forall|i: int, j: int|
            0 <= i < j < sidebar(servers).len() ==> (#[trigger] sidebar(servers)[i]).id != (
            #[trigger] sidebar(servers)[j]).id,
        0 <= at < sidebar(servers).len(),
        is_upper(sidebar(servers)[at]),
    ensures
        !closed_from(sidebar(servers), 0).contains(sidebar(servers)[at].id),
{
    let list = sidebar(servers);
    if closed_from(list, 0).contains(list[at].id) {
        what_starts_closed_is_below_the_databases(servers, list[at].id);
        let k = choose|k: int|
            0 <= k < list.len() && (#[trigger] list[k]).id == list[at].id && !is_upper(list[k]);
        assert(k != at);
        if k < at {
            assert(list[k].id != list[at].id);
        } else {
            assert(list[at].id != list[k].id);
        }
    }
}

} // verus!
