//! What a browse asks the server for, told by what is on screen.
use crate::browsing::{
    browse_sent, browse_text, filter_applied, order_clause, page_shown, sort_applied,
    tiebreak_clause, Browse,
};
use crate::catalog::Rows;
use crate::lists::{first, group_views};
use crate::outcome::{asks, asks_only, grows};
use crate::pane::{showing, PaneView, Sort};
use crate::running::sent;
use crate::showing::{
    group_showing, page_set, page_taken, relation_reloaded, results_cleared, session_saved,
};
use crate::text::{decimal, joined, texts, trimmed};
use crate::window::{
    active_pane, browsed, described, group_window, here, known_absent, lemma_place_bounds,
    lemma_place_kept, well_formed, with_active, Act, OrderView, PendingView, WindowView,
};
use vstd::prelude::*;

verus! {

broadcast use {group_views, group_window, group_showing};

/// A sort that goes up asks for `asc` and one that goes down for `desc`, by the
/// column it is on and with the empty rows last; so no column is sorted the
/// same way both ways.
pub proof fn a_sort_says_which_way_it_goes(column: String)
    ensures
        order_clause(Some((column, false))) == " order by "@ + column@ + " asc nulls last"@,
        order_clause(Some((column, true))) == " order by "@ + column@ + " desc nulls last"@,
        order_clause(Some((column, false))) != order_clause(Some((column, true))),
        order_clause(None).len() == 0,
{
    reveal_strlit(" asc nulls last");
    reveal_strlit(" desc nulls last");
    let up = order_clause(Some((column, false)));
    let down = order_clause(Some((column, true)));
    assert(up.len() != down.len());
}

/// The statement of a browse, clause by clause: the table, the condition as it
/// was written, the order the grid asks for, the key behind it from the second
/// page on, as many rows as a page has, and where the page starts.
pub proof fn a_browse_reads_clause_by_clause(
    browse: Browse,
    column: String,
    page: nat,
    size: nat,
    paged: bool,
)
    ensures
        ({
            let table = "select * from "@ + browse.schema@ + "."@ + browse.name@;
            let condition = if trimmed(browse.predicate@).len() == 0 {
                Seq::<char>::empty()
            } else {
                " where "@ + trimmed(browse.predicate@)
            };
            let limit = " limit "@ + decimal(size) + (if page == 0 {
                Seq::<char>::empty()
            } else {
                " offset "@ + decimal(page * size)
            });
            let text = browse_text(browse, page, size, paged);
            let keyed = paged && browse.key@.len() > 0;
            &&& browse.order is None && !keyed ==> text == table + condition + limit
            &&& browse.order == Some((column, false)) && !keyed ==> text == table + condition
                + " order by "@ + column@ + " asc nulls last"@ + limit
            &&& browse.order == Some((column, true)) && !keyed ==> text == table + condition
                + " order by "@ + column@ + " desc nulls last"@ + limit
            &&& browse.order is None && keyed && browse.key@.len() == 1 ==> text == table
                + condition + " order by "@ + browse.key@[0]@ + " asc"@ + limit
            &&& browse.order == Some((column, false)) && keyed && browse.key@.len() == 1 ==> text
                == table + condition + " order by "@ + column@ + " asc nulls last"@ + ", "@
                + browse.key@[0]@ + " asc"@ + limit
            &&& browse.order == Some((column, true)) && keyed && browse.key@.len() == 1 ==> text
                == table + condition + " order by "@ + column@ + " desc nulls last"@ + ", "@
                + browse.key@[0]@ + " asc"@ + limit
            &&& browse.order is None && keyed && browse.key@.len() == 2 ==> text == table
                + condition + " order by "@ + browse.key@[0]@ + " asc"@ + ", "@
                + browse.key@[1]@ + " asc"@ + limit
        }),
{
    let table = "select * from "@ + browse.schema@ + "."@ + browse.name@;
    let condition = if trimmed(browse.predicate@).len() == 0 {
        Seq::<char>::empty()
    } else {
        " where "@ + trimmed(browse.predicate@)
    };
    let limit = " limit "@ + decimal(size) + (if page == 0 {
        Seq::<char>::empty()
    } else {
        " offset "@ + decimal(page * size)
    });
    let text = browse_text(browse, page, size, paged);
    let order = order_clause(browse.order);
    let key = if paged {
        tiebreak_clause(texts(browse.key@), browse.order is Some)
    } else {
        Seq::<char>::empty()
    };
    assert(text =~= table + condition + order + key + limit);
    let rising = crate::browsing::rising(texts(browse.key@));
    if browse.key@.len() == 1 {
        assert(joined(rising, ", "@) == rising[0]);
        assert(rising[0] == browse.key@[0]@ + " asc"@);
    } else if browse.key@.len() == 2 {
        let front = rising.drop_last();
        assert(joined(front, ", "@) == rising[0]);
        assert(joined(rising, ", "@) == rising[0] + ", "@ + rising[1]);
    }
    if browse.order is None {
        assert(order =~= Seq::<char>::empty());
        if !(paged && browse.key@.len() > 0) {
            assert(text =~= table + condition + limit);
        } else if browse.key@.len() == 1 {
            assert(text =~= table + condition + " order by "@ + browse.key@[0]@ + " asc"@ + limit);
        } else if browse.key@.len() == 2 {
            assert(text =~= table + condition + " order by "@ + browse.key@[0]@ + " asc"@ + ", "@
                + browse.key@[1]@ + " asc"@ + limit);
        }
    } else {
        let way = if browse.order->Some_0.1 {
            " desc nulls last"@
        } else {
            " asc nulls last"@
        };
        let by = browse.order->Some_0.0@;
        if !(paged && browse.key@.len() > 0) {
            assert(text =~= table + condition + " order by "@ + by + way + limit);
        } else if browse.key@.len() == 1 {
            assert(text =~= table + condition + " order by "@ + by + way + ", "@
                + browse.key@[0]@ + " asc"@ + limit);
        }
    }
}

/// The statement a browse sends is the one of the page the showing tab is on,
/// with as many rows as the settings say a page has, and it goes to the server
/// the window is on, for the active pane. From the first full page onwards it
/// carries an order it can page against.
pub proof fn a_browse_asks_for_the_page_that_shows(window: WindowView, browse: Browse)
    requires
        well_formed(window),
        window.session matches Some(session) && session < window.sessions.len()
            && window.sessions[session as int].open,
    ensures
        ({
            let pane = active_pane(window);
            let page = if pane.active_tab < pane.tabs.len() {
                pane.tabs[pane.active_tab as int].page
            } else {
                None
            };
            let size = window.settings.spec_page_size();
            let after = browse_sent(window, browse);
            &&& grows(window, after)
            &&& asks(
                window,
                after,
                Act::Tell(
                    window.session->Some_0,
                    OrderView::Run(
                        browse_text(
                            browse,
                            match page {
                                Some(page) => page as nat,
                                None => 0,
                            },
                            size as nat,
                            page is Some || pane.row_count >= size,
                        ),
                    ),
                ),
            )
            &&& after.running_pane == Some(window.active_pane)
        }),
{
    lemma_place_bounds(window.panes, window.active_pane);
    let at = here(window);
    assert(active_pane(window).id == window.active_pane);
    lemma_place_kept(
        window.panes,
        at,
        crate::pane::batch_started(window.panes[at]),
        window.active_pane,
    );
    let after = browse_sent(window, browse);
    let n = window.outbox.len() as int;
    assert(described(window) is Some);
    assert(after.outbox[n + 2] is Tell);
}

/// Asking for a table again hands it over to be browsed, unless there is nobody
/// to ask or the catalog knows that it is gone: then its rows go.
pub proof fn a_table_that_is_there_is_asked_for(
    window: WindowView,
    relation: (Seq<char>, Seq<char>),
)
    requires
        well_formed(window),
    ensures
        ({
            let after = relation_reloaded(window, relation);
            &&& grows(window, after)
            &&& after.active_pane == window.active_pane
            &&& here(after) == here(window)
            &&& after.panes.len() == window.panes.len()
            &&& forall|i: int|
                0 <= i < window.panes.len() && i != here(window) ==> after.panes[i]
                    == window.panes[i]
            &&& window.session is None ==> after == window
            &&& window.session is Some && !known_absent(window, relation) ==> {
                &&& asks(window, after, Act::Browse(relation))
                &&& asks_only(window, after, |act: Act| act == Act::Browse(relation))
                &&& after.panes[here(window)].row_count == active_pane(window).row_count
                &&& after.panes[here(window)].pending_sort == active_pane(window).pending_sort
                &&& after.panes[here(window)].selected_row == active_pane(window).selected_row
                &&& after.panes[here(window)].tabs.len() == active_pane(window).tabs.len()
                &&& after.panes[here(window)].active_tab == active_pane(window).active_tab
                &&& window.pending.page is None && active_pane(window).active_tab < active_pane(
                    window,
                ).tabs.len() ==> after.panes[here(
                    window,
                )].tabs[active_pane(window).active_tab as int].page == active_pane(
                    window,
                ).tabs[active_pane(window).active_tab as int].page
            }
            &&& window.session is Some && known_absent(window, relation) ==> {
                &&& asks_only(window, after, |act: Act| !(act is Browse) && !(act is Tell))
                &&& asks(window, after, Act::SetGrid(window.active_pane, None))
                &&& after.panes[here(window)].row_count == 0
            }
        }),
{
    reveal(relation_reloaded);
    reveal(results_cleared);
    reveal(page_taken);
    let after = relation_reloaded(window, relation);
    let n = window.outbox.len() as int;
    assert(active_pane(window).id == window.active_pane);
    if window.session is Some {
        if known_absent(window, relation) {
            assert(after.outbox[n] == Act::SetGrid(window.active_pane, None));
        } else {
            let taken = page_taken(window);
            let bare = WindowView {
                pending: PendingView { page: None, ..window.pending },
                ..window
            };
            crate::window::lemma_same_frame(bare, window);
            if let Some(page) = window.pending.page {
                assert(taken == page_set(bare, page));
                assert(active_pane(bare).id == bare.active_pane);
            }
            assert(well_formed(taken));
            assert(here(taken) == here(window));
            assert(after.outbox == window.outbox.push(Act::Browse(relation)));
            assert(after.outbox[n] == Act::Browse(relation));
        }
    }
}

/// A header that was clicked on a browsed table goes back to the server: the
/// sort waits for the rows, and the table is asked for from its first page. Any
/// other answer is sorted here, and from the rows as the server sent them,
/// however often it is sorted.
pub proof fn a_sort_starts_over(window: WindowView, sort: Option<Sort>, rows: Rows)
    requires
        well_formed(window),
        window.pending.page is None,
        active_pane(window).active_tab < active_pane(window).tabs.len(),
    ensures
        ({
            let pane = active_pane(window);
            let tab = pane.tabs[pane.active_tab as int];
            let after = sort_applied(window, sort, rows);
            let left = after.panes[here(window)];
            &&& tab.relation matches Some(relation) ==> (window.session is Some && !known_absent(
                window,
                relation,
            ) ==> {
                &&& asks(window, after, Act::Browse(relation))
                &&& left.pending_sort == sort
                &&& left.tabs[pane.active_tab as int].page == Some(0usize)
            })
            &&& tab.relation is None ==> {
                let base = match pane.unsorted {
                    Some(base) => base,
                    None => rows,
                };
                &&& asks(window, after, Act::SortRows(window.active_pane, base, sort))
                &&& asks_only(window, after, |act: Act| !(act is Browse) && !(act is Tell))
                &&& left.unsorted == Some(base)
                &&& left.row_count == pane.row_count
            }
        }),
{
    let pane = active_pane(window);
    let tab = pane.tabs[pane.active_tab as int];
    let after = sort_applied(window, sort, rows);
    assert(pane.id == window.active_pane);
    if let Some(relation) = tab.relation {
        let sorted = with_active(window, PaneView { pending_sort: sort, ..pane });
        let first_page = page_set(sorted, 0);
        assert(active_pane(sorted) == (PaneView { pending_sort: sort, ..pane }));
        assert(active_pane(first_page).tabs[pane.active_tab as int].page == Some(0usize));
        assert(known_absent(first_page, relation) == known_absent(window, relation));
        a_table_that_is_there_is_asked_for(first_page, relation);
        assert(first_page.outbox == window.outbox);
    } else {
        let n = window.outbox.len() as int;
        assert(after.outbox[n] is SortRows);
    }
}

/// A filter that was changed asks for the table again, from its first page.
pub proof fn a_filter_starts_over(window: WindowView, relation: (Seq<char>, Seq<char>))
    requires
        well_formed(window),
        window.pending.page is None,
        active_pane(window).active_tab < active_pane(window).tabs.len(),
        active_pane(window).tabs[active_pane(window).active_tab as int].relation == Some(relation),
        window.session is Some,
        !known_absent(window, relation),
    ensures
        ({
            let after = filter_applied(window);
            let tab = active_pane(after).tabs[active_pane(window).active_tab as int];
            &&& asks(window, after, Act::Browse(relation))
            &&& tab.page == Some(0usize)
            &&& tab.relation == Some(relation)
        }),
{
    let pane = active_pane(window);
    assert(pane.id == window.active_pane);
    let first_page = page_set(window, 0);
    assert(known_absent(first_page, relation) == known_absent(window, relation));
    a_table_that_is_there_is_asked_for(first_page, relation);
    let asked = relation_reloaded(first_page, relation);
    let after = filter_applied(window);
    assert(after == session_saved(asked));
    reveal(session_saved);
    assert(active_pane(first_page).tabs[pane.active_tab as int].page == Some(0usize));
    assert(active_pane(first_page).tabs[pane.active_tab as int].relation == Some(relation));
    lemma_reloaded_tab(first_page, relation);
    let k = choose|k: int|
        first_page.outbox.len() <= k < asked.outbox.len() && #[trigger] asked.outbox[k]
            == Act::Browse(relation);
    assert(after.outbox[k] == Act::Browse(relation));
}

/// Asking for a table again leaves its tab about it.
proof fn lemma_reloaded_tab(window: WindowView, relation: (Seq<char>, Seq<char>))
    requires
        well_formed(window),
        window.pending.page is None,
        window.session is Some,
        !known_absent(window, relation),
        active_pane(window).active_tab < active_pane(window).tabs.len(),
    ensures
        ({
            let after = relation_reloaded(window, relation);
            let index = active_pane(window).active_tab as int;
            &&& well_formed(after)
            &&& active_pane(after).tabs.len() == active_pane(window).tabs.len()
            &&& active_pane(after).active_tab == active_pane(window).active_tab
            &&& active_pane(after).tabs[index].page == active_pane(window).tabs[index].page
            &&& active_pane(after).tabs[index].relation == active_pane(window).tabs[index].relation
            &&& active_pane(after).selected_row == active_pane(window).selected_row
        }),
{
    reveal(relation_reloaded);
    reveal(page_taken);
    assert(active_pane(window).id == window.active_pane);
}

/// Turning to another page asks for that page, with the cursor at the top of
/// it. Turning to the page that shows asks for nothing.
pub proof fn a_page_is_turned_to(
    window: WindowView,
    relation: (Seq<char>, Seq<char>),
    page: usize,
)
    requires
        well_formed(window),
        window.pending.page is None,
        active_pane(window).active_tab < active_pane(window).tabs.len(),
        active_pane(window).tabs[active_pane(window).active_tab as int].relation == Some(relation),
        window.session is Some,
        !known_absent(window, relation),
    ensures
        ({
            let index = active_pane(window).active_tab as int;
            let was = active_pane(window).tabs[index].page;
            let after = page_shown(window, page);
            &&& was == Some(page) ==> after == window
            &&& was != Some(page) ==> {
                &&& asks(window, after, Act::Browse(relation))
                &&& active_pane(after).tabs[index].page == Some(page)
                &&& active_pane(after).selected_row == Some(0usize)
            }
        }),
{
    let pane = active_pane(window);
    let index = pane.active_tab as int;
    assert(pane.id == window.active_pane);
    if pane.tabs[index].page != Some(page) {
        let turned = page_set(window, page);
        let top = with_active(
            turned,
            PaneView { selected_row: Some(0), ..active_pane(turned) },
        );
        assert(known_absent(top, relation) == known_absent(window, relation));
        a_table_that_is_there_is_asked_for(top, relation);
        lemma_reloaded_tab(top, relation);
        let asked = relation_reloaded(top, relation);
        let after = page_shown(window, page);
        assert(after == session_saved(asked));
        reveal(session_saved);
        assert(active_pane(top).tabs[index].page == Some(page));
        let k = choose|k: int|
            top.outbox.len() <= k < asked.outbox.len() && #[trigger] asked.outbox[k]
                == Act::Browse(relation);
        assert(after.outbox[k] == Act::Browse(relation));
    }
}

} // verus!
