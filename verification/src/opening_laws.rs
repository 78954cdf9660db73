//! What opening a table, a key or a reference comes to.
use crate::browsing::{key_opened, relation_opened, shows_key, shows_table, tab_pointed};
use crate::catalog::KeyType;
use crate::following::{pointed_at, reference_followed, HeldView};
use crate::lists::{first, group_views, lemma_first};
use crate::outcome::{asks, grows, lemma_asks, lemma_grows};
use crate::pane::{
    fronted, key_tab, no_filter, stashed, table_tab, with_tab, FilterView, PaneView, TabView,
};
use crate::pane_laws::{a_tab_that_is_shown_is_in_front, lemma_saved, same_subject};
use crate::showing::{
    brought_up, describing, group_showing, key_reloaded, page_taken, relation_reloaded,
    results_cleared, session_saved, shown, tab_adopted, tab_connected, typed_back, with_session,
};
use crate::tabbing::tab_added;
use crate::window::{
    active_pane, group_window, here, lemma_same_frame, then_do, well_formed, with_active, Act,
    OrderView, PendingView, WindowView,
};
use vstd::prelude::*;

verus! {

broadcast use {group_views, group_window, group_showing};

/// What is in the console and the filter's box once a tab is brought up.
proof fn lemma_brought(window: WindowView, index: int)
    requires
        well_formed(window),
        0 <= index < active_pane(window).tabs.len() <= usize::MAX,
    ensures
        ({
            let typed = stashed(active_pane(window));
            let left = active_pane(brought_up(window, index));
            &&& left.console == typed.tabs[index].sql
            &&& left.clause == typed.tabs[index].filter.text
            &&& left.tabs.len() == typed.tabs.len()
            &&& forall|j: int|
                0 <= j < typed.tabs.len() ==> (#[trigger] left.tabs[j]).sql == typed.tabs[j].sql
                    && left.tabs[j].filter == typed.tabs[j].filter
            &&& well_formed(brought_up(window, index))
        }),
{
    reveal(brought_up);
    let pane = active_pane(window);
    assert(pane.id == window.active_pane);
    let typed = typed_back(window);
    assert(active_pane(typed) == stashed(pane));
    let unmarked = then_do(typed, Act::ClearMark(window.active_pane));
    let raised = then_do(
        with_active(unmarked, fronted(active_pane(unmarked), index)),
        Act::RevealTab(window.active_pane, index as usize),
    );
    assert(active_pane(raised) == fronted(stashed(pane), index));
    reveal(tab_adopted);
    reveal(tab_connected);
    reveal(describing);
    reveal(with_session);
}

/// What is in the console and the filter's box once a tab is shown.
proof fn lemma_texts(window: WindowView, index: int)
    requires
        well_formed(window),
        0 <= index < active_pane(window).tabs.len() <= usize::MAX,
    ensures
        ({
            let typed = stashed(active_pane(window));
            let left = active_pane(shown(window, index));
            &&& left.console == typed.tabs[index].sql
            &&& left.clause == typed.tabs[index].filter.text
            &&& left.tabs.len() == typed.tabs.len()
            &&& forall|j: int|
                0 <= j < typed.tabs.len() ==> (#[trigger] left.tabs[j]).sql == typed.tabs[j].sql
                    && left.tabs[j].filter == typed.tabs[j].filter
        }),
{
    lemma_brought(window, index);
    let up = brought_up(window, index);
    reveal(shown);
    reveal(relation_reloaded);
    reveal(page_taken);
    reveal(key_reloaded);
    reveal(results_cleared);
    assert(active_pane(up).id == up.active_pane);
    lemma_same_frame(
        WindowView { pending: PendingView { page: None, ..up.pending }, ..up },
        up,
    );
}

/// What was typed in a tab stays with it: showing another puts the text of the
/// console, and the clause where it is the filter in force, back into the tab
/// they were typed in, and the other's own into their place.
pub proof fn what_was_typed_stays_with_its_tab(window: WindowView, index: int, other: int)
    requires
        well_formed(window),
        0 <= index < active_pane(window).tabs.len() <= usize::MAX,
        index != active_pane(window).active_tab,
        0 <= other < active_pane(window).tabs.len(),
        other != active_pane(window).active_tab,
    ensures
        ({
            let pane = active_pane(window);
            let left = active_pane(shown(window, index));
            let was = pane.active_tab as int;
            &&& left.console == pane.tabs[index].sql
            &&& left.clause == pane.tabs[index].filter.text
            &&& left.tabs[other].sql == pane.tabs[other].sql
            &&& left.tabs[other].filter == pane.tabs[other].filter
            &&& was < pane.tabs.len() ==> {
                &&& left.tabs[was].sql == pane.console
                &&& left.tabs[was].filter.chips == pane.tabs[was].filter.chips
                &&& left.tabs[was].filter.raw == pane.tabs[was].filter.raw
                &&& pane.tabs[was].filter.raw ==> left.tabs[was].filter.text == pane.clause
                &&& !pane.tabs[was].filter.raw ==> left.tabs[was].filter.text
                    == pane.tabs[was].filter.text
            }
        }),
{
    lemma_texts(window, index);
}

/// A window with a tab of its active pane changed, or one more in it.
proof fn lemma_up(window: WindowView, pane: PaneView, at: int)
    requires
        well_formed(window),
        window.pending.page is None,
        pane.id == window.active_pane,
        pane == (PaneView { tabs: pane.tabs, ..active_pane(window) }),
        active_pane(window).tabs.len() <= pane.tabs.len() <= usize::MAX,
        0 <= at < pane.tabs.len(),
    ensures
        ({
            let docked = WindowView { dock_open: true, ..window };
            let more = with_active(docked, pane);
            let after = session_saved(shown(more, at));
            let left = active_pane(after);
            &&& after.dock_open
            &&& after.active_pane == window.active_pane
            &&& left.active_tab == at
            &&& left.tabs.len() == pane.tabs.len()
            &&& forall|j: int|
                0 <= j < pane.tabs.len() ==> same_subject(#[trigger] left.tabs[j], pane.tabs[j])
            &&& at != active_pane(window).active_tab ==> left.clause == pane.tabs[at].filter.text
                && left.tabs[at].filter.raw == pane.tabs[at].filter.raw
                && left.tabs[at].filter.chips == pane.tabs[at].filter.chips
            &&& grows(window, after)
            &&& forall|act: Act| #[trigger] asks(more, shown(more, at), act) ==> asks(window, after, act)
            &&& shown(more, at).session == after.session
        }),
{
    let docked = WindowView { dock_open: true, ..window };
    lemma_same_frame(docked, window);
    let more = with_active(docked, pane);
    assert(active_pane(docked) == active_pane(window));
    assert(active_pane(more) == pane);
    assert(more.outbox == window.outbox);
    a_tab_that_is_shown_is_in_front(more, at);
    lemma_texts(more, at);
    let up = shown(more, at);
    lemma_saved(up);
    lemma_dock_kept(more, at);
    let after = session_saved(up);
    assert(grows(window, up));
    lemma_grows(window, up, after);
    assert forall|act: Act| #[trigger] asks(more, up, act) implies asks(window, after, act) by {
        assert(asks(window, up, act));
        lemma_asks(window, up, after, act);
    }
    let left = active_pane(after);
    assert(after.panes[here(up)].id == up.active_pane);
    reveal(session_saved);
    assert forall|j: int| 0 <= j < pane.tabs.len() implies same_subject(
        #[trigger] left.tabs[j],
        pane.tabs[j],
    ) by {
        assert(same_subject(active_pane(up).tabs[j], pane.tabs[j]));
    }
}

/// Showing a tab leaves the dock alone.
proof fn lemma_dock_kept(window: WindowView, index: int)
    requires
        well_formed(window),
        0 <= index < active_pane(window).tabs.len(),
    ensures
        shown(window, index).dock_open == window.dock_open,
        session_saved(shown(window, index)).dock_open == window.dock_open,
{
    reveal(shown);
    reveal(brought_up);
    reveal(tab_adopted);
    reveal(tab_connected);
    reveal(describing);
    reveal(with_session);
    reveal(relation_reloaded);
    reveal(page_taken);
    reveal(key_reloaded);
    reveal(results_cleared);
    reveal(session_saved);
}

/// A table is opened in one tab: the first of the active pane that browses it,
/// or a new one behind the others. That tab is in front, is about that table and
/// no other, and has the filter it was opened with, if it was opened with one;
/// the other tabs stay. The dock is open, and the rows are asked for where
/// nothing says that the table is gone.
pub proof fn a_table_opens_in_one_tab(
    window: WindowView,
    relation: (Seq<char>, Seq<char>),
    filter: Option<FilterView>,
    at: int,
)
    requires
        well_formed(window),
        window.pending.page is None,
        active_pane(window).tabs.len() < usize::MAX,
        0 <= at <= active_pane(window).tabs.len(),
        at < active_pane(window).tabs.len() ==> {
            let tab = active_pane(window).tabs[at];
            tab.kind is Table && tab.title == relation.1 && tab.detail == Some(relation.0)
        },
        forall|i: int|
            0 <= i < at ==> {
                let tab = #[trigger] active_pane(window).tabs[i];
                !(tab.kind is Table && tab.title == relation.1 && tab.detail == Some(relation.0))
            },
    ensures
        ({
            let pane = active_pane(window);
            let after = relation_opened(window, relation, filter);
            let left = active_pane(after);
            let tab = left.tabs[at];
            &&& after.dock_open
            &&& after.active_pane == window.active_pane
            &&& left.active_tab == at
            &&& tab.kind is Table && tab.title == relation.1 && tab.detail == Some(relation.0)
            &&& tab.relation == Some(relation)
            &&& at < pane.tabs.len() ==> left.tabs.len() == pane.tabs.len()
            &&& at == pane.tabs.len() ==> left.tabs.len() == pane.tabs.len() + 1
            &&& forall|j: int|
                0 <= j < pane.tabs.len() && j != at ==> same_subject(
                    #[trigger] left.tabs[j],
                    pane.tabs[j],
                )
            &&& filter is Some && at != pane.active_tab ==> left.clause == filter->Some_0.text
                && tab.filter.raw == filter->Some_0.raw && tab.filter.chips
                == filter->Some_0.chips
            &&& filter is None && at == pane.tabs.len() && at != pane.active_tab
                ==> left.clause.len() == 0 && !tab.filter.raw && tab.filter.chips.len() == 0
            &&& grows(window, after)
            &&& at == pane.tabs.len() && window.session is Some ==> after.session == window.session
            &&& at == pane.tabs.len() && window.session is Some && (window.session->Some_0
                >= window.sessions.len()
                || window.sessions[window.session->Some_0 as int].session.snapshot is None) ==> asks(
                window,
                after,
                Act::Browse(relation),
            )
        }),
{
    let pane = active_pane(window);
    let docked = WindowView { dock_open: true, ..window };
    lemma_same_frame(docked, window);
    assert(active_pane(docked) == pane);
    assert(pane.id == window.active_pane);
    assert forall|i: int| 0 <= i < at implies !shows_table(relation)(#[trigger] pane.tabs[i]) by {
        let tab = pane.tabs[i];
        assert(!(tab.kind is Table && tab.title == relation.1 && tab.detail == Some(relation.0)));
    }
    lemma_first(pane.tabs, shows_table(relation), at);
    if at < pane.tabs.len() {
        let changed = PaneView {
            tabs: pane.tabs.update(at, tab_pointed(pane.tabs[at], relation, filter)),
            ..pane
        };
        lemma_up(window, changed, at);
        let left = active_pane(relation_opened(window, relation, filter));
        assert(same_subject(left.tabs[at], changed.tabs[at]));
        assert forall|j: int| 0 <= j < pane.tabs.len() && j != at implies same_subject(
            #[trigger] left.tabs[j],
            pane.tabs[j],
        ) by {
            assert(same_subject(left.tabs[j], changed.tabs[j]));
        }
    } else {
        let given = match filter {
            Some(filter) => filter,
            None => no_filter(),
        };
        let new = table_tab(relation, given, window.session);
        let more = with_tab(pane, new);
        lemma_up(window, more, at);
        let shows = with_active(docked, more);
        assert(active_pane(shows) == more);
        assert(tab_added(docked, new) == shown(shows, at));
        a_tab_that_is_shown_is_in_front(shows, at);
        let left = active_pane(relation_opened(window, relation, filter));
        assert(same_subject(left.tabs[at], more.tabs[at]));
        assert forall|j: int| 0 <= j < pane.tabs.len() && j != at implies same_subject(
            #[trigger] left.tabs[j],
            pane.tabs[j],
        ) by {
            assert(same_subject(left.tabs[j], more.tabs[j]));
        }
    }
}

/// A key is opened in one tab: the first of the active pane that has it, by its
/// bytes, or a new one behind the others. That tab is in front, and the others
/// stay; the dock is open, and a new tab's key is read at once.
pub proof fn a_key_opens_in_one_tab(
    window: WindowView,
    key: Seq<u8>,
    kind: KeyType,
    title: Seq<char>,
    detail: Seq<char>,
    at: int,
)
    requires
        well_formed(window),
        window.pending.page is None,
        active_pane(window).tabs.len() < usize::MAX,
        0 <= at <= active_pane(window).tabs.len(),
        at < active_pane(window).tabs.len() ==> (active_pane(window).tabs[at].key matches Some(open)
            && open.0 == key),
        forall|i: int|
            0 <= i < at ==> !((#[trigger] active_pane(window).tabs[i]).key is Some && active_pane(
                window,
            ).tabs[i].key->Some_0.0 == key),
    ensures
        ({
            let pane = active_pane(window);
            let after = key_opened(window, key, kind, title, detail);
            let left = active_pane(after);
            let tab = left.tabs[at];
            &&& after.dock_open
            &&& after.active_pane == window.active_pane
            &&& left.active_tab == at
            &&& tab.key == Some((key, kind))
            &&& at < pane.tabs.len() ==> left.tabs.len() == pane.tabs.len() && tab.title
                == pane.tabs[at].title
            &&& at == pane.tabs.len() ==> left.tabs.len() == pane.tabs.len() + 1 && tab.kind is Key
                && tab.title == title && tab.detail == Some(detail)
            &&& forall|j: int|
                0 <= j < pane.tabs.len() && j != at ==> same_subject(
                    #[trigger] left.tabs[j],
                    pane.tabs[j],
                )
            &&& grows(window, after)
            &&& at == pane.tabs.len() && window.session is Some ==> after.session == window.session
                && asks(
                window,
                after,
                Act::Tell(window.session->Some_0, OrderView::OpenKey(key, kind)),
            )
        }),
{
    let pane = active_pane(window);
    let docked = WindowView { dock_open: true, ..window };
    lemma_same_frame(docked, window);
    assert(active_pane(docked) == pane);
    assert(pane.id == window.active_pane);
    assert forall|i: int| 0 <= i < at implies !shows_key(key)(#[trigger] pane.tabs[i]) by {
        let tab = active_pane(window).tabs[i];
        assert(!(tab.key is Some && tab.key->Some_0.0 == key));
    }
    lemma_first(pane.tabs, shows_key(key), at);
    if at < pane.tabs.len() {
        let changed = PaneView {
            tabs: pane.tabs.update(at, TabView { key: Some((key, kind)), ..pane.tabs[at] }),
            ..pane
        };
        lemma_up(window, changed, at);
        let left = active_pane(key_opened(window, key, kind, title, detail));
        assert(same_subject(left.tabs[at], changed.tabs[at]));
        assert forall|j: int| 0 <= j < pane.tabs.len() && j != at implies same_subject(
            #[trigger] left.tabs[j],
            pane.tabs[j],
        ) by {
            assert(same_subject(left.tabs[j], changed.tabs[j]));
        }
    } else {
        let new = key_tab(key, kind, title, detail, window.session);
        let more = with_tab(pane, new);
        lemma_up(window, more, at);
        let shows = with_active(docked, more);
        assert(active_pane(shows) == more);
        assert(tab_added(docked, new) == shown(shows, at));
        a_tab_that_is_shown_is_in_front(shows, at);
        let left = active_pane(key_opened(window, key, kind, title, detail));
        assert(same_subject(left.tabs[at], more.tabs[at]));
        assert forall|j: int| 0 <= j < pane.tabs.len() && j != at implies same_subject(
            #[trigger] left.tabs[j],
            pane.tabs[j],
        ) by {
            assert(same_subject(left.tabs[j], more.tabs[j]));
        }
    }
}

/// A reference opens the table it points at, on the rows its conditions name and
/// no others; one that points at nothing opens nothing.
pub proof fn a_reference_opens_what_it_points_at(
    window: WindowView,
    column: usize,
    held: Seq<HeldView>,
)
    requires
        well_formed(window),
        window.pending.page is None,
        active_pane(window).tabs.len() < usize::MAX,
        pointed_at(window, column, held) matches Some(pointed) ==> forall|i: int|
            0 <= i < active_pane(window).tabs.len() ==> !((
            #[trigger] active_pane(window).tabs[i]).kind is Table && active_pane(
                window,
            ).tabs[i].title == pointed.0.1 && active_pane(window).tabs[i].detail == Some(
                pointed.0.0,
            )),
        active_pane(window).active_tab != active_pane(window).tabs.len(),
    ensures
        pointed_at(window, column, held) is None ==> reference_followed(window, column, held)
            == window,
        pointed_at(window, column, held) matches Some(pointed) ==> {
            let left = active_pane(reference_followed(window, column, held));
            let tab = left.tabs.last();
            &&& left.tabs.len() == active_pane(window).tabs.len() + 1
            &&& left.active_tab == left.tabs.len() - 1
            &&& tab.kind is Table
            &&& tab.relation == Some(pointed.0)
            &&& tab.filter.raw && tab.filter.chips.len() == 0
            &&& left.clause == pointed.1
        },
{
    if let Some(pointed) = pointed_at(window, column, held) {
        a_table_opens_in_one_tab(
            window,
            pointed.0,
            Some(FilterView { raw: true, text: pointed.1, chips: Seq::empty() }),
            active_pane(window).tabs.len() as int,
        );
    }
}

} // verus!
