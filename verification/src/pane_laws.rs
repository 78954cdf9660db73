//! What showing a tab, and splitting, closing and crossing panes, come to.
use crate::closing_laws::same_tab;
use crate::lists::{first, group_views};
use crate::outcome::{asks, grows, lemma_asks, lemma_grows};
use crate::pane::{
    empty_pane, fronted, script_tab, showing, stashed, with_tab, CenterKind, PaneView, TabView,
};
use crate::preferences::dressing;
use crate::showing::{
    brought_up, describing, group_showing, key_reloaded, page_taken, relation_reloaded,
    results_cleared, session_saved, shown, tab_adopted, tab_connected, typed_back, with_session,
};
use crate::tabbing::{
    is_pane, lemma_slot, neighbour, pane_activated, pane_closed, pane_split, script_opened,
    tab_activated, tab_added, without_pane,
};
use crate::window::{
    active_pane, group_window, here, known_absent, lemma_place_bounds, lemma_place_of, place_of,
    then_do, well_formed, with_active, Act, Focus, OrderView, PendingView, WindowView,
};
use vstd::prelude::*;

verus! {

broadcast use {group_views, group_window, group_showing};

/// Whether two tabs are about the same thing, whatever was typed, asked for and
/// connected to meanwhile.
pub open spec fn same_subject(a: TabView, b: TabView) -> bool {
    &&& a.kind == b.kind
    &&& a.title == b.title
    &&& a.detail == b.detail
    &&& a.relation == b.relation
    &&& a.key == b.key
    &&& a.saved_query == b.saved_query
    &&& a.structure == b.structure
    &&& a.pinned == b.pinned
    &&& a.dirty == b.dirty
}

/// Saving the session asks for it where the settings do, and takes nothing back.
pub proof fn lemma_saved(window: WindowView)
    ensures
        grows(window, session_saved(window)),
        session_saved(window).layout == window.layout,
        session_saved(window).active_pane == window.active_pane,
        session_saved(window).next_pane == window.next_pane,
        session_saved(window).running_pane == window.running_pane,
        session_saved(window).session == window.session,
        session_saved(window).sessions == window.sessions,
        session_saved(window).panes.len() == window.panes.len(),
        forall|i: int|
            0 <= i < window.panes.len() ==> {
                &&& (#[trigger] session_saved(window).panes[i]).id == window.panes[i].id
                &&& session_saved(window).panes[i].active_tab == window.panes[i].active_tab
                &&& session_saved(window).panes[i].console == window.panes[i].console
                &&& session_saved(window).panes[i].row_count == window.panes[i].row_count
                &&& session_saved(window).panes[i].tabs.len() == window.panes[i].tabs.len()
                &&& forall|j: int|
                    0 <= j < window.panes[i].tabs.len() ==> same_tab(
                        #[trigger] session_saved(window).panes[i].tabs[j],
                        window.panes[i].tabs[j],
                    )
            },
{
    reveal(session_saved);
}

/// Making a tab the one the window describes.
proof fn lemma_adopted(window: WindowView, index: int)
    requires
        well_formed(window),
        0 <= index < active_pane(window).tabs.len(),
    ensures
        ({
            let after = tab_adopted(window, index);
            let tab = active_pane(window).tabs[index];
            &&& grows(window, after)
            &&& after.active_pane == window.active_pane
            &&& after.running_pane == window.running_pane
            &&& after.pending == window.pending
            &&& tab.session matches Some(session) ==> {
                &&& after.session == Some(session)
                &&& after.sessions == window.sessions
                &&& active_pane(after) == active_pane(window)
            }
            &&& tab.session is None && tab.reconnect is None ==> {
                &&& after.session == window.session
                &&& after.sessions == window.sessions
                &&& active_pane(after).tabs[index].session == window.session
            }
            &&& active_pane(after) == (PaneView {
                tabs: active_pane(after).tabs,
                ..active_pane(window)
            })
            &&& forall|j: int|
                0 <= j < active_pane(window).tabs.len() ==> #[trigger] active_pane(after).tabs[j]
                    == (TabView {
                    session: active_pane(after).tabs[j].session,
                    reconnect: active_pane(after).tabs[j].reconnect,
                    ..active_pane(window).tabs[j]
                })
            &&& forall|j: int|
                0 <= j < active_pane(window).tabs.len() && j != index ==> #[trigger] active_pane(
                    after,
                ).tabs[j] == active_pane(window).tabs[j]
        }),
{
    reveal(tab_adopted);
    reveal(tab_connected);
    reveal(describing);
    reveal(with_session);
    assert(active_pane(window).id == window.active_pane);
}

/// A tab that is shown is the one in front, with its own text in the console,
/// nothing of what the last one reported, and every other tab where it was. The
/// window is on the tab's own connection, and a tab that has none takes the one
/// the window is on. A table is asked for again, a key is read again, and any
/// other tab starts on an empty grid.
pub proof fn a_tab_that_is_shown_is_in_front(window: WindowView, index: int)
    requires
        well_formed(window),
        0 <= index < active_pane(window).tabs.len() <= usize::MAX,
        window.pending.page is None,
    ensures
        ({
            let pane = active_pane(window);
            let tab = pane.tabs[index];
            let after = shown(window, index);
            let left = active_pane(after);
            &&& after.active_pane == window.active_pane
            &&& left.active_tab == index
            &&& left.tabs.len() == pane.tabs.len()
            &&& forall|j: int|
                0 <= j < pane.tabs.len() ==> same_subject(#[trigger] left.tabs[j], pane.tabs[j])
            &&& left.error is None
            &&& left.elapsed is None
            &&& left.affected is None
            &&& left.last_sql is None
            &&& left.composer is None
            &&& grows(window, after)
            &&& asks(window, after, Act::RevealTab(window.active_pane, index as usize))
            &&& asks(window, after, Act::SetConsole(window.active_pane))
            &&& asks(window, after, Act::SetClause(window.active_pane))
            &&& asks(window, after, Act::ClearMark(window.active_pane))
            &&& tab.session matches Some(session) ==> after.session == Some(session)
            &&& tab.session is None && tab.reconnect is None ==> after.session == window.session
            &&& tab.kind is Query ==> left.row_count == 0 && asks(
                window,
                after,
                Act::SetGrid(window.active_pane, None),
            )
            &&& tab.kind is Table && tab.relation is Some && tab.session is Some && (
            tab.session->Some_0 >= window.sessions.len()
                || window.sessions[tab.session->Some_0 as int].session.snapshot is None) ==> asks(
                window,
                after,
                Act::Browse(tab.relation->Some_0),
            )
            &&& tab.kind is Key && tab.key is Some && tab.session is Some ==> {
                &&& after.running_pane == Some(window.active_pane)
                &&& asks(
                    window,
                    after,
                    Act::Tell(
                        tab.session->Some_0,
                        OrderView::OpenKey(tab.key->Some_0.0, tab.key->Some_0.1),
                    ),
                )
            }
        }),
{
    reveal(shown);
    reveal(brought_up);
    let pane = active_pane(window);
    let tab = pane.tabs[index];
    assert(pane.id == window.active_pane);
    let typed = typed_back(window);
    assert(active_pane(typed) == stashed(pane));
    let unmarked = then_do(typed, Act::ClearMark(window.active_pane));
    let raised = then_do(
        with_active(unmarked, fronted(active_pane(unmarked), index)),
        Act::RevealTab(window.active_pane, index as usize),
    );
    let n = window.outbox.len() as int;
    assert(raised.outbox[n] == Act::ClearMark(window.active_pane));
    assert(raised.outbox[n + 1] == Act::RevealTab(window.active_pane, index as usize));
    assert(asks(window, raised, Act::ClearMark(window.active_pane)));
    assert(asks(window, raised, Act::RevealTab(window.active_pane, index as usize)));
    assert(grows(window, raised));
    assert(active_pane(raised) == fronted(stashed(pane), index));
    lemma_adopted(raised, index);
    let on = tab_adopted(raised, index);
    let up = brought_up(window, index);
    assert(up.outbox[on.outbox.len() as int] == Act::SetConsole(window.active_pane));
    assert(up.outbox[on.outbox.len() as int + 1] == Act::SetClause(window.active_pane));
    assert(asks(on, up, Act::SetConsole(window.active_pane)));
    assert(asks(on, up, Act::SetClause(window.active_pane)));
    assert(grows(on, up));
    lemma_grows(window, raised, on);
    lemma_grows(window, on, up);
    lemma_asks(window, raised, on, Act::ClearMark(window.active_pane));
    lemma_asks(window, on, up, Act::ClearMark(window.active_pane));
    lemma_asks(window, raised, on, Act::RevealTab(window.active_pane, index as usize));
    lemma_asks(window, on, up, Act::RevealTab(window.active_pane, index as usize));
    lemma_asks(window, on, up, Act::SetConsole(window.active_pane));
    lemma_asks(window, on, up, Act::SetClause(window.active_pane));
    let after = shown(window, index);
    let front = active_pane(up).tabs[index];
    assert(front.kind == tab.kind && front.relation == tab.relation && front.key == tab.key);
    assert(raised.pending == window.pending);
    assert forall|j: int| 0 <= j < pane.tabs.len() implies same_subject(
        #[trigger] active_pane(up).tabs[j],
        pane.tabs[j],
    ) by {
        assert(same_subject(active_pane(raised).tabs[j], pane.tabs[j]));
    }
    match (front.kind, front.relation, front.key) {
        (CenterKind::Table, Some(relation), _) => {
            crate::browse_laws::a_table_that_is_there_is_asked_for(up, relation);
            lemma_quiet_reload(up, relation);
            if tab.session is Some && (tab.session->Some_0 >= window.sessions.len()
                || window.sessions[tab.session->Some_0 as int].session.snapshot is None) {
                assert(!known_absent(up, relation));
                lemma_asks(window, up, after, Act::Browse(relation));
            }
        },
        (CenterKind::Key, _, Some(key)) => {
            reveal(key_reloaded);
            if let Some(session) = up.session {
                assert(after.outbox[up.outbox.len() as int] == Act::Tell(
                    session,
                    OrderView::OpenKey(key.0, key.1),
                ));
                assert(asks(
                    up,
                    after,
                    Act::Tell(session, OrderView::OpenKey(key.0, key.1)),
                ));
                lemma_asks(
                    window,
                    up,
                    after,
                    Act::Tell(session, OrderView::OpenKey(key.0, key.1)),
                );
            }
        },
        _ => {
            reveal(results_cleared);
            assert(after.outbox[up.outbox.len() as int] == Act::SetGrid(window.active_pane, None));
            assert(asks(up, after, Act::SetGrid(window.active_pane, None)));
            lemma_asks(window, up, after, Act::SetGrid(window.active_pane, None));
        },
    }
    assert(grows(up, after));
    lemma_grows(window, up, after);
    lemma_asks(window, up, after, Act::ClearMark(window.active_pane));
    lemma_asks(window, up, after, Act::RevealTab(window.active_pane, index as usize));
    lemma_asks(window, up, after, Act::SetConsole(window.active_pane));
    lemma_asks(window, up, after, Act::SetClause(window.active_pane));
}

/// Asking for a table again leaves what a pane reports alone, or empties it.
proof fn lemma_quiet_reload(window: WindowView, relation: (Seq<char>, Seq<char>))
    requires
        well_formed(window),
        active_pane(window).error is None,
        active_pane(window).elapsed is None,
        active_pane(window).affected is None,
        active_pane(window).last_sql is None,
        active_pane(window).composer is None,
    ensures
        ({
            let left = active_pane(relation_reloaded(window, relation));
            &&& left.tabs.len() == active_pane(window).tabs.len()
            &&& forall|j: int|
                0 <= j < left.tabs.len() ==> same_subject(
                    #[trigger] left.tabs[j],
                    active_pane(window).tabs[j],
                )
            &&& left.error is None
            &&& left.elapsed is None
            &&& left.affected is None
            &&& left.last_sql is None
            &&& left.composer is None
        }),
{
    reveal(relation_reloaded);
    reveal(page_taken);
    assert(active_pane(window).id == window.active_pane);
    crate::window::lemma_same_frame(
        WindowView { pending: PendingView { page: None, ..window.pending }, ..window },
        window,
    );
}

/// Showing a tab that shows already, or is not there, changes nothing; showing
/// any other puts it in front.
pub proof fn activating_a_tab_puts_it_in_front(window: WindowView, index: usize)
    requires
        well_formed(window),
        active_pane(window).tabs.len() <= usize::MAX,
    ensures
        ({
            let pane = active_pane(window);
            let after = tab_activated(window, index);
            &&& index >= pane.tabs.len() || index == pane.active_tab ==> after == window
            &&& index < pane.tabs.len() && index != pane.active_tab ==> {
                &&& active_pane(after).active_tab == index
                &&& active_pane(after).tabs.len() == pane.tabs.len()
                &&& after.active_pane == window.active_pane
            }
        }),
{
}

/// A new script is one more tab at the end of the strip, shown, on the
/// connection the window is on, with the keyboard in it.
pub proof fn a_new_script_is_the_last_tab(window: WindowView)
    requires
        well_formed(window),
        active_pane(window).tabs.len() < usize::MAX,
        window.pending.page is None,
    ensures
        ({
            let pane = active_pane(window);
            let after = script_opened(window);
            let left = active_pane(after);
            let tab = left.tabs.last();
            &&& left.tabs.len() == pane.tabs.len() + 1
            &&& left.active_tab == pane.tabs.len()
            &&& tab.kind is Query
            &&& tab.title == "Untitled"@
            &&& tab.saved_query is None
            &&& !tab.dirty && !tab.pinned
            &&& forall|j: int|
                0 <= j < pane.tabs.len() ==> same_subject(#[trigger] left.tabs[j], pane.tabs[j])
            &&& after.session == window.session
            &&& grows(window, after)
            &&& asks(window, after, Act::Focus(Focus::Console))
        }),
{
    let pane = active_pane(window);
    assert(pane.id == window.active_pane);
    let tab = script_tab("Untitled"@, window.session);
    let more = with_active(window, with_tab(pane, tab));
    assert(active_pane(more) == with_tab(pane, tab));
    a_tab_that_is_shown_is_in_front(more, pane.tabs.len() as int);
    let up = tab_added(window, tab);
    assert(up == shown(more, pane.tabs.len() as int));
    let keyed = then_do(up, Act::Focus(Focus::Console));
    lemma_saved(keyed);
    let after = script_opened(window);
    assert(after == then_do(session_saved(keyed), Act::Notify));
    assert(more.outbox == window.outbox);
    assert(grows(window, up));
    assert(keyed.outbox[up.outbox.len() as int] == Act::Focus(Focus::Console));
    assert(asks(window, keyed, Act::Focus(Focus::Console)));
    assert(grows(window, keyed));
    assert(grows(session_saved(keyed), after));
    lemma_grows(keyed, session_saved(keyed), after);
    lemma_grows(window, keyed, after);
    lemma_asks(window, keyed, after, Act::Focus(Focus::Console));
    assert(up.session == window.session);
    let last = pane.tabs.len() as int;
    assert(same_subject(active_pane(up).tabs[last], tab));
    let saved = active_pane(after);
    assert forall|j: int| 0 <= j <= last implies same_subject(
        #[trigger] saved.tabs[j],
        active_pane(up).tabs[j],
    ) by {}
    assert forall|j: int| 0 <= j < last implies same_subject(
        #[trigger] saved.tabs[j],
        pane.tabs[j],
    ) by {
        assert(same_subject(active_pane(up).tabs[j], active_pane(more).tabs[j]));
    }
}

/// Splitting adds one pane, and nothing else moves: the new one has a number of
/// its own, stands right behind the one that was split, is the active one and
/// has the keyboard, and holds one new script on the connection the window is
/// on.
pub proof fn a_split_adds_one_pane_behind_the_active_one(window: WindowView, slot: int)
    requires
        well_formed(window),
        window.next_pane < usize::MAX,
        0 <= slot < window.layout.len(),
        window.layout[slot] == window.active_pane,
    ensures
        ({
            let after = pane_split(window);
            let new = after.panes.last();
            &&& after.panes.len() == window.panes.len() + 1
            &&& forall|i: int|
                0 <= i < window.panes.len() ==> (#[trigger] after.panes[i]).id
                    == window.panes[i].id && after.panes[i].tabs.len()
                    == window.panes[i].tabs.len()
            &&& new.id == window.next_pane
            &&& after.active_pane == window.next_pane
            &&& after.next_pane == window.next_pane + 1
            &&& after.layout.len() == window.layout.len() + 1
            &&& forall|i: int| 0 <= i <= slot ==> after.layout[i] == window.layout[i]
            &&& after.layout[slot + 1] == window.next_pane
            &&& forall|i: int|
                slot < i < window.layout.len() ==> after.layout[i + 1] == window.layout[i]
            &&& new.tabs.len() == 1
            &&& new.active_tab == 0
            &&& new.tabs[0].kind is Query
            &&& new.tabs[0].title == "Untitled"@
            &&& new.tabs[0].session == window.session
            &&& new.row_count == 0
            &&& after.session == window.session
            &&& grows(window, after)
            &&& asks(window, after, Act::Focus(Focus::Console))
            &&& asks(window, after, dressing(window.settings, window.next_pane))
        }),
{
    reveal(well_formed);
    lemma_slot(window.layout, window.active_pane);
    assert(window.layout.contains(window.active_pane));
    assert(first(window.layout, is_pane(window.active_pane)) == slot) by {
        let found = first(window.layout, is_pane(window.active_pane));
        if found != slot {
            assert(window.layout[found] == window.layout[slot]);
        }
    }
    let typed = typed_back(window);
    let id = window.next_pane;
    let pane = with_tab(empty_pane(id), script_tab("Untitled"@, window.session));
    let split = WindowView {
        layout: window.layout.insert(slot + 1, id),
        panes: typed.panes.push(pane),
        next_pane: (id + 1) as usize,
        active_pane: id,
        ..typed
    };
    let dress = dressing(window.settings, id);
    let dressed = then_do(split, dress);
    let keyed = then_do(dressed, Act::Focus(Focus::Console));
    let after = pane_split(window);
    assert(after == then_do(session_saved(keyed), Act::Notify));
    lemma_saved(keyed);
    let n = window.outbox.len() as int;
    assert(keyed.outbox[n] == dress);
    assert(keyed.outbox[n + 1] == Act::Focus(Focus::Console));
    assert(asks(window, keyed, dress));
    assert(asks(window, keyed, Act::Focus(Focus::Console)));
    assert(grows(window, keyed));
    assert(grows(session_saved(keyed), after));
    lemma_grows(keyed, session_saved(keyed), after);
    lemma_grows(window, keyed, after);
    lemma_asks(window, keyed, after, dress);
    lemma_asks(window, keyed, after, Act::Focus(Focus::Console));
    let last = window.panes.len() as int;
    assert(keyed.panes[last] == pane);
    assert(same_tab(after.panes[last].tabs[0], pane.tabs[0]));
    assert forall|i: int| 0 <= i < window.panes.len() implies (#[trigger] after.panes[i]).id
        == window.panes[i].id && after.panes[i].tabs.len() == window.panes[i].tabs.len() by {
        assert(session_saved(keyed).panes[i].id == keyed.panes[i].id);
    }
}

/// Closing a pane takes that pane out and no other, wherever it is in the list
/// and in the layout. An answer on its way to it has nowhere to land. Where it
/// was the active one, its neighbour to the right is, or to the left if it was
/// last; otherwise the active one stays. The last pane stays.
pub proof fn closing_a_pane_takes_one_pane_out(
    window: WindowView,
    id: usize,
    at: int,
    slot: int,
)
    requires
        well_formed(window),
        0 <= at < window.panes.len(),
        window.panes[at].id == id,
        0 <= slot < window.layout.len(),
        window.layout[slot] == id,
    ensures
        ({
            let after = pane_closed(window, id);
            &&& window.panes.len() == 1 || window.layout.len() == 1 ==> after == window
            &&& window.panes.len() > 1 && window.layout.len() > 1 ==> {
                &&& after.panes.len() == window.panes.len() - 1
                &&& forall|i: int|
                    0 <= i < after.panes.len() ==> (#[trigger] after.panes[i]).id
                        == window.panes[if i < at {
                        i
                    } else {
                        i + 1
                    }].id && after.panes[i].tabs.len() == window.panes[if i < at {
                        i
                    } else {
                        i + 1
                    }].tabs.len()
                &&& after.layout == window.layout.remove(slot)
                &&& window.active_pane != id ==> after.active_pane == window.active_pane
                &&& window.active_pane == id && slot + 1 < window.layout.len()
                    ==> after.active_pane == window.layout[slot + 1]
                &&& window.active_pane == id && slot + 1 == window.layout.len()
                    ==> after.active_pane == window.layout[slot - 1]
                &&& window.running_pane == Some(id) ==> after.running_pane is None
                &&& window.running_pane != Some(id) ==> after.running_pane == window.running_pane
                &&& asks(window, after, Act::Focus(Focus::Console))
            }
        }),
{
    reveal(well_formed);
    lemma_slot(window.layout, id);
    assert(window.layout.contains(id));
    assert(first(window.layout, is_pane(id)) == slot) by {
        let found = first(window.layout, is_pane(id));
        if found != slot {
            assert(window.layout[found] == window.layout[slot]);
        }
    }
    assert forall|i: int| 0 <= i < at implies (#[trigger] window.panes[i]).id != id by {
        assert(window.panes[at].id == id);
    }
    lemma_place_of(window.panes, id, at);
    if window.panes.len() > 1 && window.layout.len() > 1 {
        let left = without_pane(window, id);
        let keyed = then_do(left, Act::Focus(Focus::Console));
        let after = pane_closed(window, id);
        assert(after == then_do(session_saved(keyed), Act::Notify));
        lemma_saved(keyed);
        assert(keyed.outbox[window.outbox.len() as int] == Act::Focus(Focus::Console));
        assert(asks(window, keyed, Act::Focus(Focus::Console)));
        assert(grows(window, keyed));
        assert(grows(session_saved(keyed), after));
        lemma_grows(keyed, session_saved(keyed), after);
        lemma_asks(window, keyed, after, Act::Focus(Focus::Console));
        assert forall|i: int| 0 <= i < after.panes.len() implies (#[trigger] after.panes[i]).id
            == window.panes[if i < at {
            i
        } else {
            i + 1
        }].id && after.panes[i].tabs.len() == window.panes[if i < at {
            i
        } else {
            i + 1
        }].tabs.len() by {
            assert(session_saved(keyed).panes[i].id == keyed.panes[i].id);
            assert(keyed.panes[i] == window.panes[if i < at {
                i
            } else {
                i + 1
            }]);
        }
    }
}

/// Crossing to another pane makes that pane the active one, with the keyboard,
/// and the window is on the connection of the tab that shows there.
pub proof fn crossing_to_a_pane_moves_the_keyboard(window: WindowView, at: int)
    requires
        well_formed(window),
        0 <= at < window.panes.len(),
        window.panes[at].id != window.active_pane,
    ensures
        ({
            let there = window.panes[at];
            let after = pane_activated(window, there.id);
            &&& after.active_pane == there.id
            &&& after.panes.len() == window.panes.len()
            &&& after.layout == window.layout
            &&& active_pane(after).tabs.len() == there.tabs.len()
            &&& active_pane(after).active_tab == there.active_tab
            &&& there.active_tab < there.tabs.len() ==> (
            there.tabs[there.active_tab as int].session matches Some(session) ==> after.session
                == Some(session))
            &&& asks(window, after, Act::Focus(Focus::Console))
        }),
        pane_activated(window, window.active_pane) == window,
{
    let there = window.panes[at];
    let id = there.id;
    assert(place_of(window.panes, id) == at) by {
        reveal(well_formed);
        assert forall|i: int| 0 <= i < at implies (#[trigger] window.panes[i]).id != id by {
            assert(window.panes[at].id == id);
        }
        lemma_place_of(window.panes, id, at);
    }
    let typed = typed_back(window);
    let moved = WindowView { active_pane: id, ..typed };
    lemma_place_bounds(window.panes, window.active_pane);
    assert(active_pane(window).id == window.active_pane);
    assert(here(window) != at);
    crate::window::lemma_place_kept(
        window.panes,
        here(window),
        stashed(active_pane(window)),
        id,
    );
    assert(here(moved) == at);
    assert(active_pane(moved) == there);
    assert(well_formed(moved)) by {
        reveal(well_formed);
        assert(well_formed(typed));
    }
    reveal(tab_adopted);
    let adopted = tab_adopted(moved, there.active_tab as int);
    if there.active_tab < there.tabs.len() {
        lemma_adopted(moved, there.active_tab as int);
    }
    let after = pane_activated(window, id);
    assert(after.outbox[adopted.outbox.len() as int] == Act::Focus(Focus::Console));
    assert(adopted.outbox.len() >= window.outbox.len());
    lemma_layout(moved, there.active_tab as int);
}

/// Making a tab the one the window describes leaves the layout alone.
proof fn lemma_layout(window: WindowView, index: int)
    ensures
        tab_adopted(window, index).layout == window.layout,
{
    reveal(tab_adopted);
    reveal(tab_connected);
    reveal(describing);
    reveal(with_session);
}

} // verus!
