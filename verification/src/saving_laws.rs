//! What is kept of a script under a name, and which tab it is edited in.
use crate::lists::{first, group_views, lemma_first, lemma_first_bounds};
use crate::naming::suggestion;
use crate::outcome::{asks, asks_only};
use crate::pane::{query_forgotten, script_tab, showing, with_tab, TabView};
use crate::running_laws::on_a_server;
use crate::saving::{
    goes_by, is_query, name_asked, query_claimed, query_filed, query_named, query_opened,
    script_saved, taken,
    text_loaded,
};
use crate::showing::{group_showing, session_saved, shown};
use crate::text::has_ink;
use crate::window::{
    active_pane, described, group_window, well_formed, with_active, Act, SavedView, WindowView,
};
use vstd::prelude::*;

verus! {

broadcast use {group_views, group_window, group_showing};

/// A script that came from a saved query is written straight back to it: what is
/// typed now, under the name it has, on the connection the window is on. A
/// script that came from none asks for a name, in a sheet, and writes nothing.
/// One with nothing in it does neither.
pub proof fn a_script_is_written_back_where_it_came_from(window: WindowView, now: i64, at: int)
    requires
        well_formed(window),
    ensures
        ({
            let pane = active_pane(window);
            let after = script_saved(window, now);
            let from = if pane.active_tab < pane.tabs.len() {
                pane.tabs[pane.active_tab as int].saved_query
            } else {
                None
            };
            let connection = if on_a_server(window) {
                Some(window.sessions[window.session->Some_0 as int].session.config.id)
            } else {
                None
            };
            &&& !has_ink(pane.console) ==> after == window
            &&& has_ink(pane.console) && from is None ==> {
                &&& after.surfaces.save_sheet
                &&& asks_only(window, after, |act: Act| act is NameQuery || act is Notify)
                &&& after.outbox.len() > window.outbox.len()
                &&& after.outbox[window.outbox.len() as int] matches Act::NameQuery {
                    suggested,
                    replacing,
                    ..
                } && suggested == suggestion(pane.console) && !replacing
            }
            &&& has_ink(pane.console) && from is Some && 0 <= at < window.saved.len()
                && window.saved[at].id == from->Some_0 && (forall|i: int|
                0 <= i < at ==> (#[trigger] window.saved[i]).id != from->Some_0) && (forall|i: int|
                0 <= i < window.saved.len() && (#[trigger] window.saved[i]).name
                    == window.saved[at].name && window.saved[i].connection == connection
                    ==> i == at) ==> {
                &&& after.panes == window.panes
                &&& after.outbox == window.outbox.push(
                    Act::SaveQuery(
                        SavedView {
                            id: from->Some_0,
                            connection,
                            name: window.saved[at].name,
                            sql: pane.console,
                            updated_at: now,
                        },
                    ),
                )
            }
        }),
{
    let pane = active_pane(window);
    assert(on_a_server(window) <==> described(window) is Some);
    if let Some(tab) = showing(pane) {
        if let Some(id) = tab.saved_query {
            if 0 <= at < window.saved.len() && window.saved[at].id == id && (forall|i: int|
                0 <= i < at ==> (#[trigger] window.saved[i]).id != id) {
                lemma_first(window.saved, is_query(id), at);
                let connection = crate::saving::current_connection(window);
                let meant = goes_by(window.saved[at].name, connection);
                lemma_first_bounds(window.saved, meant);
                let found = first(window.saved, meant);
                if found < window.saved.len() {
                    assert(meant(window.saved[found]));
                }
            }
        }
    }
}

/// A script saved under a name is written under that name, as it is typed now,
/// on the connection the window is on: over the query of that name there, and
/// where there is none over the one it came from, or as a new one.
pub proof fn a_named_script_is_written_under_its_name(
    window: WindowView,
    name: Seq<char>,
    fresh: u128,
    now: i64,
)
    requires
        well_formed(window),
    ensures
        ({
            let pane = active_pane(window);
            let after = query_named(window, name, fresh, now);
            let from = if pane.active_tab < pane.tabs.len() {
                pane.tabs[pane.active_tab as int].saved_query
            } else {
                None
            };
            let connection = if on_a_server(window) {
                Some(window.sessions[window.session->Some_0 as int].session.config.id)
            } else {
                None
            };
            let known = exists|i: int|
                0 <= i < window.saved.len() && (#[trigger] window.saved[i]).name == name
                    && window.saved[i].connection == connection;
            &&& !has_ink(pane.console) ==> after == window
            &&& has_ink(pane.console) ==> {
                &&& after.outbox.len() == window.outbox.len() + 1
                &&& after.outbox.drop_last() == window.outbox
                &&& after.outbox.last() matches Act::SaveQuery(query) && query.name == name
                    && query.sql == pane.console && query.connection == connection
                    && query.updated_at == now && (!known ==> query.id == (match from {
                    Some(id) => id,
                    None => fresh,
                })) && (known ==> exists|i: int|
                    0 <= i < window.saved.len() && (#[trigger] window.saved[i]).name == name
                        && window.saved[i].connection == connection && query.id
                        == window.saved[i].id)
            }
        }),
{
    let pane = active_pane(window);
    assert(on_a_server(window) <==> described(window) is Some);
    let connection = crate::saving::current_connection(window);
    let meant = goes_by(name, connection);
    lemma_first_bounds(window.saved, meant);
    let found = first(window.saved, meant);
    if found < window.saved.len() {
        assert(meant(window.saved[found]));
    } else {
        assert forall|i: int| 0 <= i < window.saved.len() implies !((
        #[trigger] window.saved[i]).name == name && window.saved[i].connection == connection) by {
            assert(!meant(window.saved[i]));
        }
    }
    let after = query_named(window, name, fresh, now);
    if has_ink(pane.console) {
        assert(after.outbox.drop_last() =~= window.outbox);
    }
}

/// The sheet that asks for a name is told what there is to know: the name the
/// query has, or one made of what it says, whether it replaces one, where it is
/// filed, and which names the others have.
pub proof fn a_name_is_asked_for(window: WindowView, at: int)
    requires
        well_formed(window),
    ensures
        ({
            let pane = active_pane(window);
            let after = name_asked(window);
            let ask = after.outbox[window.outbox.len() as int];
            let from = if pane.active_tab < pane.tabs.len() {
                pane.tabs[pane.active_tab as int].saved_query
            } else {
                None
            };
            &&& after.surfaces.save_sheet
            &&& after.panes == window.panes
            &&& ask is NameQuery
            &&& ask->NameQuery_taken == taken(window.saved, from)
            &&& from is None ==> ask->NameQuery_suggested == suggestion(pane.console)
                && !ask->NameQuery_replacing
            &&& from is Some && 0 <= at < window.saved.len() && window.saved[at].id
                == from->Some_0 && (forall|i: int|
                0 <= i < at ==> (#[trigger] window.saved[i]).id != from->Some_0)
                ==> ask->NameQuery_suggested == window.saved[at].name && ask->NameQuery_replacing
            &&& on_a_server(window) ==> ask->NameQuery_scope == "Filed under "@
                + window.sessions[window.session->Some_0 as int].session.config.name
            &&& !on_a_server(window) ==> ask->NameQuery_scope
                == "Not connected: available to every connection"@
        }),
{
    let pane = active_pane(window);
    if pane.active_tab < pane.tabs.len() && pane.tabs[pane.active_tab as int].saved_query is Some {
        let id = pane.tabs[pane.active_tab as int].saved_query->Some_0;
        if 0 <= at < window.saved.len() && window.saved[at].id == id && (forall|i: int|
            0 <= i < at ==> (#[trigger] window.saved[i]).id != id) {
            lemma_first(window.saved, is_query(id), at);
        }
    }
}

/// The names a new one may not take are those of the other saved queries.
pub proof fn the_names_of_the_others_are_taken(
    saved: Seq<SavedView>,
    current: Option<u128>,
    name: Seq<char>,
)
    ensures
        taken(saved, current).contains(name) <==> exists|i: int|
            0 <= i < saved.len() && (#[trigger] saved[i]).name == name && Some(saved[i].id)
                != current,
    decreases saved.len(),
{
    if saved.len() > 0 {
        let rest = saved.drop_last();
        the_names_of_the_others_are_taken(rest, current, name);
        let before = taken(rest, current);
        let all = taken(saved, current);
        let last = saved.len() - 1;
        if Some(saved.last().id) != current {
            assert(all[before.len() as int] == saved.last().name);
        }
        if before.contains(name) {
            let k = choose|k: int| 0 <= k < before.len() && before[k] == name;
            assert(all[k] == name);
            let i = choose|i: int|
                0 <= i < rest.len() && (#[trigger] rest[i]).name == name && Some(rest[i].id)
                    != current;
            assert(saved[i] == rest[i]);
        }
        if all.contains(name) && !before.contains(name) {
            let k = choose|k: int| 0 <= k < all.len() && all[k] == name;
            if k < before.len() {
                assert(before[k] == name);
            }
            assert(saved[last].name == name);
        }
        if exists|i: int|
            0 <= i < saved.len() && (#[trigger] saved[i]).name == name && Some(saved[i].id)
                != current {
            let i = choose|i: int|
                0 <= i < saved.len() && (#[trigger] saved[i]).name == name && Some(saved[i].id)
                    != current;
            if i < last {
                assert(rest[i] == saved[i]);
            }
        }
    }
}

/// A saved query is edited in a script: in the showing tab if that is one, and
/// otherwise in a new tab behind the others. Either way that tab shows, has the
/// query's name, and is the query's from then on.
pub proof fn a_query_is_edited_in_a_script(window: WindowView, name: Seq<char>, id: u128)
    requires
        well_formed(window),
        active_pane(window).tabs.len() < usize::MAX,
        window.pending.page is None,
    ensures
        ({
            let pane = active_pane(window);
            let scripted = pane.active_tab < pane.tabs.len() && pane.tabs[pane.active_tab as int].kind
                is Query;
            let after = query_claimed(window, name, id);
            let left = active_pane(after);
            let tab = left.tabs[left.active_tab as int];
            &&& after.active_pane == window.active_pane
            &&& left.active_tab < left.tabs.len()
            &&& scripted ==> left.tabs.len() == pane.tabs.len() && left.active_tab
                == pane.active_tab
            &&& !scripted && pane.active_tab != pane.tabs.len() ==> left.tabs.len()
                == pane.tabs.len() + 1 && left.active_tab == pane.tabs.len()
            &&& tab.kind is Query
            &&& tab.title == name
            &&& tab.saved_query == Some(id)
            &&& !tab.dirty
            &&& tab.relation is None
        }),
{
    let pane = active_pane(window);
    assert(pane.id == window.active_pane);
    let index = pane.tabs.len() as int;
    let scripted = match showing(pane) {
        Some(tab) => tab.kind is Query,
        None => false,
    };
    if !scripted {
        let tab = TabView { saved_query: Some(id), ..script_tab(name, window.session) };
        let added = with_active(window, with_tab(pane, tab));
        assert(active_pane(added) == with_tab(pane, tab));
        if index != pane.active_tab {
            let up = shown(added, index);
            assert(active_pane(up).id == window.active_pane);
        }
    }
}

/// A saved query that is opened is in the console, word for word, in a tab that
/// is the query's, with the keyboard there.
pub proof fn a_saved_query_opens_word_for_word(window: WindowView, index: usize)
    requires
        well_formed(window),
        active_pane(window).tabs.len() < usize::MAX,
        active_pane(window).active_tab < active_pane(window).tabs.len(),
        window.pending.page is None,
    ensures
        index >= window.saved.len() ==> query_opened(window, index) == window,
        index < window.saved.len() ==> {
            let query = window.saved[index as int];
            let after = query_opened(window, index);
            let left = active_pane(after);
            let tab = left.tabs[left.active_tab as int];
            &&& left.console == query.sql
            &&& left.active_tab < left.tabs.len()
            &&& tab.saved_query == Some(query.id)
            &&& tab.title == query.name
            &&& tab.kind is Query
        },
{
    if index < window.saved.len() {
        let query = window.saved[index as int];
        a_query_is_edited_in_a_script(window, query.name, query.id);
        let claimed = query_claimed(window, query.name, query.id);
        assert(well_formed(claimed)) by {
            let pane = active_pane(window);
            assert(pane.id == window.active_pane);
            let tab = TabView {
                saved_query: Some(query.id),
                ..script_tab(query.name, window.session)
            };
            let added = with_active(window, with_tab(pane, tab));
            assert(active_pane(added) == with_tab(pane, tab));
            let up = shown(added, pane.tabs.len() as int);
            assert(active_pane(up).id == window.active_pane);
        }
        assert(active_pane(claimed).id == claimed.active_pane);
        let loaded = text_loaded(claimed, query.sql);
        assert(active_pane(loaded) == (crate::pane::PaneView {
            console: query.sql,
            ..active_pane(claimed)
        }));
        let after = query_opened(window, index);
        let left = active_pane(after);
        assert(left == active_pane(session_saved(loaded)));
    }
}

/// A query that was written is the tab's, and the list it is in shows.
pub proof fn a_written_query_shows_in_its_list(window: WindowView, name: Seq<char>, id: u128)
    ensures
        query_filed(window, name, id).sidebar_tab is Queries,
        query_filed(window, name, id).outbox.len() > 0,
        query_filed(window, name, id).outbox.last() is ReloadLists,
        query_filed(window, name, id).panes == query_claimed(window, name, id).panes,
{
}

/// A tab whose saved query was deleted keeps its text and its name and is an
/// unsaved script again; no other tab changes.
pub proof fn a_deleted_query_leaves_its_text(
    pane: crate::pane::PaneView,
    query: u128,
    i: int,
)
    requires
        0 <= i < pane.tabs.len(),
    ensures
        ({
            let after = query_forgotten(pane, query);
            let was = pane.tabs[i];
            let tab = after.tabs[i];
            &&& after.tabs.len() == pane.tabs.len()
            &&& after.console == pane.console
            &&& after.active_tab == pane.active_tab
            &&& was.saved_query != Some(query) ==> tab == was
            &&& was.saved_query == Some(query) ==> {
                &&& tab.saved_query is None
                &&& tab.dirty
                &&& tab.sql == was.sql
                &&& tab.title == was.title
                &&& tab.kind == was.kind
            }
        }),
{
}

} // verus!
