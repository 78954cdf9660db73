//! Which session a tab ends up on, and what happens to the others.
use crate::catalog::ConfigView;
use crate::connecting::{
    connection_deleted, connection_opened, database_bound, database_opened, database_switched,
    fresh_script, keys_asked, origin_focused, rebrowse_set, tab_put_on,
};
use crate::lists::{first, group_views, lemma_first_bounds};
use crate::outcome::{asks, asks_only, grows, lemma_asks, lemma_grows};
use crate::pane::{showing, TabView};
use crate::pane_laws::{a_new_script_is_the_last_tab, lemma_saved};
use crate::showing::{
    describing, group_showing, results_cleared, serves, session_place, session_saved, with_session,
};
use crate::tabbing::script_opened;
use crate::window::{
    active_pane, described, group_window, here, then_do, well_formed, with_active, Act, HeldView,
    OrderView, WindowView,
};
use vstd::prelude::*;

verus! {

broadcast use {
    group_views,
    group_window,
    group_showing,
    crate::connecting::lemma_tab_put_on,
};

/// Whether a session is an open one on a database of a connection.
pub open spec fn is_on(held: HeldView, connection: u128, database: Seq<char>) -> bool {
    held.open && held.session.config.id == connection && held.session.config.database == database
}

/// The first session on a database is one, and none before it is.
proof fn lemma_session_place(sessions: Seq<HeldView>, config: ConfigView)
    ensures
        0 <= session_place(sessions, config) <= sessions.len(),
        session_place(sessions, config) < sessions.len() ==> is_on(
            sessions[session_place(sessions, config)],
            config.id,
            config.database,
        ),
        forall|i: int|
            0 <= i < session_place(sessions, config) ==> !is_on(
                #[trigger] sessions[i],
                config.id,
                config.database,
            ),
    decreases sessions.len(),
{
    if sessions.len() > 0 && !serves(sessions[0], config) {
        let rest = sessions.drop_first();
        lemma_session_place(rest, config);
        assert forall|i: int| 0 <= i < session_place(sessions, config) implies !is_on(
            #[trigger] sessions[i],
            config.id,
            config.database,
        ) by {
            if i > 0 {
                assert(sessions[i] == rest[i - 1]);
            }
        }
    }
}

/// Two tabs on one database share one connection, and two databases get one
/// each: putting the showing tab on a database uses the session that is open on
/// it, and where there is none makes one that is told to connect. Either way the
/// tab and the window are on that session, and no other session changes.
pub proof fn a_database_has_one_session(
    window: WindowView,
    config: ConfigView,
    password: Option<Seq<char>>,
)
    requires
        well_formed(window),
        window.sessions.len() < usize::MAX,
    ensures
        ({
            let after = database_bound(window, config, password);
            let pane = active_pane(window);
            let open = exists|i: int|
                0 <= i < window.sessions.len() && is_on(
                    #[trigger] window.sessions[i],
                    config.id,
                    config.database,
                );
            &&& after.session matches Some(session) && session < after.sessions.len() && is_on(
                after.sessions[session as int],
                config.id,
                config.database,
            )
            &&& pane.active_tab < pane.tabs.len() ==> active_pane(
                after,
            ).tabs[pane.active_tab as int].session == after.session
            &&& active_pane(after).tabs.len() == pane.tabs.len()
            &&& active_pane(after).active_tab == pane.active_tab
            &&& after.active_pane == window.active_pane
            &&& forall|i: int|
                0 <= i < window.sessions.len() ==> #[trigger] after.sessions[i]
                    == window.sessions[i]
            &&& open ==> after.sessions == window.sessions && asks_only(
                window,
                after,
                |act: Act| !(act is Tell),
            )
            &&& !open ==> {
                let new = window.sessions.len() as int;
                &&& after.sessions.len() == window.sessions.len() + 1
                &&& after.session == Some(new as usize)
                &&& after.sessions[new].session.config == config
                &&& after.sessions[new].session.password == password
                &&& asks(window, after, Act::Tell(new as usize, OrderView::Connect))
            }
            &&& grows(window, after)
        }),
{
    reveal(database_bound);
    reveal(with_session);
    reveal(tab_put_on);
    reveal(describing);
    let pane = active_pane(window);
    assert(pane.id == window.active_pane);
    let at = session_place(window.sessions, config);
    lemma_session_place(window.sessions, config);
    let opened = with_session(window, config, password);
    let after = database_bound(window, config, password);
    if at < window.sessions.len() {
        assert(is_on(window.sessions[at], config.id, config.database));
    } else {
        assert(opened.outbox[window.outbox.len() as int] == Act::Tell(
            at as usize,
            OrderView::Connect,
        ));
        assert(after.outbox[window.outbox.len() as int] == Act::Tell(
            at as usize,
            OrderView::Connect,
        ));
    }
}

/// A new script over an empty grid is one more tab, on the session the window
/// is on.
proof fn lemma_fresh_script(window: WindowView)
    requires
        well_formed(window),
        active_pane(window).tabs.len() < usize::MAX,
        window.pending.page is None,
    ensures
        ({
            let after = fresh_script(window);
            let left = active_pane(after);
            &&& well_formed(after)
            &&& after.active_pane == window.active_pane
            &&& after.session == window.session
            &&& left.tabs.len() == active_pane(window).tabs.len() + 1
            &&& left.active_tab == active_pane(window).tabs.len()
            &&& left.tabs.last().kind is Query
            &&& left.row_count == 0
            &&& grows(window, after)
        }),
{
    reveal(fresh_script);
    reveal(results_cleared);
    a_new_script_is_the_last_tab(window);
    let opened = script_opened(window);
    let after = fresh_script(window);
    assert(grows(opened, after));
    lemma_grows(window, opened, after);
}

/// A new script leaves the sessions alone where the tab it makes has one.
proof fn lemma_fresh_sessions(window: WindowView)
    requires
        well_formed(window),
        window.session is Some,
    ensures
        fresh_script(window).sessions == window.sessions,
{
    reveal(fresh_script);
    reveal(results_cleared);
    reveal(session_saved);
    reveal(crate::showing::shown);
    reveal(crate::showing::brought_up);
    reveal(crate::showing::tab_adopted);
    reveal(describing);
    let pane = active_pane(window);
    assert(pane.id == window.active_pane);
    let tab = crate::pane::script_tab("Untitled"@, window.session);
    let more = with_active(window, crate::pane::with_tab(pane, tab));
    assert(active_pane(more) == crate::pane::with_tab(pane, tab));
    let index = pane.tabs.len() as int;
    let typed = crate::showing::typed_back(more);
    assert(active_pane(typed).tabs[index].session == window.session);
}

/// Opening a connection from a tab that is on another server gives it a tab of
/// its own; from a tab that is on none, or on the same one, it is that tab that
/// moves. Afterwards the showing tab and the window are on an open session of
/// the connection, on the database that was asked for, and the lists are read
/// again.
pub proof fn another_server_gets_a_tab_of_its_own(
    window: WindowView,
    config: ConfigView,
    password: Option<Seq<char>>,
)
    requires
        well_formed(window),
        active_pane(window).tabs.len() < usize::MAX,
        window.sessions.len() < usize::MAX,
        window.pending.page is None,
        window.session is Some,
    ensures
        ({
            let pane = active_pane(window);
            let after = connection_opened(window, config, password);
            let left = active_pane(after);
            let elsewhere = pane.active_tab < pane.tabs.len() && (
            pane.tabs[pane.active_tab as int].session matches Some(session) && session
                < window.sessions.len() && window.sessions[session as int].open
                && window.sessions[session as int].session.config.id != config.id);
            &&& after.session matches Some(session) && session < after.sessions.len() && is_on(
                after.sessions[session as int],
                config.id,
                config.database,
            )
            &&& left.active_tab < left.tabs.len() ==> left.tabs[left.active_tab as int].session
                == after.session
            &&& elsewhere ==> left.tabs.len() == pane.tabs.len() + 1 && left.active_tab
                == pane.tabs.len()
            &&& !elsewhere ==> left.tabs.len() == pane.tabs.len() && left.active_tab
                == pane.active_tab
            &&& grows(window, after)
            &&& asks(window, after, Act::ReloadLists)
        }),
{
    let pane = active_pane(window);
    let elsewhere = match crate::connecting::session_here(window) {
        Some(session) => session.config.id != config.id,
        None => false,
    };
    let ready = if elsewhere {
        fresh_script(window)
    } else {
        window
    };
    if elsewhere {
        lemma_fresh_script(window);
        lemma_fresh_sessions(window);
    }
    a_database_has_one_session(ready, config, password);
    let bound = database_bound(ready, config, password);
    assert(well_formed(bound)) by {
        reveal(database_bound);
    }
    let listed = then_do(bound, Act::ReloadLists);
    lemma_saved(listed);
    let after = connection_opened(window, config, password);
    assert(after == then_do(session_saved(listed), Act::Notify));
    assert(listed.outbox[bound.outbox.len() as int] == Act::ReloadLists);
    lemma_grows(window, ready, bound);
    assert(grows(window, listed));
    assert(asks(window, listed, Act::ReloadLists));
    assert(grows(session_saved(listed), after));
    lemma_grows(listed, session_saved(listed), after);
    lemma_grows(window, listed, after);
    lemma_asks(window, listed, after, Act::ReloadLists);
    let index = active_pane(bound).active_tab as int;
    if index < active_pane(bound).tabs.len() {
        assert(active_pane(after).tabs[index].session == active_pane(bound).tabs[index].session);
    }
}

/// Another database of the same server opens in a tab of its own, on a session
/// of the same connection; the one that is open already changes nothing.
pub proof fn another_database_opens_in_a_tab_of_its_own(window: WindowView, database: Seq<char>)
    requires
        well_formed(window),
        active_pane(window).tabs.len() < usize::MAX,
        window.sessions.len() < usize::MAX,
        window.pending.page is None,
    ensures
        described(window) is None ==> database_opened(window, database) == window,
        described(window) matches Some(here) ==> {
            let after = database_opened(window, database);
            &&& here.config.database == database ==> after == window
            &&& here.config.database != database ==> {
                &&& active_pane(after).tabs.len() == active_pane(window).tabs.len() + 1
                &&& after.session matches Some(session) && session < after.sessions.len() && is_on(
                    after.sessions[session as int],
                    here.config.id,
                    database,
                )
            }
        },
{
    if let Some(session) = described(window) {
        if session.config.database != database {
            let ready = fresh_script(window);
            lemma_fresh_script(window);
            lemma_fresh_sessions(window);
            let config = ConfigView { database, ..session.config };
            a_database_has_one_session(ready, config, None);
            let bound = database_bound(ready, config, None);
            assert(well_formed(bound)) by {
                reveal(database_bound);
            }
            lemma_saved(bound);
        }
    }
}

/// Switching databases moves the showing tab: it stays where it is in the
/// strip, on a session of the same connection on the other database. A browsed
/// table goes empty, and is to be asked for again once the catalog is in.
pub proof fn switching_moves_the_showing_tab(window: WindowView, database: Seq<char>)
    requires
        well_formed(window),
        window.sessions.len() < usize::MAX,
    ensures
        described(window) is None ==> database_switched(window, database) == window,
        described(window) matches Some(here) ==> {
            let after = database_switched(window, database);
            let pane = active_pane(window);
            let browses = if pane.active_tab < pane.tabs.len()
                && pane.tabs[pane.active_tab as int].kind is Table {
                pane.tabs[pane.active_tab as int].relation
            } else {
                None
            };
            &&& here.config.database == database ==> after == window
            &&& here.config.database != database ==> {
                &&& active_pane(after).tabs.len() == pane.tabs.len()
                &&& active_pane(after).active_tab == pane.active_tab
                &&& after.session matches Some(session) && session < after.sessions.len() && is_on(
                    after.sessions[session as int],
                    here.config.id,
                    database,
                )
                &&& after.pending.rebrowse == browses
                &&& browses is Some ==> active_pane(after).row_count == 0
                &&& pane.active_tab < pane.tabs.len() ==> active_pane(
                    after,
                ).tabs[pane.active_tab as int].session == after.session
            }
        },
{
    if let Some(session) = described(window) {
        if session.config.database != database {
            let pane = active_pane(window);
            assert(pane.id == window.active_pane);
            let browsing = crate::window::browsed_table(window);
            let ready = if browsing is Some {
                results_cleared(window)
            } else {
                window
            };
            let noted = rebrowse_set(ready, browsing);
            reveal(rebrowse_set);
            crate::window::lemma_same_frame(noted, ready);
            let config = ConfigView { database, ..session.config };
            a_database_has_one_session(noted, config, None);
            let bound = database_bound(noted, config, None);
            assert(well_formed(bound) && bound.pending == noted.pending && active_pane(
                bound,
            ).row_count == active_pane(noted).row_count) by {
                reveal(database_bound);
                reveal(tab_put_on);
            }
            lemma_saved(bound);
            let after = database_switched(window, database);
            let index = pane.active_tab as int;
            if index < pane.tabs.len() {
                assert(active_pane(after).tabs[index].session == active_pane(
                    bound,
                ).tabs[index].session);
            }
        }
    }
}

/// Deleting a connection closes every session on it and no other, takes every
/// tab off them and off no other, and leaves a window that was on one of them on
/// none.
pub proof fn deleting_a_connection_closes_its_sessions(window: WindowView, id: u128)
    ensures
        ({
            let after = connection_deleted(window, id);
            &&& after.sessions.len() == window.sessions.len()
            &&& forall|i: int|
                0 <= i < window.sessions.len() ==> (#[trigger] after.sessions[i]).open == (
                window.sessions[i].open && window.sessions[i].session.config.id != id)
            &&& after.panes.len() == window.panes.len()
            &&& forall|i: int, j: int|
                0 <= i < window.panes.len() && 0 <= j < window.panes[i].tabs.len() ==> {
                    let was = window.panes[i].tabs[j];
                    let gone = was.session matches Some(session) && session
                        < window.sessions.len() && window.sessions[session as int].open
                        && window.sessions[session as int].session.config.id == id;
                    (#[trigger] after.panes[i].tabs[j]) == (TabView {
                        session: if gone {
                            None
                        } else {
                            was.session
                        },
                        ..was
                    })
                }
            &&& (window.session matches Some(session) && session < window.sessions.len()
                && window.sessions[session as int].open
                && window.sessions[session as int].session.config.id == id) ==> after.session
                is None && after.tree.len() == 0
            &&& (window.session matches Some(session) && session < window.sessions.len()
                && window.sessions[session as int].session.config.id != id) ==> after.session
                == window.session && after.tree == window.tree
        }),
{
}

/// The keys of a session are walked on to as long as there are more, and no
/// further than the browser shows.
pub proof fn keys_are_walked_as_far_as_they_are_shown(window: WindowView, id: usize)
    requires
        id < window.sessions.len(),
        window.sessions[id as int].open,
    ensures
        ({
            let session = window.sessions[id as int].session;
            let after = keys_asked(window, id);
            &&& session.keyspace is Some && !session.keys_complete && session.keys.len() < 5000
                ==> after.outbox == window.outbox.push(Act::Tell(id, OrderView::Scan("*"@)))
            &&& session.keyspace is None || session.keys_complete || session.keys.len() >= 5000
                ==> after == window
        }),
{
}

/// A row of the tree is opened on the session it came out of: the window is on
/// an open session of that connection, and on that database where the row is of
/// one.
pub proof fn a_row_is_opened_where_it_came_from(
    window: WindowView,
    connection: u128,
    database: Option<Seq<char>>,
)
    ensures
        ({
            let after = origin_focused(window, connection, database);
            let there = exists|i: int|
                0 <= i < window.sessions.len() && (#[trigger] window.sessions[i]).open
                    && window.sessions[i].session.config.id == connection && (
                database matches Some(name) ==> window.sessions[i].session.config.database
                    == name);
            &&& after.panes == window.panes
            &&& after.sessions == window.sessions
            &&& there && window.sessions.len() <= usize::MAX ==> (after.session matches Some(
                session,
            ) && session < window.sessions.len() && window.sessions[session as int].open
                && window.sessions[session as int].session.config.id == connection && (
            database matches Some(name) ==> window.sessions[session as int].session.config.database
                == name))
            &&& !there ==> after == window
        }),
{
    let meant = crate::connecting::is_origin(connection, database);
    lemma_first_bounds(window.sessions, meant);
    let at = first(window.sessions, meant);
    if at < window.sessions.len() {
        assert(meant(window.sessions[at]));
    } else {
        assert forall|i: int| 0 <= i < window.sessions.len() implies !((
        #[trigger] window.sessions[i]).open && window.sessions[i].session.config.id == connection
            && (database matches Some(name) ==> window.sessions[i].session.config.database
            == name)) by {
            assert(!meant(window.sessions[i]));
        }
    }
}

} // verus!
