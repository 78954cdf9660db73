//! The connections a window has open, and the databases its tabs are on.
use crate::catalog::{Capabilities, ConfigView, ConnectionConfig, RelationRef};
use crate::lists::{first, group_views, lemma_first, views};
use crate::pane::{showing, CenterKind, Pane, PaneView, TabView};
use crate::session::SessionView;
use crate::showing::{
    describing, group_showing, lemma_same_ids, results_cleared, same_strip, session_place,
    session_saved, with_session,
};
use crate::tabbing::script_opened;
use crate::text::{maybe, same};
use crate::window::{
    active_pane, browsed_table, described, group_window, has_pane, here, lemma_same_frame, name,
    session_of, then_do, well_formed, with_active, Act, Effect, HeldView, Order, OrderView,
    PendingView, WindowView, Workspace,
};
use vstd::prelude::*;

verus! {

broadcast use {group_views, group_window, group_showing};

/// Past this many keys the browser stops walking: the tree has stopped being
/// something a person reads, and the answer is a pattern.
pub const KEY_BROWSER_LIMIT: usize = 5000;

/// The showing tab put on a session, and the window with it.
#[verifier::opaque]
pub open spec fn tab_put_on(window: WindowView, session: usize) -> WindowView {
    let pane = active_pane(window);
    let bound = match showing(pane) {
        Some(tab) => with_active(
            window,
            crate::pane::with_showing(pane, TabView { session: Some(session), ..tab }),
        ),
        None => window,
    };
    describing(bound, Some(session))
}

/// The showing tab put on a database, which is connected to where it is not
/// already.
#[verifier::opaque]
pub open spec fn database_bound(
    window: WindowView,
    config: ConfigView,
    password: Option<Seq<char>>,
) -> WindowView {
    tab_put_on(
        with_session(window, config, password),
        session_place(window.sessions, config) as usize,
    )
}

/// The session of the showing tab, where it has one that is open.
pub open spec fn session_here(window: WindowView) -> Option<SessionView> {
    match showing(active_pane(window)) {
        Some(tab) => match tab.session {
            Some(session) => session_of(window.sessions, session),
            None => None,
        },
        None => None,
    }
}

/// A new script over an empty grid.
#[verifier::opaque]
pub open spec fn fresh_script(window: WindowView) -> WindowView {
    results_cleared(script_opened(window))
}

/// A connection opened. A different server is a different place, so it gets a
/// tab of its own.
pub open spec fn connection_opened(
    window: WindowView,
    config: ConfigView,
    password: Option<Seq<char>>,
) -> WindowView {
    let elsewhere = match session_here(window) {
        Some(session) => session.config.id != config.id,
        None => false,
    };
    let ready = if elsewhere {
        fresh_script(window)
    } else {
        window
    };
    then_do(
        session_saved(then_do(database_bound(ready, config, password), Act::ReloadLists)),
        Act::Notify,
    )
}

/// Another database of the same server opened in a tab of its own.
pub open spec fn database_opened(window: WindowView, database: Seq<char>) -> WindowView {
    match described(window) {
        None => window,
        Some(session) => if session.config.database == database {
            window
        } else {
            then_do(
                session_saved(
                    database_bound(
                        fresh_script(window),
                        ConfigView { database, ..session.config },
                        None,
                    ),
                ),
                Act::Notify,
            )
        },
    }
}

/// The table to be asked for again once the window has another catalog.
#[verifier::opaque]
pub open spec fn rebrowse_set(window: WindowView, relation: Option<(Seq<char>, Seq<char>)>) -> WindowView {
    WindowView { pending: PendingView { rebrowse: relation, ..window.pending }, ..window }
}

/// The showing tab moved to another database of the same server. A browsed
/// table goes empty, and is asked for again once the new catalog is in.
pub open spec fn database_switched(window: WindowView, database: Seq<char>) -> WindowView {
    match described(window) {
        None => window,
        Some(session) => if session.config.database == database {
            window
        } else {
            let browsing = browsed_table(window);
            let ready = if browsing is Some {
                results_cleared(window)
            } else {
                window
            };
            then_do(
                session_saved(
                    database_bound(
                        rebrowse_set(ready, browsing),
                        ConfigView { database, ..session.config },
                        None,
                    ),
                ),
                Act::Notify,
            )
        },
    }
}

/// Whether a session still has keys to be walked.
pub open spec fn wants_keys(session: SessionView) -> bool {
    session.keyspace is Some && !session.keys_complete && session.keys.len() < KEY_BROWSER_LIMIT
}

/// The walk of a keyspace carried on, up to the limit.
pub open spec fn keys_asked(window: WindowView, id: usize) -> WindowView {
    match session_of(window.sessions, id) {
        Some(session) => if wants_keys(session) {
            then_do(window, Act::Tell(id, OrderView::Scan("*"@)))
        } else {
            window
        },
        None => window,
    }
}

/// Whether the key browser has all it is going to get: every key it walks to,
/// and the contents of the key that is showing.
pub open spec fn settled(window: WindowView) -> bool {
    match described(window) {
        None => true,
        Some(session) => session.keyspace is None || {
            &&& session.keys_complete || session.keys.len() >= KEY_BROWSER_LIMIT
            &&& window.pending.key is None
            &&& match showing(active_pane(window)) {
                Some(tab) => match tab.key {
                    Some(key) => match session.last_key {
                        Some(view) => view.key == key.0,
                        None => false,
                    },
                    None => true,
                },
                None => true,
            }
        },
    }
}

/// A tab off the sessions of a connection that is gone.
pub open spec fn tab_unbound(tab: TabView, sessions: Seq<HeldView>, id: u128) -> TabView {
    TabView {
        session: match tab.session {
            Some(session) => if on_connection(sessions, session, id) {
                None
            } else {
                Some(session)
            },
            None => None,
        },
        ..tab
    }
}

/// Whether a session is one of a connection.
pub open spec fn on_connection(sessions: Seq<HeldView>, session: usize, id: u128) -> bool {
    match session_of(sessions, session) {
        Some(held) => held.config.id == id,
        None => false,
    }
}

/// A pane off the sessions of a connection that is gone.
pub open spec fn pane_unbound(pane: PaneView, sessions: Seq<HeldView>, id: u128) -> PaneView {
    PaneView {
        tabs: Seq::new(pane.tabs.len(), |i: int| tab_unbound(pane.tabs[i], sessions, id)),
        ..pane
    }
}

/// A session, closed if it is one of a connection.
pub open spec fn closed_for(held: HeldView, id: u128) -> HeldView {
    HeldView { open: held.open && held.session.config.id != id, ..held }
}

/// A connection deleted: every session on it is closed, the tabs that were on
/// them are on none, and a window describing one of them describes nothing.
pub open spec fn connection_deleted(window: WindowView, id: u128) -> WindowView {
    let unbound = WindowView {
        sessions: Seq::new(
            window.sessions.len(),
            |i: int| closed_for(window.sessions[i], id),
        ),
        panes: Seq::new(
            window.panes.len(),
            |i: int| pane_unbound(window.panes[i], window.sessions, id),
        ),
        ..window
    };
    let lost = match window.session {
        Some(session) => on_connection(window.sessions, session, id),
        None => false,
    };
    then_do(
        if lost {
            then_do(
                WindowView { session: None, tree: Seq::empty(), ..unbound },
                Act::SetCatalog(None),
            )
        } else {
            unbound
        },
        Act::Notify,
    )
}

/// After a connection is deleted no tab is on a session of it.
pub proof fn no_tab_is_left_on_a_deleted_connection(
    window: WindowView,
    id: u128,
    pane: int,
    tab: int,
)
    requires
        0 <= pane < window.panes.len(),
        0 <= tab < window.panes[pane].tabs.len(),
    ensures
        ({
            let after = connection_deleted(window, id);
            match after.panes[pane].tabs[tab].session {
                Some(session) => !on_connection(window.sessions, session, id) && session_of(
                    after.sessions,
                    session,
                ) == session_of(window.sessions, session),
                None => true,
            }
        }),
{
}

/// Binding the showing tab leaves the window well formed.
pub broadcast proof fn lemma_tab_put_on(window: WindowView, session: usize)
    requires
        well_formed(window),
    ensures
        #![trigger tab_put_on(window, session)]
        well_formed(tab_put_on(window, session)),
        same_strip(tab_put_on(window, session), window),
        tab_put_on(window, session).session == Some(session),
        tab_put_on(window, session).pending == window.pending,
{
    reveal(tab_put_on);
}

impl Workspace {
    /// Point the showing tab at a session, and the window with it.
    fn bind_active_tab(&mut self, session: usize)
        requires
            well_formed(old(self)@),
        ensures
            final(self)@ == tab_put_on(old(self)@, session),
            well_formed(final(self)@),
    {
        broadcast use lemma_tab_put_on;

        reveal(tab_put_on);
        let at = self.active_at();
        let tab = self.panes[at].active_tab;
        if tab < self.panes[at].tabs.len() {
            let ghost before = *self;
            self.panes[at].put_on(session);
            assert(self.panes@ =~= before.panes@.update(at as int, self.panes@[at as int]));
            proof {
                Self::lemma_pane_changed(before, *self, at as int);
            }
        }
        self.adopt_session(Some(session));
    }

    /// Put the showing tab on a database.
    fn bind_database(&mut self, config: ConnectionConfig, password: Option<String>)
        requires
            well_formed(old(self)@),
        ensures
            final(self)@ == database_bound(old(self)@, config@, maybe(password)),
            well_formed(final(self)@),
    {
        reveal(database_bound);
        let session = self.session_for(config, password);
        self.bind_active_tab(session);
    }

    /// Open a new script over an empty grid.
    fn start_script(&mut self)
        requires
            well_formed(old(self)@),
        ensures
            final(self)@ == fresh_script(old(self)@),
            well_formed(final(self)@),
    {
        reveal(fresh_script);
        self.new_query_tab();
        self.clear_results();
    }

    /// Open a connection, with the password in hand where it was just typed.
    pub fn open_connection_with(&mut self, config: ConnectionConfig, password: Option<String>)
        requires
            well_formed(old(self)@),
        ensures
            final(self)@ == connection_opened(old(self)@, config@, maybe(password)),
            well_formed(final(self)@),
    {
        let at = self.active_at();
        let here = match self.panes[at].active() {
            Some(tab) => tab.session,
            None => None,
        };
        let elsewhere = match here {
            Some(session) => match self.session_at(session) {
                Some(session) => session.config.id != config.id,
                None => false,
            },
            None => false,
        };
        if elsewhere {
            self.start_script();
        }
        self.bind_database(config, password);
        self.say(Effect::ReloadLists);
        self.save_session();
        self.say(Effect::Notify);
    }

    /// Point this window at a connection and open it.
    pub fn open_connection(&mut self, config: ConnectionConfig)
        requires
            well_formed(old(self)@),
        ensures
            final(self)@ == connection_opened(old(self)@, config@, None),
            well_formed(final(self)@),
    {
        self.open_connection_with(config, None);
    }

    /// The details of the window's connection, for another database.
    fn other_database(&self, database: &str) -> (config: Option<ConnectionConfig>)
        ensures
            match described(self@) {
                Some(session) => if session.config.database == database@ {
                    config is None
                } else {
                    config matches Some(config) && config@ == (ConfigView {
                        database: database@,
                        ..session.config
                    })
                },
                None => config is None,
            },
    {
        match self.described() {
            Some(session) => {
                if same(session.config.database.as_str(), database) {
                    return None;
                }
                let config = ConnectionConfig {
                    database: database.to_owned(),
                    ..session.config.clone()
                };
                assert(config@ =~= (ConfigView {
                    database: database@,
                    ..session@.config
                }));
                Some(config)
            },
            None => None,
        }
    }

    /// Open another database of the same server in a tab of its own.
    pub fn open_database(&mut self, database: &str)
        requires
            well_formed(old(self)@),
        ensures
            final(self)@ == database_opened(old(self)@, database@),
            well_formed(final(self)@),
    {
        if let Some(config) = self.other_database(database) {
            self.start_script();
            self.bind_database(config, None);
            self.save_session();
            self.say(Effect::Notify);
        }
    }

    /// Move the showing tab to another database of the same server. Everything
    /// else in the window stays where it was.
    pub fn switch_database(&mut self, database: &str)
        requires
            well_formed(old(self)@),
        ensures
            final(self)@ == database_switched(old(self)@, database@),
            well_formed(final(self)@),
    {
        if let Some(config) = self.other_database(database) {
            let at = self.active_at();
            let browsing = match self.panes[at].active() {
                Some(tab) => if tab.kind == CenterKind::Table {
                    match &tab.relation {
                        Some(relation) => Some(relation.clone()),
                        None => None,
                    }
                } else {
                    None
                },
                None => None,
            };
            if browsing.is_some() {
                self.clear_results();
            }
            self.set_rebrowse(browsing);
            self.bind_database(config, None);
            self.save_session();
            self.say(Effect::Notify);
        }
    }

    /// Set what is to be asked for again once there is another catalog.
    fn set_rebrowse(&mut self, relation: Option<RelationRef>)
        requires
            well_formed(old(self)@),
        ensures
            final(self)@ == rebrowse_set(old(self)@, name(relation)),
            well_formed(final(self)@),
    {
        reveal(rebrowse_set);
        self.pending.rebrowse = relation;
        assert(self@ =~= rebrowse_set(old(self)@, name(relation)));
        proof {
            lemma_same_frame(self@, old(self)@);
        }
    }

    /// What the connection in front can do. A window with nothing open answers
    /// as a SQL server, which is what its empty console is.
    pub fn capabilities(&self) -> (capabilities: Capabilities)
        ensures
            capabilities == match described(self@) {
                Some(session) => session.config.capabilities,
                None => Capabilities::spec_postgres(),
            },
    {
        match self.described() {
            Some(session) => session.config.capabilities,
            None => Capabilities::postgres(),
        }
    }

    /// Which database a tab is looking at, by name: its session's, and
    /// otherwise the one it was restored with.
    pub fn tab_database(&self, tab: &crate::pane::CenterTab) -> (database: Option<String>)
        ensures
            maybe(database) == match tab@.session {
                Some(session) => match session_of(self@.sessions, session) {
                    Some(session) => Some(session.config.database),
                    None => None,
                },
                None => match tab@.reconnect {
                    Some(place) => Some(place.1),
                    None => None,
                },
            },
    {
        match tab.session {
            Some(session) => match self.session_at(session) {
                Some(session) => Some(session.config.database.clone()),
                None => None,
            },
            None => match &tab.reconnect {
                Some(place) => Some(place.1.clone()),
                None => None,
            },
        }
    }

    /// The database and the schema statements land in, where there is a
    /// catalog to say so.
    pub fn current_location(&self) -> (place: (String, String))
        ensures
            (place.0@, place.1@) == match crate::window::catalog(self@) {
                Some(snapshot) => (snapshot.database@, snapshot.current_schema@),
                None => ("\u{2014}"@, "\u{2014}"@),
            },
    {
        match self.described() {
            Some(session) => match &session.snapshot {
                Some(snapshot) => (snapshot.database.clone(), snapshot.current_schema.clone()),
                None => ("\u{2014}".to_owned(), "\u{2014}".to_owned()),
            },
            None => ("\u{2014}".to_owned(), "\u{2014}".to_owned()),
        }
    }

    /// Whether the key browser has all of the keyspace it is going to get.
    /// Always so on a server with a schema.
    pub fn keys_settled(&self) -> (answer: bool)
        requires
            well_formed(self@),
        ensures
            answer == settled(self@),
    {
        let at = self.active_at();
        match self.described() {
            None => true,
            Some(session) => {
                if session.keyspace.is_none() {
                    return true;
                }
                let walked = session.keys_complete || session.keys.len() >= KEY_BROWSER_LIMIT;
                let read = match self.panes[at].active() {
                    Some(tab) => match &tab.key {
                        Some(key) => match &session.last_key {
                            Some(view) => crate::browsing::same_key(&view.key, &key.0),
                            None => false,
                        },
                        None => true,
                    },
                    None => true,
                };
                walked && self.pending.key.is_none() && read
            },
        }
    }

    /// Carry the walk of a keyspace on.
    ///
    /// A page at a time and always one more page than has landed, so the tree
    /// fills in while it is being looked at.
    pub(crate) fn scan_more_keys(&mut self, id: usize)
        ensures
            final(self)@ == keys_asked(old(self)@, id),
    {
        let wanted = match self.session_at(id) {
            Some(session) => session.keyspace.is_some() && !session.keys_complete
                && session.keys.len() < KEY_BROWSER_LIMIT,
            None => false,
        };
        if wanted {
            self.say(Effect::Tell(id, Order::Scan("*".to_owned())));
        }
    }

    /// A connection was deleted. Every session on it is closed, and the tabs
    /// that were on them are on none.
    pub fn delete_connection(&mut self, id: u128)
        requires
            well_formed(old(self)@),
        ensures
            final(self)@ == connection_deleted(old(self)@, id),
            well_formed(final(self)@),
    {
        let lost = match self.session {
            Some(session) => match self.session_at(session) {
                Some(session) => session.config.id == id,
                None => false,
            },
            None => false,
        };
        self.unbind_panes(id);
        self.close_sessions(id);
        let ghost unbound = self@;
        proof {
            lemma_unbound(old(self)@, unbound);
        }
        if lost {
            self.session = None;
            self.tree = Vec::new();
            assert(self@.tree =~= Seq::empty());
            assert(self@ =~= (WindowView { session: None, tree: Seq::empty(), ..unbound }));
            proof {
                lemma_same_frame(self@, unbound);
            }
            self.say(Effect::SetCatalog(None));
        }
        self.say(Effect::Notify);
    }

    /// Take every tab off the sessions of a connection.
    fn unbind_panes(&mut self, id: u128)
        ensures
            final(self)@ == (WindowView {
                panes: Seq::new(
                    old(self)@.panes.len(),
                    |i: int| pane_unbound(old(self)@.panes[i], old(self)@.sessions, id),
                ),
                ..old(self)@
            }),
    {
        let mut at: usize = 0;
        while at < self.panes.len()
            invariant
                at <= self.panes@.len(),
                self.panes@.len() == old(self).panes@.len(),
                self.sessions == old(self).sessions,
                self@ == (WindowView { panes: self@.panes, ..old(self)@ }),
                forall|i: int|
                    0 <= i < self.panes@.len() ==> (#[trigger] self@.panes[i]) == if i < at {
                        pane_unbound(old(self)@.panes[i], old(self)@.sessions, id)
                    } else {
                        old(self)@.panes[i]
                    },
            decreases self.panes@.len() - at,
        {
            let ghost before = self.panes@;
            let ghost was = self@;
            assert(was.panes[at as int] == before[at as int]@);
            let gone = self.sessions_on(id);
            self.panes[at].unbind(&gone);
            assert(self.panes@ =~= before.update(at as int, self.panes@[at as int]));
            assert(self.panes@[at as int]@ =~= pane_unbound(
                before[at as int]@,
                old(self)@.sessions,
                id,
            ));
            assert(self@ =~= (WindowView {
                panes: was.panes.update(at as int, self.panes@[at as int]@),
                ..was
            }));
            at += 1;
        }
        assert(self@.panes =~= Seq::new(
            old(self)@.panes.len(),
            |i: int| pane_unbound(old(self)@.panes[i], old(self)@.sessions, id),
        ));
    }

    /// Which sessions are of a connection, place by place.
    fn sessions_on(&self, id: u128) -> (gone: Vec<bool>)
        ensures
            gone@.len() == self.sessions@.len(),
            forall|i: int|
                0 <= i < gone@.len() ==> (#[trigger] gone@[i]) == on_connection(
                    self@.sessions,
                    i as usize,
                    id,
                ),
    {
        let mut gone: Vec<bool> = Vec::new();
        let mut at: usize = 0;
        while at < self.sessions.len()
            invariant
                at <= self.sessions@.len(),
                gone@.len() == at,
                forall|i: int|
                    0 <= i < at ==> (#[trigger] gone@[i]) == on_connection(
                        self@.sessions,
                        i as usize,
                        id,
                    ),
            decreases self.sessions@.len() - at,
        {
            assert(self@.sessions[at as int] == self.sessions@[at as int]@);
            gone.push(self.sessions[at].open && self.sessions[at].session.config.id == id);
            at += 1;
        }
        gone
    }

    /// Close every session of a connection.
    fn close_sessions(&mut self, id: u128)
        ensures
            final(self)@ == (WindowView {
                sessions: Seq::new(
                    old(self)@.sessions.len(),
                    |i: int| closed_for(old(self)@.sessions[i], id),
                ),
                ..old(self)@
            }),
    {
        let mut at: usize = 0;
        while at < self.sessions.len()
            invariant
                at <= self.sessions@.len(),
                self.sessions@.len() == old(self).sessions@.len(),
                self@ == (WindowView { sessions: self@.sessions, ..old(self)@ }),
                forall|i: int|
                    0 <= i < self.sessions@.len() ==> (#[trigger] self@.sessions[i]) == if i < at {
                        closed_for(old(self)@.sessions[i], id)
                    } else {
                        old(self)@.sessions[i]
                    },
            decreases self.sessions@.len() - at,
        {
            let ghost before = self.sessions@;
            let ghost was = self@;
            assert(was.sessions[at as int] == before[at as int]@);
            if self.sessions[at].session.config.id == id {
                self.sessions[at].open = false;
            }
            assert(self.sessions@ =~= before.update(at as int, self.sessions@[at as int]));
            assert(self@ =~= (WindowView {
                sessions: was.sessions.update(at as int, closed_for(was.sessions[at as int], id)),
                ..was
            }));
            at += 1;
        }
        assert(self@.sessions =~= Seq::new(
            old(self)@.sessions.len(),
            |i: int| closed_for(old(self)@.sessions[i], id),
        ));
    }
}

/// Panes that keep their ids leave the window well formed.
proof fn lemma_unbound(before: WindowView, after: WindowView)
    requires
        well_formed(before),
        before.panes.len() == after.panes.len(),
        forall|i: int| 0 <= i < before.panes.len() ==> (#[trigger] before.panes[i]).id
            == after.panes[i].id,
        before.layout == after.layout,
        before.active_pane == after.active_pane,
        before.next_pane == after.next_pane,
    ensures
        well_formed(after),
{
    reveal(well_formed);
    lemma_same_ids(before.panes, after.panes, before.active_pane);
    assert forall|i: int, j: int| 0 <= i < j < after.panes.len() implies (
    #[trigger] after.panes[i]).id != (#[trigger] after.panes[j]).id by {
        assert(before.panes[i].id != before.panes[j].id);
    }
    assert forall|i: int| 0 <= i < after.panes.len() implies (#[trigger] after.panes[i]).id
        < after.next_pane by {
        assert(before.panes[i].id < before.next_pane);
    }
    assert forall|i: int| 0 <= i < after.layout.len() implies has_pane(
        after.panes,
        #[trigger] after.layout[i],
    ) by {
        assert(has_pane(before.panes, before.layout[i]));
        lemma_same_ids(before.panes, after.panes, before.layout[i]);
    }
}

impl Pane {
    /// Put the showing tab on a session.
    fn put_on(&mut self, session: usize)
        requires
            old(self).active_tab < old(self).tabs@.len(),
        ensures
            final(self)@ == crate::pane::with_showing(
                old(self)@,
                (TabView {
                    session: Some(session),
                    ..old(self)@.tabs[old(self).active_tab as int]
                }),
            ),
    {
        let ghost before = self.tabs@;
        let at = self.active_tab;
        self.tabs[at].session = Some(session);
        assert(self.tabs@ =~= before.update(at as int, self.tabs@[at as int]));
        assert(self@.tabs =~= old(self)@.tabs.update(at as int, self.tabs@[at as int]@));
    }

    /// Take every tab off the sessions that are gone.
    fn unbind(&mut self, gone: &Vec<bool>)
        ensures
            final(self)@ == (PaneView {
                tabs: Seq::new(
                    old(self)@.tabs.len(),
                    |i: int|
                        TabView {
                            session: match old(self)@.tabs[i].session {
                                Some(session) => if session < gone@.len()
                                    && gone@[session as int] {
                                    None
                                } else {
                                    Some(session)
                                },
                                None => None,
                            },
                            ..old(self)@.tabs[i]
                        },
                ),
                ..old(self)@
            }),
    {
        let mut at: usize = 0;
        while at < self.tabs.len()
            invariant
                at <= self.tabs@.len(),
                self.tabs@.len() == old(self).tabs@.len(),
                self@ == (PaneView { tabs: self@.tabs, ..old(self)@ }),
                forall|i: int|
                    0 <= i < self.tabs@.len() ==> (#[trigger] self@.tabs[i]) == if i < at {
                        TabView {
                            session: match old(self)@.tabs[i].session {
                                Some(session) => if session < gone@.len()
                                    && gone@[session as int] {
                                    None
                                } else {
                                    Some(session)
                                },
                                None => None,
                            },
                            ..old(self)@.tabs[i]
                        }
                    } else {
                        old(self)@.tabs[i]
                    },
            decreases self.tabs@.len() - at,
        {
            let ghost before = self.tabs@;
            let ghost was = self@;
            assert(was.tabs[at as int] == before[at as int]@);
            if let Some(session) = self.tabs[at].session {
                if session < gone.len() && gone[session] {
                    self.tabs[at].session = None;
                }
            }
            assert(self.tabs@ =~= before.update(at as int, self.tabs@[at as int]));
            assert(self@ =~= (PaneView {
                tabs: was.tabs.update(at as int, self.tabs@[at as int]@),
                ..was
            }));
            at += 1;
        }
        assert(self@.tabs =~= Seq::new(
            old(self)@.tabs.len(),
            |i: int|
                TabView {
                    session: match old(self)@.tabs[i].session {
                        Some(session) => if session < gone@.len() && gone@[session as int] {
                            None
                        } else {
                            Some(session)
                        },
                        None => None,
                    },
                    ..old(self)@.tabs[i]
                },
        ));
    }
}

/// A connection kept and opened: what is saved is what there is afterwards.
pub open spec fn connection_kept(
    window: WindowView,
    config: ConfigView,
    password: Option<Seq<char>>,
    saved: Option<Seq<ConfigView>>,
) -> WindowView {
    connection_opened(
        match saved {
            Some(saved) => WindowView { connections: saved, ..window },
            None => window,
        },
        config,
        password,
    )
}

/// Whether a held session is the one a row of the tree came out of: a row above
/// the databases came out of any of its connection's.
pub open spec fn is_origin(connection: u128, database: Option<Seq<char>>) -> spec_fn(HeldView) -> bool {
    |held: HeldView|
        held.open && held.session.config.id == connection && match database {
            Some(database) => held.session.config.database == database,
            None => true,
        }
}

/// The window describing the session a row of the tree came out of, where it
/// holds one.
pub open spec fn origin_focused(
    window: WindowView,
    connection: u128,
    database: Option<Seq<char>>,
) -> WindowView {
    let at = first(window.sessions, is_origin(connection, database));
    if at < window.sessions.len() {
        describing(window, Some(at as usize))
    } else {
        window
    }
}

impl Workspace {
    /// Keep what the connection form collected and open it. `saved` is what is
    /// saved afterwards, where there is anywhere to save it.
    ///
    /// The typed password goes straight to the session. It is nothing where an
    /// edit left the field alone, which is not the same as one that is empty.
    pub fn save_connection(
        &mut self,
        config: ConnectionConfig,
        password: Option<String>,
        saved: Option<Vec<ConnectionConfig>>,
    )
        requires
            well_formed(old(self)@),
        ensures
            final(self)@ == connection_kept(
                old(self)@,
                config@,
                maybe(password),
                match saved {
                    Some(saved) => Some(views(saved@)),
                    None => None,
                },
            ),
            well_formed(final(self)@),
    {
        if let Some(saved) = saved {
            self.connections = saved;
            assert(self@ =~= (WindowView { connections: views(saved@), ..old(self)@ }));
        }
        proof {
            lemma_same_frame(self@, old(self)@);
        }
        self.open_connection_with(config, password);
    }

    /// Describe the session a row of the tree came out of, before anything is
    /// opened on it: the tab about to be made binds to whatever the window is
    /// describing.
    pub fn focus_origin(&mut self, connection: u128, database: &Option<String>)
        requires
            well_formed(old(self)@),
        ensures
            final(self)@ == origin_focused(old(self)@, connection, maybe(*database)),
            well_formed(final(self)@),
    {
        let ghost meant = is_origin(connection, maybe(*database));
        let ghost all = self@.sessions;
        let mut at: usize = 0;
        while at < self.sessions.len()
            invariant
                at <= self.sessions@.len(),
                self@ == old(self)@,
                all == self@.sessions,
                well_formed(self@),
                meant == is_origin(connection, maybe(*database)),
                forall|i: int| 0 <= i < at ==> !meant(#[trigger] all[i]),
            decreases self.sessions@.len() - at,
        {
            let held = &self.sessions[at];
            assert(all[at as int] == held@);
            let theirs = match database {
                Some(database) => same(held.session.config.database.as_str(), database.as_str()),
                None => true,
            };
            if held.open && held.session.config.id == connection && theirs {
                proof {
                    lemma_first(all, meant, at as int);
                }
                self.adopt_session(Some(at));
                return ;
            }
            at += 1;
        }
        proof {
            lemma_first(all, meant, at as int);
        }
    }
}

} // verus!
