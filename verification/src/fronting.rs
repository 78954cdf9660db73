//! Bringing a tab to the front, and putting the window on its connection.
use crate::catalog::{ConfigView, ConnectionConfig, KeyType, RelationRef};
use crate::folding::{closed_from, initially_collapsed};
use crate::lists::group_views;
use crate::pane::{cleared, fronted, stashed, tab_bound, CenterKind};
use crate::session::{fresh, same_bytes, Session};
use crate::showing::{
    all_typed_back, brought_up, connection_place, describing, group_showing, key_reloaded, page_set,
    page_taken, relation_reloaded, results_cleared, serves, session_place, session_saved, shown,
    tab_adopted, tab_connected, tree_of, tree_rebuilt, typed_back, with_session,
};
use crate::text::{maybe, same};
use crate::tree::{entries, from_keyspace, from_snapshot};
use crate::window::{
    active_pane, described, group_window, lemma_same_frame, well_formed, with_active, Effect, Held,
    HeldView, Order, PendingView, WindowView, Workspace,
};
use vstd::prelude::*;

verus! {

broadcast use {group_views, group_window, group_showing};

/// A connection's place in the list, in terms of the connection it is.
proof fn lemma_connection_place(connections: Seq<ConfigView>, id: u128, at: int)
    requires
        0 <= at <= connections.len(),
        at < connections.len() ==> connections[at].id == id,
        forall|i: int| 0 <= i < at ==> (#[trigger] connections[i]).id != id,
    ensures
        connection_place(connections, id) == at,
    decreases connections.len(),
{
    if at > 0 {
        let rest = connections.drop_first();
        assert forall|i: int| 0 <= i < at - 1 implies (#[trigger] rest[i]).id != id by {
            assert(rest[i] == connections[i + 1]);
        }
        assert(connections[0].id != id);
        lemma_connection_place(rest, id, at - 1);
    }
}

/// A session's place in the list, in terms of the database it serves.
proof fn lemma_session_place(sessions: Seq<HeldView>, config: ConfigView, at: int)
    requires
        0 <= at <= sessions.len(),
        at < sessions.len() ==> serves(sessions[at], config),
        forall|i: int| 0 <= i < at ==> !serves(#[trigger] sessions[i], config),
    ensures
        session_place(sessions, config) == at,
    decreases sessions.len(),
{
    if at > 0 {
        let rest = sessions.drop_first();
        assert forall|i: int| 0 <= i < at - 1 implies !serves(#[trigger] rest[i], config) by {
            assert(rest[i] == sessions[i + 1]);
        }
        assert(!serves(sessions[0], config));
        lemma_session_place(rest, config, at - 1);
    }
}

impl Workspace {
    /// Empty the pane's grid and everything that describes what was in it.
    ///
    /// For the tabs that have no rows to show and are not going to get any:
    /// the grid is per pane, so leaving it alone means showing one tab's
    /// answer under another tab's name.
    pub(crate) fn clear_results(&mut self)
        requires
            well_formed(old(self)@),
        ensures
            final(self)@ == results_cleared(old(self)@),
    {
        reveal(results_cleared);
        let at = self.active_at();
        let ghost before = self.panes@;
        self.panes[at].clear();
        assert(self.panes@ =~= before.update(at as int, self.panes@[at as int]));
        assert(self@ =~= with_active(old(self)@, cleared(active_pane(old(self)@))));
        self.say(Effect::SetGrid(self.active_pane, None));
        self.say(Effect::RefreshEditability(self.active_pane));
        self.say(Effect::Notify);
    }

    /// Put the showing tab on a page.
    pub(crate) fn set_page(&mut self, page: usize)
        requires
            well_formed(old(self)@),
        ensures
            final(self)@ == page_set(old(self)@, page),
    {
        let at = self.active_at();
        let ghost before = self.panes@;
        self.panes[at].turn_to(page);
        assert(self.panes@ =~= before.update(at as int, self.panes@[at as int]));
        assert(self@ =~= page_set(old(self)@, page));
    }

    /// Put what is typed back into the tab that owns it.
    pub(crate) fn stash_editor(&mut self)
        requires
            well_formed(old(self)@),
        ensures
            final(self)@ == typed_back(old(self)@),
    {
        let at = self.active_at();
        let ghost before = self.panes@;
        self.panes[at].stash();
        assert(self.panes@ =~= before.update(at as int, self.panes@[at as int]));
        assert(self@ =~= typed_back(old(self)@));
    }

    /// Ask the server for a browsed table again, applying whatever filter the
    /// tab has. Used by the filter, the refresh button, and by opening the
    /// table in the first place.
    pub(crate) fn reload_relation(&mut self, relation: RelationRef)
        requires
            well_formed(old(self)@),
        ensures
            final(self)@ == relation_reloaded(old(self)@, relation.parts()),
    {
        reveal(page_taken);
        reveal(relation_reloaded);
        if self.session.is_none() {
            return ;
        }
        // A tab can outlive the connection it was opened against. Asking
        // anyway earns an error that reads as something having just gone
        // wrong, and the catalog already knows better. Only when there is a
        // catalog: before the first read, not knowing is not the same as no.
        if self.lacks(&relation) {
            self.clear_results();
            return ;
        }
        if let Some(page) = self.pending.page {
            self.pending.page = None;
            assert(self@ =~= (WindowView {
                pending: PendingView { page: None, ..old(self)@.pending },
                ..old(self)@
            }));
            proof {
                lemma_same_frame(self@, old(self)@);
            }
            self.set_page(page);
        }
        self.stash_editor();
        self.say(Effect::Browse(relation));
    }

    /// Ask for a key's contents again, on opening its tab and on coming back
    /// to it. There is no statement, so there is nothing to log and nothing to
    /// time.
    pub(crate) fn reload_key(&mut self, key: Vec<u8>, kind: KeyType)
        ensures
            final(self)@ == key_reloaded(old(self)@, key@, kind),
    {
        reveal(key_reloaded);
        if let Some(session) = self.session {
            self.running_pane = Some(self.active_pane);
            assert(self@ =~= (WindowView {
                running_pane: Some(old(self)@.active_pane),
                ..old(self)@
            }));
            self.say(Effect::Tell(session, Order::OpenKey(key, kind)));
        }
    }

    /// Draw the sidebar's tree from whatever the window's session is holding.
    ///
    /// There are two kinds of catalog, a schema and a keyspace, and this is
    /// the only place that knows it.
    pub(crate) fn rebuild_tree(&mut self)
        ensures
            final(self)@ == tree_rebuilt(old(self)@),
    {
        reveal(tree_of);
        let tree = match self.described() {
            None => Vec::new(),
            Some(session) => match (&session.snapshot, &session.keyspace) {
                (Some(snapshot), _) => from_snapshot(
                    session.config.display_name.as_str(),
                    snapshot,
                    match &session.roles {
                        Some(roles) => Some(roles),
                        None => None,
                    },
                    session.config.capabilities,
                ),
                (None, Some(keyspace)) => from_keyspace(
                    session.config.display_name.as_str(),
                    session.server_version().as_str(),
                    keyspace,
                    session.keys.as_slice(),
                    session.keys_complete,
                ),
                (None, None) => Vec::new(),
            },
        };
        assert(entries(tree@) =~= tree_of(described(self@)));
        self.tree = tree;
        assert(self@ =~= tree_rebuilt(old(self)@));
    }

    /// Make a connection the one the window is describing: the tree, the
    /// completions, the titlebar, the status bar.
    ///
    /// The tree is rebuilt from the catalog the session already has, so coming
    /// back to a tab that has been open for an hour costs a repaint, and a tab
    /// still connecting shows what it has, which is nothing yet.
    pub(crate) fn adopt_session(&mut self, session: Option<usize>)
        ensures
            final(self)@ == describing(old(self)@, session),
    {
        reveal(describing);
        let same = match (self.session, session) {
            (Some(open), Some(next)) => open == next,
            (None, None) => true,
            _ => false,
        };
        if same {
            return ;
        }
        self.session = session;
        self.rebuild_tree();
        self.collapsed = initially_collapsed(self.tree.as_slice());
        self.selected_node = None;
        proof {
            let rebuilt = tree_rebuilt(WindowView { session, ..old(self)@ });
            assert(self@ =~= (WindowView {
                collapsed: closed_from(rebuilt.tree, 0),
                selected_node: None,
                ..rebuilt
            }));
        }
        self.say(Effect::SetCatalog(session));
        self.say(Effect::Notify);
    }

    /// The window's session for one database, connecting it if this is the
    /// first tab to ask.
    ///
    /// Two tabs on the same database share one connection: they are the same
    /// conversation with the same server, and opening a second one would only
    /// mean two catalogs that can disagree. Two tabs on different databases
    /// get one each.
    pub(crate) fn session_for(&mut self, config: ConnectionConfig, password: Option<String>) -> (id:
        usize)
        ensures
            final(self)@ == with_session(old(self)@, config@, maybe(password)),
            id == session_place(old(self)@.sessions, config@),
            final(self).panes == old(self).panes,
    {
        reveal(with_session);
        let mut at: usize = 0;
        while at < self.sessions.len() && !(self.sessions[at].open
            && self.sessions[at].session.config.id == config.id && same(
            self.sessions[at].session.config.database.as_str(),
            config.database.as_str(),
        ))
            invariant
                at <= self.sessions@.len(),
                forall|i: int| 0 <= i < at ==> !serves(#[trigger] self@.sessions[i], config@),
            decreases self.sessions@.len() - at,
        {
            assert(self@.sessions[at as int] == self.sessions@[at as int]@);
            at += 1;
        }
        proof {
            if at < self.sessions@.len() {
                assert(self@.sessions[at as int] == self.sessions@[at as int]@);
            }
            lemma_session_place(self@.sessions, config@, at as int);
        }
        if at == self.sessions.len() {
            let ghost opened = HeldView { open: true, session: fresh(config@, maybe(password)) };
            let session = Session::with_password(config, password);
            self.sessions.push(Held { open: true, session });
            assert(self@ =~= (WindowView {
                sessions: old(self)@.sessions.push(opened),
                ..old(self)@
            }));
            self.say(Effect::Tell(at, Order::Connect));
        }
        at
    }

    /// Where a connection is in the list, and the length of the list where it
    /// is not.
    pub(crate) fn find_connection(&self, id: u128) -> (which: usize)
        ensures
            which == connection_place(self@.connections, id),
            which <= self.connections@.len(),
    {
        let mut which: usize = 0;
        while which < self.connections.len() && self.connections[which].id != id
            invariant
                which <= self.connections@.len(),
                forall|i: int| 0 <= i < which ==> (#[trigger] self@.connections[i]).id != id,
            decreases self.connections@.len() - which,
        {
            assert(self@.connections[which as int] == self.connections@[which as int]@);
            which += 1;
        }
        proof {
            if which < self.connections@.len() {
                assert(self@.connections[which as int] == self.connections@[which as int]@);
            }
            lemma_connection_place(self@.connections, id, which as int);
        }
        which
    }

    /// Put a tab on the session of a database, and the window with it.
    fn reconnect_tab(&mut self, index: usize, config: ConnectionConfig)
        requires
            well_formed(old(self)@),
        ensures
            final(self)@ == tab_connected(old(self)@, index as int, config@),
    {
        reveal(tab_connected);
        let session = self.session_for(config, None);
        let ghost opened = self@;
        let at = self.active_at();
        let ghost before = self.panes@;
        self.panes[at].bind_tab(index, Some(session));
        assert(self.panes@ =~= before.update(at as int, self.panes@[at as int]));
        assert(self@ =~= with_active(
            opened,
            tab_bound(active_pane(opened), index as int, Some(session)),
        ));
        self.adopt_session(Some(session));
    }

    /// Make the tab at `index` in the active pane the one the window is
    /// describing, opening its connection if this is the first time it has
    /// been looked at since launch.
    pub(crate) fn adopt_tab(&mut self, index: usize)
        requires
            well_formed(old(self)@),
        ensures
            final(self)@ == tab_adopted(old(self)@, index as int),
    {
        reveal(tab_adopted);
        let at = self.active_at();
        let ghost before = self.panes@;
        if index >= self.panes[at].tabs.len() {
            return ;
        }
        let ghost tab = active_pane(self@).tabs[index as int];
        assert(tab == self.panes@[at as int].tabs@[index as int]@);
        if let Some(session) = self.panes[at].tabs[index].session {
            self.adopt_session(Some(session));
            return ;
        }
        let place: Option<(u128, String)> = match &self.panes[at].tabs[index].reconnect {
            Some(place) => Some((place.0, place.1.clone())),
            None => None,
        };
        if let Some((id, database)) = place {
            let which = self.find_connection(id);
            // Restored and shown for the first time: this is the moment its
            // connection is worth opening.
            if which < self.connections.len() {
                let config = ConnectionConfig { database, ..self.connections[which].clone() };
                assert(config@ =~= (ConfigView {
                    database: database@,
                    ..old(self)@.connections[which as int]
                }));
                self.reconnect_tab(index, config);
                return ;
            }
        }
        // Made before anything was connected, or the connection was deleted
        // while the tab was away: it joins the window wherever it is.
        let current = self.session;
        self.panes[at].bind_tab(index, current);
        assert(self.panes@ =~= before.update(at as int, self.panes@[at as int]));
        assert(self@ =~= tab_adopted(old(self)@, index as int));
    }

    /// Swap the console over to a tab, and the window over to its connection.
    fn bring_up(&mut self, index: usize)
        requires
            well_formed(old(self)@),
            index < active_pane(old(self)@).tabs.len(),
        ensures
            final(self)@ == brought_up(old(self)@, index as int),
    {
        reveal(brought_up);
        self.stash_editor();
        self.say(Effect::ClearMark(self.active_pane));
        let at = self.active_at();
        let ghost before = self.panes@;
        let ghost unmarked = self@;
        assert(active_pane(unmarked) == stashed(active_pane(old(self)@)));
        assert(self.panes@[at as int].tabs@.len() == active_pane(unmarked).tabs.len());
        self.panes[at].front(index);
        assert(self.panes@ =~= before.update(at as int, self.panes@[at as int]));
        assert(self@ =~= with_active(unmarked, fronted(active_pane(unmarked), index as int)));
        self.say(Effect::RevealTab(self.active_pane, index));
        self.adopt_tab(index);
        self.say(Effect::SetConsole(self.active_pane));
        self.say(Effect::SetClause(self.active_pane));
    }

    /// Swap the console over to a tab. Every path that changes which tab is
    /// active goes through here, including the ones that just pushed the tab
    /// they are about to show, because the text in the console belongs to the
    /// tab that is leaving, and there is exactly one moment to take it.
    pub(crate) fn show_tab(&mut self, index: usize)
        requires
            well_formed(old(self)@),
            index < active_pane(old(self)@).tabs.len(),
        ensures
            final(self)@ == shown(old(self)@, index as int),
    {
        reveal(shown);
        self.bring_up(index);
        let at = self.active_at();
        let ghost tab = active_pane(self@).tabs[index as int];
        assert(tab == self.panes@[at as int].tabs@[index as int]@);
        let kind = self.panes[at].tabs[index].kind;
        if kind == CenterKind::Table {
            if let Some(relation) = &self.panes[at].tabs[index].relation {
                let relation = relation.clone();
                self.reload_relation(relation);
                return ;
            }
        }
        if kind == CenterKind::Key {
            if let Some(key) = &self.panes[at].tabs[index].key {
                let (bytes, kind) = (same_bytes(&key.0), key.1.clone());
                self.reload_key(bytes, kind);
                return ;
            }
        }
        self.clear_results();
    }

    /// Put what is typed back into its tab, in every pane. Quitting is about
    /// the whole window, and the half of a split nobody was typing in has just
    /// as much unsaved text in it as the other half.
    fn stash_editors(&mut self)
        ensures
            final(self)@ == (WindowView {
                panes: all_typed_back(old(self)@.panes),
                ..old(self)@
            }),
    {
        let mut at: usize = 0;
        while at < self.panes.len()
            invariant
                at <= self.panes@.len(),
                self.panes@.len() == old(self).panes@.len(),
                self@ == (WindowView { panes: self@.panes, ..old(self)@ }),
                forall|i: int|
                    0 <= i < self.panes@.len() ==> (#[trigger] self@.panes[i]) == if i < at {
                        stashed(old(self)@.panes[i])
                    } else {
                        old(self)@.panes[i]
                    },
            decreases self.panes@.len() - at,
        {
            let ghost before = self.panes@;
            let ghost was = self@;
            assert(was.panes[at as int] == before[at as int]@);
            self.panes[at].stash();
            assert(self.panes@ =~= before.update(at as int, self.panes@[at as int]));
            assert(self@ =~= (WindowView {
                panes: was.panes.update(at as int, stashed(was.panes[at as int])),
                ..was
            }));
            at += 1;
        }
        assert(self@.panes =~= all_typed_back(old(self)@.panes));
    }

    /// Write down what the window is showing, so a restart can put it back.
    ///
    /// Called whenever the tab list changes rather than on a timer: the only
    /// text that is not already in a tab is what is typed, and stashing it
    /// first is what makes this a complete picture. Turning the restore off
    /// means the window forgets, not that it keeps a record it has promised
    /// not to read. What is written is `session_record`.
    pub fn save_session(&mut self)
        ensures
            final(self)@ == session_saved(old(self)@),
    {
        reveal(session_saved);
        if !self.settings.restore_session() {
            return ;
        }
        self.stash_editors();
        self.say(Effect::SaveSession);
    }
}

} // verus!
