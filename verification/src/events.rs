//! What the window does when a session has something to tell.
use crate::absorbing::{apply_absorbed, key_absorbed, run_absorbed};
use crate::browsing::{key_opened, relation_opened, tab_seeded};
use crate::catalog::{catalog_has, KeyInfo, KeyType, RelationRef, SchemaSnapshot};
use crate::connecting::{database_switched, keys_asked};
use crate::folding::{closed_from, initially_collapsed};
use crate::lists::{first, group_views, lemma_first};
use crate::pane::CenterKind;
use crate::session::{same_bytes, SessionEvent};
use crate::showing::{group_showing, relation_reloaded, session_saved, shown, tree_rebuilt};
use crate::window::{
    active_pane, browsed_table, catalog, described, group_window, lemma_same_frame, name, names,
    session_of, then_do, well_formed, Act, Effect, Focus, PendingView, WindowView, Workspace,
};
use vstd::prelude::*;

verus! {

broadcast use {group_views, group_window, group_showing};

/// Every grid asked again whether its rows can be written back.
#[verifier::opaque]
pub open spec fn editability_asked(window: WindowView) -> WindowView {
    WindowView {
        outbox: window.outbox + Seq::new(
            window.panes.len(),
            |i: int| Act::RefreshEditability(window.panes[i].id),
        ),
        ..window
    }
}

/// The tabs of an object taken along when it is renamed, or let go of when it
/// is dropped. Whether a grid can be written back is a fact about the table its
/// rows came from, so every grid is asked again.
#[verifier::opaque]
pub open spec fn tabs_retargeted(
    window: WindowView,
    from: (Seq<char>, Seq<char>),
    to: Option<(Seq<char>, Seq<char>)>,
) -> WindowView {
    then_do(
        session_saved(editability_asked(then_do(window, Act::Retarget(from, to)))),
        Act::Notify,
    )
}

/// A new catalog on screen: the tree, what starts closed, and what the consoles
/// complete against.
#[verifier::opaque]
pub open spec fn catalog_shown(window: WindowView, id: usize) -> WindowView {
    let rebuilt = tree_rebuilt(window);
    then_do(
        WindowView {
            collapsed: closed_from(rebuilt.tree, 0),
            selected_node: None,
            ..rebuilt
        },
        Act::SetCatalog(Some(id)),
    )
}

/// A table that was waiting for another catalog, asked for.
#[verifier::opaque]
pub open spec fn rebrowsed(window: WindowView) -> WindowView {
    match window.pending.rebrowse {
        Some(relation) => relation_reloaded(
            WindowView { pending: PendingView { rebrowse: None, ..window.pending }, ..window },
            relation,
        ),
        None => window,
    }
}

/// Whether the catalog of a session has a relation.
pub open spec fn knows_table(
    snapshot: Option<SchemaSnapshot>,
    relation: (Seq<char>, Seq<char>),
) -> bool {
    match snapshot {
        Some(snapshot) => catalog_has(snapshot, relation),
        None => false,
    }
}

/// The relations of a list that a catalog has, or the ones it has not.
pub open spec fn sifted(
    list: Seq<(Seq<char>, Seq<char>)>,
    snapshot: Option<SchemaSnapshot>,
    known: bool,
) -> Seq<(Seq<char>, Seq<char>)>
    decreases list.len(),
{
    if list.len() == 0 {
        Seq::empty()
    } else {
        let before = sifted(list.drop_last(), snapshot, known);
        if knows_table(snapshot, list.last()) == known {
            before.push(list.last())
        } else {
            before
        }
    }
}

/// A tab with nothing behind it for each of some relations.
pub open spec fn seeded_all(
    window: WindowView,
    list: Seq<(Seq<char>, Seq<char>)>,
) -> WindowView
    decreases list.len(),
{
    if list.len() == 0 {
        window
    } else {
        tab_seeded(seeded_all(window, list.drop_last()), list.last())
    }
}

/// The tables a launch named, opened: each gets a tab, and the last one the
/// catalog has is browsed. Where it has none of them the last tab is in front,
/// with the notice that says so.
#[verifier::opaque]
pub open spec fn launch_opened(window: WindowView) -> WindowView {
    let snapshot = catalog(window);
    let open = window.pending.open;
    let known = sifted(open, snapshot, true);
    let unknown = sifted(open, snapshot, false);
    let taken = WindowView {
        pending: PendingView { open: Seq::empty(), ..window.pending },
        ..window
    };
    let seeded = seeded_all(taken, unknown);
    if known.len() > 0 {
        relation_opened(seeded_all(seeded, known.drop_last()), known.last(), None)
    } else if unknown.len() > 0 {
        shown(seeded, active_pane(seeded).tabs.len() - 1)
    } else {
        seeded
    }
}

/// The menu or the sheet a launch asked for, opened.
#[verifier::opaque]
pub open spec fn demo_shown(window: WindowView) -> WindowView {
    match window.pending.demo {
        Some(demo) => then_do(
            WindowView { pending: PendingView { demo: None, ..window.pending }, ..window },
            match demo.1 {
                Some(op) => Act::ObjectSheet(demo.0, op),
                None => Act::ObjectMenu(demo.0),
            },
        ),
        None => window,
    }
}

/// What a launch asked to be typed and opened with every catalog.
#[verifier::opaque]
pub open spec fn prompts_shown(window: WindowView) -> WindowView {
    let typed = match window.pending.complete {
        Some(text) => then_do(
            then_do(window, Act::Focus(Focus::Console)),
            Act::Complete(text),
        ),
        None => window,
    };
    if window.pending.switcher {
        then_do(typed, Act::DatabaseMenu)
    } else {
        typed
    }
}

/// The database a launch asked to move to, moved to. What it asked to open
/// after that waits for the catalog the move produces.
#[verifier::opaque]
pub open spec fn launch_switched(window: WindowView) -> WindowView {
    match window.pending.switch {
        Some(database) => database_switched(
            WindowView { pending: PendingView { switch: None, ..window.pending }, ..window },
            database,
        ),
        None => match window.pending.after {
            Some(relation) => relation_opened(
                WindowView { pending: PendingView { after: None, ..window.pending }, ..window },
                relation,
                None,
            ),
            None => window,
        },
    }
}

/// Restored design tabs made editors, and the design a launch asked for shown.
#[verifier::opaque]
pub open spec fn designs_shown(window: WindowView) -> WindowView {
    design_demonstrated(
        if catalog(window) is Some {
            then_do(then_do(window, Act::HydrateStructure), Act::Notify)
        } else {
            window
        },
    )
}

/// The design a launch asked for shown.
#[verifier::opaque]
pub open spec fn design_demonstrated(window: WindowView) -> WindowView {
    match window.pending.design {
        Some(design) => then_do(
            WindowView { pending: PendingView { design: None, ..window.pending }, ..window },
            Act::DemoStructure(design.0, design.1),
        ),
        None => window,
    }
}

/// A structure save taken up: the editor shows the table as the catalog has
/// it, and a renamed table takes its other tabs with it.
#[verifier::opaque]
pub open spec fn structure_adopted(window: WindowView) -> WindowView {
    match window.pending_structure {
        None => window,
        Some(pending) => {
            let taken = WindowView { pending_structure: None, ..window };
            if !knows_table(catalog(window), pending.to) {
                taken
            } else {
                let shown = then_do(taken, Act::AdoptStructure(pending.editor, pending.to));
                let moved = match pending.from {
                    Some(from) => if from != pending.to {
                        tabs_retargeted(shown, from, Some(pending.to))
                    } else {
                        shown
                    },
                    None => shown,
                };
                then_do(moved, Act::SyncStructure(pending.editor))
            }
        },
    }
}

/// A table tab that has a name and no rows, asked for.
#[verifier::opaque]
pub open spec fn restored_browsed(window: WindowView) -> WindowView {
    match browsed_table(window) {
        Some(relation) => if active_pane(window).results.len() == 0 {
            relation_reloaded(window, relation)
        } else {
            window
        },
        None => window,
    }
}

/// A catalog arrived. One for a tab nobody is looking at is kept on its own
/// session; the window describes exactly one connection at a time.
pub open spec fn schema_changed(window: WindowView, id: usize) -> WindowView {
    if window.session != Some(id) {
        then_do(window, Act::Notify)
    } else {
        let shown = rebrowsed(keys_asked(catalog_shown(window, id), id));
        let launched = launch_switched(prompts_shown(demo_shown(launch_opened(shown))));
        let designed = structure_adopted(designs_shown(launched));
        then_do(restored_browsed(editability_asked(designed)), Act::Notify)
    }
}

/// Whether a key is the one a launch named.
pub open spec fn is_key(key: Seq<u8>) -> spec_fn(KeyInfo) -> bool {
    |info: KeyInfo| info.key@ == key
}

/// The key a launch named, opened once the walk has turned it up. A walk that
/// ends without it ends the waiting. `wanted` is its name in bytes, and a key's
/// title and detail are how it is drawn and what kind it is.
#[verifier::opaque]
pub open spec fn waiting_key_opened(
    window: WindowView,
    id: usize,
    wanted: Seq<u8>,
    title: Seq<char>,
    detail: Seq<char>,
) -> WindowView {
    match (window.pending.key, session_of(window.sessions, id)) {
        (Some(_), Some(session)) => {
            let settled = WindowView {
                pending: PendingView { key: None, ..window.pending },
                ..window
            };
            let at = first(session.keys, is_key(wanted));
            if at < session.keys.len() {
                key_opened(settled, wanted, session.keys[at].kind, title, detail)
            } else if session.keys_complete {
                settled
            } else {
                window
            }
        },
        _ => window,
    }
}

/// A page of a keyspace arrived. Only the tree is redrawn, so that what is
/// open stays open while the walk goes on.
pub open spec fn keys_changed(
    window: WindowView,
    id: usize,
    wanted: Seq<u8>,
    title: Seq<char>,
    detail: Seq<char>,
) -> WindowView {
    let drawn = if window.session == Some(id) {
        then_do(tree_rebuilt(window), Act::Notify)
    } else {
        window
    };
    waiting_key_opened(keys_asked(drawn, id), id, wanted, title, detail)
}

/// Privileges arrived. What the connected role may do is one of the reasons a
/// grid is read-only.
pub open spec fn privileges_changed(window: WindowView, id: usize) -> WindowView {
    then_do(
        if window.session == Some(id) {
            editability_asked(window)
        } else {
            window
        },
        Act::Notify,
    )
}

/// The name, the title and the detail of the key a launch named.
pub struct WantedKey {
    pub bytes: Vec<u8>,
    pub title: String,
    pub detail: String,
}

/// What the window does about an event of one of its sessions.
pub open spec fn after_event(
    window: WindowView,
    id: usize,
    event: SessionEvent,
    wanted: WantedKey,
    now: i64,
) -> WindowView {
    match event {
        SessionEvent::StateChanged => then_do(window, Act::Notify),
        SessionEvent::PrivilegesChanged => privileges_changed(window, id),
        SessionEvent::SchemaChanged => schema_changed(window, id),
        SessionEvent::Finished => run_absorbed(window, id, now),
        SessionEvent::Applied => apply_absorbed(window, id, now),
        SessionEvent::KeysChanged => keys_changed(
            window,
            id,
            wanted.bytes@,
            wanted.title@,
            wanted.detail@,
        ),
        SessionEvent::KeyOpened => key_absorbed(window, id),
    }
}

/// Seeding tabs leaves the window well formed, and at least one tab in it.
proof fn lemma_seeded_all(window: WindowView, list: Seq<(Seq<char>, Seq<char>)>)
    requires
        well_formed(window),
    ensures
        well_formed(seeded_all(window, list)),
        list.len() > 0 ==> active_pane(seeded_all(window, list)).tabs.len() > 0,
        seeded_all(window, list).pending == window.pending,
    decreases list.len(),
{
    if list.len() > 0 {
        lemma_seeded_all(window, list.drop_last());
    }
}

impl Workspace {
    /// Ask of every grid again whether its rows can be written back.
    pub(crate) fn ask_editability(&mut self)
        requires
            well_formed(old(self)@),
        ensures
            final(self)@ == editability_asked(old(self)@),
            well_formed(final(self)@),
    {
        reveal(editability_asked);
        let ghost panes = self@.panes;
        let mut at: usize = 0;
        while at < self.panes.len()
            invariant
                at <= self.panes@.len(),
                panes == old(self)@.panes,
                self.panes == old(self).panes,
                self@ == (WindowView {
                    outbox: old(self)@.outbox + Seq::new(
                        at as nat,
                        |i: int| Act::RefreshEditability(panes[i].id),
                    ),
                    ..old(self)@
                }),
            decreases self.panes@.len() - at,
        {
            let ghost was = self@.outbox;
            assert(panes[at as int] == self.panes@[at as int]@);
            let id = self.panes[at].id;
            self.say(Effect::RefreshEditability(id));
            assert(self@.outbox =~= old(self)@.outbox + Seq::new(
                (at + 1) as nat,
                |i: int| Act::RefreshEditability(panes[i].id),
            ));
            at += 1;
        }
        assert(self@ =~= editability_asked(old(self)@));
        proof {
            lemma_same_frame(self@, old(self)@);
        }
    }

    /// Put a new catalog on screen.
    fn show_catalog(&mut self, id: usize)
        requires
            well_formed(old(self)@),
        ensures
            final(self)@ == catalog_shown(old(self)@, id),
            well_formed(final(self)@),
    {
        reveal(catalog_shown);
        self.rebuild_tree();
        self.collapsed = initially_collapsed(self.tree.as_slice());
        self.selected_node = None;
        proof {
            let rebuilt = tree_rebuilt(old(self)@);
            assert(self@ =~= (WindowView {
                collapsed: closed_from(rebuilt.tree, 0),
                selected_node: None,
                ..rebuilt
            }));
            lemma_same_frame(self@, old(self)@);
        }
        self.say(Effect::SetCatalog(Some(id)));
    }

    /// Ask for the table that was waiting for another catalog.
    fn rebrowse(&mut self)
        requires
            well_formed(old(self)@),
        ensures
            final(self)@ == rebrowsed(old(self)@),
            well_formed(final(self)@),
    {
        reveal(rebrowsed);
        if let Some(relation) = self.pending.rebrowse.take() {
            assert(self@ =~= (WindowView {
                pending: PendingView { rebrowse: None, ..old(self)@.pending },
                ..old(self)@
            }));
            proof {
                lemma_same_frame(self@, old(self)@);
            }
            self.reload_relation(relation);
        } else {
            assert(self@ =~= old(self)@);
        }
    }

    /// Whether the window's catalog has a relation.
    pub(crate) fn knows(&self, relation: &RelationRef) -> (answer: bool)
        ensures
            answer == knows_table(catalog(self@), relation.parts()),
    {
        match self.described() {
            Some(session) => match &session.snapshot {
                Some(snapshot) => snapshot.has(relation),
                None => false,
            },
            None => false,
        }
    }

    /// The relations of a list that the catalog has, or the ones it has not.
    fn sift(&self, list: &Vec<RelationRef>, known: bool) -> (kept: Vec<RelationRef>)
        ensures
            names(kept@) == sifted(names(list@), catalog(self@), known),
    {
        let ghost all = names(list@);
        let mut kept: Vec<RelationRef> = Vec::new();
        let mut at: usize = 0;
        assert(names(kept@) =~= sifted(all.take(0), catalog(self@), known));
        while at < list.len()
            invariant
                at <= list@.len(),
                all == names(list@),
                names(kept@) == sifted(all.take(at as int), catalog(self@), known),
            decreases list@.len() - at,
        {
            let ghost had = names(kept@);
            assert(all.take(at + 1).drop_last() =~= all.take(at as int));
            if self.knows(&list[at]) == known {
                kept.push(list[at].clone());
                assert(names(kept@) =~= had.push(list@[at as int].parts()));
            }
            at += 1;
        }
        assert(all.take(at as int) =~= all);
        kept
    }

    /// Make a tab with nothing behind it for each of some relations, up to a
    /// place in the list.
    fn seed_tabs(&mut self, list: &Vec<RelationRef>, upto: usize)
        requires
            well_formed(old(self)@),
            upto <= list@.len(),
        ensures
            final(self)@ == seeded_all(old(self)@, names(list@).take(upto as int)),
            well_formed(final(self)@),
    {
        let ghost all = names(list@);
        let mut at: usize = 0;
        while at < upto
            invariant
                at <= upto <= list@.len(),
                all == names(list@),
                well_formed(self@),
                self@ == seeded_all(old(self)@, all.take(at as int)),
            decreases upto - at,
        {
            assert(all.take(at + 1).drop_last() =~= all.take(at as int));
            self.seed_tab(&list[at]);
            at += 1;
        }
    }

    /// Open the tables a launch named.
    fn open_launched(&mut self)
        requires
            well_formed(old(self)@),
        ensures
            final(self)@ == launch_opened(old(self)@),
            well_formed(final(self)@),
    {
        reveal(launch_opened);
        let known = self.sift(&self.pending.open, true);
        let unknown = self.sift(&self.pending.open, false);
        self.pending.open = Vec::new();
        assert(self@.pending.open =~= Seq::empty());
        let ghost taken = WindowView {
            pending: PendingView { open: Seq::empty(), ..old(self)@.pending },
            ..old(self)@
        };
        assert(self@ =~= taken);
        proof {
            lemma_same_frame(self@, old(self)@);
            lemma_seeded_all(taken, names(unknown@));
            assert(names(unknown@).take(unknown@.len() as int) =~= names(unknown@));
        }
        self.seed_tabs(&unknown, unknown.len());
        if known.len() > 0 {
            assert(names(known@).take(known@.len() - 1) =~= names(known@).drop_last());
            self.seed_tabs(&known, known.len() - 1);
            self.open_relation(&known[known.len() - 1]);
        } else if unknown.len() > 0 {
            let at = self.active_at();
            assert(self.panes@[at as int].tabs@.len() == active_pane(self@).tabs.len());
            let last: usize = self.panes[at].tabs.len() - 1;
            self.show_tab(last);
        }
    }

    /// Open the menu or the sheet a launch asked for.
    fn show_demo(&mut self)
        requires
            well_formed(old(self)@),
        ensures
            final(self)@ == demo_shown(old(self)@),
            well_formed(final(self)@),
    {
        reveal(demo_shown);
        if let Some((relation, op)) = self.pending.demo.take() {
            assert(self@ =~= (WindowView {
                pending: PendingView { demo: None, ..old(self)@.pending },
                ..old(self)@
            }));
            proof {
                lemma_same_frame(self@, old(self)@);
            }
            match op {
                Some(op) => self.say(Effect::ObjectSheet(relation, op)),
                None => self.say(Effect::ObjectMenu(relation)),
            }
        } else {
            assert(self@ =~= old(self)@);
        }
    }

    /// Type and open what a launch asked for with every catalog.
    fn show_prompts(&mut self)
        requires
            well_formed(old(self)@),
        ensures
            final(self)@ == prompts_shown(old(self)@),
            well_formed(final(self)@),
    {
        reveal(prompts_shown);
        let switcher = self.pending.switcher;
        if let Some(text) = &self.pending.complete {
            let text = text.clone();
            self.say(Effect::Focus(Focus::Console));
            self.say(Effect::Complete(text));
        }
        if switcher {
            self.say(Effect::DatabaseMenu);
        }
    }

    /// Move to the database a launch asked for, or open what it asked for
    /// after that.
    fn switch_launched(&mut self)
        requires
            well_formed(old(self)@),
        ensures
            final(self)@ == launch_switched(old(self)@),
            well_formed(final(self)@),
    {
        reveal(launch_switched);
        if let Some(database) = self.pending.switch.take() {
            assert(self@ =~= (WindowView {
                pending: PendingView { switch: None, ..old(self)@.pending },
                ..old(self)@
            }));
            proof {
                lemma_same_frame(self@, old(self)@);
            }
            self.switch_database(database.as_str());
            return ;
        }
        assert(self@ =~= old(self)@);
        if let Some(relation) = self.pending.after.take() {
            assert(self@ =~= (WindowView {
                pending: PendingView { after: None, ..old(self)@.pending },
                ..old(self)@
            }));
            proof {
                lemma_same_frame(self@, old(self)@);
            }
            self.open_relation(&relation);
        } else {
            assert(self@ =~= old(self)@);
        }
    }

    /// Make the restored design tabs editors, and show the design a launch
    /// asked for.
    fn show_designs(&mut self)
        requires
            well_formed(old(self)@),
        ensures
            final(self)@ == designs_shown(old(self)@),
            well_formed(final(self)@),
    {
        reveal(designs_shown);
        let known = match self.described() {
            Some(session) => session.snapshot.is_some(),
            None => false,
        };
        if known {
            self.say(Effect::HydrateStructure);
            self.say(Effect::Notify);
        }
        self.demonstrate_design();
    }

    /// Show the design a launch asked for.
    fn demonstrate_design(&mut self)
        requires
            well_formed(old(self)@),
        ensures
            final(self)@ == design_demonstrated(old(self)@),
            well_formed(final(self)@),
    {
        reveal(design_demonstrated);
        if let Some((relation, preview)) = self.pending.design.take() {
            assert(self@ =~= (WindowView {
                pending: PendingView { design: None, ..old(self)@.pending },
                ..old(self)@
            }));
            proof {
                lemma_same_frame(self@, old(self)@);
            }
            self.say(Effect::DemoStructure(relation, preview));
        } else {
            assert(self@ =~= old(self)@);
        }
    }

    /// Take the tabs of an object along when it is renamed, or let go of it
    /// when it is dropped.
    pub fn retarget_tabs(&mut self, from: RelationRef, to: Option<RelationRef>)
        requires
            well_formed(old(self)@),
        ensures
            final(self)@ == tabs_retargeted(old(self)@, from.parts(), name(to)),
            well_formed(final(self)@),
    {
        reveal(tabs_retargeted);
        self.say(Effect::Retarget(from, to));
        self.ask_editability();
        self.save_session();
        self.say(Effect::Notify);
    }

    /// Take a saved structure up, now that the catalog has it.
    fn adopt_structure(&mut self)
        requires
            well_formed(old(self)@),
        ensures
            final(self)@ == structure_adopted(old(self)@),
            well_formed(final(self)@),
    {
        reveal(structure_adopted);
        if let Some(pending) = self.pending_structure.take() {
            let ghost taken = WindowView { pending_structure: None, ..old(self)@ };
            assert(self@ =~= taken);
            proof {
                lemma_same_frame(self@, old(self)@);
            }
            if !self.knows(&pending.to) {
                return ;
            }
            self.say(Effect::AdoptStructure(pending.editor, pending.to.clone()));
            if let Some(from) = pending.from {
                if !from.same_as(&pending.to) {
                    self.retarget_tabs(from, Some(pending.to.clone()));
                }
            }
            self.say(Effect::SyncStructure(pending.editor));
        } else {
            assert(self@ =~= old(self)@);
        }
    }

    /// Ask for a table tab that has a name and no rows.
    fn browse_restored(&mut self)
        requires
            well_formed(old(self)@),
        ensures
            final(self)@ == restored_browsed(old(self)@),
            well_formed(final(self)@),
    {
        reveal(restored_browsed);
        let at = self.active_at();
        let relation = match self.panes[at].active() {
            Some(tab) => if tab.kind == CenterKind::Table {
                match &tab.relation {
                    Some(relation) => Some(relation.clone()),
                    None => None,
                }
            } else {
                None
            },
            None => None,
        };
        if let Some(relation) = relation {
            if self.panes[at].results.len() == 0 {
                self.reload_relation(relation);
            }
        }
    }

    /// A catalog arrived for one of the window's sessions.
    fn on_schema(&mut self, id: usize)
        requires
            well_formed(old(self)@),
        ensures
            final(self)@ == schema_changed(old(self)@, id),
            well_formed(final(self)@),
    {
        let mine = match self.session {
            Some(session) => session == id,
            None => false,
        };
        if !mine {
            self.say(Effect::Notify);
            return ;
        }
        self.show_catalog(id);
        // A keyspace's catalog is only its databases: the keys are a walk, and
        // this is where it starts.
        self.scan_more_keys(id);
        self.rebrowse();
        self.open_launched();
        self.show_demo();
        self.show_prompts();
        self.switch_launched();
        self.show_designs();
        self.adopt_structure();
        // A new catalog can be a new answer to whether a grid can be written
        // back.
        self.ask_editability();
        self.browse_restored();
        self.say(Effect::Notify);
    }

    /// Open the key a launch named, once the walk has turned it up.
    fn open_pending_key(&mut self, id: usize, wanted: &WantedKey)
        requires
            well_formed(old(self)@),
        ensures
            final(self)@ == waiting_key_opened(
                old(self)@,
                id,
                wanted.bytes@,
                wanted.title@,
                wanted.detail@,
            ),
            well_formed(final(self)@),
    {
        reveal(waiting_key_opened);
        if self.pending.key.is_none() {
            return ;
        }
        let (kind, complete) = match self.session_at(id) {
            Some(session) => (kind_of(&session.keys, &wanted.bytes), session.keys_complete),
            None => {
                return ;
            },
        };
        if kind.is_none() && !complete {
            return ;
        }
        self.pending.key = None;
        assert(self@ =~= (WindowView {
            pending: PendingView { key: None, ..old(self)@.pending },
            ..old(self)@
        }));
        proof {
            lemma_same_frame(self@, old(self)@);
        }
        if let Some(kind) = kind {
            self.open_key(
                same_bytes(&wanted.bytes),
                kind,
                wanted.title.clone(),
                wanted.detail.clone(),
            );
        }
    }

    /// A page of a keyspace arrived.
    fn on_keys(&mut self, id: usize, wanted: &WantedKey)
        requires
            well_formed(old(self)@),
        ensures
            final(self)@ == keys_changed(
                old(self)@,
                id,
                wanted.bytes@,
                wanted.title@,
                wanted.detail@,
            ),
            well_formed(final(self)@),
    {
        let mine = match self.session {
            Some(session) => session == id,
            None => false,
        };
        if mine {
            self.rebuild_tree();
            proof {
                lemma_same_frame(self@, old(self)@);
            }
            self.say(Effect::Notify);
        }
        self.scan_more_keys(id);
        self.open_pending_key(id, wanted);
    }

    /// Take in what a session has to tell.
    pub fn on_session_event(
        &mut self,
        id: usize,
        event: SessionEvent,
        wanted: &WantedKey,
        now: i64,
    )
        requires
            well_formed(old(self)@),
        ensures
            final(self)@ == after_event(old(self)@, id, event, *wanted, now),
            well_formed(final(self)@),
    {
        match event {
            SessionEvent::StateChanged => self.say(Effect::Notify),
            SessionEvent::PrivilegesChanged => {
                let mine = match self.session {
                    Some(session) => session == id,
                    None => false,
                };
                if mine {
                    self.ask_editability();
                }
                self.say(Effect::Notify);
            },
            SessionEvent::SchemaChanged => self.on_schema(id),
            SessionEvent::Finished => self.absorb_run(id, now),
            SessionEvent::Applied => self.absorb_apply(id, now),
            SessionEvent::KeysChanged => self.on_keys(id, wanted),
            SessionEvent::KeyOpened => self.absorb_key(id),
        }
    }
}

/// What kind a listed key is, by its bytes.
fn kind_of(keys: &Vec<KeyInfo>, wanted: &Vec<u8>) -> (kind: Option<KeyType>)
    ensures
        kind == ({
            let at = first(keys@, is_key(wanted@));
            if at < keys@.len() {
                Some(keys@[at].kind)
            } else {
                None
            }
        }),
{
    let mut at: usize = 0;
    while at < keys.len()
        invariant
            at <= keys@.len(),
            forall|i: int| 0 <= i < at ==> !is_key(wanted@)(#[trigger] keys@[i]),
        decreases keys@.len() - at,
    {
        if crate::browsing::same_key(&keys[at].key, wanted) {
            proof {
                lemma_first(keys@, is_key(wanted@), at as int);
            }
            return Some(keys[at].kind.clone());
        }
        at += 1;
    }
    proof {
        lemma_first(keys@, is_key(wanted@), at as int);
    }
    None
}

} // verus!
