//! Scripts that are kept under a name.
use crate::lists::{first, group_views, lemma_first, views};
use crate::naming::{suggest_name, suggestion};
use crate::pane::{
    script_tab, showing, tab_claimed, with_tab, CenterKind, CenterTab, PaneView, TabView,
};
use crate::showing::{group_showing, session_saved, shown};
use crate::text::{has_ink, is_blank, maybe, same, texts};
use crate::window::{
    active_pane, described, group_window, lemma_same_frame, then_do, well_formed, with_active, Act,
    Effect, Focus, SavedQuery, SavedView, SidebarTab, Surfaces, WindowView, Workspace,
};
use vstd::prelude::*;

verus! {

broadcast use {group_views, group_window, group_showing};

/// Whether a saved query has a name, on a connection or on none.
pub open spec fn goes_by(name: Seq<char>, connection: Option<u128>) -> spec_fn(SavedView) -> bool {
    |query: SavedView| query.name == name && query.connection == connection
}

/// Which row a save lands on: the one that already has this name on this
/// connection, or else the one it would have been.
pub open spec fn save_target(
    saved: Seq<SavedView>,
    name: Seq<char>,
    connection: Option<u128>,
    fallback: u128,
) -> u128 {
    let at = first(saved, goes_by(name, connection));
    if at < saved.len() {
        saved[at].id
    } else {
        fallback
    }
}

/// Which row a save lands on: the one that already has this name on this
/// connection, or `fallback`, which is the tab's own saved query or a fresh id.
///
/// Saving under a name that is already taken replaces the query that has it
/// rather than leaving two rows with the same label. The same name under a
/// different connection is a different query and is left alone.
pub fn id_for_save(
    saved: &[SavedQuery],
    name: &str,
    connection: Option<u128>,
    fallback: u128,
) -> (id: u128)
    ensures
        id == save_target(views(saved@), name@, connection, fallback),
{
    let ghost all = views(saved@);
    let mut at: usize = 0;
    while at < saved.len()
        invariant
            at <= saved@.len(),
            all == views(saved@),
            forall|i: int| 0 <= i < at ==> !goes_by(name@, connection)(#[trigger] all[i]),
        decreases saved@.len() - at,
    {
        assert(all[at as int] == saved@[at as int]@);
        let on_it = match (saved[at].connection, connection) {
            (Some(mine), Some(theirs)) => mine == theirs,
            (None, None) => true,
            _ => false,
        };
        if on_it && same(saved[at].name.as_str(), name) {
            proof {
                lemma_first(all, goes_by(name@, connection), at as int);
            }
            return saved[at].id;
        }
        at += 1;
    }
    proof {
        lemma_first(all, goes_by(name@, connection), at as int);
    }
    fallback
}

/// A second save under the same name on the same connection lands on the row
/// of the first, whatever it would otherwise have been.
pub proof fn a_second_save_lands_on_the_first(
    saved: Seq<SavedView>,
    query: SavedView,
    fallback: u128,
)
    requires
        saved.contains(query),
    ensures
        exists|i: int|
            0 <= i < saved.len() && (#[trigger] saved[i]).name == query.name
                && saved[i].connection == query.connection && save_target(
                saved,
                query.name,
                query.connection,
                fallback,
            ) == saved[i].id,
{
    crate::lists::lemma_first_bounds(saved, goes_by(query.name, query.connection));
    let at = choose|at: int| 0 <= at < saved.len() && saved[at] == query;
    assert(goes_by(query.name, query.connection)(saved[at]));
    let found = first(saved, goes_by(query.name, query.connection));
    assert(found < saved.len());
    assert(saved[found].name == query.name);
}

/// Whether a saved query has an id.
pub open spec fn is_query(id: u128) -> spec_fn(SavedView) -> bool {
    |query: SavedView| query.id == id
}

/// What a saved query is called.
pub open spec fn query_name(saved: Seq<SavedView>, id: u128) -> Option<Seq<char>> {
    let at = first(saved, is_query(id));
    if at < saved.len() {
        Some(saved[at].name)
    } else {
        None
    }
}

/// The saved query the showing tab is editing, if it is editing one.
pub open spec fn edited(window: WindowView) -> Option<u128> {
    match showing(active_pane(window)) {
        Some(tab) => tab.saved_query,
        None => None,
    }
}

/// What the showing tab is editing saved under a name, over the query it came
/// from if it came from one. A script with nothing in it is not saved.
pub open spec fn query_named(window: WindowView, name: Seq<char>, fresh: u128, now: i64) -> WindowView {
    if has_ink(active_pane(window).console) {
        query_sent(
            window,
            match edited(window) {
                Some(id) => id,
                None => fresh,
            },
            Some(name),
            now,
        )
    } else {
        window
    }
}

/// The connection the window is on.
pub open spec fn current_connection(window: WindowView) -> Option<u128> {
    match described(window) {
        Some(session) => Some(session.config.id),
        None => None,
    }
}

/// A query to be written. Without a name it keeps the one it has, and one that
/// has none is named after what it says.
pub open spec fn query_sent(
    window: WindowView,
    id: u128,
    name: Option<Seq<char>>,
    now: i64,
) -> WindowView {
    let sql = active_pane(window).console;
    let called = match name {
        Some(name) => name,
        None => match query_name(window.saved, id) {
            Some(name) => name,
            None => suggestion(sql),
        },
    };
    let connection = current_connection(window);
    then_do(
        window,
        Act::SaveQuery(
            SavedView {
                id: save_target(window.saved, called, connection, id),
                connection,
                name: called,
                sql,
                updated_at: now,
            },
        ),
    )
}

/// The names that are taken by saved queries other than one.
pub open spec fn taken(saved: Seq<SavedView>, current: Option<u128>) -> Seq<Seq<char>>
    decreases saved.len(),
{
    if saved.len() == 0 {
        Seq::empty()
    } else {
        let before = taken(saved.drop_last(), current);
        if Some(saved.last().id) == current {
            before
        } else {
            before.push(saved.last().name)
        }
    }
}

/// The sheet that asks for a name put up, with what it says.
pub open spec fn name_asked(window: WindowView) -> WindowView {
    let existing = match edited(window) {
        Some(id) => query_name(window.saved, id),
        None => None,
    };
    then_do(
        then_do(
            WindowView {
                surfaces: Surfaces { save_sheet: true, ..window.surfaces },
                ..window
            },
            Act::NameQuery {
                suggested: match existing {
                    Some(name) => name,
                    None => suggestion(active_pane(window).console),
                },
                scope: match described(window) {
                    Some(session) => "Filed under "@ + session.config.name,
                    None => "Not connected: available to every connection"@,
                },
                replacing: existing is Some,
                taken: taken(window.saved, edited(window)),
            },
        ),
        Act::Notify,
    )
}

/// What is typed saved: written straight back to the query it came from, or a
/// name asked for. A script that says nothing is not saved.
pub open spec fn script_saved(window: WindowView, now: i64) -> WindowView {
    if !has_ink(active_pane(window).console) {
        window
    } else {
        match edited(window) {
            Some(id) => query_sent(window, id, None, now),
            None => name_asked(window),
        }
    }
}

/// A tab made the one a saved query is edited in: the showing one if it is a
/// script, and otherwise a new one.
pub open spec fn query_claimed(window: WindowView, name: Seq<char>, id: u128) -> WindowView {
    let pane = active_pane(window);
    let scripted = match showing(pane) {
        Some(tab) => tab.kind is Query,
        None => false,
    };
    if scripted {
        with_active(window, tab_claimed(pane, pane.active_tab as int, name, id))
    } else {
        let index = pane.tabs.len() as int;
        let added = with_active(
            window,
            with_tab(
                pane,
                TabView { saved_query: Some(id), ..script_tab(name, window.session) },
            ),
        );
        let up = if index != pane.active_tab {
            shown(added, index)
        } else {
            added
        };
        with_active(up, tab_claimed(active_pane(up), index, name, id))
    }
}

/// What follows once a query has been written: its tab, and the list it is in.
pub open spec fn query_filed(window: WindowView, name: Seq<char>, id: u128) -> WindowView {
    then_do(
        WindowView { sidebar_tab: SidebarTab::Queries, ..query_claimed(window, name, id) },
        Act::ReloadLists,
    )
}

/// A text put into the console, with the keyboard in it.
pub open spec fn text_loaded(window: WindowView, sql: Seq<char>) -> WindowView {
    then_do(
        then_do(
            then_do(
                with_active(window, PaneView { console: sql, ..active_pane(window) }),
                Act::SetConsole(window.active_pane),
            ),
            Act::Focus(Focus::Console),
        ),
        Act::Notify,
    )
}

/// A saved query opened in a tab.
pub open spec fn query_opened(window: WindowView, index: usize) -> WindowView {
    if index >= window.saved.len() {
        window
    } else {
        let query = window.saved[index as int];
        then_do(
            session_saved(text_loaded(query_claimed(window, query.name, query.id), query.sql)),
            Act::Notify,
        )
    }
}

/// A copy of the name of a saved query.
fn name_at(saved: &Vec<SavedQuery>, id: u128) -> (name: Option<String>)
    ensures
        maybe(name) == query_name(views(saved@), id),
{
    let ghost all = views(saved@);
    let mut at: usize = 0;
    while at < saved.len()
        invariant
            at <= saved@.len(),
            all == views(saved@),
            forall|i: int| 0 <= i < at ==> !is_query(id)(#[trigger] all[i]),
        decreases saved@.len() - at,
    {
        assert(all[at as int] == saved@[at as int]@);
        if saved[at].id == id {
            proof {
                lemma_first(all, is_query(id), at as int);
            }
            return Some(saved[at].name.clone());
        }
        at += 1;
    }
    proof {
        lemma_first(all, is_query(id), at as int);
    }
    None
}

/// The names that are taken by saved queries other than one.
fn taken_names(saved: &Vec<SavedQuery>, current: Option<u128>) -> (names: Vec<String>)
    ensures
        texts(names@) == taken(views(saved@), current),
{
    let ghost all = views(saved@);
    let mut names: Vec<String> = Vec::new();
    let mut at: usize = 0;
    assert(texts(names@) =~= taken(all.take(0), current));
    while at < saved.len()
        invariant
            at <= saved@.len(),
            all == views(saved@),
            texts(names@) == taken(all.take(at as int), current),
        decreases saved@.len() - at,
    {
        let ghost had = texts(names@);
        assert(all.take(at + 1).drop_last() =~= all.take(at as int));
        assert(all[at as int] == saved@[at as int]@);
        let mine = match current {
            Some(id) => id == saved[at].id,
            None => false,
        };
        if !mine {
            names.push(saved[at].name.clone());
            assert(texts(names@) =~= had.push(saved@[at as int].name@));
        }
        at += 1;
    }
    assert(all.take(at as int) =~= all);
    names
}

impl Workspace {
    /// The saved query the showing tab is editing, if it is editing one.
    fn edited(&self) -> (id: Option<u128>)
        requires
            well_formed(self@),
        ensures
            id == edited(self@),
    {
        let at = self.active_at();
        match self.panes[at].active() {
            Some(tab) => tab.saved_query,
            None => None,
        }
    }

    /// The one place a query is sent to be written.
    ///
    /// `name` is `None` for a save over an existing query, which keeps whatever
    /// it is already called. A query saved while connected belongs to that
    /// connection; one saved with nothing open belongs to all of them.
    fn write_saved_query(&mut self, id: u128, name: Option<String>, now: i64)
        requires
            well_formed(old(self)@),
        ensures
            final(self)@ == query_sent(old(self)@, id, maybe(name), now),
            well_formed(final(self)@),
    {
        let at = self.active_at();
        let sql = self.panes[at].console.clone();
        let called = match name {
            Some(name) => name,
            None => match name_at(&self.saved, id) {
                Some(name) => name,
                None => suggest_name(sql.as_str()),
            },
        };
        let connection = match self.described() {
            Some(session) => Some(session.config.id),
            None => None,
        };
        let id = id_for_save(self.saved.as_slice(), called.as_str(), connection, id);
        self.say(
            Effect::SaveQuery(SavedQuery { id, connection, name: called, sql, updated_at: now }),
        );
    }

    /// Ask what to call what is typed.
    fn prompt_for_name(&mut self)
        requires
            well_formed(old(self)@),
        ensures
            final(self)@ == name_asked(old(self)@),
            well_formed(final(self)@),
    {
        let at = self.active_at();
        let current = self.edited();
        let existing = match current {
            Some(id) => name_at(&self.saved, id),
            None => None,
        };
        let replacing = existing.is_some();
        let suggested = match existing {
            Some(name) => name,
            None => suggest_name(self.panes[at].console.as_str()),
        };
        let scope = match self.described() {
            Some(session) => {
                let mut text = "Filed under ".to_owned();
                text.append(session.config.name.as_str());
                text
            },
            // Saving with nothing connected is legitimate, but it is worth
            // saying so: the query then shows against every connection.
            None => "Not connected: available to every connection".to_owned(),
        };
        let taken = taken_names(&self.saved, current);
        self.surfaces = Surfaces { save_sheet: true, ..self.surfaces };
        assert(self@ =~= (WindowView {
            surfaces: (Surfaces { save_sheet: true, ..old(self)@.surfaces }),
            ..old(self)@
        }));
        proof {
            lemma_same_frame(self@, old(self)@);
        }
        self.say(Effect::NameQuery { suggested, scope, replacing, taken });
        self.say(Effect::Notify);
    }

    /// Save what is typed.
    ///
    /// A tab that already came from a saved query writes straight back to it.
    /// A tab that did not has to be named first.
    pub fn save_query(&mut self, now: i64)
        requires
            well_formed(old(self)@),
        ensures
            final(self)@ == script_saved(old(self)@, now),
            well_formed(final(self)@),
    {
        let at = self.active_at();
        if is_blank(self.panes[at].console.as_str()) {
            return ;
        }
        match self.edited() {
            Some(id) => self.write_saved_query(id, None, now),
            None => self.prompt_for_name(),
        }
    }

    /// Save under a new name whatever the tab is currently editing.
    pub fn save_query_as(&mut self)
        requires
            well_formed(old(self)@),
        ensures
            final(self)@ == if has_ink(active_pane(old(self)@).console) {
                name_asked(old(self)@)
            } else {
                old(self)@
            },
            well_formed(final(self)@),
    {
        let at = self.active_at();
        if is_blank(self.panes[at].console.as_str()) {
            return ;
        }
        self.prompt_for_name();
    }

    /// Save what the showing tab is editing under a name, replacing the query
    /// it came from if it came from one. `fresh` is the id of a query that has
    /// none yet.
    pub fn save_query_named(&mut self, name: String, fresh: u128, now: i64)
        requires
            well_formed(old(self)@),
        ensures
            final(self)@ == query_named(old(self)@, name@, fresh, now),
            well_formed(final(self)@),
    {
        let at = self.active_at();
        if is_blank(self.panes[at].console.as_str()) {
            return ;
        }
        let id = match self.edited() {
            Some(id) => id,
            None => fresh,
        };
        self.write_saved_query(id, Some(name), now);
    }

    /// A query was written: point its tab at it, and show the list it is in.
    pub fn query_written(&mut self, name: String, id: u128)
        requires
            well_formed(old(self)@),
        ensures
            final(self)@ == query_filed(old(self)@, name@, id),
            well_formed(final(self)@),
    {
        self.claim_query_tab(name, id);
        let ghost claimed = self@;
        self.sidebar_tab = SidebarTab::Queries;
        assert(self@ =~= (WindowView { sidebar_tab: SidebarTab::Queries, ..claimed }));
        proof {
            lemma_same_frame(self@, claimed);
        }
        self.say(Effect::ReloadLists);
    }

    /// Point a tab at a saved query.
    ///
    /// The showing tab if it is already a script, and a new one otherwise.
    /// Renaming someone's open table and leaving its rows underneath would be
    /// the worse of the two surprises.
    fn claim_query_tab(&mut self, name: String, id: u128)
        requires
            well_formed(old(self)@),
        ensures
            final(self)@ == query_claimed(old(self)@, name@, id),
            well_formed(final(self)@),
    {
        let at = self.active_at();
        let scripted = match self.panes[at].active() {
            Some(tab) => tab.kind == CenterKind::Query,
            None => false,
        };
        if scripted {
            let index = self.panes[at].active_tab;
            self.claim_tab_at(index, name, id);
        } else {
            let index = self.panes[at].tabs.len();
            let active = self.panes[at].active_tab;
            let tab = CenterTab {
                saved_query: Some(id),
                ..CenterTab::script(name.as_str(), self.session)
            };
            let ghost before = self.panes@;
            self.panes[at].push_tab(tab);
            assert(self.panes@ =~= before.update(at as int, self.panes@[at as int]));
            let ghost added = with_active(
                old(self)@,
                with_tab(
                    active_pane(old(self)@),
                    (TabView {
                        saved_query: Some(id),
                        ..script_tab(name@, old(self)@.session)
                    }),
                ),
            );
            assert(self@ =~= added);
            if index != active {
                self.show_tab(index);
            }
            self.claim_tab_at(index, name, id);
        }
    }

    /// Make a tab of the active pane the one a saved query is edited in.
    fn claim_tab_at(&mut self, index: usize, name: String, id: u128)
        requires
            well_formed(old(self)@),
            index < active_pane(old(self)@).tabs.len(),
        ensures
            final(self)@ == with_active(
                old(self)@,
                tab_claimed(active_pane(old(self)@), index as int, name@, id),
            ),
    {
        let at = self.active_at();
        let ghost before = self.panes@;
        assert(self.panes@[at as int].tabs@.len() == active_pane(self@).tabs.len());
        self.panes[at].claim_tab(index, name, id);
        assert(self.panes@ =~= before.update(at as int, self.panes@[at as int]));
        assert(self@ =~= with_active(
            old(self)@,
            tab_claimed(active_pane(old(self)@), index as int, name@, id),
        ));
    }

    /// Put a text into the console.
    pub fn load_sql(&mut self, sql: String)
        requires
            well_formed(old(self)@),
        ensures
            final(self)@ == text_loaded(old(self)@, sql@),
            well_formed(final(self)@),
    {
        let at = self.active_at();
        let ghost before = self.panes@;
        self.panes[at].console = sql;
        assert(self.panes@ =~= before.update(at as int, self.panes@[at as int]));
        assert(self@ =~= with_active(
            old(self)@,
            (PaneView { console: sql@, ..active_pane(old(self)@) }),
        ));
        self.say(Effect::SetConsole(self.active_pane));
        self.say(Effect::Focus(Focus::Console));
        self.say(Effect::Notify);
    }

    /// Open a saved query in the current tab, and remember which one it is so
    /// that saving goes back to the same row.
    pub fn load_saved_query(&mut self, index: usize)
        requires
            well_formed(old(self)@),
        ensures
            final(self)@ == query_opened(old(self)@, index),
            well_formed(final(self)@),
    {
        if index >= self.saved.len() {
            return ;
        }
        let name = self.saved[index].name.clone();
        let sql = self.saved[index].sql.clone();
        let id = self.saved[index].id;
        assert(self@.saved[index as int] == self.saved@[index as int]@);
        // The tab first, then the text: claiming a tab may move off the one
        // that is showing, and what is typed belongs to the one it leaves.
        self.claim_query_tab(name, id);
        self.load_sql(sql);
        self.save_session();
        self.say(Effect::Notify);
    }

    /// Have a saved query deleted.
    pub fn delete_saved_query(&mut self, index: usize)
        ensures
            final(self)@ == if index < old(self)@.saved.len() {
                then_do(old(self)@, Act::DeleteQuery(old(self)@.saved[index as int].id))
            } else {
                old(self)@
            },
            well_formed(final(self)@) == well_formed(old(self)@),
    {
        if index < self.saved.len() {
            assert(self@.saved[index as int] == self.saved@[index as int]@);
            let id = self.saved[index].id;
            self.say(Effect::DeleteQuery(id));
        }
    }

    /// A saved query was deleted. The tab that was editing it keeps its text
    /// and its name and becomes an unsaved script again.
    pub fn query_deleted(&mut self, id: u128)
        requires
            well_formed(old(self)@),
        ensures
            final(self)@ == then_do(
                with_active(
                    old(self)@,
                    crate::pane::query_forgotten(active_pane(old(self)@), id),
                ),
                Act::ReloadLists,
            ),
            well_formed(final(self)@),
    {
        let at = self.active_at();
        let ghost before = self.panes@;
        self.panes[at].forget_query(id);
        assert(self.panes@ =~= before.update(at as int, self.panes@[at as int]));
        assert(self@ =~= with_active(
            old(self)@,
            crate::pane::query_forgotten(active_pane(old(self)@), id),
        ));
        self.say(Effect::ReloadLists);
    }
}

} // verus!
