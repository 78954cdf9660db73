//! Browsing tables and keys: the statement, the page, the order and the
//! filter.
use crate::catalog::{KeyType, RelationRef, Rows};
use crate::lists::{first, group_views, lemma_first, seen, views};
use crate::pane::{
    chip_column_set, chip_committed, chip_op_set, chip_opened, chip_removed, filter_cleared,
    filter_mode_toggled, join_flipped, key_tab, no_filter, showing, table_tab, with_tab, CenterKind,
    CenterTab, Filter, FilterView, Pane, PaneView, Sort, TabView,
};
use crate::running::ran_alone;
use crate::showing::{group_showing, page_set, relation_reloaded, session_saved, shown, typed_back};
use crate::tabbing::tab_added;
use crate::text::{decimal, join, joined, push_decimal, same, texts, trim, trimmed};
use crate::window::{
    active_pane, browsed, group_window, here, lemma_same_frame, name, then_do, well_formed,
    with_active, Act, Effect, Focus, WindowView, Workspace,
};
use vstd::prelude::*;

verus! {

broadcast use {group_views, group_window, group_showing};

/// What the statement that browses a relation is made of. Every name in it is
/// quoted already.
#[derive(Debug)]
pub struct Browse {
    pub schema: String,
    pub name: String,
    /// The condition, as it was written.
    pub predicate: String,
    /// The column the grid is sorted by, and whether it goes down.
    pub order: Option<(String, bool)>,
    /// The columns of the primary key, where there is one.
    pub key: Vec<String>,
}

/// The condition, where there is one.
pub open spec fn where_clause(predicate: Seq<char>) -> Seq<char> {
    if trimmed(predicate).len() == 0 {
        Seq::empty()
    } else {
        " where "@ + trimmed(predicate)
    }
}

/// The order the grid asks for, with the empty rows last either way.
pub open spec fn order_clause(order: Option<(String, bool)>) -> Seq<char> {
    match order {
        None => Seq::empty(),
        Some(order) => " order by "@ + order.0@ + (if order.1 {
            " desc nulls last"@
        } else {
            " asc nulls last"@
        }),
    }
}

/// Columns, each going up.
pub open spec fn rising(key: Seq<Seq<char>>) -> Seq<Seq<char>> {
    Seq::new(key.len(), |i: int| key[i] + " asc"@)
}

/// The primary key behind whatever order there is, so that paging is stable.
pub open spec fn tiebreak_clause(key: Seq<Seq<char>>, continuing: bool) -> Seq<char> {
    if key.len() == 0 {
        Seq::empty()
    } else if continuing {
        ", "@ + joined(rising(key), ", "@)
    } else {
        " order by "@ + joined(rising(key), ", "@)
    }
}

/// Where a page starts. The first one does not say.
pub open spec fn offset_clause(page: nat, size: nat) -> Seq<char> {
    if page == 0 {
        Seq::empty()
    } else {
        " offset "@ + decimal(page * size)
    }
}

/// The statement that browses one page of a relation. From the first full page
/// onwards it carries an order it can page against.
pub open spec fn browse_text(browse: Browse, page: nat, size: nat, paged: bool) -> Seq<char> {
    "select * from "@ + browse.schema@ + "."@ + browse.name@ + where_clause(browse.predicate@)
        + order_clause(browse.order) + (if paged {
        tiebreak_clause(texts(browse.key@), browse.order is Some)
    } else {
        Seq::empty()
    }) + " limit "@ + decimal(size) + offset_clause(page, size)
}

/// The `order by` for the grid's sort, or nothing.
pub fn order_by_clause(order: &Option<(String, bool)>) -> (text: String)
    ensures
        text@ == order_clause(*order),
{
    match order {
        None => String::new(),
        Some(order) => {
            let mut text = " order by ".to_owned();
            text.append(order.0.as_str());
            if order.1 {
                text.append(" desc nulls last");
            } else {
                text.append(" asc nulls last");
            }
            text
        },
    }
}

/// The primary key, appended to a browse's order so that paging over it is
/// stable. Nothing for a relation with no key.
///
/// `continuing` is whether there is already an order to add to. A sort on a
/// column with ties needs this as much as no sort at all does.
pub fn tiebreak(key: &Vec<String>, continuing: bool) -> (text: String)
    ensures
        text@ == tiebreak_clause(texts(key@), continuing),
{
    if key.len() == 0 {
        return String::new();
    }
    let mut columns: Vec<String> = Vec::new();
    let mut at: usize = 0;
    while at < key.len()
        invariant
            at <= key@.len(),
            columns@.len() == at,
            forall|i: int| 0 <= i < at ==> (#[trigger] columns@[i])@ == key@[i]@ + " asc"@,
        decreases key@.len() - at,
    {
        let mut column = key[at].clone();
        column.append(" asc");
        columns.push(column);
        at += 1;
    }
    assert(texts(columns@) =~= rising(texts(key@)));
    let mut text = if continuing {
        ", ".to_owned()
    } else {
        " order by ".to_owned()
    };
    text.append(join(&columns, ", ").as_str());
    text
}

/// The statement that browses one page of a relation.
///
/// A table that fits in one page is shown in whatever order the server hands
/// it over in. The moment there is a second page that stops being enough: an
/// offset over an unordered set can hand out the same row twice and never hand
/// out another.
pub fn browse_sql(browse: &Browse, page: usize, size: usize, paged: bool) -> (sql: String)
    requires
        page * size <= usize::MAX,
    ensures
        sql@ == browse_text(*browse, page as nat, size as nat, paged),
{
    let mut sql = "select * from ".to_owned();
    sql.append(browse.schema.as_str());
    sql.append(".");
    sql.append(browse.name.as_str());
    // The text goes in as written: the person typing it is already talking to
    // their own database in its own language.
    let predicate = trim(browse.predicate.as_str());
    let ghost so_far = sql@;
    if predicate.as_str().unicode_len() > 0 {
        sql.append(" where ");
        sql.append(predicate.as_str());
    }
    assert(sql@ =~= so_far + where_clause(browse.predicate@));
    let ghost so_far = sql@;
    sql.append(order_by_clause(&browse.order).as_str());
    if paged {
        sql.append(tiebreak(&browse.key, browse.order.is_some()).as_str());
    }
    sql.append(" limit ");
    push_decimal(&mut sql, size as u64);
    if page > 0 {
        sql.append(" offset ");
        push_decimal(&mut sql, (page * size) as u64);
    }
    assert(sql@ =~= browse_text(*browse, page as nat, size as nat, paged));
    sql
}

/// A browse that pages says so in its order: whenever there is a key, the
/// statement names it, and with it no two rows can trade places between pages.
pub proof fn a_paged_browse_ends_its_order_with_the_key(browse: Browse, page: nat, size: nat)
    requires
        browse.key@.len() > 0,
    ensures
        exists|before: Seq<char>, after: Seq<char>|
            browse_text(browse, page, size, true) == #[trigger] (before + joined(
                rising(texts(browse.key@)),
                ", "@,
            ) + after),
{
    let keyed = joined(rising(texts(browse.key@)), ", "@);
    let start = "select * from "@ + browse.schema@ + "."@ + browse.name@ + where_clause(
        browse.predicate@,
    ) + order_clause(browse.order);
    let before = start + (if browse.order is Some {
        ", "@
    } else {
        " order by "@
    });
    let after = " limit "@ + decimal(size) + offset_clause(page, size);
    assert(browse_text(browse, page, size, true) =~= before + keyed + after);
}

/// The page the showing tab is on.
pub open spec fn page_of(window: WindowView) -> usize {
    match showing(active_pane(window)) {
        Some(tab) => match tab.page {
            Some(page) => page,
            None => 0,
        },
        None => 0,
    }
}

/// Whether the showing tab has more than one page to it.
pub open spec fn is_paged(window: WindowView) -> bool {
    (match showing(active_pane(window)) {
        Some(tab) => tab.page is Some,
        None => false,
    }) || active_pane(window).row_count >= window.settings.spec_page_size()
}

/// The statement that browses a relation sent from the active pane.
pub open spec fn browse_sent(window: WindowView, browse: Browse) -> WindowView {
    ran_alone(
        window,
        browse_text(
            browse,
            page_of(window) as nat,
            window.settings.spec_page_size() as nat,
            is_paged(window),
        ),
        None,
    )
}

/// Whether a tab browses a relation, by its name on the strip.
pub open spec fn shows_table(relation: (Seq<char>, Seq<char>)) -> spec_fn(TabView) -> bool {
    |tab: TabView| tab.kind is Table && tab.title == relation.1 && tab.detail == Some(relation.0)
}

/// A tab about a relation, with another filter where one was brought.
pub open spec fn tab_pointed(
    tab: TabView,
    relation: (Seq<char>, Seq<char>),
    filter: Option<FilterView>,
) -> TabView {
    let pointed = TabView { relation: Some(relation), ..tab };
    match filter {
        Some(filter) => TabView { filter, page: None, ..pointed },
        None => pointed,
    }
}

/// A table opened for browsing: in the tab that has it already, or in a new
/// one. The dock opens, because a table tab whose rows are hidden is a tab
/// about nothing.
pub open spec fn relation_opened(
    window: WindowView,
    relation: (Seq<char>, Seq<char>),
    filter: Option<FilterView>,
) -> WindowView {
    let docked = WindowView { dock_open: true, ..window };
    let pane = active_pane(docked);
    let at = first(pane.tabs, shows_table(relation));
    let up = if at < pane.tabs.len() {
        shown(
            with_active(
                docked,
                PaneView {
                    tabs: pane.tabs.update(at, tab_pointed(pane.tabs[at], relation, filter)),
                    ..pane
                },
            ),
            at,
        )
    } else {
        tab_added(
            docked,
            table_tab(
                relation,
                match filter {
                    Some(filter) => filter,
                    None => no_filter(),
                },
                window.session,
            ),
        )
    };
    session_saved(up)
}

/// Whether a tab browses a key, by its bytes.
pub open spec fn shows_key(key: Seq<u8>) -> spec_fn(TabView) -> bool {
    |tab: TabView|
        match tab.key {
            Some(open) => open.0 == key,
            None => false,
        }
}

/// A key opened for browsing: in the tab that has it already, or in a new one.
pub open spec fn key_opened(
    window: WindowView,
    key: Seq<u8>,
    kind: KeyType,
    title: Seq<char>,
    detail: Seq<char>,
) -> WindowView {
    let docked = WindowView { dock_open: true, ..window };
    let pane = active_pane(docked);
    let at = first(pane.tabs, shows_key(key));
    let up = if at < pane.tabs.len() {
        shown(
            with_active(
                docked,
                PaneView {
                    tabs: pane.tabs.update(
                        at,
                        TabView { key: Some((key, kind)), ..pane.tabs[at] },
                    ),
                    ..pane
                },
            ),
            at,
        )
    } else {
        tab_added(docked, key_tab(key, kind, title, detail, window.session))
    };
    session_saved(up)
}

/// A table tab with nothing behind it, where there is none of that name.
pub open spec fn tab_seeded(window: WindowView, relation: (Seq<char>, Seq<char>)) -> WindowView {
    let pane = active_pane(window);
    if first(pane.tabs, shows_table(relation)) < pane.tabs.len() {
        window
    } else {
        with_active(
            window,
            with_tab(pane, table_tab(relation, no_filter(), window.session)),
        )
    }
}

/// A browsed table asked for again from its first page, after what is asked
/// for has changed.
pub open spec fn filter_applied(window: WindowView) -> WindowView {
    match browsed(window) {
        Some(relation) => session_saved(relation_reloaded(page_set(window, 0), relation)),
        None => window,
    }
}

/// A browsed table on another page. The cursor goes to the top of it.
pub open spec fn page_shown(window: WindowView, page: usize) -> WindowView {
    let pane = active_pane(window);
    match showing(pane) {
        None => window,
        Some(tab) => match tab.relation {
            None => window,
            Some(relation) => if tab.page == Some(page) {
                window
            } else {
                let turned = page_set(window, page);
                session_saved(
                    relation_reloaded(
                        with_active(
                            turned,
                            PaneView { selected_row: Some(0), ..active_pane(turned) },
                        ),
                        relation,
                    ),
                )
            },
        },
    }
}

/// The rows in another order. A browsed table goes back to the server, because
/// the rows on screen are a prefix of it; anything else is sorted here, because
/// those rows are the whole answer.
pub open spec fn sort_applied(window: WindowView, sort: Option<Sort>, rows: Rows) -> WindowView {
    let pane = active_pane(window);
    match browsed(window) {
        Some(relation) => relation_reloaded(
            page_set(with_active(window, PaneView { pending_sort: sort, ..pane }), 0),
            relation,
        ),
        None => {
            let base = match pane.unsorted {
                Some(base) => base,
                None => rows,
            };
            then_do(
                then_do(
                    with_active(window, PaneView { unsorted: Some(base), ..pane }),
                    Act::SortRows(window.active_pane, base, sort),
                ),
                Act::Notify,
            )
        },
    }
}

/// The same question asked again: the browsed table, or the last statement.
pub open spec fn results_refreshed(window: WindowView) -> WindowView {
    match browsed(window) {
        Some(relation) => relation_reloaded(window, relation),
        None => match active_pane(window).last_sql {
            Some(sql) => ran_alone(window, sql, None),
            None => window,
        },
    }
}

/// The active pane changed, the table asked for again, and a frame.
pub open spec fn refiltered(window: WindowView, pane: PaneView) -> WindowView {
    then_do(filter_applied(with_active(window, pane)), Act::Notify)
}

/// The keyboard in the value box of the condition being written.
pub open spec fn value_focused(window: WindowView) -> WindowView {
    then_do(then_do(window, Act::Focus(Focus::ChipValue)), Act::Notify)
}

/// The condition being written put into the filter, where there is one.
pub open spec fn condition_committed(window: WindowView, complete: bool) -> WindowView {
    let pane = active_pane(window);
    if pane.composer is None {
        window
    } else {
        refiltered(window, chip_committed(pane, complete))
    }
}

/// The condition being written with another operator. One that takes no value
/// is finished.
pub open spec fn operator_set(
    window: WindowView,
    op: usize,
    takes_value: bool,
    complete: bool,
) -> WindowView {
    let set = with_active(window, chip_op_set(active_pane(window), op));
    then_do(
        if takes_value {
            value_focused(set)
        } else {
            condition_committed(set, complete)
        },
        Act::Notify,
    )
}

/// Conditions for a clause written by hand, or back.
pub open spec fn filter_switched(window: WindowView, spelled: Seq<char>) -> WindowView {
    let typed = typed_back(window);
    let pane = active_pane(typed);
    let switched = with_active(typed, filter_mode_toggled(pane, spelled));
    match showing(pane) {
        None => switched,
        Some(tab) => {
            let told = if tab.filter.raw {
                switched
            } else {
                then_do(
                    then_do(
                        then_do(switched, Act::SetClause(window.active_pane)),
                        Act::Focus(Focus::Clause),
                    ),
                    Act::Notify,
                )
            };
            then_do(filter_applied(told), Act::Notify)
        },
    }
}

impl Workspace {
    /// A change to the active pane that has been made, as a change to the
    /// window.
    pub(crate) proof fn lemma_pane_changed(before: Workspace, after: Workspace, at: int)
        requires
            well_formed(before@),
            at == here(before@),
            0 <= at < before.panes@.len(),
            after.panes@ == before.panes@.update(at, after.panes@[at]),
            after@ == (WindowView { panes: after@.panes, ..before@ }),
        ensures
            after@ == with_active(before@, after.panes@[at]@),
    {
        assert(after@ =~= with_active(before@, after.panes@[at]@));
    }

    /// The relation the showing tab is about, if it is about one.
    pub(crate) fn browsed(&self) -> (relation: Option<RelationRef>)
        requires
            well_formed(self@),
        ensures
            name(relation) == browsed(self@),
    {
        let at = self.active_at();
        match self.panes[at].active() {
            Some(tab) => match &tab.relation {
                Some(relation) => Some(relation.clone()),
                None => None,
            },
            None => None,
        }
    }

    /// The page the showing tab is on.
    fn current_page(&self) -> (page: usize)
        requires
            well_formed(self@),
        ensures
            page == page_of(self@),
    {
        let at = self.active_at();
        match self.panes[at].active() {
            Some(tab) => match tab.page {
                Some(page) => page,
                None => 0,
            },
            None => 0,
        }
    }

    /// Send the statement that browses a relation.
    pub fn browse(&mut self, browse: &Browse)
        requires
            well_formed(old(self)@),
            page_of(old(self)@) * old(self)@.settings.spec_page_size() <= usize::MAX,
        ensures
            final(self)@ == browse_sent(old(self)@, *browse),
            well_formed(final(self)@),
    {
        let size = self.settings.page_size();
        let page = self.current_page();
        let at = self.active_at();
        let turned = match self.panes[at].active() {
            Some(tab) => tab.page.is_some(),
            None => false,
        };
        let paged = turned || self.panes[at].row_count >= size;
        let sql = browse_sql(browse, page, size, paged);
        self.run(sql);
    }

    /// Browse a relation, optionally replacing whatever filter its tab has.
    ///
    /// The filter goes on before the tab is shown, because showing it is what
    /// sends the statement.
    pub fn open_relation_filtered(&mut self, relation: &RelationRef, filter: Option<Filter>)
        requires
            well_formed(old(self)@),
        ensures
            final(self)@ == relation_opened(old(self)@, relation.parts(), seen(filter)),
            well_formed(final(self)@),
    {
        self.dock_open = true;
        let ghost docked = WindowView { dock_open: true, ..old(self)@ };
        assert(self@ =~= docked);
        proof {
            lemma_same_frame(self@, old(self)@);
        }
        let at = self.active_at();
        let index = table_place(&self.panes[at].tabs, relation);
        if index < self.panes[at].tabs.len() {
            let ghost before = *self;
            let ghost tabs = self.panes@[at as int].tabs@;
            self.panes[at].point_tab(index, relation.clone(), filter);
            assert(self.panes@ =~= before.panes@.update(at as int, self.panes@[at as int]));
            proof {
                Self::lemma_pane_changed(before, *self, at as int);
            }
            self.show_tab(index);
        } else {
            let filter = match filter {
                Some(filter) => filter,
                None => Filter::none(),
            };
            let tab = CenterTab::table(relation, filter, self.session);
            self.add_tab(tab);
        }
        self.save_session();
    }

    /// Open a table for browsing.
    pub fn open_relation(&mut self, relation: &RelationRef)
        requires
            well_formed(old(self)@),
        ensures
            final(self)@ == relation_opened(old(self)@, relation.parts(), None),
            well_formed(final(self)@),
    {
        self.open_relation_filtered(relation, None);
    }

    /// Open a key for browsing: a tab named after it, and its contents.
    ///
    /// The tab is found by the key rather than by its title, because two keys
    /// can be drawn alike. A table can be found by name; a key is its bytes.
    pub fn open_key(&mut self, key: Vec<u8>, kind: KeyType, title: String, detail: String)
        requires
            well_formed(old(self)@),
        ensures
            final(self)@ == key_opened(old(self)@, key@, kind, title@, detail@),
            well_formed(final(self)@),
    {
        self.dock_open = true;
        let ghost docked = WindowView { dock_open: true, ..old(self)@ };
        assert(self@ =~= docked);
        proof {
            lemma_same_frame(self@, old(self)@);
        }
        let at = self.active_at();
        let index = key_place(&self.panes[at].tabs, &key);
        if index < self.panes[at].tabs.len() {
            let ghost before = *self;
            // The type is taken from the listing again rather than kept: the
            // same name can be made into another kind of key.
            self.panes[at].point_key(index, key, kind);
            assert(self.panes@ =~= before.panes@.update(at as int, self.panes@[at as int]));
            proof {
                Self::lemma_pane_changed(before, *self, at as int);
            }
            self.show_tab(index);
        } else {
            let tab = CenterTab::of_key(key, kind, title, detail, self.session);
            self.add_tab(tab);
        }
        self.save_session();
    }

    /// Make a table tab with nothing behind it, unless there is one already.
    pub(crate) fn seed_tab(&mut self, relation: &RelationRef)
        requires
            well_formed(old(self)@),
        ensures
            final(self)@ == tab_seeded(old(self)@, relation.parts()),
            well_formed(final(self)@),
    {
        let at = self.active_at();
        let index = table_place(&self.panes[at].tabs, relation);
        if index >= self.panes[at].tabs.len() {
            let tab = CenterTab::table(relation, Filter::none(), self.session);
            let ghost before = *self;
            self.panes[at].push_tab(tab);
            assert(self.panes@ =~= before.panes@.update(at as int, self.panes@[at as int]));
            proof {
                Self::lemma_pane_changed(before, *self, at as int);
            }
        }
    }

    /// Ask for a browsed table again, from its first page: what is asked for
    /// has changed, and page four of it is a page nobody asked to see.
    pub fn apply_filter(&mut self)
        requires
            well_formed(old(self)@),
        ensures
            final(self)@ == filter_applied(old(self)@),
            well_formed(final(self)@),
    {
        if let Some(relation) = self.browsed() {
            self.set_page(0);
            self.reload_relation(relation);
            self.save_session();
        }
    }

    /// Show another page of a browsed table.
    pub fn show_page(&mut self, page: usize)
        requires
            well_formed(old(self)@),
        ensures
            final(self)@ == page_shown(old(self)@, page),
            well_formed(final(self)@),
    {
        let at = self.active_at();
        let already = match self.panes[at].active() {
            Some(tab) => match tab.page {
                Some(current) => current == page,
                None => false,
            },
            None => false,
        };
        if already {
            return ;
        }
        if let Some(relation) = self.browsed() {
            self.set_page(page);
            let at = self.active_at();
            let ghost before = *self;
            self.panes[at].selected_row = Some(0);
            assert(self.panes@ =~= before.panes@.update(at as int, self.panes@[at as int]));
            proof {
                Self::lemma_pane_changed(before, *self, at as int);
            }
            assert(self@ == with_active(
                before@,
                (PaneView { selected_row: Some(0), ..active_pane(before@) }),
            ));
            self.reload_relation(relation);
            self.save_session();
        }
    }

    /// A header was clicked. `rows` is what the grid is showing.
    pub fn apply_sort(&mut self, sort: Option<Sort>, rows: Rows)
        requires
            well_formed(old(self)@),
        ensures
            final(self)@ == sort_applied(old(self)@, sort, rows),
            well_formed(final(self)@),
    {
        let at = self.active_at();
        let ghost before = *self;
        if let Some(relation) = self.browsed() {
            self.panes[at].pending_sort = sort;
            assert(self.panes@ =~= before.panes@.update(at as int, self.panes@[at as int]));
            proof {
                Self::lemma_pane_changed(before, *self, at as int);
            }
            assert(self@ == with_active(
                before@,
                (PaneView { pending_sort: sort, ..active_pane(before@) }),
            ));
            self.set_page(0);
            self.reload_relation(relation);
            return ;
        }
        let base = match self.panes[at].unsorted {
            Some(base) => base,
            None => rows,
        };
        self.panes[at].unsorted = Some(base);
        assert(self.panes@ =~= before.panes@.update(at as int, self.panes@[at as int]));
        proof {
            Self::lemma_pane_changed(before, *self, at as int);
        }
        assert(self@ == with_active(
            before@,
            (PaneView { unsorted: Some(base), ..active_pane(before@) }),
        ));
        self.say(Effect::SortRows(self.active_pane, base, sort));
        self.say(Effect::Notify);
    }

    /// The same question again.
    pub fn refresh_results(&mut self)
        requires
            well_formed(old(self)@),
        ensures
            final(self)@ == results_refreshed(old(self)@),
            well_formed(final(self)@),
    {
        if let Some(relation) = self.browsed() {
            self.reload_relation(relation);
            return ;
        }
        let at = self.active_at();
        if let Some(sql) = &self.panes[at].last_sql {
            let sql = sql.clone();
            self.run(sql);
        }
    }

    /// Ask again for a table the grid is showing, if it is showing this one.
    pub fn reload_active_relation(&mut self, relation: &RelationRef)
        requires
            well_formed(old(self)@),
        ensures
            final(self)@ == if browsed(old(self)@) == Some(relation.parts()) {
                relation_reloaded(old(self)@, relation.parts())
            } else {
                old(self)@
            },
            well_formed(final(self)@),
    {
        if let Some(showing) = self.browsed() {
            if showing.same_as(relation) {
                self.reload_relation(showing);
            }
        }
    }

    /// Open the composer: on a condition to change it, on none to add one.
    pub fn open_chip(&mut self, index: Option<usize>, first_column: String)
        requires
            well_formed(old(self)@),
        ensures
            final(self)@ == value_focused(
                then_do(
                    with_active(
                        old(self)@,
                        chip_opened(active_pane(old(self)@), index, first_column@),
                    ),
                    Act::SetChipValue(old(self)@.active_pane),
                ),
            ),
            well_formed(final(self)@),
    {
        let at = self.active_at();
        let ghost before = *self;
        self.panes[at].open_chip(index, first_column);
        assert(self.panes@ =~= before.panes@.update(at as int, self.panes@[at as int]));
        proof {
            Self::lemma_pane_changed(before, *self, at as int);
        }
        self.say(Effect::SetChipValue(self.active_pane));
        self.say(Effect::Focus(Focus::ChipValue));
        self.say(Effect::Notify);
    }

    /// Close the composer.
    pub fn close_chip(&mut self)
        requires
            well_formed(old(self)@),
        ensures
            final(self)@ == then_do(
                with_active(
                    old(self)@,
                    (PaneView { composer: None, ..active_pane(old(self)@) }),
                ),
                Act::Notify,
            ),
            well_formed(final(self)@),
    {
        let at = self.active_at();
        let ghost before = *self;
        self.panes[at].composer = None;
        assert(self.panes@ =~= before.panes@.update(at as int, self.panes@[at as int]));
        proof {
            Self::lemma_pane_changed(before, *self, at as int);
        }
        assert(self@ == with_active(
            before@,
            (PaneView { composer: None, ..active_pane(before@) }),
        ));
        self.say(Effect::Notify);
    }

    /// Put the composer's condition into the filter and ask the server again.
    /// `complete` is whether the condition says anything: an unfinished one is
    /// dropped rather than kept.
    pub fn commit_chip(&mut self, complete: bool)
        requires
            well_formed(old(self)@),
        ensures
            final(self)@ == condition_committed(old(self)@, complete),
            well_formed(final(self)@),
    {
        let at = self.active_at();
        if self.panes[at].composer.is_none() {
            return ;
        }
        let ghost before = *self;
        self.panes[at].commit_chip(complete);
        assert(self.panes@ =~= before.panes@.update(at as int, self.panes@[at as int]));
        proof {
            Self::lemma_pane_changed(before, *self, at as int);
        }
        self.apply_filter();
        self.say(Effect::Notify);
    }

    /// Change the column of the condition being written. Nothing is asked
    /// until it is committed.
    pub fn set_chip_column(&mut self, column: String)
        requires
            well_formed(old(self)@),
        ensures
            final(self)@ == then_do(
                with_active(
                    old(self)@,
                    chip_column_set(active_pane(old(self)@), column@),
                ),
                Act::Notify,
            ),
            well_formed(final(self)@),
    {
        let at = self.active_at();
        let ghost before = *self;
        self.panes[at].set_chip_column(column);
        assert(self.panes@ =~= before.panes@.update(at as int, self.panes@[at as int]));
        proof {
            Self::lemma_pane_changed(before, *self, at as int);
        }
        self.say(Effect::Notify);
    }

    /// Change the operator of the condition being written. One that takes no
    /// value finishes it: there is nothing left to type.
    pub fn set_chip_op(&mut self, op: usize, takes_value: bool, complete: bool)
        requires
            well_formed(old(self)@),
        ensures
            final(self)@ == operator_set(old(self)@, op, takes_value, complete),
            well_formed(final(self)@),
    {
        let at = self.active_at();
        let ghost before = *self;
        self.panes[at].set_chip_op(op);
        assert(self.panes@ =~= before.panes@.update(at as int, self.panes@[at as int]));
        proof {
            Self::lemma_pane_changed(before, *self, at as int);
        }
        if takes_value {
            self.say(Effect::Focus(Focus::ChipValue));
            self.say(Effect::Notify);
        } else {
            self.commit_chip(complete);
        }
        self.say(Effect::Notify);
    }

    /// Take a condition off.
    pub fn remove_chip(&mut self, index: usize)
        requires
            well_formed(old(self)@),
        ensures
            final(self)@ == refiltered(
                old(self)@,
                chip_removed(active_pane(old(self)@), index),
            ),
            well_formed(final(self)@),
    {
        let at = self.active_at();
        let ghost before = *self;
        self.panes[at].remove_chip(index);
        assert(self.panes@ =~= before.panes@.update(at as int, self.panes@[at as int]));
        proof {
            Self::lemma_pane_changed(before, *self, at as int);
        }
        self.apply_filter();
        self.say(Effect::Notify);
    }

    /// Make an `and` an `or`, or back.
    pub fn flip_join(&mut self, index: usize)
        requires
            well_formed(old(self)@),
        ensures
            final(self)@ == refiltered(
                old(self)@,
                join_flipped(active_pane(old(self)@), index),
            ),
            well_formed(final(self)@),
    {
        let at = self.active_at();
        let ghost before = *self;
        self.panes[at].flip_join(index);
        assert(self.panes@ =~= before.panes@.update(at as int, self.panes@[at as int]));
        proof {
            Self::lemma_pane_changed(before, *self, at as int);
        }
        self.apply_filter();
        self.say(Effect::Notify);
    }

    /// Take the whole filter off.
    pub fn clear_filter(&mut self)
        requires
            well_formed(old(self)@),
        ensures
            final(self)@ == then_do(
                filter_applied(
                    then_do(
                        with_active(old(self)@, filter_cleared(active_pane(old(self)@))),
                        Act::SetClause(old(self)@.active_pane),
                    ),
                ),
                Act::Notify,
            ),
            well_formed(final(self)@),
    {
        let at = self.active_at();
        let ghost before = *self;
        self.panes[at].clear_filter();
        assert(self.panes@ =~= before.panes@.update(at as int, self.panes@[at as int]));
        proof {
            Self::lemma_pane_changed(before, *self, at as int);
        }
        self.say(Effect::SetClause(self.active_pane));
        self.apply_filter();
        self.say(Effect::Notify);
    }

    /// Change conditions for a clause written by hand, or back. `spelled` is
    /// what the conditions spell, so the clause starts as what is already
    /// being asked.
    pub fn toggle_filter_mode(&mut self, spelled: String)
        requires
            well_formed(old(self)@),
        ensures
            final(self)@ == filter_switched(old(self)@, spelled@),
            well_formed(final(self)@),
    {
        self.stash_editor();
        let at = self.active_at();
        let (there, raw) = match self.panes[at].active() {
            Some(tab) => (true, tab.filter.raw),
            None => (false, false),
        };
        let ghost before = *self;
        self.panes[at].toggle_filter_mode(spelled);
        assert(self.panes@ =~= before.panes@.update(at as int, self.panes@[at as int]));
        proof {
            Self::lemma_pane_changed(before, *self, at as int);
        }
        if !there {
            return ;
        }
        if !raw {
            self.say(Effect::SetClause(self.active_pane));
            self.say(Effect::Focus(Focus::Clause));
            self.say(Effect::Notify);
        }
        self.apply_filter();
        self.say(Effect::Notify);
    }
}

/// The tab that browses a relation, by its name on the strip.
fn table_place(tabs: &Vec<CenterTab>, relation: &RelationRef) -> (at: usize)
    ensures
        at == first(views(tabs@), shows_table(relation.parts())),
        at <= tabs@.len(),
{
    let ghost all = views(tabs@);
    let mut at: usize = 0;
    while at < tabs.len()
        invariant
            at <= tabs@.len(),
            all == views(tabs@),
            forall|i: int| 0 <= i < at ==> !shows_table(relation.parts())(#[trigger] all[i]),
        decreases tabs@.len() - at,
    {
        assert(all[at as int] == tabs@[at as int]@);
        let here = match &tabs[at].detail {
            Some(detail) => same(detail.as_str(), relation.schema.as_str()),
            None => false,
        };
        if tabs[at].kind == CenterKind::Table && same(
            tabs[at].title.as_str(),
            relation.name.as_str(),
        ) && here {
            proof {
                lemma_first(all, shows_table(relation.parts()), at as int);
            }
            return at;
        }
        at += 1;
    }
    proof {
        lemma_first(all, shows_table(relation.parts()), at as int);
    }
    at
}

/// Whether two keys are the same bytes.
pub(crate) fn same_key(a: &Vec<u8>, b: &Vec<u8>) -> (answer: bool)
    ensures
        answer == (a@ == b@),
{
    if a.len() != b.len() {
        return false;
    }
    let mut at: usize = 0;
    while at < a.len()
        invariant
            at <= a@.len(),
            a@.len() == b@.len(),
            forall|i: int| 0 <= i < at ==> a@[i] == b@[i],
        decreases a@.len() - at,
    {
        if a[at] != b[at] {
            return false;
        }
        at += 1;
    }
    assert(a@ =~= b@);
    true
}

/// The tab that browses a key, by its bytes.
fn key_place(tabs: &Vec<CenterTab>, key: &Vec<u8>) -> (at: usize)
    ensures
        at == first(views(tabs@), shows_key(key@)),
        at <= tabs@.len(),
{
    let ghost all = views(tabs@);
    let mut at: usize = 0;
    while at < tabs.len()
        invariant
            at <= tabs@.len(),
            all == views(tabs@),
            forall|i: int| 0 <= i < at ==> !shows_key(key@)(#[trigger] all[i]),
        decreases tabs@.len() - at,
    {
        assert(all[at as int] == tabs@[at as int]@);
        let here = match &tabs[at].key {
            Some(open) => same_key(&open.0, key),
            None => false,
        };
        if here {
            proof {
                lemma_first(all, shows_key(key@), at as int);
            }
            return at;
        }
        at += 1;
    }
    proof {
        lemma_first(all, shows_key(key@), at as int);
    }
    at
}

impl Pane {
    /// Point a tab at a relation, with another filter where one is brought.
    fn point_tab(&mut self, index: usize, relation: RelationRef, filter: Option<Filter>)
        requires
            index < old(self).tabs@.len(),
        ensures
            final(self)@ == (PaneView {
                tabs: old(self)@.tabs.update(
                    index as int,
                    tab_pointed(old(self)@.tabs[index as int], relation.parts(), seen(filter)),
                ),
                ..old(self)@
            }),
    {
        let ghost before = self.tabs@;
        self.tabs[index].relation = Some(relation);
        if let Some(filter) = filter {
            self.tabs[index].filter = filter;
            self.tabs[index].page = None;
        }
        assert(self.tabs@ =~= before.update(index as int, self.tabs@[index as int]));
        assert(self.tabs@[index as int]@ =~= tab_pointed(
            before[index as int]@,
            relation.parts(),
            seen(filter),
        ));
        assert(self@.tabs =~= old(self)@.tabs.update(
            index as int,
            self.tabs@[index as int]@,
        ));
    }

    /// Point a tab at a key.
    fn point_key(&mut self, index: usize, key: Vec<u8>, kind: KeyType)
        requires
            index < old(self).tabs@.len(),
        ensures
            final(self)@ == (PaneView {
                tabs: old(self)@.tabs.update(
                    index as int,
                    (TabView { key: Some((key@, kind)), ..old(self)@.tabs[index as int] }),
                ),
                ..old(self)@
            }),
    {
        let ghost before = self.tabs@;
        self.tabs[index].key = Some((key, kind));
        assert(self.tabs@ =~= before.update(index as int, self.tabs@[index as int]));
        assert(self@.tabs =~= old(self)@.tabs.update(
            index as int,
            self.tabs@[index as int]@,
        ));
    }
}

} // verus!
