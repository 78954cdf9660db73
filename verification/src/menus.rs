//! The menus of the window: a tab's, the titlebar's databases, and the filter's
//! columns and operators.
use crate::browsing::operator_set;
use crate::connecting::database_switched;
use crate::icon::IconName;
use crate::lists::{group_views, views};
use crate::menu::{plain_item, ContextMenu, EntryView, ItemView, MenuItem};
use crate::pane::{chip_column_set, TabView};
use crate::showing::group_showing;
use crate::tabbing::{
    doomed_by, doomed_in, pane_activated, pin_toggled, tab_closed, tabs_closed, Closing,
};
use crate::text::{same, texts};
use crate::window::{
    active_pane, catalog, group_window, lemma_same_frame, place_of, then_do, well_formed, with_active,
    Act, Effect, Surfaces, TabMenu, WindowView, Workspace,
};
use vstd::prelude::*;

verus! {

broadcast use {group_views, group_window, group_showing};

/// The window with other surfaces over it.
pub open spec fn with_surfaces(window: WindowView, surfaces: Surfaces) -> WindowView {
    WindowView { surfaces, ..window }
}

/// The menu of a tab opened. Pointing at a tab with the other button is also a
/// way of pointing at it, so its pane becomes the active one.
pub open spec fn tab_menu_opened(window: WindowView, pane: usize, index: usize) -> WindowView {
    let there = pane_activated(window, pane);
    then_do(
        with_surfaces(
            there,
            Surfaces {
                object_menu: false,
                row_menu: false,
                tab_menu: Some(TabMenu { pane, index }),
                ..there.surfaces
            },
        ),
        Act::Notify,
    )
}

/// The menu of a tab closed.
pub open spec fn tab_menu_closed(window: WindowView) -> WindowView {
    if window.surfaces.tab_menu is Some {
        then_do(
            with_surfaces(window, Surfaces { tab_menu: None, ..window.surfaces }),
            Act::Notify,
        )
    } else {
        window
    }
}

/// An item of a menu.
pub open spec fn item(label: Seq<char>, shortcut: Option<Seq<char>>, disabled: bool) -> EntryView {
    EntryView::Item(ItemView { shortcut, disabled, ..plain_item(label) })
}

/// Whether a bulk close would take nothing.
pub open spec fn takes_nothing(closing: Closing, tabs: Seq<TabView>) -> bool {
    doomed_by(closing, tabs).len() == 0
}

/// The menu of a tab. Every item that closes is offered where it would close
/// something: a greyed one over a strip of one says there is nothing else, and
/// a live one over a strip whose others are all pinned would be a lie.
pub open spec fn tab_menu_of(tabs: Seq<TabView>, index: usize) -> Seq<EntryView> {
    seq![
        item("Close"@, Some("\u{2318}W"@), false),
        item(
            "Close Others"@,
            Some("\u{2325}\u{2318}W"@),
            takes_nothing(Closing::Others(index), tabs),
        ),
        EntryView::Separator,
        item("Close Left"@, None, takes_nothing(Closing::Left(index), tabs)),
        item("Close Right"@, None, takes_nothing(Closing::Right(index), tabs)),
        EntryView::Separator,
        item("Close Unchanged"@, None, takes_nothing(Closing::Unchanged, tabs)),
        item("Close All"@, None, takes_nothing(Closing::All, tabs)),
        EntryView::Separator,
        item(
            if tabs[index as int].pinned {
                "Unpin Tab"@
            } else {
                "Pin Tab"@
            },
            None,
            false,
        ),
    ]
}

/// An item of a tab's menu.
#[derive(Clone, Copy, PartialEq, Eq, Structural, Debug)]
pub enum TabItem {
    Close,
    CloseOthers,
    CloseLeft,
    CloseRight,
    CloseUnchanged,
    CloseAll,
    Pin,
}

/// The bulk close of an item, where it is one.
pub open spec fn bulk(item: TabItem, index: usize) -> Closing {
    match item {
        TabItem::CloseOthers => Closing::Others(index),
        TabItem::CloseLeft => Closing::Left(index),
        TabItem::CloseRight => Closing::Right(index),
        TabItem::CloseUnchanged => Closing::Unchanged,
        _ => Closing::All,
    }
}

/// An item of a tab's menu chosen.
pub open spec fn tab_item_chosen(window: WindowView, item: TabItem, index: usize) -> WindowView {
    let closed = tab_menu_closed(window);
    match item {
        TabItem::Close => tab_closed(closed, index),
        TabItem::Pin => pin_toggled(closed, index),
        _ => tabs_closed(closed, doomed_by(bulk(item, index), active_pane(closed).tabs)),
    }
}

/// The titlebar's menu opened, or closed.
pub open spec fn database_menu_turned(window: WindowView, up: bool) -> WindowView {
    if up || window.surfaces.database_menu {
        then_do(
            with_surfaces(window, Surfaces { database_menu: up, ..window.surfaces }),
            Act::Notify,
        )
    } else {
        window
    }
}

/// One of the filter's menus opened, or the one that is up closed.
pub open spec fn filter_menu_turned(window: WindowView, which: Option<FilterMenu>) -> WindowView {
    if which is Some || window.surfaces.filter_menu is Some {
        then_do(
            with_surfaces(window, Surfaces { filter_menu: which, ..window.surfaces }),
            Act::Notify,
        )
    } else {
        window
    }
}

/// A row of a menu of alternatives: a tick on the one in effect rather than
/// leaving it out, because a list that silently omits where you are is a list
/// you have to count to read.
pub open spec fn alternative(name: Seq<char>, chosen: bool, icon: IconName) -> EntryView {
    EntryView::Item(
        ItemView {
            icon: Some(
                if chosen {
                    IconName::Check
                } else {
                    icon
                },
            ),
            ..plain_item(name)
        },
    )
}

/// Alternatives, with the one in effect ticked.
pub open spec fn ticked(names: Seq<Seq<char>>, chosen: Seq<char>, icon: IconName) -> Seq<EntryView> {
    Seq::new(names.len(), |i: int| alternative(names[i], names[i] == chosen, icon))
}

/// Alternatives, with the one at a place ticked.
pub open spec fn ticked_at(names: Seq<Seq<char>>, chosen: usize, icon: IconName) -> Seq<EntryView> {
    Seq::new(names.len(), |i: int| alternative(names[i], i == chosen, icon))
}

/// Which menu of the filter is meant.
#[derive(Clone, Copy, PartialEq, Eq, Structural, Debug)]
pub enum FilterMenu {
    Column,
    Op,
}

/// A row of a menu of alternatives.
fn offer(name: &String, chosen: bool, icon: IconName) -> (item: MenuItem)
    ensures
        EntryView::Item(item@) == alternative(name@, chosen, icon),
{
    MenuItem::new(name.as_str()).icon(
        if chosen {
            IconName::Check
        } else {
            icon
        },
    )
}

/// Alternatives, with the one in effect ticked.
fn tick(names: &Vec<String>, chosen: &str, icon: IconName, width: i64) -> (menu: ContextMenu)
    ensures
        menu@ == ticked(texts(names@), chosen@, icon),
        menu.width == width,
{
    let ghost all = ticked(texts(names@), chosen@, icon);
    let mut menu = ContextMenu::new().width(width);
    let mut at: usize = 0;
    assert(menu@ =~= all.take(0));
    while at < names.len()
        invariant
            at <= names@.len(),
            all == ticked(texts(names@), chosen@, icon),
            menu@ == all.take(at as int),
            menu.width == width,
        decreases names@.len() - at,
    {
        let ghost had = menu@;
        menu = menu.item(offer(&names[at], same(names[at].as_str(), chosen), icon));
        assert(all.take(at + 1) =~= had.push(all[at as int]));
        at += 1;
    }
    assert(all.take(at as int) =~= all);
    menu
}

/// Alternatives, with the one at a place ticked.
fn tick_at(names: &Vec<String>, chosen: usize, icon: IconName, width: i64) -> (menu: ContextMenu)
    ensures
        menu@ == ticked_at(texts(names@), chosen, icon),
        menu.width == width,
{
    let ghost all = ticked_at(texts(names@), chosen, icon);
    let mut menu = ContextMenu::new().width(width);
    let mut at: usize = 0;
    assert(menu@ =~= all.take(0));
    while at < names.len()
        invariant
            at <= names@.len(),
            all == ticked_at(texts(names@), chosen, icon),
            menu@ == all.take(at as int),
            menu.width == width,
        decreases names@.len() - at,
    {
        let ghost had = menu@;
        menu = menu.item(offer(&names[at], at == chosen, icon));
        assert(all.take(at + 1) =~= had.push(all[at as int]));
        at += 1;
    }
    assert(all.take(at as int) =~= all);
    menu
}

/// How wide the menu of a tab is.
pub const TAB_MENU_WIDTH: i64 = 216;

/// How wide the menu of databases is.
pub const DATABASE_MENU_WIDTH: i64 = 220;

/// How wide a menu of the filter is.
pub const FILTER_MENU_WIDTH: i64 = 200;

/// Whether an optional menu has some rows and a width.
pub open spec fn is_menu(menu: Option<ContextMenu>, rows: Option<Seq<EntryView>>, width: i64) -> bool {
    match rows {
        Some(rows) => menu matches Some(menu) && menu@ == rows && menu.width == width,
        None => menu is None,
    }
}

/// The titlebar's menu: every database on this server, the open one ticked, and
/// nothing else.
pub open spec fn database_rows(window: WindowView) -> Option<Seq<EntryView>> {
    match catalog(window) {
        Some(snapshot) => if window.surfaces.database_menu {
            Some(ticked(texts(snapshot.databases@), snapshot.database@, IconName::Database))
        } else {
            None
        },
        None => None,
    }
}

/// The filter's menu: the columns of the rows on screen in the order they are
/// in, or the operators, with what the condition being written has ticked.
pub open spec fn filter_rows(
    window: WindowView,
    columns: Seq<Seq<char>>,
    operators: Seq<Seq<char>>,
) -> Option<Seq<EntryView>> {
    match (window.surfaces.filter_menu, active_pane(window).composer) {
        (Some(FilterMenu::Column), Some(composer)) => Some(
            ticked(columns, composer.chip.column, IconName::Columns),
        ),
        (Some(FilterMenu::Op), Some(composer)) => Some(
            ticked_at(operators, composer.chip.op, IconName::Filter),
        ),
        _ => None,
    }
}

impl Workspace {
    /// Put other surfaces over the window.
    pub(crate) fn set_surfaces(&mut self, surfaces: Surfaces)
        ensures
            final(self)@ == with_surfaces(old(self)@, surfaces),
            well_formed(final(self)@) == well_formed(old(self)@),
    {
        self.surfaces = surfaces;
        assert(self@ =~= with_surfaces(old(self)@, surfaces));
        proof {
            lemma_same_frame(self@, old(self)@);
        }
    }

    /// Open the menu of a tab.
    pub fn open_tab_menu(&mut self, pane: usize, index: usize)
        requires
            well_formed(old(self)@),
        ensures
            final(self)@ == tab_menu_opened(old(self)@, pane, index),
            well_formed(final(self)@),
    {
        self.activate_pane(pane);
        self.set_surfaces(
            Surfaces {
                object_menu: false,
                row_menu: false,
                tab_menu: Some(TabMenu { pane, index }),
                ..self.surfaces
            },
        );
        self.say(Effect::Notify);
    }

    /// Close the menu of a tab.
    pub fn close_tab_menu(&mut self)
        requires
            well_formed(old(self)@),
        ensures
            final(self)@ == tab_menu_closed(old(self)@),
            well_formed(final(self)@),
    {
        if self.surfaces.tab_menu.is_some() {
            self.set_surfaces(Surfaces { tab_menu: None, ..self.surfaces });
            self.say(Effect::Notify);
        }
    }

    /// The menu of the tab it was asked for, if both are still there.
    pub fn render_tab_menu(&self) -> (menu: Option<ContextMenu>)
        requires
            well_formed(self@),
        ensures
            match self@.surfaces.tab_menu {
                Some(asked) => {
                    let place = place_of(self@.panes, asked.pane);
                    if place < self@.panes.len() && asked.index < self@.panes[place].tabs.len() {
                        menu matches Some(menu) && menu.width == TAB_MENU_WIDTH && menu@
                            == tab_menu_of(self@.panes[place].tabs, asked.index)
                    } else {
                        menu is None
                    }
                },
                None => menu is None,
            },
    {
        let asked = match self.surfaces.tab_menu {
            Some(asked) => asked,
            None => {
                return None;
            },
        };
        let place = self.find(asked.pane);
        let index = asked.index;
        if place >= self.panes.len() || index >= self.panes[place].tabs.len() {
            return None;
        }
        let tabs = self.panes[place].tabs.as_slice();
        let ghost all = views(tabs@);
        assert(all == self@.panes[place as int].tabs);
        assert(all[index as int] == tabs@[index as int]@);
        let others = doomed_in(tabs, Closing::Others(index)).len() == 0;
        let left = doomed_in(tabs, Closing::Left(index)).len() == 0;
        let right = doomed_in(tabs, Closing::Right(index)).len() == 0;
        let unchanged = doomed_in(tabs, Closing::Unchanged).len() == 0;
        let every = doomed_in(tabs, Closing::All).len() == 0;
        let pin = if tabs[index].pinned {
            MenuItem::new("Unpin Tab")
        } else {
            MenuItem::new("Pin Tab")
        };
        let menu = ContextMenu::new().width(TAB_MENU_WIDTH).item(
            MenuItem::new("Close").shortcut("\u{2318}W"),
        ).item(
            MenuItem::new("Close Others").shortcut("\u{2325}\u{2318}W").disabled(others),
        ).separator().item(MenuItem::new("Close Left").disabled(left)).item(
            MenuItem::new("Close Right").disabled(right),
        ).separator().item(MenuItem::new("Close Unchanged").disabled(unchanged)).item(
            MenuItem::new("Close All").disabled(every),
        ).separator().item(pin);
        assert(menu@ =~= tab_menu_of(all, index));
        Some(menu)
    }

    /// An item of a tab's menu chosen.
    pub fn choose_tab_item(&mut self, item: TabItem, index: usize)
        requires
            well_formed(old(self)@),
        ensures
            final(self)@ == tab_item_chosen(old(self)@, item, index),
            well_formed(final(self)@),
    {
        self.close_tab_menu();
        match item {
            TabItem::Close => self.close_tab(index),
            TabItem::CloseOthers => self.close_tabs_where(Closing::Others(index)),
            TabItem::CloseLeft => self.close_tabs_where(Closing::Left(index)),
            TabItem::CloseRight => self.close_tabs_where(Closing::Right(index)),
            TabItem::CloseUnchanged => self.close_tabs_where(Closing::Unchanged),
            TabItem::CloseAll => self.close_tabs_where(Closing::All),
            TabItem::Pin => self.toggle_pin(index),
        }
    }

    /// Open the titlebar's menu of databases.
    pub fn open_database_menu(&mut self)
        requires
            well_formed(old(self)@),
        ensures
            final(self)@ == database_menu_turned(old(self)@, true),
            well_formed(final(self)@),
    {
        self.set_surfaces(Surfaces { database_menu: true, ..self.surfaces });
        self.say(Effect::Notify);
    }

    /// Close the titlebar's menu of databases.
    pub fn close_database_menu(&mut self)
        requires
            well_formed(old(self)@),
        ensures
            final(self)@ == database_menu_turned(old(self)@, false),
            well_formed(final(self)@),
    {
        if self.surfaces.database_menu {
            self.set_surfaces(Surfaces { database_menu: false, ..self.surfaces });
            self.say(Effect::Notify);
        }
    }

    /// The titlebar's menu, where it is up and there is a catalog to fill it
    /// from.
    pub fn render_database_menu(&self) -> (menu: Option<ContextMenu>)
        ensures
            is_menu(menu, database_rows(self@), DATABASE_MENU_WIDTH),
    {
        if !self.surfaces.database_menu {
            return None;
        }
        match self.described() {
            Some(session) => match &session.snapshot {
                Some(snapshot) => Some(
                    tick(
                        &snapshot.databases,
                        snapshot.database.as_str(),
                        IconName::Database,
                        DATABASE_MENU_WIDTH,
                    ),
                ),
                None => None,
            },
            None => None,
        }
    }

    /// A database of the titlebar's menu chosen.
    pub fn choose_database(&mut self, database: &str)
        requires
            well_formed(old(self)@),
        ensures
            final(self)@ == database_switched(
                database_menu_turned(old(self)@, false),
                database@,
            ),
            well_formed(final(self)@),
    {
        self.close_database_menu();
        self.switch_database(database);
    }

    /// Open a menu of the filter.
    pub fn open_filter_menu(&mut self, which: FilterMenu)
        requires
            well_formed(old(self)@),
        ensures
            final(self)@ == filter_menu_turned(old(self)@, Some(which)),
            well_formed(final(self)@),
    {
        self.set_surfaces(Surfaces { filter_menu: Some(which), ..self.surfaces });
        self.say(Effect::Notify);
    }

    /// Close the menu of the filter.
    pub fn close_filter_menu(&mut self)
        requires
            well_formed(old(self)@),
        ensures
            final(self)@ == filter_menu_turned(old(self)@, None),
            well_formed(final(self)@),
    {
        if self.surfaces.filter_menu.is_some() {
            self.set_surfaces(Surfaces { filter_menu: None, ..self.surfaces });
            self.say(Effect::Notify);
        }
    }

    /// The menu of the filter that is up, where a condition is being written.
    pub fn render_filter_menu(
        &self,
        columns: &Vec<String>,
        operators: &Vec<String>,
    ) -> (menu: Option<ContextMenu>)
        requires
            well_formed(self@),
        ensures
            is_menu(menu, filter_rows(self@, texts(columns@), texts(operators@)), FILTER_MENU_WIDTH),
    {
        let which = match self.surfaces.filter_menu {
            Some(which) => which,
            None => {
                return None;
            },
        };
        let at = self.active_at();
        match &self.panes[at].composer {
            Some(composer) => match which {
                FilterMenu::Column => Some(
                    tick(
                        columns,
                        composer.chip.column.as_str(),
                        IconName::Columns,
                        FILTER_MENU_WIDTH,
                    ),
                ),
                FilterMenu::Op => Some(
                    tick_at(operators, composer.chip.op, IconName::Filter, FILTER_MENU_WIDTH),
                ),
            },
            None => None,
        }
    }

    /// A column of the filter's menu chosen.
    pub fn choose_column(&mut self, column: String)
        requires
            well_formed(old(self)@),
        ensures
            ({
                let closed = filter_menu_turned(old(self)@, None);
                final(self)@ == then_do(
                    with_active(closed, chip_column_set(active_pane(closed), column@)),
                    Act::Notify,
                )
            }),
            well_formed(final(self)@),
    {
        self.close_filter_menu();
        self.set_chip_column(column);
    }

    /// An operator of the filter's menu chosen.
    pub fn choose_op(&mut self, op: usize, takes_value: bool, complete: bool)
        requires
            well_formed(old(self)@),
        ensures
            final(self)@ == operator_set(
                filter_menu_turned(old(self)@, None),
                op,
                takes_value,
                complete,
            ),
            well_formed(final(self)@),
    {
        self.close_filter_menu();
        self.set_chip_op(op, takes_value, complete);
    }
}

/// A menu that offers to close something would close it: a live item of a tab's
/// menu takes at least one tab, and never a pinned one.
pub proof fn a_live_item_closes_something(closing: Closing, tabs: Seq<TabView>)
    requires
        !takes_nothing(closing, tabs),
        tabs.len() <= usize::MAX,
    ensures
        exists|i: int|
            0 <= i < tabs.len() && !(#[trigger] tabs[i]).pinned && crate::tabbing::names(
                closing,
                tabs[i],
                i,
            ),
{
    let named = crate::tabbing::named_in(closing, tabs);
    let doomed = doomed_by(closing, tabs);
    crate::tabbing::lemma_unpinned(tabs, named);
    let one = doomed[0];
    assert(doomed.contains(one));
    assert(doomed.contains((one as int) as usize));
    assert(!tabs[one as int].pinned);
}

} // verus!
