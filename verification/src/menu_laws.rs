//! What the lists one picks from hold, and what picking does.
use crate::catalog::ConfigView;
use crate::commands::{object_offers, offers, Command, OfferView};
use crate::connecting::connection_opened;
use crate::driving::{answered, obeyed, Reply};
use crate::ignored::{ignored_in, passed_over, Switch};
use crate::launch::Switches;
use crate::lists::{first, group_views, lemma_first};
use crate::menus::{
    database_menu_turned, tab_item_chosen, tab_menu_closed, tab_menu_of, takes_nothing, TabItem,
};
use crate::palette::palette_rows;
use crate::pane::TabView;
use crate::responding::{cursor_moved_to, sidebar_picked};
use crate::saving::text_loaded;
use crate::session::{connecting, running};
use crate::settings_pages::{address, theme_rows, tilde, Theme};
use crate::showing::group_showing;
use crate::sidebar::{is_row, row_clicked, row_menu_asked, turned};
use crate::sidebar_face::connection_clicked;
use crate::tabbing::{
    doomed_by, lemma_unpinned, named_in, pin_toggled, tab_closed, tabs_closed, Closing,
};
use crate::text::{decimal, has, maybe};
use crate::tree::Entry;
use crate::window::{
    active_pane, group_window, lemma_place_of, well_formed, Act, Focus, Order, SidebarTab,
    WindowView,
};
use vstd::prelude::*;

verus! {

broadcast use {group_views, group_window, group_showing};

/// A bulk close of a tab's menu is greyed exactly where it would close nothing:
/// where every tab it is about is pinned, or it is about none. The others are
/// every tab but the one, the left ones those before it, the right ones those
/// behind it, and the unchanged ones those with nothing unsaved.
pub proof fn an_item_that_closes_nothing_is_greyed(tabs: Seq<TabView>, index: usize)
    requires
        index < tabs.len() <= usize::MAX,
    ensures
        takes_nothing(Closing::Others(index), tabs) <==> forall|i: int|
            0 <= i < tabs.len() && i != index ==> (#[trigger] tabs[i]).pinned,
        takes_nothing(Closing::Left(index), tabs) <==> forall|i: int|
            0 <= i < index ==> (#[trigger] tabs[i]).pinned,
        takes_nothing(Closing::Right(index), tabs) <==> forall|i: int|
            index < i < tabs.len() ==> (#[trigger] tabs[i]).pinned,
        takes_nothing(Closing::Unchanged, tabs) <==> forall|i: int|
            0 <= i < tabs.len() ==> (#[trigger] tabs[i]).pinned || tabs[i].dirty,
        takes_nothing(Closing::All, tabs) <==> forall|i: int|
            0 <= i < tabs.len() ==> (#[trigger] tabs[i]).pinned,
{
    lemma_takes(tabs, Closing::Others(index));
    lemma_takes(tabs, Closing::Left(index));
    lemma_takes(tabs, Closing::Right(index));
    lemma_takes(tabs, Closing::Unchanged);
    lemma_takes(tabs, Closing::All);
    if takes_nothing(Closing::Others(index), tabs) {
        assert forall|i: int| 0 <= i < tabs.len() && i != index implies (
        #[trigger] tabs[i]).pinned by {}
    }
}

/// A bulk close takes nothing where no tab is named and unpinned.
proof fn lemma_takes(tabs: Seq<TabView>, closing: Closing)
    requires
        tabs.len() <= usize::MAX,
    ensures
        takes_nothing(closing, tabs) <==> forall|i: int|
            0 <= i < tabs.len() ==> (#[trigger] tabs[i]).pinned || !named_in(closing, tabs)(i),
{
    let list = doomed_by(closing, tabs);
    lemma_unpinned(tabs, named_in(closing, tabs));
    if list.len() > 0 {
        assert(list.contains(list[0]));
        let i = list[0] as int;
        assert(list.contains(i as usize));
        assert(!tabs[i].pinned && named_in(closing, tabs)(i));
    } else {
        assert forall|i: int| 0 <= i < tabs.len() implies (#[trigger] tabs[i]).pinned
            || !named_in(closing, tabs)(i) by {
            assert(!list.contains(i as usize));
        }
    }
}

/// The menu of a tab closes the tab, or others by where they stand, or pins it;
/// what it says of a close is whether it would take anything, and it says to
/// unpin what is pinned.
pub proof fn a_tab_s_menu_says_what_it_would_do(tabs: Seq<TabView>, index: usize)
    requires
        index < tabs.len(),
    ensures
        ({
            let menu = tab_menu_of(tabs, index);
            &&& menu.len() == 10
            &&& menu[0]->Item_0.label == "Close"@ && !menu[0]->Item_0.disabled
            &&& menu[1]->Item_0.label == "Close Others"@ && menu[1]->Item_0.disabled
                == takes_nothing(Closing::Others(index), tabs)
            &&& menu[2] is Separator
            &&& menu[3]->Item_0.label == "Close Left"@ && menu[3]->Item_0.disabled == takes_nothing(
                Closing::Left(index),
                tabs,
            )
            &&& menu[4]->Item_0.label == "Close Right"@ && menu[4]->Item_0.disabled
                == takes_nothing(Closing::Right(index), tabs)
            &&& menu[5] is Separator
            &&& menu[6]->Item_0.label == "Close Unchanged"@ && menu[6]->Item_0.disabled
                == takes_nothing(Closing::Unchanged, tabs)
            &&& menu[7]->Item_0.label == "Close All"@ && menu[7]->Item_0.disabled == takes_nothing(
                Closing::All,
                tabs,
            )
            &&& menu[8] is Separator
            &&& !menu[9]->Item_0.disabled
            &&& tabs[index as int].pinned ==> menu[9]->Item_0.label == "Unpin Tab"@
            &&& !tabs[index as int].pinned ==> menu[9]->Item_0.label == "Pin Tab"@
        }),
{
}

/// An item of a tab's menu does what it says, once the menu is away.
pub proof fn a_tab_s_item_does_what_it_says(window: WindowView, index: usize)
    ensures
        ({
            let away = tab_menu_closed(window);
            let tabs = active_pane(away).tabs;
            &&& away.surfaces.tab_menu is None
            &&& away.panes == window.panes
            &&& tab_item_chosen(window, TabItem::Close, index) == tab_closed(away, index)
            &&& tab_item_chosen(window, TabItem::Pin, index) == pin_toggled(away, index)
            &&& tab_item_chosen(window, TabItem::CloseOthers, index) == tabs_closed(
                away,
                doomed_by(Closing::Others(index), tabs),
            )
            &&& tab_item_chosen(window, TabItem::CloseLeft, index) == tabs_closed(
                away,
                doomed_by(Closing::Left(index), tabs),
            )
            &&& tab_item_chosen(window, TabItem::CloseRight, index) == tabs_closed(
                away,
                doomed_by(Closing::Right(index), tabs),
            )
            &&& tab_item_chosen(window, TabItem::CloseUnchanged, index) == tabs_closed(
                away,
                doomed_by(Closing::Unchanged, tabs),
            )
            &&& tab_item_chosen(window, TabItem::CloseAll, index) == tabs_closed(
                away,
                doomed_by(Closing::All, tabs),
            )
        }),
{
}

/// The relations of a tree that the palette offers.
proof fn lemma_offered(tree: Seq<Entry>, at: int)
    requires
        0 <= at < tree.len(),
        tree[at].row.target is Some,
        tree[at].row.target->Some_0 is Relation,
        tree[at].row.kind is Table || tree[at].row.kind is View || tree[at].row.kind
            is MaterializedView,
    ensures
        object_offers(tree).contains(
            (OfferView::Object {
                relation: (
                    tree[at].row.target->Some_0->Relation_0,
                    tree[at].row.target->Some_0->Relation_1,
                ),
                kind: tree[at].row.kind,
                name: tree[at].row.name,
            }),
        ),
    decreases tree.len(),
{
    let before = object_offers(tree.drop_last());
    let all = object_offers(tree);
    let offer = OfferView::Object {
        relation: (
            tree[at].row.target->Some_0->Relation_0,
            tree[at].row.target->Some_0->Relation_1,
        ),
        kind: tree[at].row.kind,
        name: tree[at].row.name,
    };
    if at < tree.len() - 1 {
        lemma_offered(tree.drop_last(), at);
        let k = choose|k: int| 0 <= k < before.len() && before[k] == offer;
        assert(all[k] == offer);
    } else {
        assert(all[before.len() as int] == offer);
    }
}

/// The palette offers every command, in order, then the themes and the lines,
/// then every table and view of the tree, and then every saved query; each row
/// of it is one offer, under the name of what it offers.
pub proof fn everything_is_in_the_palette(
    window: WindowView,
    commands: Seq<Command>,
    command: int,
    row: int,
    query: int,
)
    ensures
        ({
            let all = offers(window, commands);
            let rows = palette_rows(all);
            &&& rows.len() == all.len()
            &&& forall|i: int| 0 <= i < all.len() ==> (#[trigger] rows[i]).offer == all[i]
            &&& 0 <= command < commands.len() ==> all[command] == OfferView::Command(
                commands[command],
            )
            &&& all[commands.len() as int] is Themes
            &&& all[commands.len() as int + 1] is Line
            &&& 0 <= query < window.saved.len() ==> {
                let at = all.len() - window.saved.len() + query;
                &&& all[at] == (OfferView::Query {
                    id: window.saved[query].id,
                    name: window.saved[query].name,
                })
                &&& rows[at].face is Some && rows[at].face->Some_0.title
                    == window.saved[query].name
            }
            &&& 0 <= row < window.tree.len() && (window.tree[row].row.kind is Table
                || window.tree[row].row.kind is View || window.tree[row].row.kind
                is MaterializedView) && window.tree[row].row.target is Some
                && window.tree[row].row.target->Some_0 is Relation ==> all.contains(
                (OfferView::Object {
                    relation: (
                        window.tree[row].row.target->Some_0->Relation_0,
                        window.tree[row].row.target->Some_0->Relation_1,
                    ),
                    kind: window.tree[row].row.kind,
                    name: window.tree[row].row.name,
                }),
            )
        }),
{
    let all = offers(window, commands);
    if 0 <= row < window.tree.len() && (window.tree[row].row.kind is Table
        || window.tree[row].row.kind is View || window.tree[row].row.kind is MaterializedView)
        && window.tree[row].row.target is Some && window.tree[row].row.target->Some_0 is Relation {
        lemma_offered(window.tree, row);
        let offer = OfferView::Object {
            relation: (
                window.tree[row].row.target->Some_0->Relation_0,
                window.tree[row].row.target->Some_0->Relation_1,
            ),
            kind: window.tree[row].row.kind,
            name: window.tree[row].row.name,
        };
        let objects = object_offers(window.tree);
        let k = choose|k: int| 0 <= k < objects.len() && objects[k] == offer;
        assert(all[commands.len() + 2 + k] == offer);
    }
}

/// The first themes that are listed.
proof fn lemma_themes(
    themes: Seq<Theme>,
    folded: Seq<Seq<char>>,
    needle: Seq<char>,
    on_screen: Seq<char>,
    count: int,
    at: int,
)
    requires
        0 <= at < count <= themes.len() <= usize::MAX,
        needle.len() == 0 || has(folded[at], needle),
    ensures
        exists|k: int|
            0 <= k < theme_rows(themes, folded, needle, on_screen, count).len() && (
            #[trigger] theme_rows(themes, folded, needle, on_screen, count)[k]).theme == at,
    decreases count,
{
    let before = theme_rows(themes, folded, needle, on_screen, count - 1);
    let all = theme_rows(themes, folded, needle, on_screen, count);
    if at < count - 1 {
        lemma_themes(themes, folded, needle, on_screen, count - 1, at);
        let k = choose|k: int| 0 <= k < before.len() && (#[trigger] before[k]).theme == at;
        assert(all[k] == before[k]);
    } else {
        assert(all[before.len() as int].theme == at);
    }
}

/// What the listed themes are.
proof fn lemma_listed_themes(
    themes: Seq<Theme>,
    folded: Seq<Seq<char>>,
    needle: Seq<char>,
    on_screen: Seq<char>,
    count: int,
)
    requires
        0 <= count <= themes.len() <= usize::MAX,
    ensures
        forall|k: int|
            0 <= k < theme_rows(themes, folded, needle, on_screen, count).len() ==> {
                let row = #[trigger] theme_rows(themes, folded, needle, on_screen, count)[k];
                &&& row.theme < count
                &&& row.name == themes[row.theme as int].name@
                &&& row.selected == (themes[row.theme as int].name@ == on_screen)
                &&& needle.len() == 0 || has(folded[row.theme as int], needle)
            },
    decreases count,
{
    if count > 0 {
        lemma_listed_themes(themes, folded, needle, on_screen, count - 1);
    }
}

/// The themes that are listed are exactly those with what was typed in their
/// names, and all of them where nothing was; the one on screen is the one that
/// is lit.
pub proof fn themes_are_listed_by_name(
    themes: Seq<Theme>,
    folded: Seq<Seq<char>>,
    needle: Seq<char>,
    on_screen: Seq<char>,
    at: int,
)
    requires
        0 <= at < themes.len() <= usize::MAX,
    ensures
        ({
            let rows = theme_rows(themes, folded, needle, on_screen, themes.len() as int);
            &&& (exists|k: int| 0 <= k < rows.len() && (#[trigger] rows[k]).theme == at) <==> (
            needle.len() == 0 || has(folded[at], needle))
            &&& forall|k: int|
                0 <= k < rows.len() ==> (#[trigger] rows[k]).theme < themes.len() && rows[k].name
                    == themes[rows[k].theme as int].name@ && rows[k].selected == (
                themes[rows[k].theme as int].name@ == on_screen)
        }),
{
    let count = themes.len() as int;
    lemma_listed_themes(themes, folded, needle, on_screen, count);
    if needle.len() == 0 || has(folded[at], needle) {
        lemma_themes(themes, folded, needle, on_screen, count, at);
    }
}

/// A connection's address is who connects, where to, through which port and to
/// which database.
pub proof fn an_address_says_where_it_goes(config: ConfigView)
    ensures
        address(config) == config.user + "@"@ + config.host + ":"@ + decimal(config.port as nat)
            + "/"@ + config.database,
{
}

/// Home is written as a tilde where a path is home or goes on from it behind a
/// slash, and nowhere else.
pub proof fn home_is_a_tilde(path: Seq<char>, home: Seq<char>)
    requires
        home.len() > 0,
    ensures
        tilde(path, None) == path,
        tilde(home, Some(home)) == "~"@,
        tilde(home + "/"@ + path, Some(home)) == "~"@ + "/"@ + path,
        path.len() > 0 && path[0] != '/' ==> tilde(home + path, Some(home)) == home + path,
        path.len() < home.len() ==> tilde(path, Some(home)) == path,
{
    reveal_strlit("/");
    assert(home.take(home.len() as int) =~= home);
    assert("~"@ + home.skip(home.len() as int) =~= "~"@);
    let longer = home + "/"@ + path;
    assert(longer.take(home.len() as int) =~= home);
    assert(longer[home.len() as int] == '/');
    assert("~"@ + longer.skip(home.len() as int) =~= "~"@ + "/"@ + path);
    assert((home + path).take(home.len() as int) =~= home);
}

/// A row that is clicked is the one that is picked, and the window is drawn
/// again. One that folds is turned; one that points at nothing, or that is gone,
/// does nothing more.
pub proof fn a_clicked_row_is_picked(
    window: WindowView,
    at: int,
    title: Seq<char>,
    detail: Seq<char>,
)
    requires
        0 <= at < window.tree.len(),
        forall|i: int| 0 <= i < at ==> (#[trigger] window.tree[i]).id != window.tree[at].id,
        window.tree[at].row.target is None,
        !(window.tree[at].row.kind is Database),
        !(window.tree[at].row.kind is Connection) || window.tree[at].row.expandable,
    ensures
        ({
            let id = window.tree[at].id;
            let after = row_clicked(window, id, title, detail);
            &&& after.selected_node == Some(id)
            &&& after.outbox == window.outbox.push(Act::Notify)
            &&& after.panes == window.panes && after.session == window.session
            &&& window.tree[at].row.expandable ==> after.collapsed == turned(window.collapsed, id)
            &&& !window.tree[at].row.expandable ==> after.collapsed == window.collapsed
        }),
{
    reveal(crate::sidebar::click_done);
    lemma_first(window.tree, is_row(window.tree[at].id), at);
}

/// The other button picks a row too, and opens a menu over it where it is a
/// table's.
pub proof fn the_other_button_opens_a_table_s_menu(window: WindowView, at: int)
    requires
        0 <= at < window.tree.len(),
        forall|i: int| 0 <= i < at ==> (#[trigger] window.tree[i]).id != window.tree[at].id,
    ensures
        ({
            let row = window.tree[at].row;
            let after = row_menu_asked(window, window.tree[at].id);
            &&& after.selected_node == Some(window.tree[at].id)
            &&& after.panes == window.panes && after.collapsed == window.collapsed
            &&& row.target is Some && row.target->Some_0 is Relation ==> after.outbox
                == window.outbox.push(
                Act::ObjectMenu((row.target->Some_0->Relation_0, row.target->Some_0->Relation_1)),
            ).push(Act::Notify)
            &&& row.target is None || row.target->Some_0 is Key ==> after.outbox
                == window.outbox.push(Act::Notify)
        }),
{
    lemma_first(window.tree, is_row(window.tree[at].id), at);
}

/// A list of the left panel that is picked is the one that shows; the lists of
/// queries and of what was run are read again as they come into sight, and the
/// tree is not.
pub proof fn a_picked_list_is_read_again(window: WindowView, tab: SidebarTab)
    ensures
        ({
            let after = sidebar_picked(window, tab);
            &&& after.sidebar_tab == tab
            &&& after.panes == window.panes && after.left_open == window.left_open
            &&& tab is Database ==> after.outbox == window.outbox.push(Act::Notify)
            &&& tab is Queries || tab is History ==> after.outbox == window.outbox.push(
                Act::ReloadLists,
            ).push(Act::Notify)
        }),
{
}

/// A cursor that moves in a pane is that pane's: the pane is the active one, and
/// its cursor is where it was moved to. No other pane hears of it.
pub proof fn a_cursor_moves_in_its_pane(
    window: WindowView,
    at: int,
    row: usize,
    column: usize,
    other: int,
)
    requires
        well_formed(window),
        0 <= at < window.panes.len(),
        0 <= other < window.panes.len(),
    ensures
        ({
            let id = window.panes[at].id;
            let after = cursor_moved_to(window, id, row, column);
            &&& after.active_pane == id
            &&& after.panes.len() == window.panes.len()
            &&& after.panes[at].selected_row == Some(row)
            &&& after.panes[at].selected_column == column
            &&& after.panes[at].tabs == window.panes[at].tabs
            &&& other != at ==> after.panes[other] == window.panes[other]
            &&& after.outbox == window.outbox.push(Act::Notify)
        }),
{
    reveal(well_formed);
    let id = window.panes[at].id;
    assert forall|i: int| 0 <= i < at implies (#[trigger] window.panes[i]).id != id by {
        assert(window.panes[at].id == id);
    }
    lemma_place_of(window.panes, id, at);
}

/// A text that is put into the console is what the console holds, with the
/// keyboard in it, and belongs to the active pane.
pub proof fn a_loaded_text_is_in_the_console(window: WindowView, sql: Seq<char>, other: int)
    requires
        well_formed(window),
        0 <= other < window.panes.len(),
    ensures
        ({
            let after = text_loaded(window, sql);
            &&& active_pane(after).console == sql
            &&& active_pane(after).tabs == active_pane(window).tabs
            &&& window.panes[other].id != window.active_pane ==> after.panes[other]
                == window.panes[other]
            &&& after.outbox == window.outbox.push(Act::SetConsole(window.active_pane)).push(
                Act::Focus(Focus::Console),
            ).push(Act::Notify)
        }),
{
    assert(active_pane(window).id == window.active_pane);
}

/// A saved connection that is clicked is the one that is opened, unless one is
/// on its way already.
pub proof fn a_clicked_connection_is_opened(window: WindowView, index: usize)
    ensures
        index >= window.connections.len() ==> connection_clicked(window, index) == window,
        index < window.connections.len() ==> connection_clicked(window, index) == window
            || connection_clicked(window, index) == connection_opened(
            window,
            window.connections[index as int],
            None,
        ),
        window.sessions.len() == 0 && index < window.connections.len() ==> connection_clicked(
            window,
            index,
        ) == connection_opened(window, window.connections[index as int], None),
{
}

/// The titlebar's menu comes and goes, and closing one that is not open does
/// nothing.
pub proof fn the_titlebar_s_menu_comes_and_goes(window: WindowView)
    ensures
        database_menu_turned(window, true).surfaces.database_menu,
        !database_menu_turned(window, false).surfaces.database_menu,
        !window.surfaces.database_menu ==> database_menu_turned(window, false) == window,
        database_menu_turned(window, true).panes == window.panes,
{
}

/// An order is for the one session it is given to: no other changes, and nothing
/// of the window does. One for a session that is not there does nothing, and so
/// does an answer.
pub proof fn an_order_is_for_one_session(
    window: WindowView,
    id: usize,
    order: Order,
    reply: Reply,
    other: int,
)
    requires
        0 <= other < window.sessions.len(),
    ensures
        ({
            let (told, asked) = obeyed(window, id, order);
            let (heard, next) = answered(window, id, reply);
            &&& id >= window.sessions.len() ==> told == window && asked.len() == 0 && heard
                == window && next.len() == 0
            &&& id < window.sessions.len() ==> {
                &&& told.sessions.len() == window.sessions.len()
                &&& heard.sessions.len() == window.sessions.len()
                &&& told.panes == window.panes && heard.panes == window.panes
                &&& told.outbox == window.outbox && heard.outbox == window.outbox
                &&& told.session == window.session && heard.session == window.session
                &&& other != id ==> told.sessions[other] == window.sessions[other]
                    && heard.sessions[other] == window.sessions[other]
                &&& order is Connect ==> (told.sessions[id as int].session, asked) == connecting(
                    window.sessions[id as int].session,
                )
                &&& order matches Order::Run(sql) ==> (told.sessions[id as int].session, asked)
                    == running(window.sessions[id as int].session, sql@)
            }
        }),
{
}

/// A switch that says nothing is listed as passed over, with what it was set to,
/// and one that says something, or is not set, is not.
pub proof fn a_switch_that_says_nothing_is_listed(switches: Switches, id: Option<u128>)
    ensures
        ({
            let list = ignored_in(switches, id);
            let names = |switch: Switch, value: Option<String>|
                exists|k: int|
                    0 <= k < list.len() && (#[trigger] list[k]).switch == switch && Some(
                        list[k].value,
                    ) == maybe(value);
            &&& switches.sidebar matches Some(word) ==> (crate::flags::sidebar_in(word@) is None
                ==> names(Switch::Sidebar, switches.sidebar))
            &&& switches.results_tab matches Some(word) ==> (crate::flags::results_in(word@) is None
                ==> names(Switch::ResultsTab, switches.results_tab))
            &&& switches.page matches Some(word) ==> (crate::naming::parsed(word@) is None ==> names(
                Switch::Page,
                switches.page,
            ))
            &&& forall|k: int|
                0 <= k < list.len() && (#[trigger] list[k]).switch is Sidebar
                    ==> switches.sidebar is Some && crate::flags::sidebar_in(
                    switches.sidebar->Some_0@,
                ) is None
        }),
{
    let list = ignored_in(switches, id);
    let a = passed_over(Switch::Sidebar, maybe(switches.sidebar), id);
    let b = passed_over(Switch::ResultsTab, maybe(switches.results_tab), id);
    let c = passed_over(Switch::Inspector, maybe(switches.inspector), id);
    let d = passed_over(Switch::Page, maybe(switches.page), id);
    if a.len() > 0 {
        assert(list[0] == a[0]);
    }
    if b.len() > 0 {
        assert(list[a.len() as int] == b[0]);
    }
    if d.len() > 0 {
        assert(list[(a.len() + b.len() + c.len()) as int] == d[0]);
    }
    lemma_pieces(switches, id);
}

/// Only its own piece of the list names a switch.
proof fn lemma_pieces(switches: Switches, id: Option<u128>)
    ensures
        forall|k: int|
            0 <= k < ignored_in(switches, id).len() && (
            #[trigger] ignored_in(switches, id)[k]).switch is Sidebar ==> passed_over(
                Switch::Sidebar,
                maybe(switches.sidebar),
                id,
            ).len() > 0,
{
    lemma_open_pieces(maybe(switches.open));
}

/// What is passed over of the tables to open is listed as that.
proof fn lemma_open_pieces(value: Option<Seq<char>>)
    ensures
        forall|k: int|
            0 <= k < crate::ignored::tables_passed_over(value).len() ==> !((
            #[trigger] crate::ignored::tables_passed_over(value)[k]).switch is Sidebar),
{
    if let Some(text) = value {
        lemma_listed_pieces(crate::text::split(text, ','));
    }
}

/// The pieces that name no table are listed as tables to open.
proof fn lemma_listed_pieces(pieces: Seq<Seq<char>>)
    ensures
        forall|k: int|
            0 <= k < crate::ignored::pieces_passed_over(pieces).len() ==> !((
            #[trigger] crate::ignored::pieces_passed_over(pieces)[k]).switch is Sidebar),
    decreases pieces.len(),
{
    if pieces.len() > 0 {
        lemma_listed_pieces(pieces.drop_last());
    }
}

} // verus!
