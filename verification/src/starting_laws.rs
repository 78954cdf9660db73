//! What a window starts with, told by what was left and what was asked for.
use crate::catalog::ConfigView;
use crate::connecting::connection_opened;
use crate::flags::{cell_in, cut, inspector_in, results_in, sidebar_in};
use crate::launch::{
    booted, faces_set, filter_seeded, numbers_set, reopened, results_over, waiting_set, Destination,
    FilterFacts, Switches,
};
use crate::lists::{group_views, views};
use crate::naming::parsed;
use crate::opening::{buildable, opened_window, Start};
use crate::pane::{CenterTab, PaneView};
use crate::preferences::{dressed, settings_applied};
use crate::settings::Appearance;
use crate::showing::{connection_place, group_showing};
use crate::window::{
    active_pane, group_window, here, lemma_place_bounds, lemma_place_kept, then_do, well_formed,
    Act, WindowView,
};
use vstd::prelude::*;

verus! {

broadcast use {group_views, group_window, group_showing};

/// Dressing panes touches nothing but what is to be done.
proof fn lemma_only_dressed(window: WindowView, count: int)
    requires
        0 <= count <= window.panes.len(),
    ensures
        dressed(window, count) == (WindowView { outbox: dressed(window, count).outbox, ..window }),
        dressed(window, count).outbox.len() == window.outbox.len() + count,
        forall|i: int|
            0 <= i < window.outbox.len() ==> (#[trigger] dressed(window, count).outbox[i])
                == window.outbox[i],
        forall|i: int|
            0 <= i < count ==> {
                let act = #[trigger] dressed(window, count).outbox[window.outbox.len() + i];
                &&& act is Dress
                &&& act->Dress_pane == window.panes[i].id
                &&& act->Dress_line_numbers == (window.settings.line_numbers != Some(false))
                &&& act->Dress_zebra == (window.settings.zebra != Some(false))
            },
    decreases count,
{
    if count > 0 {
        lemma_only_dressed(window, count - 1);
    }
}

/// A session that was left comes back as it was: as many panes, each with the
/// tabs it had and the one in front that was, and its script in the console.
/// The panes stand as they stood, and the one that was active is.
pub proof fn a_session_comes_back(start: Start, panes: Seq<(Vec<CenterTab>, usize)>, at: int)
    requires
        start.restored matches Some(list) && list@ == panes,
        start.settings.restore_session != Some(false),
        0 <= at < panes.len() <= usize::MAX,
    ensures
        ({
            let window = opened_window(start);
            let pane = window.panes[at];
            let tabs = panes[at].0@;
            let front = panes[at].1;
            &&& window.panes.len() == panes.len()
            &&& pane.id == at
            &&& pane.tabs == views(tabs)
            &&& pane.active_tab == front
            &&& front < tabs.len() && tabs[front as int].sql@.len() > 0 ==> pane.console
                == tabs[front as int].sql@
            &&& at > 0 && front >= tabs.len() ==> pane.console.len() == 0
            &&& window.next_pane == panes.len()
            &&& start.active_pane < panes.len() ==> window.active_pane == start.active_pane
            &&& start.active_pane >= panes.len() ==> window.active_pane == 0
            &&& start.layout matches Some(layout) ==> (layout@.len() == panes.len()
                && layout@.no_duplicates() && (forall|i: int|
                0 <= i < layout@.len() ==> (#[trigger] layout@[i]) < panes.len()) ==> window.layout
                == layout@)
        }),
{
    let window = crate::opening::bare_window(start);
    lemma_only_dressed(window, window.panes.len() as int);
}

/// With nothing to bring back there is one pane. A window on its way to a
/// server opens empty; one that is not opens on a sample, with a script, a
/// table and some rows in it.
pub proof fn nothing_to_bring_back_is_one_pane(start: Start)
    requires
        start.restored is None || start.settings.restore_session == Some(false),
    ensures
        ({
            let window = opened_window(start);
            let pane = window.panes[0];
            let connecting = start.told_where || (start.connection is Some
                && start.settings.restore_session != Some(false)
                && start.settings.reopen_connection != Some(false));
            &&& window.panes.len() == 1
            &&& pane.id == 0 && pane.active_tab == 0 && window.active_pane == 0
            &&& pane.selected_row == Some(0usize)
            &&& connecting ==> {
                &&& pane.tabs.len() == 0
                &&& pane.console.len() == 0
                &&& pane.row_count == 0
                &&& window.tree.len() == 0
                &&& window.selected_node is None
            }
            &&& !connecting ==> {
                &&& pane.tabs.len() == 2
                &&& pane.tabs[0].title == "mrr_by_plan.sql"@ && pane.tabs[0].dirty
                &&& pane.tabs[1].title == "users"@ && pane.tabs[1].kind is Table
                &&& pane.tabs[1].detail == Some("public"@)
                &&& pane.console == start.sample_sql@
                &&& pane.row_count == start.sample_rows
                &&& window.tree.len() == start.sample_tree@.len()
                &&& window.selected_node == Some(12usize)
            }
        }),
{
    let window = crate::opening::bare_window(start);
    lemma_only_dressed(window, window.panes.len() as int);
}

/// A window opens with every region that was not left closed, with nothing over
/// it, on no server yet and with nothing to wait for. It reopens the connection
/// it was on where both settings leave that on, and every pane is dressed.
pub proof fn a_window_opens_as_it_was_left(start: Start, at: int)
    requires
        buildable(start),
    ensures
        ({
            let window = opened_window(start);
            let reopens = start.settings.restore_session != Some(false)
                && start.settings.reopen_connection != Some(false);
            &&& window.left_open == (start.left_open != Some(false))
            &&& window.right_open == (start.right_open != Some(false))
            &&& window.dock_open == (start.dock_open != Some(false))
            &&& !window.dock_maximized && !window.booted
            &&& window.sidebar_tab is Database && window.inspector_tab is Row
            &&& !window.surfaces.palette && !window.surfaces.save_sheet
            &&& !window.surfaces.export_sheet && !window.surfaces.import_sheet
            &&& !window.surfaces.object_sheet && !window.surfaces.commit_preview
            &&& window.surfaces.tab_menu is None
            &&& window.session is None && window.sessions.len() == 0
            &&& window.messages.len() == 0 && window.messages_kept == start.messages_kept
            &&& window.running_pane is None && window.pending_history is None
            &&& window.connections == views(start.connections@)
            &&& window.saved == views(start.saved@)
            &&& window.settings == start.settings
            &&& reopens ==> window.reopen == start.connection
            &&& reopens && start.connection is Some ==> window.reopen_database
                == crate::text::maybe(start.database)
            &&& !reopens ==> window.reopen is None && window.reopen_database is None
            &&& window.outbox.len() == window.panes.len()
            &&& 0 <= at < window.panes.len() ==> window.outbox[at] is Dress
                && window.outbox[at]->Dress_pane == window.panes[at].id
        }),
{
    let window = crate::opening::bare_window(start);
    lemma_only_dressed(window, window.panes.len() as int);
    if 0 <= at < window.panes.len() {
        let after = dressed(window, window.panes.len() as int);
        assert(after.outbox[window.outbox.len() + at] is Dress);
    }
}

/// A launch shows the parts it is asked to show, and leaves what it is not asked
/// about as it was.
pub proof fn a_launch_shows_what_it_is_asked_to(window: WindowView, switches: Switches)
    requires
        well_formed(window),
    ensures
        ({
            let after = faces_set(window, switches);
            let pane = active_pane(after);
            &&& switches.sidebar is None ==> after.sidebar_tab == window.sidebar_tab
            &&& switches.sidebar matches Some(word) ==> {
                &&& sidebar_in(word@) matches Some(tab) ==> after.sidebar_tab == tab
                &&& sidebar_in(word@) is None ==> after.sidebar_tab == window.sidebar_tab
            }
            &&& switches.inspector is None ==> after.inspector_tab == window.inspector_tab
            &&& switches.inspector matches Some(word) ==> {
                &&& inspector_in(word@) matches Some(tab) ==> after.inspector_tab == tab
                &&& inspector_in(word@) is None ==> after.inspector_tab == window.inspector_tab
            }
            &&& switches.results_tab is None ==> pane.results_tab == active_pane(window).results_tab
            &&& switches.results_tab matches Some(word) ==> {
                &&& results_in(word@) matches Some(tab) ==> pane.results_tab == tab
                &&& results_in(word@) is None ==> pane.results_tab == active_pane(
                    window,
                ).results_tab
            }
            &&& after.panes.len() == window.panes.len()
            &&& after.outbox == window.outbox && after.pending == window.pending
        }),
{
    reveal(faces_set);
    reveal(well_formed);
    lemma_place_bounds(window.panes, window.active_pane);
    let at = here(window);
    lemma_place_kept(
        window.panes,
        at,
        (PaneView {
            results_tab: results_over(switches.results_tab, window.panes[at].results_tab),
            ..window.panes[at]
        }),
        window.active_pane,
    );
}

/// A launch takes the numbers it is given: the page to open on, the size of one
/// where that is one that is offered, and the field to show whole. A text that
/// is no number changes nothing.
pub proof fn a_launch_takes_its_numbers(window: WindowView, switches: Switches, n: usize)
    ensures
        ({
            let after = numbers_set(window, switches);
            &&& switches.page matches Some(text) ==> (parsed(text@) == Some(n) ==> after.pending.page
                == Some(n))
            &&& switches.expand matches Some(text) ==> (parsed(text@) == Some(n)
                ==> after.expanded_field == Some(n))
            &&& switches.page_size matches Some(text) ==> (parsed(text@) == Some(n) && (n == 200 || n
                == 1_000 || n == 10_000 || n == 50_000 || n == 200_000) ==> after.settings.page_size
                == Some(n))
            &&& switches.page_size matches Some(text) ==> (parsed(text@) == Some(n) && !(n == 200 || n
                == 1_000 || n == 10_000 || n == 50_000 || n == 200_000) ==> after.settings
                == window.settings)
            &&& switches.page is None || parsed(switches.page->Some_0@) is None
                ==> after.pending.page == window.pending.page
            &&& switches.expand is None || parsed(switches.expand->Some_0@) is None
                ==> after.expanded_field == window.expanded_field
            &&& switches.page_size is None || parsed(switches.page_size->Some_0@) is None
                ==> after.settings == window.settings
            &&& after.panes == window.panes && after.outbox == window.outbox
        }),
{
    reveal(numbers_set);
}

/// What a launch asks for that cannot be done yet waits: each switch for its own
/// thing, and one that says nothing for nothing.
pub proof fn a_launch_waits_for_what_is_not_there(window: WindowView, switches: Switches)
    ensures
        ({
            let was = window.pending;
            let now = waiting_set(window, switches).pending;
            &&& switches.key matches Some(text) ==> now.key == Some(text@)
            &&& switches.key is None ==> now.key == was.key
            &&& switches.switch matches Some(text) ==> now.switch == Some(text@)
            &&& switches.switch is None ==> now.switch == was.switch
            &&& switches.decoder matches Some(text) ==> now.decoder == Some(text@)
            &&& switches.decoder is None ==> now.decoder == was.decoder
            &&& switches.after matches Some(text) ==> (cut(text@, '.') is Some ==> now.after == cut(
                text@,
                '.',
            ))
            &&& switches.after is None ==> now.after == was.after
            &&& now.follow == (was.follow || switches.follow)
            &&& switches.cell matches Some(text) ==> (cell_in(text@) is Some ==> now.cell == cell_in(
                text@,
            ))
            &&& switches.cell is None ==> now.cell == was.cell
            &&& switches.menu matches Some(text) ==> (cut(text@, '.') is Some ==> now.demo is Some
                && Some(now.demo->Some_0.0) == cut(text@, '.') && (now.demo->Some_0.1 is None
                <== switches.sheet is None))
            &&& switches.menu is None ==> now.demo == was.demo
            &&& switches.design matches Some(text) ==> (cut(text@, '.') is Some ==> now.design
                == Some((cut(text@, '.'), switches.design_sheet)))
            &&& switches.design matches Some(text) ==> (cut(text@, '.') is None && text@ == "new"@
                ==> now.design == Some(
                (None::<(Seq<char>, Seq<char>)>, switches.design_sheet),
            ))
            &&& switches.design is None ==> now.design == was.design
            &&& switches.open is None ==> now.open == was.open
            &&& now.switcher == switches.switcher
            &&& now.page == was.page
            &&& waiting_set(window, switches).panes == window.panes
            &&& waiting_set(window, switches).outbox == window.outbox
        }),
{
    reveal(waiting_set);
}

/// The connection a window was on is opened again, once, on the database it was
/// on; one that is gone is not.
pub proof fn the_last_connection_is_opened_again(window: WindowView, id: u128, at: int)
    requires
        window.reopen == Some(id),
        0 <= at <= window.connections.len(),
        at < window.connections.len() ==> window.connections[at].id == id,
        forall|i: int| 0 <= i < at ==> (#[trigger] window.connections[i]).id != id,
    ensures
        at == window.connections.len() ==> reopened(window) == (WindowView {
            reopen: None,
            ..window
        }),
        at < window.connections.len() && (window.reopen_database is None
            || window.reopen_database->Some_0.len() == 0) ==> reopened(window)
            == connection_opened(
            (WindowView { reopen: None, reopen_database: None, ..window }),
            window.connections[at],
            None,
        ),
        at < window.connections.len() && window.reopen_database is Some
            && window.reopen_database->Some_0.len() > 0 ==> reopened(window) == connection_opened(
            (WindowView { reopen: None, reopen_database: None, ..window }),
            (ConfigView { database: window.reopen_database->Some_0, ..window.connections[at] }),
            None,
        ),
        reopened((WindowView { reopen: None, ..window })) == (WindowView { reopen: None, ..window }),
{
    lemma_connection_at(window.connections, id, at);
}

/// Where a connection is.
proof fn lemma_connection_at(connections: Seq<ConfigView>, id: u128, at: int)
    requires
        0 <= at <= connections.len(),
        at < connections.len() ==> connections[at].id == id,
        forall|i: int| 0 <= i < at ==> (#[trigger] connections[i]).id != id,
    ensures
        connection_place(connections, id) == at,
    decreases at,
{
    if at > 0 {
        assert(connections[0].id != id);
        let rest = connections.drop_first();
        assert forall|i: int| 0 <= i < at - 1 implies (#[trigger] rest[i]).id != id by {
            assert(rest[i] == connections[i + 1]);
        }
        lemma_connection_at(rest, id, at - 1);
    }
}

/// A launch that is told where to go goes there and not where it was; one that
/// is told something that names no connection goes nowhere.
pub proof fn a_launch_goes_where_it_is_told(
    window: WindowView,
    switches: Switches,
    facts: FilterFacts,
    destination: Destination,
)
    ensures
        ({
            let set = waiting_set(
                filter_seeded(numbers_set(faces_set(window, switches), switches), switches, facts),
                switches,
            );
            let after = booted(window, switches, facts, destination);
            &&& destination matches Destination::To(config) ==> after == connection_opened(
                set,
                config@,
                None,
            )
            &&& destination is Unreadable ==> after == set
            &&& destination is Unset ==> after == reopened(set)
        }),
{
}

/// Every setting is put into effect at once: the theme, then each pane in turn
/// with its indent, line numbers, row height and stripes, and then every window
/// is drawn again. Nothing else of the window changes.
pub proof fn settings_take_effect_everywhere(window: WindowView, shown: Appearance, at: int)
    requires
        0 <= at < window.panes.len(),
    ensures
        ({
            let after = settings_applied(window, shown);
            let from = window.outbox.len() as int;
            let count = window.panes.len() as int;
            &&& after.outbox.len() == from + count + 3
            &&& after.outbox[from] is ShowTheme
            &&& window.settings.appearance is None ==> after.outbox[from] == Act::ShowTheme(shown)
            &&& after.outbox[from + 1 + at] is Dress
            &&& after.outbox[from + 1 + at]->Dress_pane == window.panes[at].id
            &&& after.outbox[from + 1 + at]->Dress_zebra == (window.settings.zebra != Some(false))
            &&& after.outbox[from + 1 + at]->Dress_line_numbers == (window.settings.line_numbers
                != Some(false))
            &&& after.outbox[from + 1 + count] is Refresh
            &&& after.outbox[from + 2 + count] is Notify
            &&& after.panes == window.panes && after.settings == window.settings
            &&& after.layout == window.layout && after.active_pane == window.active_pane
        }),
{
    let themed = then_do(
        window,
        Act::ShowTheme(crate::preferences::appearance_in_effect(window.settings, shown)),
    );
    let count = themed.panes.len() as int;
    lemma_only_dressed(themed, count);
    assert(dressed(themed, count).outbox[themed.outbox.len() + at] is Dress);
    let from = window.outbox.len() as int;
    assert(dressed(themed, count).outbox[from] == themed.outbox[from]);
}

} // verus!
