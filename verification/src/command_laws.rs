//! What each command and each key does to a window.
use crate::commands::{
    asked_by, commanded, dock_toggled, inspector_toggled, palette_closed, palette_opened,
    results_shown, shortcut, sidebar_shown, sidebar_toggled, Command, KeyAction, Keystroke,
};
use crate::lists::group_views;
use crate::outcome::asks;
use crate::pane::{PaneView, ResultsTab};
use crate::showing::group_showing;
use crate::window::{
    active_pane, group_window, well_formed, Act, Focus, OrderView, PaletteMode, Surfaces,
    WindowView,
};
use vstd::prelude::*;

verus! {

broadcast use {group_views, group_window, group_showing};

/// Whether two windows differ in nothing but which regions are open, and what
/// is to be done.
pub open spec fn same_but_regions(a: WindowView, b: WindowView) -> bool {
    a == (WindowView {
        left_open: a.left_open,
        right_open: a.right_open,
        dock_open: a.dock_open,
        dock_maximized: a.dock_maximized,
        outbox: a.outbox,
        ..b
    })
}

/// Each of the three toggles turns its own region over and no other, and the
/// layout is written down. Closing the dock ends a maximise.
pub proof fn a_toggle_turns_one_region_over(window: WindowView, now: i64)
    ensures
        ({
            let after = commanded(window, Command::ToggleSidebar, now);
            &&& same_but_regions(after, window)
            &&& after.left_open == !window.left_open
            &&& after.right_open == window.right_open
            &&& after.dock_open == window.dock_open
            &&& after.dock_maximized == window.dock_maximized
            &&& asks(window, after, Act::SaveLayout)
        }),
        ({
            let after = commanded(window, Command::ToggleInspector, now);
            &&& same_but_regions(after, window)
            &&& after.right_open == !window.right_open
            &&& after.left_open == window.left_open
            &&& after.dock_open == window.dock_open
            &&& after.dock_maximized == window.dock_maximized
            &&& asks(window, after, Act::SaveLayout)
        }),
        ({
            let after = commanded(window, Command::ToggleResults, now);
            &&& same_but_regions(after, window)
            &&& after.dock_open == !window.dock_open
            &&& after.left_open == window.left_open
            &&& after.right_open == window.right_open
            &&& window.dock_open ==> !after.dock_maximized
            &&& !window.dock_open ==> after.dock_maximized == window.dock_maximized
            &&& asks(window, after, Act::SaveLayout)
        }),
{
    reveal(sidebar_toggled);
    reveal(inspector_toggled);
    reveal(dock_toggled);
    let n = window.outbox.len() as int;
    assert(sidebar_toggled(window).outbox[n] is SaveLayout);
    assert(inspector_toggled(window).outbox[n] is SaveLayout);
    assert(dock_toggled(window).outbox[n] is SaveLayout);
}

/// Turning a region over twice leaves it as it was.
pub proof fn a_toggle_undoes_itself(window: WindowView, now: i64)
    ensures
        commanded(commanded(window, Command::ToggleSidebar, now), Command::ToggleSidebar, now).left_open
            == window.left_open,
        commanded(
            commanded(window, Command::ToggleInspector, now),
            Command::ToggleInspector,
            now,
        ).right_open == window.right_open,
        commanded(commanded(window, Command::ToggleResults, now), Command::ToggleResults, now).dock_open
            == window.dock_open,
{
    a_toggle_turns_one_region_over(window, now);
    a_toggle_turns_one_region_over(commanded(window, Command::ToggleSidebar, now), now);
    a_toggle_turns_one_region_over(commanded(window, Command::ToggleInspector, now), now);
    a_toggle_turns_one_region_over(commanded(window, Command::ToggleResults, now), now);
}

/// Showing a list shows that list, in an open panel.
pub proof fn a_list_is_shown_in_an_open_panel(window: WindowView, now: i64)
    ensures
        ({
            let after = commanded(window, Command::ShowDatabaseTree, now);
            after.sidebar_tab is Database && after.left_open && after.panes == window.panes
        }),
        ({
            let after = commanded(window, Command::ShowSavedQueries, now);
            after.sidebar_tab is Queries && after.left_open && after.panes == window.panes
        }),
        ({
            let after = commanded(window, Command::ShowHistory, now);
            after.sidebar_tab is History && after.left_open && after.panes == window.panes
        }),
{
    reveal(sidebar_shown);
}

/// Showing a face of the results shows that face in the active pane, in an open
/// dock, and changes nothing else of it.
pub proof fn a_face_of_the_results_is_shown_in_an_open_dock(window: WindowView, now: i64)
    requires
        well_formed(window),
    ensures
        commanded(window, Command::ShowData, now).dock_open,
        active_pane(commanded(window, Command::ShowData, now)) == (PaneView {
            results_tab: ResultsTab::Data,
            ..active_pane(window)
        }),
        commanded(window, Command::ShowStructure, now).dock_open,
        active_pane(commanded(window, Command::ShowStructure, now)) == (PaneView {
            results_tab: ResultsTab::Structure,
            ..active_pane(window)
        }),
        commanded(window, Command::ShowDdl, now).dock_open,
        active_pane(commanded(window, Command::ShowDdl, now)) == (PaneView {
            results_tab: ResultsTab::Ddl,
            ..active_pane(window)
        }),
        commanded(window, Command::ShowMessages, now).dock_open,
        active_pane(commanded(window, Command::ShowMessages, now)) == (PaneView {
            results_tab: ResultsTab::Messages,
            ..active_pane(window)
        }),
{
    reveal(results_shown);
    let docked = WindowView { dock_open: true, ..window };
    crate::window::lemma_same_frame(docked, window);
    assert(active_pane(docked).id == docked.active_pane);
}

/// A command for the server goes to the session the window is on.
pub proof fn a_command_for_the_server_goes_to_it(window: WindowView, now: i64)
    ensures
        window.session matches Some(session) ==> {
            &&& commanded(window, Command::Cancel, now).outbox == window.outbox.push(
                Act::Tell(session, OrderView::Cancel),
            )
            &&& commanded(window, Command::RefreshSchema, now).outbox == window.outbox.push(
                Act::Tell(session, OrderView::Refresh),
            )
        },
        window.session is None ==> commanded(window, Command::Cancel, now) == window
            && commanded(window, Command::RefreshSchema, now) == window,
{
}

/// A command about tabs and panes is about the active ones: close takes the
/// showing tab or the active pane, and a new tab is one more script.
pub proof fn a_command_is_about_what_is_in_front(window: WindowView, now: i64)
    ensures
        commanded(window, Command::CloseTab, now) == crate::tabbing::tab_closed(
            window,
            active_pane(window).active_tab,
        ),
        commanded(window, Command::ClosePane, now) == crate::tabbing::pane_closed(
            window,
            window.active_pane,
        ),
        commanded(window, Command::NewTab, now) == crate::tabbing::script_opened(window),
        commanded(window, Command::RefreshResults, now) == crate::browsing::results_refreshed(
            window,
        ),
        commanded(window, Command::Save, now) == crate::saving::script_saved(window, now),
{
}

/// What is left to others is handed to them as it is, and changes nothing.
pub proof fn what_is_not_the_window_s_is_handed_on(window: WindowView, command: Command, now: i64)
    requires
        command is Run || command is RunAll || command is ExportRows || command is ImportRows
            || command is CommitChanges || command is DiscardChanges || command is AddRow || command
            is DeleteRows || command is RevertRows || command is NewTable || command
            is NewConnection || command is FormatQuery || command is FollowReference || command
            is OpenSettings,
    ensures
        commanded(window, command, now) == (WindowView {
            outbox: window.outbox.push(Act::Perform(command)),
            ..window
        }),
{
}

/// Every shortcut, with the platform's key held and nothing over the window.
/// Every other key goes on.
pub proof fn every_shortcut_is_one_command(window: WindowView, stroke: Keystroke)
    requires
        stroke.platform,
        !stroke.control,
        !stroke.alt,
        !window.surfaces.object_menu,
        !window.surfaces.palette,
        !window.surfaces.save_sheet,
        !window.surfaces.export_sheet,
        !window.surfaces.import_sheet,
        !window.surfaces.object_sheet,
        window.structure_preview is None,
    ensures
        ({
            let asked = asked_by(window, stroke);
            let key = stroke.key@;
            let shift = stroke.shift;
            &&& key == "k"@ && !shift ==> asked == KeyAction::OpenPalette(PaletteMode::All)
            &&& key == "p"@ && shift ==> asked == KeyAction::OpenPalette(PaletteMode::Commands)
            &&& key == "p"@ && !shift ==> asked == KeyAction::OpenPalette(PaletteMode::Objects)
            &&& key == "t"@ && !shift ==> asked == KeyAction::Command(Command::NewTab)
            &&& key == "w"@ && !shift ==> asked == KeyAction::Command(Command::CloseTab)
            &&& key == "d"@ && shift ==> asked == KeyAction::Command(Command::SplitDown)
            &&& key == "d"@ && !shift ==> asked == KeyAction::Command(Command::SplitRight)
            &&& key == "r"@ && shift ==> asked == KeyAction::Command(Command::RefreshSchema)
            &&& key == "r"@ && !shift ==> asked == KeyAction::Command(Command::RefreshResults)
            &&& key == "n"@ && !shift ==> asked == KeyAction::Command(Command::NewConnection)
            &&& key == "1"@ ==> asked == KeyAction::Command(Command::ToggleSidebar)
            &&& key == "2"@ ==> asked == KeyAction::Command(Command::ToggleResults)
            &&& key == "3"@ ==> asked == KeyAction::Command(Command::ToggleInspector)
            &&& key == ","@ ==> asked == KeyAction::Command(Command::OpenSettings)
            &&& key == "."@ ==> asked == KeyAction::Command(Command::Cancel)
            &&& key != "k"@ && key != "p"@ && key != "t"@ && key != "w"@ && key != "d"@ && key
                != "r"@ && key != "n"@ && key != "1"@ && key != "2"@ && key != "3"@ && key != ","@
                && key != "."@ ==> asked is Pass
            &&& shift && (key == "k"@ || key == "t"@ || key == "w"@ || key == "n"@) ==> asked
                is Pass
        }),
{
    reveal_strlit("escape");
    reveal_strlit("k");
    reveal_strlit("p");
    reveal_strlit("t");
    reveal_strlit("w");
    reveal_strlit("d");
    reveal_strlit("r");
    reveal_strlit("n");
    reveal_strlit("1");
    reveal_strlit("2");
    reveal_strlit("3");
    reveal_strlit(",");
    reveal_strlit(".");
    assert("k"@[0] == 'k' && "p"@[0] == 'p' && "t"@[0] == 't' && "w"@[0] == 'w' && "d"@[0] == 'd'
        && "r"@[0] == 'r' && "n"@[0] == 'n' && "1"@[0] == '1' && "2"@[0] == '2' && "3"@[0] == '3'
        && ","@[0] == ',' && "."@[0] == '.');
}

/// Without the platform's key, or with another held beside it, no key is the
/// window's but the one that closes its menu.
pub proof fn a_bare_key_is_not_the_window_s(window: WindowView, stroke: Keystroke)
    ensures
        stroke.key@ == "escape"@ && window.surfaces.object_menu ==> asked_by(window, stroke)
            is CloseMenu,
        !(stroke.key@ == "escape"@ && window.surfaces.object_menu) && (!stroke.platform
            || stroke.control || stroke.alt) ==> asked_by(window, stroke) is Pass,
        window.surfaces.palette && !window.surfaces.object_menu && stroke.platform
            && !stroke.control && !stroke.alt && stroke.key@ == "k"@ && !stroke.shift ==> asked_by(
            window,
            stroke,
        ) is ClosePalette,
{
}

/// The palette opens over the window, and closing it takes it away and gives
/// the keyboard back to the console; nothing else of the window changes.
pub proof fn the_palette_comes_and_goes(window: WindowView, mode: PaletteMode)
    ensures
        ({
            let opened = palette_opened(window, mode);
            &&& opened.surfaces == (Surfaces { palette: true, ..window.surfaces })
            &&& opened.panes == window.panes
            &&& asks(window, opened, Act::OpenPalette(mode))
            &&& asks(window, opened, Act::Notify)
        }),
        ({
            let closed = palette_closed(window);
            &&& closed.surfaces == (Surfaces { palette: false, ..window.surfaces })
            &&& closed.panes == window.panes
            &&& asks(window, closed, Act::ClosePalette)
            &&& asks(window, closed, Act::Focus(Focus::Console))
        }),
{
    let n = window.outbox.len() as int;
    assert(palette_opened(window, mode).outbox[n] == Act::OpenPalette(mode));
    assert(palette_opened(window, mode).outbox[n + 1] is Notify);
    assert(palette_closed(window).outbox[n] is ClosePalette);
    assert(palette_closed(window).outbox[n + 1] == Act::Focus(Focus::Console));
}

} // verus!
