//! What picking something from the palette, a menu or a bar comes to.
use crate::browsing::relation_opened;
use crate::commands::commanded;
use crate::events::tabs_retargeted;
use crate::icon::IconName;
use crate::lists::{group_views, lemma_first};
use crate::menus::{filter_menu_turned, ticked, ticked_at, FilterMenu};
use crate::outcome::{asks, grows};
use crate::responding::{performed, PaletteAction};
use crate::saving::{is_query, query_opened};
use crate::settings::Appearance;
use crate::showing::{group_showing, session_saved};
use crate::sidebar::{row_turned, turned};
use crate::titlebar::{panel_controls, toggle_paint, TitlebarView};
use crate::window::{group_window, then_do, Act, Focus, WindowView};
use vstd::prelude::*;

verus! {

broadcast use {group_views, group_window, group_showing};

/// A row of the palette does what it offers: a command is carried out, a table
/// opened, the query of that id loaded, a line gone to, and a mode changes
/// nothing of the window.
pub proof fn a_palette_row_does_what_it_offers(
    before: WindowView,
    after: WindowView,
    action: PaletteAction,
    shown: Appearance,
    now: i64,
    at: int,
)
    requires
        performed(before, after, action, shown, now),
    ensures
        action matches PaletteAction::Command(command) ==> after == commanded(before, command, now),
        action matches PaletteAction::Open(relation) ==> after == relation_opened(
            before,
            (relation.schema@, relation.name@),
            None,
        ),
        action matches PaletteAction::LoadQuery(id) ==> {
            &&& 0 <= at < before.saved.len() && before.saved[at].id == id && (forall|i: int|
                0 <= i < at ==> (#[trigger] before.saved[i]).id != id) && at <= usize::MAX
                ==> after == query_opened(before, at as usize)
            &&& at == before.saved.len() && (forall|i: int|
                0 <= i < at ==> (#[trigger] before.saved[i]).id != id) ==> after == before
        },
        action matches PaletteAction::GoToLine(line) ==> after.panes == before.panes && after.outbox
            == before.outbox.push(Act::GoToLine((line - 1) as usize)).push(
            Act::Focus(Focus::Console),
        ).push(Act::Notify),
        action is EnterMode ==> after == before,
        action matches PaletteAction::Theme(appearance) ==> after.panes == before.panes
            && after.settings@.appearance == Some(
            if appearance is Dark {
                "dark"@
            } else {
                "light"@
            },
        ),
{
    if let PaletteAction::LoadQuery(id) = action {
        if 0 <= at <= before.saved.len() && (at < before.saved.len() ==> before.saved[at].id == id)
            && (forall|i: int| 0 <= i < at ==> (#[trigger] before.saved[i]).id != id) {
            lemma_first(before.saved, is_query(id), at);
        }
    }
    if action is Theme {
        let saved = then_do(WindowView { settings: after.settings, ..before }, Act::SaveSettings);
        let themed = then_do(
            saved,
            Act::ShowTheme(crate::preferences::appearance_in_effect(saved.settings, shown)),
        );
        crate::preferences::lemma_dressed(themed, themed.panes.len() as int);
    }
}

/// The filter's menus come one at a time, and closing what is not up does
/// nothing.
pub proof fn one_menu_of_the_filter_is_up(window: WindowView, which: FilterMenu)
    ensures
        filter_menu_turned(window, Some(which)).surfaces.filter_menu == Some(which),
        filter_menu_turned(window, None).surfaces.filter_menu is None,
        window.surfaces.filter_menu is None ==> filter_menu_turned(window, None) == window,
        filter_menu_turned(window, Some(which)).panes == window.panes,
{
}

/// A list of alternatives has each of them, in order, and ticks the one that is
/// in effect.
pub proof fn the_alternative_in_effect_is_ticked(
    names: Seq<Seq<char>>,
    chosen: int,
    icon: IconName,
    at: int,
)
    requires
        0 <= at < names.len() <= usize::MAX,
        0 <= chosen < names.len(),
    ensures
        ticked(names, names[chosen], icon).len() == names.len(),
        ticked(names, names[chosen], icon)[at]->Item_0.label == names[at],
        names[at] == names[chosen] ==> ticked(names, names[chosen], icon)[at]->Item_0.icon == Some(
            IconName::Check,
        ),
        names[at] != names[chosen] ==> ticked(names, names[chosen], icon)[at]->Item_0.icon == Some(
            icon,
        ),
        ticked_at(names, chosen as usize, icon).len() == names.len(),
        ticked_at(names, chosen as usize, icon)[at]->Item_0.label == names[at],
        at == chosen ==> ticked_at(names, chosen as usize, icon)[at]->Item_0.icon == Some(
            IconName::Check,
        ),
        at != chosen ==> ticked_at(names, chosen as usize, icon)[at]->Item_0.icon == Some(icon),
{
}

/// A row of the tree that is turned is turned, and nothing else changes but the
/// frame.
pub proof fn a_turned_row_is_all_that_turns(window: WindowView, id: usize)
    ensures
        row_turned(window, id).collapsed == turned(window.collapsed, id),
        row_turned(window, id).panes == window.panes,
        row_turned(window, id).tree == window.tree,
{
}

/// A control of the titlebar for a region is lit as the region is, each for its
/// own.
pub proof fn a_control_is_lit_as_its_region_is(bar: TitlebarView)
    ensures
        panel_controls(bar).len() == 3,
        panel_controls(bar)[0].id == "toggle-left-panel"@ && panel_controls(bar)[0].paint
            == toggle_paint(bar.left_panel_open),
        panel_controls(bar)[1].id == "toggle-bottom-dock"@ && panel_controls(bar)[1].paint
            == toggle_paint(bar.bottom_dock_open),
        panel_controls(bar)[2].id == "toggle-right-panel"@ && panel_controls(bar)[2].paint
            == toggle_paint(bar.right_panel_open),
        toggle_paint(true) != toggle_paint(false),
{
}

/// An object that was renamed or dropped takes its tabs along: whoever keeps
/// them is told, from what and to what, and every grid is asked again whether it
/// can be edited.
pub proof fn a_renamed_object_takes_its_tabs_along(
    window: WindowView,
    from: (Seq<char>, Seq<char>),
    to: Option<(Seq<char>, Seq<char>)>,
    at: int,
)
    requires
        0 <= at < window.panes.len(),
    ensures
        ({
            let after = tabs_retargeted(window, from, to);
            &&& grows(window, after)
            &&& asks(window, after, Act::Retarget(from, to))
            &&& asks(window, after, Act::RefreshEditability(window.panes[at].id))
            &&& after.panes.len() == window.panes.len()
        }),
{
    reveal(tabs_retargeted);
    reveal(crate::events::editability_asked);
    reveal(session_saved);
    let after = tabs_retargeted(window, from, to);
    let n = window.outbox.len() as int;
    assert(after.outbox[n] == Act::Retarget(from, to));
    assert(after.outbox[n + 1 + at] == Act::RefreshEditability(window.panes[at].id));
}

} // verus!
