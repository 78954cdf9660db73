//! What the window does about what its parts report: the palette, the sheet
//! that names a query, the menu bar, the bolt, and the widgets of its panes.
use crate::browsing::{relation_opened, results_refreshed};
use crate::catalog::RelationRef;
use crate::commands::{commanded, palette_closed, palette_opened, takes_commands, Command};
use crate::lists::{first, group_views, views};
use crate::menus::with_surfaces;
use crate::pane::{CenterKind, PaneView};
use crate::preferences::{appearance_previewed, settings_applied};
use crate::running::{action_of, ran_alone, told, RunAction};
use crate::saving::{is_query, query_named, query_opened};
use crate::settings::Appearance;
use crate::settings_window::{chosen, ChoiceView};
use crate::showing::group_showing;
use crate::window::{
    active_pane, active_tab, group_window, has_pane, lemma_same_frame, then_do, well_formed,
    with_active, Act, Effect, Focus, OrderView, PaletteMode, SavedQuery, SidebarTab, Surfaces,
    WindowView, Workspace,
};
use vstd::prelude::*;

verus! {

broadcast use {group_views, group_window, group_showing};

/// The bolt pressed, whatever the bolt currently is. Offline included: a
/// statement with no connection comes back as a sentence, which is more use
/// than a button that ignores the press.
pub open spec fn bolt_pressed(window: WindowView, sql: Seq<char>, origin: usize) -> WindowView {
    match action_of(window) {
        RunAction::Cancel => told(window, OrderView::Cancel),
        RunAction::Reload => match active_tab(window) {
            Some(tab) => if tab.kind is Structure {
                told(window, OrderView::Refresh)
            } else {
                results_refreshed(window)
            },
            None => results_refreshed(window),
        },
        _ => ran_alone(window, sql, Some(origin)),
    }
}

/// Something a row of the palette says to do.
#[derive(Debug)]
pub enum PaletteAction {
    Command(Command),
    Open(RelationRef),
    LoadQuery(u128),
    Theme(Appearance),
    /// A line, counted from one.
    GoToLine(usize),
    /// The palette handles this one itself.
    EnterMode(PaletteMode),
}

/// Something the palette reports.
#[derive(Debug)]
pub enum PaletteEvent {
    Dismissed,
    /// An appearance looked at on the way to choosing one.
    Preview(Appearance),
    Chose(PaletteAction),
}

/// A saved query loaded, where there is one of that id.
pub open spec fn query_loaded(window: WindowView, id: u128) -> WindowView {
    let at = first(window.saved, is_query(id));
    if at < window.saved.len() {
        query_opened(window, at as usize)
    } else {
        window
    }
}

/// The cursor put on a line of the console, counted from one.
pub open spec fn line_shown(window: WindowView, line: usize) -> WindowView {
    then_do(
        then_do(
            then_do(window, Act::GoToLine((line - 1) as usize)),
            Act::Focus(Focus::Console),
        ),
        Act::Notify,
    )
}

/// Whether a window is another after what a row of the palette said to do.
pub open spec fn performed(
    before: WindowView,
    after: WindowView,
    action: PaletteAction,
    shown: Appearance,
    now: i64,
) -> bool {
    match action {
        PaletteAction::Command(command) => after == commanded(before, command, now),
        PaletteAction::Open(relation) => after == relation_opened(before, relation.parts(), None),
        PaletteAction::LoadQuery(id) => after == query_loaded(before, id),
        PaletteAction::Theme(appearance) => {
            &&& after.settings@ == chosen(
                before.settings@,
                ChoiceView::Appearance(appearance),
                shown,
            )
            &&& after == settings_applied(
                then_do(WindowView { settings: after.settings, ..before }, Act::SaveSettings),
                shown,
            )
        },
        PaletteAction::GoToLine(line) => after == line_shown(before, line),
        PaletteAction::EnterMode(_) => after == before,
    }
}

/// Something the sheet that names a query reports.
#[derive(Debug)]
pub enum SaveSheetEvent {
    Dismissed,
    Named(String),
}

/// The sheet that names a query put away.
pub open spec fn sheet_closed(window: WindowView) -> WindowView {
    with_surfaces(window, Surfaces { save_sheet: false, ..window.surfaces })
}

/// Something asked for from the menu bar.
#[derive(Clone, Copy, PartialEq, Eq, Structural, Debug)]
pub enum MenuAction {
    Command(Command),
    /// The palette, in one of its modes. Not a command: it puts a prefix in a
    /// box rather than doing anything.
    Palette(PaletteMode),
}

/// Something asked for from the menu bar, done where the window takes
/// commands.
pub open spec fn menu_asked(window: WindowView, action: MenuAction, now: i64) -> WindowView {
    if !takes_commands(window) {
        window
    } else {
        match action {
            MenuAction::Command(command) => commanded(window, command, now),
            MenuAction::Palette(mode) => palette_opened(window, mode),
        }
    }
}

/// A pane touched, which is what makes it the active one.
pub open spec fn pane_touched(window: WindowView, id: usize) -> WindowView {
    WindowView { active_pane: id, ..window }
}

/// The cursor of a pane's grid moved, which the inspector reads.
pub open spec fn cursor_moved_to(window: WindowView, id: usize, row: usize, column: usize) -> WindowView {
    let touched = pane_touched(window, id);
    then_do(
        with_active(
            touched,
            PaneView {
                selected_row: Some(row),
                selected_column: column,
                ..active_pane(touched)
            },
        ),
        Act::Notify,
    )
}

impl Workspace {
    /// Do what the bolt currently is. `sql` is the statement the cursor is in
    /// and `origin` where it starts.
    pub fn run_primary(&mut self, sql: String, origin: usize)
        requires
            well_formed(old(self)@),
        ensures
            final(self)@ == bolt_pressed(old(self)@, sql@, origin),
            well_formed(final(self)@),
    {
        match self.run_action() {
            RunAction::Cancel => self.cancel(),
            RunAction::Reload => {
                let at = self.active_at();
                let designing = match self.panes[at].active() {
                    Some(tab) => tab.kind == CenterKind::Structure,
                    None => false,
                };
                if designing {
                    self.refresh_schema();
                } else {
                    self.refresh_results();
                }
            },
            RunAction::Run | RunAction::Offline => self.run_console(sql, origin),
        }
    }

    /// Do what a palette row said to do. `shown` is the appearance on screen.
    pub fn perform(&mut self, action: &PaletteAction, shown: Appearance, now: i64)
        requires
            well_formed(old(self)@),
            action matches PaletteAction::GoToLine(line) ==> line >= 1,
        ensures
            performed(old(self)@, final(self)@, *action, shown, now),
            well_formed(final(self)@),
    {
        match action {
            PaletteAction::Command(command) => self.run_command(*command, now),
            PaletteAction::Open(relation) => self.open_relation(relation),
            PaletteAction::LoadQuery(id) => self.load_query(*id),
            PaletteAction::Theme(appearance) => self.set_appearance(*appearance, shown),
            PaletteAction::GoToLine(line) => {
                self.say(Effect::GoToLine(*line - 1));
                self.say(Effect::Focus(Focus::Console));
                self.say(Effect::Notify);
            },
            PaletteAction::EnterMode(_) => {},
        }
    }

    /// The palette reports something.
    pub fn on_palette_event(&mut self, event: &PaletteEvent, shown: Appearance, now: i64)
        requires
            well_formed(old(self)@),
            event matches PaletteEvent::Chose(PaletteAction::GoToLine(line)) ==> line >= 1,
        ensures
            match *event {
                PaletteEvent::Dismissed => final(self)@ == palette_closed(old(self)@),
                PaletteEvent::Preview(appearance) => final(self)@ == appearance_previewed(
                    old(self)@,
                    appearance,
                    shown,
                ),
                PaletteEvent::Chose(action) => performed(
                    palette_closed(old(self)@),
                    final(self)@,
                    action,
                    shown,
                    now,
                ),
            },
            well_formed(final(self)@),
    {
        match event {
            PaletteEvent::Dismissed => self.close_palette(),
            PaletteEvent::Preview(appearance) => self.apply_appearance(*appearance, shown),
            PaletteEvent::Chose(action) => {
                self.close_palette();
                self.perform(action, shown, now);
            },
        }
    }

    /// The sheet that names a query reports something. `fresh` is the id a new
    /// query goes by.
    pub fn on_save_sheet_event(&mut self, event: SaveSheetEvent, fresh: u128, now: i64)
        requires
            well_formed(old(self)@),
        ensures
            match event {
                SaveSheetEvent::Dismissed => final(self)@ == then_do(
                    sheet_closed(old(self)@),
                    Act::Notify,
                ),
                SaveSheetEvent::Named(name) => final(self)@ == query_named(
                    sheet_closed(old(self)@),
                    name@,
                    fresh,
                    now,
                ),
            },
            well_formed(final(self)@),
    {
        self.set_surfaces(Surfaces { save_sheet: false, ..self.surfaces });
        match event {
            SaveSheetEvent::Dismissed => self.say(Effect::Notify),
            SaveSheetEvent::Named(name) => self.save_query_named(name, fresh, now),
        }
    }

    /// Something asked for from the menu bar.
    pub fn on_menu_action(&mut self, action: MenuAction, now: i64)
        requires
            well_formed(old(self)@),
        ensures
            final(self)@ == menu_asked(old(self)@, action, now),
            well_formed(final(self)@),
    {
        match action {
            MenuAction::Command(command) => self.run_menu_command(command, now),
            MenuAction::Palette(mode) => if self.accepts_commands() {
                self.open_palette(mode);
            },
        }
    }

    /// A pane touched: nothing else has to be said about focus, the dock and
    /// the inspector both read whichever pane this is.
    pub fn touch_pane(&mut self, id: usize)
        requires
            well_formed(old(self)@),
            has_pane(old(self)@.panes, id),
        ensures
            final(self)@ == pane_touched(old(self)@, id),
            well_formed(final(self)@),
    {
        self.active_pane = id;
        assert(self@ =~= pane_touched(old(self)@, id));
        assert(well_formed(self@)) by {
            reveal(well_formed);
        }
    }

    /// The cursor of a pane's grid moved.
    pub fn cursor_moved(&mut self, id: usize, row: usize, column: usize)
        requires
            well_formed(old(self)@),
            has_pane(old(self)@.panes, id),
        ensures
            final(self)@ == cursor_moved_to(old(self)@, id, row, column),
            well_formed(final(self)@),
    {
        self.touch_pane(id);
        let at = self.active_at();
        let ghost before = *self;
        self.panes[at].selected_row = Some(row);
        self.panes[at].selected_column = column;
        assert(self.panes@ =~= before.panes@.update(at as int, self.panes@[at as int]));
        proof {
            Self::lemma_pane_changed(before, *self, at as int);
        }
        assert(self.panes@[at as int]@ =~= (PaneView {
            selected_row: Some(row),
            selected_column: column,
            ..active_pane(before@)
        }));
        self.say(Effect::Notify);
    }
}

/// A tab of the left panel picked. The lists are read again as they come into
/// sight.
pub open spec fn sidebar_picked(window: WindowView, tab: SidebarTab) -> WindowView {
    let picked = WindowView { sidebar_tab: tab, ..window };
    then_do(
        if tab is Database {
            picked
        } else {
            then_do(picked, Act::ReloadLists)
        },
        Act::Notify,
    )
}

impl Workspace {
    /// Pick a tab of the left panel.
    pub fn pick_sidebar_tab(&mut self, tab: SidebarTab)
        requires
            well_formed(old(self)@),
        ensures
            final(self)@ == sidebar_picked(old(self)@, tab),
            well_formed(final(self)@),
    {
        self.sidebar_tab = tab;
        assert(self@ =~= (WindowView { sidebar_tab: tab, ..old(self)@ }));
        proof {
            lemma_same_frame(self@, old(self)@);
        }
        if tab != SidebarTab::Database {
            self.say(Effect::ReloadLists);
        }
        self.say(Effect::Notify);
    }

    /// Take the saved queries as they were read. One that could not be read
    /// leaves the list as it was.
    pub fn reload_lists(&mut self, saved: Option<Vec<SavedQuery>>)
        requires
            well_formed(old(self)@),
        ensures
            final(self)@ == then_do(
                (WindowView {
                    saved: match saved {
                        Some(saved) => views(saved@),
                        None => old(self)@.saved,
                    },
                    ..old(self)@
                }),
                Act::Notify,
            ),
            well_formed(final(self)@),
    {
        if let Some(saved) = saved {
            self.saved = saved;
            assert(self@ =~= (WindowView { saved: views(saved@), ..old(self)@ }));
        }
        proof {
            lemma_same_frame(self@, old(self)@);
        }
        self.say(Effect::Notify);
    }
}

/// A modal surface keeps the menu bar from the window behind it.
pub proof fn a_modal_keeps_the_menu_from_the_window(
    window: WindowView,
    action: MenuAction,
    now: i64,
)
    requires
        !takes_commands(window),
    ensures
        menu_asked(window, action, now) == window,
{
}

} // verus!
