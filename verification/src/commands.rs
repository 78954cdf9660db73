//! What can be asked of a window by name, and which keys ask it.
use crate::browsing::results_refreshed;
use crate::catalog::RelationRef;
use crate::lists::{first, group_views, lemma_first, views};
use crate::pane::{PaneView, ResultsTab};
use crate::running::told;
use crate::saving::{name_asked, query_opened, script_saved};
use crate::showing::group_showing;
use crate::tabbing::{lemma_slot, pane_closed, pane_split, script_opened, slot, tab_closed};
use crate::text::{has_ink, same};
use crate::tree::{entries, Entry, Goal, NodeKind, Target, TreeNode};
use crate::window::{
    active_pane, group_window, lemma_same_frame, then_do, well_formed, with_active, Act, Effect,
    Focus, OrderView, PaletteMode, SavedView, SidebarTab, Surfaces, WindowView, Workspace,
};
use vstd::prelude::*;

verus! {

broadcast use {group_views, group_window, group_showing};

/// Everything that can be asked of a window by name.
#[derive(Clone, Copy, PartialEq, Eq, Structural, Debug)]
pub enum Command {
    Run,
    RunAll,
    Cancel,
    Save,
    SaveAs,
    ExportRows,
    ImportRows,
    CommitChanges,
    DiscardChanges,
    AddRow,
    DeleteRows,
    RevertRows,
    NewTab,
    NewTable,
    CloseTab,
    SplitRight,
    SplitDown,
    ClosePane,
    NewConnection,
    RefreshResults,
    RefreshSchema,
    FormatQuery,
    FollowReference,
    ToggleSidebar,
    ToggleResults,
    ToggleInspector,
    ShowDatabaseTree,
    ShowSavedQueries,
    ShowHistory,
    ShowData,
    ShowStructure,
    ShowDdl,
    ShowMessages,
    OpenSettings,
}

/// The left panel opened, or closed.
#[verifier::opaque]
pub open spec fn sidebar_toggled(window: WindowView) -> WindowView {
    then_do(
        then_do(WindowView { left_open: !window.left_open, ..window }, Act::SaveLayout),
        Act::Notify,
    )
}

/// The right panel opened, or closed.
#[verifier::opaque]
pub open spec fn inspector_toggled(window: WindowView) -> WindowView {
    then_do(
        then_do(WindowView { right_open: !window.right_open, ..window }, Act::SaveLayout),
        Act::Notify,
    )
}

/// The dock opened, or closed. Closing it ends a maximise with it.
#[verifier::opaque]
pub open spec fn dock_toggled(window: WindowView) -> WindowView {
    then_do(
        then_do(
            WindowView {
                dock_open: !window.dock_open,
                dock_maximized: window.dock_maximized && !window.dock_open,
                ..window
            },
            Act::SaveLayout,
        ),
        Act::Notify,
    )
}

/// A tab of the sidebar shown, and the panel it is in opened.
#[verifier::opaque]
pub open spec fn sidebar_shown(window: WindowView, tab: SidebarTab) -> WindowView {
    then_do(WindowView { sidebar_tab: tab, left_open: true, ..window }, Act::Notify)
}

/// A face of the results shown, and the dock they are in opened.
#[verifier::opaque]
pub open spec fn results_shown(window: WindowView, tab: ResultsTab) -> WindowView {
    let docked = WindowView { dock_open: true, ..window };
    then_do(
        with_active(docked, PaneView { results_tab: tab, ..active_pane(docked) }),
        Act::Notify,
    )
}

/// The pane split in two, and which way handed on: whether the new half is
/// beside the old one or below it is how the room is shared. Where no pane can
/// be numbered any more, nothing is split.
pub open spec fn split_towards(window: WindowView, command: Command) -> WindowView {
    if window.next_pane == usize::MAX {
        window
    } else if window.layout.contains(window.active_pane) {
        then_do(pane_split(window), Act::Perform(command))
    } else {
        pane_split(window)
    }
}

/// What a command does. The ones that are about the console's statement, the
/// grid's rows or another window are handed on.
pub open spec fn commanded(window: WindowView, command: Command, now: i64) -> WindowView {
    match command {
        Command::Cancel => told(window, OrderView::Cancel),
        Command::Save => script_saved(window, now),
        Command::SaveAs => if has_ink(active_pane(window).console) {
            name_asked(window)
        } else {
            window
        },
        Command::NewTab => script_opened(window),
        Command::CloseTab => tab_closed(window, active_pane(window).active_tab),
        Command::SplitRight | Command::SplitDown => split_towards(window, command),
        Command::ClosePane => pane_closed(window, window.active_pane),
        Command::RefreshResults => results_refreshed(window),
        Command::RefreshSchema => told(window, OrderView::Refresh),
        Command::ToggleSidebar => sidebar_toggled(window),
        Command::ToggleResults => dock_toggled(window),
        Command::ToggleInspector => inspector_toggled(window),
        Command::ShowDatabaseTree => sidebar_shown(window, SidebarTab::Database),
        Command::ShowSavedQueries => sidebar_shown(window, SidebarTab::Queries),
        Command::ShowHistory => sidebar_shown(window, SidebarTab::History),
        Command::ShowData => results_shown(window, ResultsTab::Data),
        Command::ShowStructure => results_shown(window, ResultsTab::Structure),
        Command::ShowDdl => results_shown(window, ResultsTab::Ddl),
        Command::ShowMessages => results_shown(window, ResultsTab::Messages),
        _ => then_do(window, Act::Perform(command)),
    }
}

/// Whether the window takes commands: a modal is a question, and answering it
/// by opening a tab behind it is not an answer.
pub open spec fn takes_commands(window: WindowView) -> bool {
    let up = window.surfaces;
    !up.palette && !up.save_sheet && !up.export_sheet && !up.import_sheet && !up.object_sheet
        && window.structure_preview is None
}

/// A key that went down, with what was held.
#[derive(Debug)]
pub struct Keystroke {
    pub key: String,
    pub platform: bool,
    pub control: bool,
    pub alt: bool,
    pub shift: bool,
}

/// What a key asks for.
#[derive(Clone, Copy, PartialEq, Eq, Structural, Debug)]
pub enum KeyAction {
    /// Nothing of the window's: the key goes on.
    Pass,
    CloseMenu,
    ClosePalette,
    OpenPalette(PaletteMode),
    Command(Command),
}

/// What a key asks for with the platform's key held, and nothing modal up.
pub open spec fn shortcut(key: Seq<char>, shift: bool) -> KeyAction {
    if key == "k"@ && !shift {
        KeyAction::OpenPalette(PaletteMode::All)
    } else if key == "p"@ {
        KeyAction::OpenPalette(
            if shift {
                PaletteMode::Commands
            } else {
                PaletteMode::Objects
            },
        )
    } else if key == "t"@ && !shift {
        KeyAction::Command(Command::NewTab)
    } else if key == "w"@ && !shift {
        KeyAction::Command(Command::CloseTab)
    } else if key == "d"@ {
        KeyAction::Command(
            if shift {
                Command::SplitDown
            } else {
                Command::SplitRight
            },
        )
    } else if key == "r"@ {
        KeyAction::Command(
            if shift {
                Command::RefreshSchema
            } else {
                Command::RefreshResults
            },
        )
    } else if key == "n"@ && !shift {
        KeyAction::Command(Command::NewConnection)
    } else if key == "1"@ {
        KeyAction::Command(Command::ToggleSidebar)
    } else if key == "2"@ {
        KeyAction::Command(Command::ToggleResults)
    } else if key == "3"@ {
        KeyAction::Command(Command::ToggleInspector)
    } else if key == ","@ {
        KeyAction::Command(Command::OpenSettings)
    } else if key == "."@ {
        KeyAction::Command(Command::Cancel)
    } else {
        KeyAction::Pass
    }
}

/// What a key asks of a window.
pub open spec fn asked_by(window: WindowView, stroke: Keystroke) -> KeyAction {
    if stroke.key@ == "escape"@ && window.surfaces.object_menu {
        KeyAction::CloseMenu
    } else if !stroke.platform || stroke.control || stroke.alt {
        KeyAction::Pass
    } else if window.surfaces.palette {
        if stroke.key@ == "k"@ && !stroke.shift {
            KeyAction::ClosePalette
        } else {
            KeyAction::Pass
        }
    } else if !takes_commands(window) {
        KeyAction::Pass
    } else {
        shortcut(stroke.key@, stroke.shift)
    }
}

/// A key can ask for a command only while the window takes commands.
pub proof fn a_modal_keeps_the_keys_from_the_window(window: WindowView, stroke: Keystroke)
    requires
        !takes_commands(window),
    ensures
        !(asked_by(window, stroke) is Command),
        !(asked_by(window, stroke) is OpenPalette),
{
}

/// What a key asks for with the platform's key held.
fn shortcut_of(key: &str, shift: bool) -> (action: KeyAction)
    ensures
        action == shortcut(key@, shift),
{
    if same(key, "k") && !shift {
        KeyAction::OpenPalette(PaletteMode::All)
    } else if same(key, "p") {
        KeyAction::OpenPalette(
            if shift {
                PaletteMode::Commands
            } else {
                PaletteMode::Objects
            },
        )
    } else if same(key, "t") && !shift {
        KeyAction::Command(Command::NewTab)
    } else if same(key, "w") && !shift {
        KeyAction::Command(Command::CloseTab)
    } else if same(key, "d") {
        KeyAction::Command(
            if shift {
                Command::SplitDown
            } else {
                Command::SplitRight
            },
        )
    } else if same(key, "r") {
        KeyAction::Command(
            if shift {
                Command::RefreshSchema
            } else {
                Command::RefreshResults
            },
        )
    } else if same(key, "n") && !shift {
        KeyAction::Command(Command::NewConnection)
    } else if same(key, "1") {
        KeyAction::Command(Command::ToggleSidebar)
    } else if same(key, "2") {
        KeyAction::Command(Command::ToggleResults)
    } else if same(key, "3") {
        KeyAction::Command(Command::ToggleInspector)
    } else if same(key, ",") {
        KeyAction::Command(Command::OpenSettings)
    } else if same(key, ".") {
        // The platform's way of stopping something, which has to work while
        // the window is busy: that is exactly when it is pressed.
        KeyAction::Command(Command::Cancel)
    } else {
        KeyAction::Pass
    }
}

/// Something the palette offers.
#[derive(Debug)]
pub enum Offer {
    Command(Command),
    Themes,
    Line,
    Object { relation: RelationRef, kind: NodeKind, name: String },
    Query { id: u128, name: String },
}

/// Something the palette offers, as a value.
pub enum OfferView {
    Command(Command),
    Themes,
    Line,
    Object { relation: (Seq<char>, Seq<char>), kind: NodeKind, name: Seq<char> },
    Query { id: u128, name: Seq<char> },
}

impl View for Offer {
    type V = OfferView;

    open spec fn view(&self) -> OfferView {
        match self {
            Offer::Command(command) => OfferView::Command(*command),
            Offer::Themes => OfferView::Themes,
            Offer::Line => OfferView::Line,
            Offer::Object { relation, kind, name } => OfferView::Object {
                relation: relation.parts(),
                kind: *kind,
                name: name@,
            },
            Offer::Query { id, name } => OfferView::Query { id: *id, name: name@ },
        }
    }
}

/// The objects of a tree that can be opened, in order. Relations only: what a
/// walk of a keyspace reached would answer differently every time.
pub open spec fn object_offers(tree: Seq<Entry>) -> Seq<OfferView>
    decreases tree.len(),
{
    if tree.len() == 0 {
        Seq::empty()
    } else {
        let before = object_offers(tree.drop_last());
        let row = tree.last().row;
        match row.target {
            Some(Goal::Relation(schema, name)) => if row.kind.spec_is_relation() {
                before.push(
                    OfferView::Object { relation: (schema, name), kind: row.kind, name: row.name },
                )
            } else {
                before
            },
            _ => before,
        }
    }
}

/// The saved queries as offers, in order.
pub open spec fn query_offers(saved: Seq<SavedView>) -> Seq<OfferView> {
    Seq::new(saved.len(), |i: int| OfferView::Query { id: saved[i].id, name: saved[i].name })
}

/// The commands as offers, in order.
pub open spec fn command_offers(commands: Seq<Command>) -> Seq<OfferView> {
    Seq::new(commands.len(), |i: int| OfferView::Command(commands[i]))
}

/// Everything the palette can offer, in the order it offers it: the commands,
/// then the two modes that are also things to do, then the tables and views,
/// then the saved queries.
pub open spec fn offers(window: WindowView, commands: Seq<Command>) -> Seq<OfferView> {
    command_offers(commands) + seq![OfferView::Themes, OfferView::Line] + object_offers(
        window.tree,
    ) + query_offers(window.saved)
}

/// Add the objects of a tree that can be opened.
fn push_objects(out: &mut Vec<Offer>, tree: &Vec<TreeNode>)
    ensures
        views(final(out)@) == views(old(out)@) + object_offers(entries(tree@)),
{
    let ghost all = entries(tree@);
    let ghost had = views(out@);
    let mut at: usize = 0;
    assert(views(out@) =~= had + object_offers(all.take(0)));
    while at < tree.len()
        invariant
            at <= tree@.len(),
            all == entries(tree@),
            views(out@) == had + object_offers(all.take(at as int)),
        decreases tree@.len() - at,
    {
        let ghost so_far = views(out@);
        assert(all.take(at + 1).drop_last() =~= all.take(at as int));
        assert(all[at as int] == tree@[at as int].entry());
        let node = &tree[at];
        if let Some(Target::Relation(relation)) = &node.target {
            if node.kind.is_relation() {
                out.push(
                    Offer::Object {
                        relation: relation.clone(),
                        kind: node.kind,
                        name: node.name.clone(),
                    },
                );
            }
        }
        assert(views(out@) =~= had + object_offers(all.take(at + 1)));
        at += 1;
    }
    assert(all.take(at as int) =~= all);
}

impl Workspace {
    /// Everything the palette can offer.
    pub(crate) fn offers(&self, commands: &Vec<Command>) -> (items: Vec<Offer>)
        ensures
            views(items@) == offers(self@, commands@),
    {
        let mut items: Vec<Offer> = Vec::new();
        let mut at: usize = 0;
        while at < commands.len()
            invariant
                at <= commands@.len(),
                views(items@) == command_offers(commands@).take(at as int),
            decreases commands@.len() - at,
        {
            items.push(Offer::Command(commands[at]));
            assert(views(items@) =~= command_offers(commands@).take(at + 1));
            at += 1;
        }
        assert(views(items@) =~= command_offers(commands@));
        items.push(Offer::Themes);
        items.push(Offer::Line);
        assert(views(items@) =~= command_offers(commands@) + seq![
            OfferView::Themes,
            OfferView::Line,
        ]);
        push_objects(&mut items, &self.tree);
        let ghost had = views(items@);
        let mut at: usize = 0;
        assert(views(items@) =~= had + query_offers(self@.saved).take(0));
        while at < self.saved.len()
            invariant
                at <= self.saved@.len(),
                views(items@) == had + query_offers(self@.saved).take(at as int),
            decreases self.saved@.len() - at,
        {
            assert(self@.saved[at as int] == self.saved@[at as int]@);
            items.push(
                Offer::Query { id: self.saved[at].id, name: self.saved[at].name.clone() },
            );
            assert(views(items@) =~= had + query_offers(self@.saved).take(at + 1));
            at += 1;
        }
        assert(query_offers(self@.saved).take(at as int) =~= query_offers(self@.saved));
        items
    }

    /// Whether the window takes commands.
    pub fn accepts_commands(&self) -> (answer: bool)
        ensures
            answer == takes_commands(self@),
    {
        !self.surfaces.palette && !self.surfaces.save_sheet && !self.surfaces.export_sheet
            && !self.surfaces.import_sheet && !self.surfaces.object_sheet
            && self.structure_preview.is_none()
    }

    /// What a key asks for.
    pub fn key_action(&self, stroke: &Keystroke) -> (action: KeyAction)
        ensures
            action == asked_by(self@, *stroke),
    {
        let key = stroke.key.as_str();
        if same(key, "escape") && self.surfaces.object_menu {
            return KeyAction::CloseMenu;
        }
        if !stroke.platform || stroke.control || stroke.alt {
            return KeyAction::Pass;
        }
        if self.surfaces.palette {
            return if same(key, "k") && !stroke.shift {
                KeyAction::ClosePalette
            } else {
                KeyAction::Pass
            };
        }
        if !self.accepts_commands() {
            return KeyAction::Pass;
        }
        shortcut_of(key, stroke.shift)
    }

    /// Open or close the left panel.
    pub fn toggle_left_panel(&mut self)
        requires
            well_formed(old(self)@),
        ensures
            final(self)@ == sidebar_toggled(old(self)@),
            well_formed(final(self)@),
    {
        reveal(sidebar_toggled);
        self.left_open = !self.left_open;
        assert(self@ =~= (WindowView { left_open: !old(self)@.left_open, ..old(self)@ }));
        proof {
            lemma_same_frame(self@, old(self)@);
        }
        self.say(Effect::SaveLayout);
        self.say(Effect::Notify);
    }

    /// Open or close the right panel.
    pub fn toggle_right_panel(&mut self)
        requires
            well_formed(old(self)@),
        ensures
            final(self)@ == inspector_toggled(old(self)@),
            well_formed(final(self)@),
    {
        reveal(inspector_toggled);
        self.right_open = !self.right_open;
        assert(self@ =~= (WindowView { right_open: !old(self)@.right_open, ..old(self)@ }));
        proof {
            lemma_same_frame(self@, old(self)@);
        }
        self.say(Effect::SaveLayout);
        self.say(Effect::Notify);
    }

    /// Open or close the dock.
    pub fn toggle_bottom_dock(&mut self)
        requires
            well_formed(old(self)@),
        ensures
            final(self)@ == dock_toggled(old(self)@),
            well_formed(final(self)@),
    {
        reveal(dock_toggled);
        self.dock_open = !self.dock_open;
        if !self.dock_open {
            self.dock_maximized = false;
        }
        assert(self@ =~= (WindowView {
            dock_open: !old(self)@.dock_open,
            dock_maximized: old(self)@.dock_maximized && !old(self)@.dock_open,
            ..old(self)@
        }));
        proof {
            lemma_same_frame(self@, old(self)@);
        }
        self.say(Effect::SaveLayout);
        self.say(Effect::Notify);
    }

    /// Give the dock the whole centre, or give the console back.
    pub fn toggle_dock_maximized(&mut self)
        requires
            well_formed(old(self)@),
        ensures
            final(self)@ == then_do(
                (WindowView { dock_maximized: !old(self)@.dock_maximized, ..old(self)@ }),
                Act::Notify,
            ),
            well_formed(final(self)@),
    {
        self.dock_maximized = !self.dock_maximized;
        assert(self@ =~= (WindowView {
            dock_maximized: !old(self)@.dock_maximized,
            ..old(self)@
        }));
        proof {
            lemma_same_frame(self@, old(self)@);
        }
        self.say(Effect::Notify);
    }

    /// Show a tab of the sidebar. Showing one in a panel that is closed has to
    /// open the panel too, or the command appears to do nothing at all.
    pub fn show_sidebar_tab(&mut self, tab: SidebarTab)
        requires
            well_formed(old(self)@),
        ensures
            final(self)@ == sidebar_shown(old(self)@, tab),
            well_formed(final(self)@),
    {
        reveal(sidebar_shown);
        self.sidebar_tab = tab;
        self.left_open = true;
        assert(self@ =~= (WindowView { sidebar_tab: tab, left_open: true, ..old(self)@ }));
        proof {
            lemma_same_frame(self@, old(self)@);
        }
        self.say(Effect::Notify);
    }

    /// Show a face of the results, in an open dock.
    pub fn show_results_tab(&mut self, tab: ResultsTab)
        requires
            well_formed(old(self)@),
        ensures
            final(self)@ == results_shown(old(self)@, tab),
            well_formed(final(self)@),
    {
        reveal(results_shown);
        self.dock_open = true;
        assert(self@ =~= (WindowView { dock_open: true, ..old(self)@ }));
        proof {
            lemma_same_frame(self@, old(self)@);
        }
        self.select_results_tab(tab);
    }

    /// Show a face of the results.
    pub fn select_results_tab(&mut self, tab: ResultsTab)
        requires
            well_formed(old(self)@),
        ensures
            final(self)@ == then_do(
                with_active(
                    old(self)@,
                    (PaneView { results_tab: tab, ..active_pane(old(self)@) }),
                ),
                Act::Notify,
            ),
            well_formed(final(self)@),
    {
        let at = self.active_at();
        let ghost before = *self;
        self.panes[at].results_tab = tab;
        assert(self.panes@ =~= before.panes@.update(at as int, self.panes@[at as int]));
        proof {
            Self::lemma_pane_changed(before, *self, at as int);
        }
        assert(self.panes@[at as int]@ =~= (PaneView {
            results_tab: tab,
            ..active_pane(old(self)@)
        }));
        self.say(Effect::Notify);
    }

    /// Split the active pane, and hand on which way.
    fn split_towards(&mut self, command: Command)
        requires
            well_formed(old(self)@),
        ensures
            final(self)@ == split_towards(old(self)@, command),
            well_formed(final(self)@),
    {
        if self.next_pane == usize::MAX {
            return ;
        }
        let seated = slot(&self.layout, self.active_pane) < self.layout.len();
        proof {
            lemma_slot(self@.layout, self@.active_pane);
        }
        self.split_pane();
        if seated {
            self.say(Effect::Perform(command));
        }
    }

    /// The one place a named command runs. The palette, the shortcuts and the
    /// toolbar all arrive here, so none of them can mean something different
    /// by the same word.
    pub fn run_command(&mut self, command: Command, now: i64)
        requires
            well_formed(old(self)@),
        ensures
            final(self)@ == commanded(old(self)@, command, now),
            well_formed(final(self)@),
    {
        match command {
            Command::Cancel => self.cancel(),
            Command::Save => self.save_query(now),
            Command::SaveAs => self.save_query_as(),
            Command::NewTab => self.new_query_tab(),
            Command::CloseTab => {
                let at = self.active_at();
                let index = self.panes[at].active_tab;
                self.close_tab(index);
            },
            Command::SplitRight | Command::SplitDown => self.split_towards(command),
            Command::ClosePane => {
                let id = self.active_pane;
                self.close_pane(id);
            },
            Command::RefreshResults => self.refresh_results(),
            Command::RefreshSchema => self.refresh_schema(),
            Command::ToggleSidebar => self.toggle_left_panel(),
            Command::ToggleResults => self.toggle_bottom_dock(),
            Command::ToggleInspector => self.toggle_right_panel(),
            Command::ShowDatabaseTree => self.show_sidebar_tab(SidebarTab::Database),
            Command::ShowSavedQueries => self.show_sidebar_tab(SidebarTab::Queries),
            Command::ShowHistory => self.show_sidebar_tab(SidebarTab::History),
            Command::ShowData => self.show_results_tab(ResultsTab::Data),
            Command::ShowStructure => self.show_results_tab(ResultsTab::Structure),
            Command::ShowDdl => self.show_results_tab(ResultsTab::Ddl),
            Command::ShowMessages => self.show_results_tab(ResultsTab::Messages),
            _ => self.say(Effect::Perform(command)),
        }
    }

    /// A key that went down. Says whether it was the window's: any other goes
    /// on.
    ///
    /// These are the gestures the editor and the grid deliberately let
    /// through, which is what makes this the last stop rather than the first.
    pub fn on_key(&mut self, stroke: &Keystroke, now: i64) -> (taken: bool)
        requires
            well_formed(old(self)@),
        ensures
            final(self)@ == key_pressed(old(self)@, *stroke, now),
            taken == !(asked_by(old(self)@, *stroke) is Pass),
            well_formed(final(self)@),
    {
        match self.key_action(stroke) {
            KeyAction::Pass => {
                return false;
            },
            KeyAction::CloseMenu => {
                self.surfaces = Surfaces { object_menu: false, ..self.surfaces };
                assert(self@ =~= (WindowView {
                    surfaces: (Surfaces { object_menu: false, ..old(self)@.surfaces }),
                    ..old(self)@
                }));
                proof {
                    lemma_same_frame(self@, old(self)@);
                }
                self.say(Effect::Notify);
            },
            KeyAction::ClosePalette => self.close_palette(),
            KeyAction::OpenPalette(mode) => self.open_palette(mode),
            KeyAction::Command(command) => self.run_command(command, now),
        }
        true
    }

    /// A command asked for from the menu bar.
    pub fn run_menu_command(&mut self, command: Command, now: i64)
        requires
            well_formed(old(self)@),
        ensures
            final(self)@ == if takes_commands(old(self)@) {
                commanded(old(self)@, command, now)
            } else {
                old(self)@
            },
            well_formed(final(self)@),
    {
        if self.accepts_commands() {
            self.run_command(command, now);
        }
    }

    /// Open the palette, with the keyboard in it.
    #[verifier::spinoff_prover]
    pub fn open_palette(&mut self, mode: PaletteMode)
        requires
            well_formed(old(self)@),
        ensures
            well_formed(final(self)@),
            final(self)@ == palette_opened(old(self)@, mode),
    {
        self.surfaces = Surfaces { palette: true, ..self.surfaces };
        assert(self@ =~= (WindowView {
            surfaces: (Surfaces { palette: true, ..old(self)@.surfaces }),
            ..old(self)@
        }));
        proof {
            lemma_same_frame(self@, old(self)@);
        }
        self.say(Effect::OpenPalette(mode));
        self.say(Effect::Notify);
    }

    /// Close the palette, and give the keyboard back to the console.
    pub fn close_palette(&mut self)
        requires
            well_formed(old(self)@),
        ensures
            final(self)@ == palette_closed(old(self)@),
            well_formed(final(self)@),
    {
        self.surfaces = Surfaces { palette: false, ..self.surfaces };
        let ghost closed = WindowView {
            surfaces: Surfaces { palette: false, ..old(self)@.surfaces },
            ..old(self)@
        };
        assert(self@.surfaces == closed.surfaces);
        assert(self@ == closed);
        proof {
            lemma_same_frame(self@, old(self)@);
        }
        self.say(Effect::ClosePalette);
        self.say(Effect::Focus(Focus::Console));
        self.say(Effect::Notify);
    }

    /// Open the saved query a palette row named, if it is still there.
    pub fn load_query(&mut self, id: u128)
        requires
            well_formed(old(self)@),
        ensures
            final(self)@ == ({
                let at = first(old(self)@.saved, crate::saving::is_query(id));
                if at < old(self)@.saved.len() {
                    query_opened(old(self)@, at as usize)
                } else {
                    old(self)@
                }
            }),
            well_formed(final(self)@),
    {
        let ghost all = self@.saved;
        let mut at: usize = 0;
        while at < self.saved.len() && self.saved[at].id != id
            invariant
                at <= self.saved@.len(),
                all == views(self.saved@),
                forall|i: int| 0 <= i < at ==> !crate::saving::is_query(id)(#[trigger] all[i]),
            decreases self.saved@.len() - at,
        {
            assert(all[at as int] == self.saved@[at as int]@);
            at += 1;
        }
        proof {
            if at < self.saved@.len() {
                assert(all[at as int] == self.saved@[at as int]@);
            }
            lemma_first(all, crate::saving::is_query(id), at as int);
        }
        if at < self.saved.len() {
            self.load_saved_query(at);
        }
    }
}

/// What a key asks for done.
pub open spec fn key_pressed(window: WindowView, stroke: Keystroke, now: i64) -> WindowView {
    match asked_by(window, stroke) {
        KeyAction::Pass => window,
        KeyAction::CloseMenu => then_do(
            WindowView {
                surfaces: Surfaces { object_menu: false, ..window.surfaces },
                ..window
            },
            Act::Notify,
        ),
        KeyAction::ClosePalette => palette_closed(window),
        KeyAction::OpenPalette(mode) => palette_opened(window, mode),
        KeyAction::Command(command) => commanded(window, command, now),
    }
}

/// The palette opened, with the keyboard in it.
pub open spec fn palette_opened(window: WindowView, mode: PaletteMode) -> WindowView {
    then_do(
        then_do(
            WindowView { surfaces: Surfaces { palette: true, ..window.surfaces }, ..window },
            Act::OpenPalette(mode),
        ),
        Act::Notify,
    )
}

/// The palette closed.
pub open spec fn palette_closed(window: WindowView) -> WindowView {
    then_do(
        then_do(
            then_do(
                WindowView {
                    surfaces: Surfaces { palette: false, ..window.surfaces },
                    ..window
                },
                Act::ClosePalette,
            ),
            Act::Focus(Focus::Console),
        ),
        Act::Notify,
    )
}

} // verus!
