//! What a frame of the window shows: the titlebar, the regions, the status bar
//! and whatever is over them.
use crate::badge::BadgeTone;
use crate::catalog::SafetyLevel;
use crate::lists::group_views;
use crate::pane::{showing, CenterKind, PaneView};
use crate::session::{state_label, SessionState, SessionView, StateView};
use crate::text::{decimal, maybe, push_decimal, texts};
use crate::titlebar::{new_titlebar, Titlebar, TitlebarView};
use crate::window::{
    active_pane, browsed_table, catalog, described, group_window, well_formed, Surfaces,
    WindowView, Workspace,
};
use crate::wording::{count_of, count_text, first_word, grouped, short_version, thousands};
use vstd::prelude::*;

verus! {

broadcast use {group_views, group_window};

/// The one thing on the status bar that is read at a glance.
#[derive(Clone, Copy, PartialEq, Eq, Structural, Debug)]
pub enum Dot {
    Success,
    Warning,
    Danger,
    Disabled,
}

/// The dot of a state.
pub open spec fn dot_of(state: StateView) -> Dot {
    match state {
        StateView::Connected => Dot::Success,
        StateView::Connecting => Dot::Warning,
        StateView::Failed(_) => Dot::Danger,
        StateView::Offline => Dot::Disabled,
    }
}

/// What the status bar says of the last statement, while nothing else does.
#[derive(Debug)]
pub struct Outcome {
    /// How long it took, in nanoseconds. Nothing until something has run.
    pub elapsed: Option<u128>,
    pub count: String,
}

/// What the status bar says.
#[derive(Debug)]
pub struct StatusBar {
    pub dot: Dot,
    pub server: String,
    /// Where you are, as a path.
    pub location: Vec<String>,
    pub outcome: Option<Outcome>,
    /// Where the caret is, while there is one on screen.
    pub caret: Option<String>,
}

/// Where the window's session is.
pub open spec fn state_of(window: WindowView) -> StateView {
    match described(window) {
        Some(session) => session.state,
        None => StateView::Offline,
    }
}

/// Which server, not which build of it.
pub open spec fn server_text(window: WindowView) -> Seq<char> {
    match described(window) {
        Some(session) => match session.snapshot {
            Some(snapshot) => "postgres "@ + first_word(snapshot.server_version@),
            None => state_label(session.state),
        },
        None => "No connection"@,
    }
}

/// Database, schema, and the table when one is open. A table in another schema
/// replaces the schema rather than being appended to it.
pub open spec fn location_path(window: WindowView) -> Seq<Seq<char>> {
    match described(window) {
        Some(session) => match session.snapshot {
            Some(snapshot) => match browsed_table(window) {
                Some(relation) => seq![snapshot.database@, relation.0, relation.1],
                None => seq![snapshot.database@, snapshot.current_schema@],
            },
            None => Seq::empty(),
        },
        None => Seq::empty(),
    }
}

/// How many rows, or how many were changed.
pub open spec fn outcome_count(pane: PaneView) -> Seq<char> {
    match pane.affected {
        Some(count) => count_text(count as usize as nat, "row"@) + " affected"@,
        None => if pane.truncated {
            grouped(pane.row_count as nat, ',') + "+ rows"@
        } else {
            count_text(pane.row_count as nat, "row"@)
        },
    }
}

/// Where the caret is, counted from one.
pub open spec fn caret_text(row: nat, column: nat) -> Seq<char> {
    "Ln "@ + decimal(row + 1) + ", Col "@ + decimal(column + 1)
}

impl Workspace {
    /// Which server, not which build of it: the packaging half of a version is
    /// forty characters nobody needs at a glance.
    fn server_line(&self) -> (text: String)
        ensures
            text@ == server_text(self@),
    {
        match self.described() {
            Some(session) => match &session.snapshot {
                Some(snapshot) => {
                    let mut text = "postgres ".to_owned();
                    text.append(short_version(snapshot.server_version.as_str()).as_str());
                    text
                },
                None => session.state.label(),
            },
            None => "No connection".to_owned(),
        }
    }

    /// Where you are, as a path.
    fn location(&self) -> (path: Vec<String>)
        requires
            well_formed(self@),
        ensures
            texts(path@) == location_path(self@),
    {
        let at = self.active_at();
        let mut path: Vec<String> = Vec::new();
        if let Some(session) = self.described() {
            if let Some(snapshot) = &session.snapshot {
                path.push(snapshot.database.clone());
                if let Some(tab) = self.panes[at].active() {
                    if tab.kind == CenterKind::Table {
                        if let Some(relation) = &tab.relation {
                            path.push(relation.schema.clone());
                            path.push(relation.name.clone());
                            assert(texts(path@) =~= location_path(self@));
                            return path;
                        }
                    }
                }
                path.push(snapshot.current_schema.clone());
            }
        }
        assert(texts(path@) =~= location_path(self@));
        path
    }

    /// What the status bar says.
    ///
    /// The duration and the row count live under the grid, and are repeated
    /// here only while that footer is not on screen. The caret is gone while
    /// there is no editor on screen.
    pub fn status_bar(&self, results_showing: bool, collapsed: bool, caret: (usize, usize)) -> (bar:
        StatusBar)
        requires
            well_formed(self@),
            caret.0 < usize::MAX,
            caret.1 < usize::MAX,
        ensures
            bar.dot == dot_of(state_of(self@)),
            bar.server@ == server_text(self@),
            texts(bar.location@) == location_path(self@),
            match bar.outcome {
                Some(outcome) => !results_showing && outcome.elapsed == active_pane(self@).elapsed
                    && outcome.count@ == outcome_count(active_pane(self@)),
                None => results_showing,
            },
            maybe(bar.caret) == if collapsed {
                None
            } else {
                Some(caret_text(caret.0 as nat, caret.1 as nat))
            },
    {
        let dot = match self.described() {
            Some(session) => match &session.state {
                SessionState::Connected => Dot::Success,
                SessionState::Connecting => Dot::Warning,
                SessionState::Failed(_) => Dot::Danger,
                SessionState::Offline => Dot::Disabled,
            },
            None => Dot::Disabled,
        };
        let at = self.active_at();
        let outcome = if results_showing {
            None
        } else {
            let count = match self.panes[at].affected {
                // A statement that returned no rows reports what it changed: a
                // row count of zero would read as no matches.
                Some(count) => {
                    let mut text = count_of(count as usize, "row");
                    text.append(" affected");
                    text
                },
                None => if self.panes[at].truncated {
                    let mut text = thousands(self.panes[at].row_count);
                    text.append("+ rows");
                    text
                } else {
                    count_of(self.panes[at].row_count, "row")
                },
            };
            Some(Outcome { elapsed: self.panes[at].elapsed, count })
        };
        let caret = if collapsed {
            None
        } else {
            let mut text = "Ln ".to_owned();
            push_decimal(&mut text, (caret.0 + 1) as u64);
            text.append(", Col ");
            push_decimal(&mut text, (caret.1 + 1) as u64);
            Some(text)
        };
        StatusBar { dot, server: self.server_line(), location: self.location(), outcome, caret }
    }

    /// Whether the dock is on screen, which is not the same question as
    /// whether its switch is on: a structure tab hides it regardless.
    pub fn dock_visible(&self) -> (answer: bool)
        requires
            well_formed(self@),
        ensures
            answer == dock_showing(self@),
    {
        let at = self.active_at();
        let design = match self.panes[at].active() {
            Some(tab) => tab.kind == CenterKind::Structure,
            None => false,
        };
        self.dock_open && !design
    }

    /// The titlebar of the window.
    pub fn titlebar(&self) -> (bar: Titlebar)
        requires
            well_formed(self@),
        ensures
            bar@ == window_titlebar(self@),
    {
        let (name, database, connected) = match self.described() {
            Some(session) => (
                session.config.display_name.clone(),
                match &session.snapshot {
                    Some(snapshot) => snapshot.database.clone(),
                    None => "tupli".to_owned(),
                },
                session.state.is_connected(),
            ),
            None => ("no connection".to_owned(), "tupli".to_owned(), false),
        };
        let bar = Titlebar::new(name).database(database).connected(connected).panels(
            self.left_open,
            self.dock_visible(),
            self.right_open,
        );
        assert(bar@ =~= window_titlebar(self@));
        bar
    }

    /// The badge beside the name: the safety level, because it is what changes
    /// what the app will let you do.
    pub fn badge(&self) -> (badge: Option<(String, BadgeTone)>)
        ensures
            badge_view(badge) == safety_badge(described(self@)),
    {
        match self.described() {
            Some(session) => match session.config.safety {
                SafetyLevel::Normal => None,
                SafetyLevel::Confirm => Some(("confirm".to_owned(), BadgeTone::Warning)),
                SafetyLevel::ReadOnly => Some(("read-only".to_owned(), BadgeTone::Danger)),
            },
            None => None,
        }
    }

    /// What a frame shows, from back to front.
    pub fn render(&self) -> (frame: Frame)
        requires
            well_formed(self@),
        ensures
            frame.regions@ == regions_of(self@),
            frame.handles@ == handles_of(self@),
            frame.over@ == layers_of(self@),
    {
        let mut regions: Vec<Region> = Vec::new();
        let mut handles: Vec<Region> = Vec::new();
        if self.left_open {
            regions.push(Region::Sidebar);
            handles.push(Region::Sidebar);
        }
        regions.push(Region::Center);
        if self.right_open {
            regions.push(Region::Inspector);
            handles.push(Region::Inspector);
        }
        assert(regions@ =~= regions_of(self@));
        assert(handles@ =~= handles_of(self@));
        let over = self.layers();
        Frame { regions, handles, over }
    }
}

/// A badge, as a value.
pub open spec fn badge_view(badge: Option<(String, BadgeTone)>) -> Option<(Seq<char>, BadgeTone)> {
    match badge {
        Some(badge) => Some((badge.0@, badge.1)),
        None => None,
    }
}

/// The badge of a session's safety level.
pub open spec fn safety_badge(session: Option<SessionView>) -> Option<(Seq<char>, BadgeTone)> {
    match session {
        Some(session) => match session.config.safety {
            SafetyLevel::Normal => None,
            SafetyLevel::Confirm => Some(("confirm"@, BadgeTone::Warning)),
            SafetyLevel::ReadOnly => Some(("read-only"@, BadgeTone::Danger)),
        },
        None => None,
    }
}

/// Whether the dock is on screen.
pub open spec fn dock_showing(window: WindowView) -> bool {
    window.dock_open && match showing(active_pane(window)) {
        Some(tab) => !(tab.kind is Structure),
        None => true,
    }
}

/// The titlebar of a window.
pub open spec fn window_titlebar(window: WindowView) -> TitlebarView {
    let session = described(window);
    TitlebarView {
        database: Some(
            match session {
                Some(session) => match session.snapshot {
                    Some(snapshot) => snapshot.database@,
                    None => "tupli"@,
                },
                None => "tupli"@,
            },
        ),
        connected: match session {
            Some(session) => session.state is Connected,
            None => false,
        },
        left_panel_open: window.left_open,
        bottom_dock_open: dock_showing(window),
        right_panel_open: window.right_open,
        ..new_titlebar(
            match session {
                Some(session) => session.config.display_name,
                None => "no connection"@,
            },
        )
    }
}

/// A region under the titlebar.
#[derive(Clone, Copy, PartialEq, Eq, Structural, Debug)]
pub enum Region {
    Sidebar,
    Center,
    Inspector,
}

/// Something painted over the window.
#[derive(Clone, Copy, PartialEq, Eq, Structural, Debug)]
pub enum Layer {
    DragShield,
    SaveSheet,
    ExportSheet,
    ImportSheet,
    Palette,
    CommitPreview,
    ObjectSheet,
    StructurePreview,
    ObjectMenu,
    RowMenu,
    DatabaseMenu,
    FilterMenu,
    DecoderMenu,
}

/// What a frame shows: the regions from the left, the seams that can be
/// dragged, and what is over them from back to front.
#[derive(Debug)]
pub struct Frame {
    pub regions: Vec<Region>,
    pub handles: Vec<Region>,
    pub over: Vec<Layer>,
}

/// The regions of a window, from the left.
pub open spec fn regions_of(window: WindowView) -> Seq<Region> {
    (if window.left_open {
        seq![Region::Sidebar]
    } else {
        Seq::empty()
    }) + seq![Region::Center] + (if window.right_open {
        seq![Region::Inspector]
    } else {
        Seq::empty()
    })
}

/// The seams of a window that can be dragged. They come after the regions, so
/// that no region is painted over half of one.
pub open spec fn handles_of(window: WindowView) -> Seq<Region> {
    (if window.left_open {
        seq![Region::Sidebar]
    } else {
        Seq::empty()
    }) + (if window.right_open {
        seq![Region::Inspector]
    } else {
        Seq::empty()
    })
}

/// A layer, where it is up.
pub open spec fn layer(up: bool, layer: Layer) -> Seq<Layer> {
    if up {
        seq![layer]
    } else {
        Seq::empty()
    }
}

/// What is over a window, from back to front: the sheets over everything, and
/// the menus over even the sheets, because they are anchored to a point that
/// was just clicked.
///
/// The menu of databases waits for a catalog to fill it from, and a menu of the
/// filter for a condition to be about.
pub open spec fn layers_of(window: WindowView) -> Seq<Layer> {
    stacked(
        window.surfaces,
        window.structure_preview is Some,
        window.surfaces.database_menu && catalog(window) is Some,
        window.surfaces.filter_menu is Some && active_pane(window).composer is Some,
    )
}

/// The layers of some surfaces, from back to front.
pub open spec fn stacked(
    surfaces: Surfaces,
    structure_preview: bool,
    database_menu: bool,
    filter_menu: bool,
) -> Seq<Layer> {
    layer(surfaces.dragging, Layer::DragShield) + layer(surfaces.save_sheet, Layer::SaveSheet)
        + layer(surfaces.export_sheet, Layer::ExportSheet) + layer(
        surfaces.import_sheet,
        Layer::ImportSheet,
    ) + layer(surfaces.palette, Layer::Palette) + layer(
        surfaces.commit_preview,
        Layer::CommitPreview,
    ) + layer(surfaces.object_sheet, Layer::ObjectSheet) + layer(
        structure_preview,
        Layer::StructurePreview,
    ) + layer(surfaces.object_menu, Layer::ObjectMenu) + layer(surfaces.row_menu, Layer::RowMenu)
        + layer(database_menu, Layer::DatabaseMenu) + layer(filter_menu, Layer::FilterMenu) + layer(
        surfaces.decoder_menu,
        Layer::DecoderMenu,
    )
}

/// Add a layer where it is up.
fn push_layer(layers: &mut Vec<Layer>, up: bool, one: Layer)
    ensures
        final(layers)@ == old(layers)@ + layer(up, one),
{
    if up {
        layers.push(one);
    }
    assert(layers@ =~= old(layers)@ + layer(up, one));
}

impl Surfaces {
    /// The layers of the surfaces, from back to front.
    fn layers(
        &self,
        structure_preview: bool,
        database_menu: bool,
        filter_menu: bool,
    ) -> (layers: Vec<Layer>)
        ensures
            layers@ == stacked(*self, structure_preview, database_menu, filter_menu),
    {
        let mut layers: Vec<Layer> = Vec::new();
        push_layer(&mut layers, self.dragging, Layer::DragShield);
        assert(layers@ =~= layer(self.dragging, Layer::DragShield));
        push_layer(&mut layers, self.save_sheet, Layer::SaveSheet);
        push_layer(&mut layers, self.export_sheet, Layer::ExportSheet);
        push_layer(&mut layers, self.import_sheet, Layer::ImportSheet);
        push_layer(&mut layers, self.palette, Layer::Palette);
        push_layer(&mut layers, self.commit_preview, Layer::CommitPreview);
        push_layer(&mut layers, self.object_sheet, Layer::ObjectSheet);
        push_layer(&mut layers, structure_preview, Layer::StructurePreview);
        push_layer(&mut layers, self.object_menu, Layer::ObjectMenu);
        push_layer(&mut layers, self.row_menu, Layer::RowMenu);
        push_layer(&mut layers, database_menu, Layer::DatabaseMenu);
        push_layer(&mut layers, filter_menu, Layer::FilterMenu);
        push_layer(&mut layers, self.decoder_menu, Layer::DecoderMenu);
        layers
    }
}

impl Workspace {
    /// What is over the window, from back to front.
    fn layers(&self) -> (layers: Vec<Layer>)
        requires
            well_formed(self@),
        ensures
            layers@ == layers_of(self@),
    {
        let known = match self.described() {
            Some(session) => session.snapshot.is_some(),
            None => false,
        };
        let at = self.active_at();
        let composing = self.panes[at].composer.is_some();
        self.surfaces.layers(
            self.structure_preview.is_some(),
            self.surfaces.database_menu && known,
            self.surfaces.filter_menu.is_some() && composing,
        )
    }
}

} // verus!
