//! The window's titlebar: what it reads, and the controls on it.
//!
//! Two groups and nothing else. On the left the two things that make something
//! new, a query and a connection. On the right the three panel toggles, grouped
//! so that they read as one layout switch.
use crate::text::{maybe, texts};
use vstd::prelude::*;

verus! {

/// The titlebar of a window.
#[derive(Debug)]
pub struct Titlebar {
    /// What the connection is called.
    pub connection: String,
    /// The database open on it, which is the half that changes.
    pub database: Option<String>,
    pub left_panel_open: bool,
    pub bottom_dock_open: bool,
    pub right_panel_open: bool,
    pub connected: bool,
    /// How far the sidebar reaches, in points by its bits, where there is one.
    pub sidebar: Option<u32>,
    /// Whether the window lets the desktop through.
    pub vibrant: bool,
}

/// A titlebar, as a value.
#[verifier::ext_equal]
pub struct TitlebarView {
    pub connection: Seq<char>,
    pub database: Option<Seq<char>>,
    pub left_panel_open: bool,
    pub bottom_dock_open: bool,
    pub right_panel_open: bool,
    pub connected: bool,
    pub sidebar: Option<u32>,
    pub vibrant: bool,
}

impl View for Titlebar {
    type V = TitlebarView;

    open spec fn view(&self) -> TitlebarView {
        TitlebarView {
            connection: self.connection@,
            database: maybe(self.database),
            left_panel_open: self.left_panel_open,
            bottom_dock_open: self.bottom_dock_open,
            right_panel_open: self.right_panel_open,
            connected: self.connected,
            sidebar: self.sidebar,
            vibrant: self.vibrant,
        }
    }
}

/// A picture on a control.
#[derive(Clone, Copy, PartialEq, Eq, Structural, Debug)]
pub enum Glyph {
    Plus,
    Database,
    PanelLeft,
    PanelBottom,
    PanelRight,
}

/// How a picture is painted.
#[derive(Clone, Copy, PartialEq, Eq, Structural, Debug)]
pub enum Paint {
    /// In the colour of text.
    Plain,
    /// With the region of the panel it stands for shaded: the panel is open.
    Shaded,
    /// In a quiet colour, with the same frame empty: the panel is closed.
    Empty,
}

/// One control: what it is called in the tree of elements, its picture, and
/// what its tooltip says.
#[derive(Debug)]
pub struct Control {
    pub id: String,
    pub glyph: Glyph,
    pub paint: Paint,
    pub tip: String,
    pub key: String,
}

/// One control, as a value.
#[verifier::ext_equal]
pub struct ControlView {
    pub id: Seq<char>,
    pub glyph: Glyph,
    pub paint: Paint,
    pub tip: Seq<char>,
    pub key: Seq<char>,
}

impl View for Control {
    type V = ControlView;

    open spec fn view(&self) -> ControlView {
        ControlView {
            id: self.id@,
            glyph: self.glyph,
            paint: self.paint,
            tip: self.tip@,
            key: self.key@,
        }
    }
}

/// A stretch of the band behind the titlebar.
#[derive(Clone, Copy, PartialEq, Eq, Structural, Debug)]
pub enum Ground {
    /// Over the sidebar, with the sidebar's plane and its seam. `vibrant` is
    /// whether it is see-through.
    Sidebar { width: u32, vibrant: bool },
    /// The top edge of the page, which is never see-through.
    Page,
}

/// What is painted of a titlebar.
#[derive(Debug)]
pub struct Face {
    /// The stretches of the band, from the left. They meet and do not overlap.
    pub ground: Vec<Ground>,
    /// Whether the dot that says there is no connection is up.
    pub dot: bool,
    /// The path in the middle, one name after another.
    pub path: Vec<String>,
    pub left: Vec<Control>,
    pub right: Vec<Control>,
}

/// How a panel's toggle is painted.
pub open spec fn toggle_paint(open: bool) -> Paint {
    if open {
        Paint::Shaded
    } else {
        Paint::Empty
    }
}

/// The path in the middle of a titlebar.
pub open spec fn title_path(bar: TitlebarView) -> Seq<Seq<char>> {
    match bar.database {
        Some(database) => seq![bar.connection, database],
        None => seq![bar.connection],
    }
}

/// The band behind a titlebar.
pub open spec fn title_ground(bar: TitlebarView) -> Seq<Ground> {
    match bar.sidebar {
        Some(width) => seq![Ground::Sidebar { width, vibrant: bar.vibrant }, Ground::Page],
        None => seq![Ground::Page],
    }
}

/// The controls on the left.
pub open spec fn making_controls() -> Seq<ControlView> {
    seq![
        ControlView {
            id: "new-query"@,
            glyph: Glyph::Plus,
            paint: Paint::Plain,
            tip: "New Query"@,
            key: "\u{2318}T"@,
        },
        ControlView {
            id: "new-connection"@,
            glyph: Glyph::Database,
            paint: Paint::Plain,
            tip: "New Connection"@,
            key: "\u{2318}N"@,
        },
    ]
}

/// The controls on the right.
pub open spec fn panel_controls(bar: TitlebarView) -> Seq<ControlView> {
    seq![
        ControlView {
            id: "toggle-left-panel"@,
            glyph: Glyph::PanelLeft,
            paint: toggle_paint(bar.left_panel_open),
            tip: "Database Tree"@,
            key: "\u{2318}1"@,
        },
        ControlView {
            id: "toggle-bottom-dock"@,
            glyph: Glyph::PanelBottom,
            paint: toggle_paint(bar.bottom_dock_open),
            tip: "Results"@,
            key: "\u{2318}2"@,
        },
        ControlView {
            id: "toggle-right-panel"@,
            glyph: Glyph::PanelRight,
            paint: toggle_paint(bar.right_panel_open),
            tip: "Inspector"@,
            key: "\u{2318}3"@,
        },
    ]
}

/// A control.
fn control(id: &str, glyph: Glyph, paint: Paint, tip: &str, key: &str) -> (control: Control)
    ensures
        control@ == (ControlView { id: id@, glyph, paint, tip: tip@, key: key@ }),
{
    let made = Control {
        id: id.to_owned(),
        glyph,
        paint,
        tip: tip.to_owned(),
        key: key.to_owned(),
    };
    assert(made@ =~= (ControlView { id: id@, glyph, paint, tip: tip@, key: key@ }));
    made
}

/// How a panel's toggle is painted.
fn toggle(open: bool) -> (paint: Paint)
    ensures
        paint == toggle_paint(open),
{
    if open {
        Paint::Shaded
    } else {
        Paint::Empty
    }
}

/// A titlebar for a connection, before anything else is known of it.
pub open spec fn new_titlebar(connection: Seq<char>) -> TitlebarView {
    TitlebarView {
        connection,
        database: None,
        left_panel_open: true,
        bottom_dock_open: true,
        right_panel_open: false,
        connected: true,
        sidebar: None,
        vibrant: false,
    }
}

impl Titlebar {
    /// A titlebar for a connection.
    pub fn new(connection: String) -> (bar: Titlebar)
        ensures
            bar@ == new_titlebar(connection@),
    {
        let bar = Titlebar {
            connection,
            database: None,
            left_panel_open: true,
            bottom_dock_open: true,
            right_panel_open: false,
            connected: true,
            sidebar: None,
            vibrant: false,
        };
        assert(bar@ =~= new_titlebar(connection@));
        bar
    }

    /// How far the sidebar reaches, so the bar can carry its plane and its
    /// seam across the band above it.
    pub fn sidebar(self, width: Option<u32>) -> (bar: Titlebar)
        ensures
            bar@ == (TitlebarView { sidebar: width, ..self@ }),
    {
        Titlebar { sidebar: width, ..self }
    }

    /// Take the see-through tints.
    pub fn vibrant(self, on: bool) -> (bar: Titlebar)
        ensures
            bar@ == (TitlebarView { vibrant: on, ..self@ }),
    {
        Titlebar { vibrant: on, ..self }
    }

    /// Which database is open.
    pub fn database(self, database: String) -> (bar: Titlebar)
        ensures
            bar@ == (TitlebarView { database: Some(database@), ..self@ }),
    {
        Titlebar { database: Some(database), ..self }
    }

    /// Which panels are open.
    pub fn panels(self, left: bool, bottom: bool, right: bool) -> (bar: Titlebar)
        ensures
            bar@ == (TitlebarView {
                left_panel_open: left,
                bottom_dock_open: bottom,
                right_panel_open: right,
                ..self@
            }),
    {
        Titlebar {
            left_panel_open: left,
            bottom_dock_open: bottom,
            right_panel_open: right,
            ..self
        }
    }

    /// Whether there is a server on the other end.
    pub fn connected(self, connected: bool) -> (bar: Titlebar)
        ensures
            bar@ == (TitlebarView { connected, ..self@ }),
    {
        Titlebar { connected, ..self }
    }

    /// What is painted. The dot is up only when it has something to say: a
    /// light that is always green is a light nobody looks at.
    pub fn render(self) -> (face: Face)
        ensures
            face.ground@ == title_ground(self@),
            face.dot == !self@.connected,
            texts(face.path@) == title_path(self@),
            crate::lists::views(face.left@) == making_controls(),
            crate::lists::views(face.right@) == panel_controls(self@),
    {
        let ghost bar = self@;
        let mut ground: Vec<Ground> = Vec::new();
        // Two pieces that meet, not one with the other laid over it: a tint
        // over a tint saturates to opaque.
        if let Some(width) = self.sidebar {
            ground.push(Ground::Sidebar { width, vibrant: self.vibrant });
        }
        ground.push(Ground::Page);
        let mut left: Vec<Control> = Vec::new();
        left.push(control("new-query", Glyph::Plus, Paint::Plain, "New Query", "\u{2318}T"));
        left.push(
            control(
                "new-connection",
                Glyph::Database,
                Paint::Plain,
                "New Connection",
                "\u{2318}N",
            ),
        );
        let mut right: Vec<Control> = Vec::new();
        right.push(
            control(
                "toggle-left-panel",
                Glyph::PanelLeft,
                toggle(self.left_panel_open),
                "Database Tree",
                "\u{2318}1",
            ),
        );
        right.push(
            control(
                "toggle-bottom-dock",
                Glyph::PanelBottom,
                toggle(self.bottom_dock_open),
                "Results",
                "\u{2318}2",
            ),
        );
        right.push(
            control(
                "toggle-right-panel",
                Glyph::PanelRight,
                toggle(self.right_panel_open),
                "Inspector",
                "\u{2318}3",
            ),
        );
        let dot = !self.connected;
        let mut path: Vec<String> = Vec::new();
        path.push(self.connection);
        if let Some(database) = self.database {
            path.push(database);
        }
        assert(texts(path@) =~= title_path(bar));
        assert(ground@ =~= title_ground(bar));
        assert(crate::lists::views(left@) =~= making_controls());
        assert(crate::lists::views(right@) =~= panel_controls(bar));
        Face { ground, dot, path, left, right }
    }
}

} // verus!
