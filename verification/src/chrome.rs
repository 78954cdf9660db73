//! Window chrome: separators, toolbars and headers.
use crate::casing::{to_uppercase, uppercase};
use crate::icon::{IconName, Paint};
use crate::text::maybe;
use vstd::prelude::*;

verus! {

/// Which way a line runs.
#[derive(Clone, Copy, PartialEq, Eq, Structural, Debug)]
pub enum Axis {
    Horizontal,
    Vertical,
}

/// A hairline.
#[derive(Clone, Copy, PartialEq, Eq, Structural, Debug)]
pub struct Divider {
    pub axis: Axis,
    /// How far it stops short of either end, in points.
    pub inset: u32,
}

impl Divider {
    /// One that runs across.
    pub fn horizontal() -> (divider: Divider)
        ensures
            divider == (Divider { axis: Axis::Horizontal, inset: 0 }),
    {
        Divider { axis: Axis::Horizontal, inset: 0 }
    }

    /// One that runs down.
    pub fn vertical() -> (divider: Divider)
        ensures
            divider == (Divider { axis: Axis::Vertical, inset: 0 }),
    {
        Divider { axis: Axis::Vertical, inset: 0 }
    }

    /// One that stops short of either end.
    pub fn inset(self, inset: u32) -> (divider: Divider)
        ensures
            divider == (Divider { inset, ..self }),
    {
        Divider { inset, ..self }
    }
}

/// The line two regions are resized by.
#[derive(Clone, Copy, PartialEq, Eq, Structural, Debug)]
pub struct ResizeHandle {
    pub axis: Axis,
    /// Whether it is being dragged.
    pub active: bool,
    /// Whether some neighbour draws the line.
    pub quiet: bool,
}

/// Which way the pointer over a handle shows that it moves.
#[derive(Clone, Copy, PartialEq, Eq, Structural, Debug)]
pub enum Cursor {
    LeftRight,
    UpDown,
}

impl ResizeHandle {
    /// A handle that draws its line.
    pub fn new(axis: Axis) -> (handle: ResizeHandle)
        ensures
            handle == (ResizeHandle { axis, active: false, quiet: false }),
    {
        ResizeHandle { axis, active: false, quiet: false }
    }

    /// Being dragged, or not.
    pub fn active(self, active: bool) -> (handle: ResizeHandle)
        ensures
            handle == (ResizeHandle { active, ..self }),
    {
        ResizeHandle { active, ..self }
    }

    /// With no line of its own.
    pub fn invisible_line(self) -> (handle: ResizeHandle)
        ensures
            handle == (ResizeHandle { quiet: true, ..self }),
    {
        ResizeHandle { quiet: true, ..self }
    }

    /// What the line is painted in, and which way it moves. A handle that is
    /// being dragged shows, whoever draws the line otherwise.
    pub fn render(self) -> (face: (Paint, Cursor))
        ensures
            face.0 == if self.active {
                Paint::Accent
            } else if self.quiet {
                Paint::Transparent
            } else {
                Paint::Border
            },
            face.1 == if self.axis is Vertical {
                Cursor::LeftRight
            } else {
                Cursor::UpDown
            },
    {
        let line = if self.active {
            Paint::Accent
        } else if self.quiet {
            Paint::Transparent
        } else {
            Paint::Border
        };
        let cursor = match self.axis {
            Axis::Vertical => Cursor::LeftRight,
            Axis::Horizontal => Cursor::UpDown,
        };
        (line, cursor)
    }
}

/// A bar of controls.
#[derive(Clone, Copy, PartialEq, Eq, Structural, Debug)]
pub struct Toolbar {
    pub bordered: bool,
    pub transparent: bool,
}

impl Toolbar {
    /// A bar with a ground and a line under it.
    pub fn new() -> (bar: Toolbar)
        ensures
            bar == (Toolbar { bordered: true, transparent: false }),
    {
        Toolbar { bordered: true, transparent: false }
    }

    /// With no line under it.
    pub fn borderless(self) -> (bar: Toolbar)
        ensures
            bar == (Toolbar { bordered: false, ..self }),
    {
        Toolbar { bordered: false, ..self }
    }

    /// With no ground.
    pub fn transparent(self) -> (bar: Toolbar)
        ensures
            bar == (Toolbar { transparent: true, ..self }),
    {
        Toolbar { transparent: true, ..self }
    }
}

/// The heading of a group of rows.
#[derive(Debug)]
pub struct SectionHeader {
    pub label: String,
    /// Whether it is set in from the edge.
    pub inset: bool,
}

impl SectionHeader {
    /// A heading set in from the edge.
    pub fn new(label: &str) -> (header: SectionHeader)
        ensures
            header.label@ == label@,
            header.inset,
    {
        SectionHeader { label: label.to_owned(), inset: true }
    }

    /// On the edge.
    pub fn flush(self) -> (header: SectionHeader)
        ensures
            header == (SectionHeader { inset: false, ..self }),
    {
        SectionHeader { inset: false, ..self }
    }

    /// What it reads, which is in capitals.
    pub fn render(&self) -> (text: String)
        ensures
            text@ == uppercase(self.label@),
    {
        to_uppercase(self.label.as_str())
    }
}

/// What a region shows when it has nothing to show: it names the thing that is
/// missing, and offers what would fill it.
#[derive(Debug)]
pub struct EmptyState {
    pub icon: IconName,
    pub title: String,
    pub description: Option<String>,
    /// What the button says that would fill it.
    pub action: Option<String>,
}

impl EmptyState {
    /// A region that names what is missing.
    pub fn new(icon: IconName, title: &str) -> (state: EmptyState)
        ensures
            state.title@ == title@,
            state == (EmptyState { icon, title: state.title, description: None, action: None }),
    {
        EmptyState { icon, title: title.to_owned(), description: None, action: None }
    }

    /// With a line on how that came about.
    pub fn description(self, description: &str) -> (state: EmptyState)
        ensures
            maybe(state.description) == Some(description@),
            state == (EmptyState { description: state.description, ..self }),
    {
        EmptyState { description: Some(description.to_owned()), ..self }
    }

    /// With a button that fills it.
    pub fn action(self, action: &str) -> (state: EmptyState)
        ensures
            maybe(state.action) == Some(action@),
            state == (EmptyState { action: state.action, ..self }),
    {
        EmptyState { action: Some(action.to_owned()), ..self }
    }
}

} // verus!
