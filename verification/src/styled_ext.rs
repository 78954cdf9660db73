//! House style for laying elements out.
use vstd::prelude::*;

verus! {

/// Which way the children of an element run.
#[derive(Clone, Copy, PartialEq, Eq, Structural, Debug)]
pub enum Direction {
    Row,
    Column,
}

/// How an element lays its children out.
#[derive(Clone, Copy, PartialEq, Eq, Structural, Debug)]
pub struct Layout {
    pub flex: bool,
    pub direction: Option<Direction>,
    /// Whether the children are centred across the way they run.
    pub centered: bool,
}

/// An element that says nothing of its layout.
pub open spec fn plain_layout() -> Layout {
    Layout { flex: false, direction: None, centered: false }
}

/// House-style helpers on anything that can be laid out.
pub trait StyledExt: Sized {
    /// Laid out as a row.
    spec fn as_row(self) -> Self;

    /// Laid out as a column.
    spec fn as_column(self) -> Self;

    /// A row. Used often enough that spelling it out everywhere would bury the
    /// interesting part of each component.
    fn h_flex(self) -> (row: Self)
        ensures
            row == self.as_row(),
    ;

    /// A column.
    fn v_flex(self) -> (column: Self)
        ensures
            column == self.as_column(),
    ;

    /// Apply `f` only when a condition holds.
    fn when_true<F: FnOnce(Self) -> Self>(self, condition: bool, f: F) -> (styled: Self)
        requires
            condition ==> f.requires((self,)),
        ensures
            condition ==> f.ensures((self,), styled),
            !condition ==> styled == self,
    ;
}

impl StyledExt for Layout {
    open spec fn as_row(self) -> Layout {
        Layout { flex: true, direction: Some(Direction::Row), centered: true }
    }

    open spec fn as_column(self) -> Layout {
        Layout { flex: true, direction: Some(Direction::Column), ..self }
    }

    fn h_flex(self) -> (row: Layout) {
        Layout { flex: true, direction: Some(Direction::Row), centered: true }
    }

    fn v_flex(self) -> (column: Layout) {
        Layout { flex: true, direction: Some(Direction::Column), ..self }
    }

    fn when_true<F: FnOnce(Layout) -> Layout>(self, condition: bool, f: F) -> (styled: Layout) {
        if condition {
            f(self)
        } else {
            self
        }
    }
}

/// A row.
pub fn h_flex() -> (row: Layout)
    ensures
        row == plain_layout().as_row(),
{
    Layout { flex: true, direction: Some(Direction::Row), centered: true }
}

/// A column.
pub fn v_flex() -> (column: Layout)
    ensures
        column == plain_layout().as_column(),
{
    Layout { flex: true, direction: Some(Direction::Column), centered: false }
}

} // verus!
