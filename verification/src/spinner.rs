//! The one thing in the design system that moves.
use crate::icon::{resolved, side_of, IconColor, IconName, IconSize, Paint};
use vstd::prelude::*;

verus! {

/// How long one turn takes, in milliseconds.
pub const PERIOD: u64 = 900;

/// A spinner: the loader, turning. Motion is how a reader tells waiting from
/// stuck.
#[derive(Clone, Copy, PartialEq, Eq, Structural, Debug)]
pub struct Spinner {
    pub size: IconSize,
    pub color: IconColor,
}

/// A spinner as it is drawn.
#[derive(Clone, Copy, PartialEq, Eq, Structural, Debug)]
pub struct SpinnerFace {
    pub glyph: IconName,
    pub side: u32,
    pub paint: Option<Paint>,
    /// How long one turn takes, in milliseconds.
    pub period: u64,
}

impl Spinner {
    /// A muted spinner of the usual size.
    pub fn new() -> (spinner: Spinner)
        ensures
            spinner == (Spinner { size: IconSize::Small, color: IconColor::Muted }),
    {
        Spinner { size: IconSize::Small, color: IconColor::Muted }
    }

    /// Of another size.
    pub fn size(self, size: IconSize) -> (spinner: Spinner)
        ensures
            spinner == (Spinner { size, ..self }),
    {
        Spinner { size, ..self }
    }

    /// Of another colour.
    pub fn color(self, color: IconColor) -> (spinner: Spinner)
        ensures
            spinner == (Spinner { color, ..self }),
    {
        Spinner { color, ..self }
    }

    /// The spinner as it is drawn.
    pub fn render(self) -> (face: SpinnerFace)
        ensures
            face == (SpinnerFace {
                glyph: IconName::Loader,
                side: side_of(self.size),
                paint: resolved(self.color),
                period: PERIOD,
            }),
    {
        SpinnerFace {
            glyph: IconName::Loader,
            side: self.size.rems(),
            paint: self.color.resolve(),
            period: PERIOD,
        }
    }
}

} // verus!
