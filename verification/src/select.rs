//! Choosing one of a few things.
//!
//! The choice lives with whoever shows the control: this draws what is selected
//! and reports clicks.
use crate::icon::{IconColor, Paint};
use vstd::prelude::*;

verus! {

/// A row of options with one of them lit.
#[derive(Debug)]
pub struct Segmented {
    pub options: Vec<String>,
    pub selected: usize,
    pub wrap: bool,
    pub fill: bool,
}

/// One option as it is drawn.
#[derive(Clone, Copy, PartialEq, Eq, Structural, Debug)]
pub struct Segment {
    pub bg: Option<Paint>,
    pub ink: IconColor,
}

/// The option at a place as it is drawn.
pub open spec fn segment_at(selected: usize, at: int) -> Segment {
    if at == selected {
        Segment { bg: Some(Paint::Selected), ink: IconColor::Default }
    } else {
        Segment { bg: None, ink: IconColor::Muted }
    }
}

impl Segmented {
    /// The options, with the first one lit.
    pub fn new(options: Vec<String>) -> (control: Segmented)
        ensures
            control == (Segmented { options, selected: 0, wrap: true, fill: true }),
    {
        Segmented { options, selected: 0, wrap: true, fill: true }
    }

    /// With another one lit.
    pub fn selected(self, index: usize) -> (control: Segmented)
        ensures
            control == (Segmented { selected: index, ..self }),
    {
        Segmented { selected: index, ..self }
    }

    /// No wider than its options.
    pub fn hug(self) -> (control: Segmented)
        ensures
            control == (Segmented { fill: false, wrap: false, ..self }),
    {
        Segmented { fill: false, wrap: false, ..self }
    }

    /// On one line.
    pub fn no_wrap(self) -> (control: Segmented)
        ensures
            control == (Segmented { wrap: false, ..self }),
    {
        Segmented { wrap: false, ..self }
    }

    /// The options as they are drawn.
    pub fn render(&self) -> (segments: Vec<Segment>)
        ensures
            segments@ == Seq::new(self.options@.len(), |i: int| segment_at(self.selected, i)),
    {
        let mut segments: Vec<Segment> = Vec::new();
        let mut at: usize = 0;
        while at < self.options.len()
            invariant
                at <= self.options@.len(),
                segments@ == Seq::new(at as nat, |i: int| segment_at(self.selected, i)),
            decreases self.options@.len() - at,
        {
            let lit = at == self.selected;
            segments.push(
                Segment {
                    bg: if lit {
                        Some(Paint::Selected)
                    } else {
                        None
                    },
                    ink: if lit {
                        IconColor::Default
                    } else {
                        IconColor::Muted
                    },
                },
            );
            at += 1;
            assert(segments@ =~= Seq::new(at as nat, |i: int| segment_at(self.selected, i)));
        }
        segments
    }
}

/// At most one option is lit, and it is the one that is selected.
pub proof fn one_option_is_lit(control: Segmented, at: int, other: int)
    requires
        segment_at(control.selected, at).bg is Some,
        segment_at(control.selected, other).bg is Some,
    ensures
        at == other == control.selected,
{
}

/// Where a box is, in points.
#[derive(Clone, Copy, PartialEq, Eq, Structural, Debug)]
pub struct Extent {
    pub x: i32,
    pub y: i32,
    pub width: i32,
    pub height: i32,
}

/// A button that opens a list.
#[derive(Debug)]
pub struct Popup {
    pub label: String,
    pub disabled: bool,
}

/// A button that opens a list, as it is drawn.
#[derive(Clone, Copy, PartialEq, Eq, Structural, Debug)]
pub struct PopupFace {
    pub bg: Paint,
    pub border: Paint,
    pub ink: IconColor,
    pub well: Paint,
    pub arrow: IconColor,
}

impl Popup {
    /// One that opens.
    pub fn new(label: &str) -> (popup: Popup)
        ensures
            popup.label@ == label@,
            !popup.disabled,
    {
        Popup { label: label.to_owned(), disabled: false }
    }

    /// Off, or not.
    pub fn disabled(self, disabled: bool) -> (popup: Popup)
        ensures
            popup == (Popup { disabled, ..self }),
    {
        Popup { disabled, ..self }
    }

    /// As it is drawn.
    pub fn render(&self) -> (face: PopupFace)
        ensures
            face == if self.disabled {
                PopupFace {
                    bg: Paint::Surface,
                    border: Paint::Border,
                    ink: IconColor::Disabled,
                    well: Paint::Surface,
                    arrow: IconColor::Disabled,
                }
            } else {
                PopupFace {
                    bg: Paint::Chrome,
                    border: Paint::BorderStrong,
                    ink: IconColor::Default,
                    well: Paint::Active,
                    arrow: IconColor::Muted,
                }
            },
    {
        if self.disabled {
            PopupFace {
                bg: Paint::Surface,
                border: Paint::Border,
                ink: IconColor::Disabled,
                well: Paint::Surface,
                arrow: IconColor::Disabled,
            }
        } else {
            PopupFace {
                bg: Paint::Chrome,
                border: Paint::BorderStrong,
                ink: IconColor::Default,
                well: Paint::Active,
                arrow: IconColor::Muted,
            }
        }
    }
}

/// The box with the hairline around it that a menu lines its edge up with, for
/// the box inside the hairline.
pub fn outer(inner: Extent) -> (bounds: Extent)
    requires
        inner.x > i32::MIN,
        inner.y > i32::MIN,
        inner.width < i32::MAX - 1,
        inner.height < i32::MAX - 1,
    ensures
        bounds.x == inner.x - 1,
        bounds.y == inner.y - 1,
        bounds.width == inner.width + 2,
        bounds.height == inner.height + 2,
{
    Extent {
        x: inner.x - 1,
        y: inner.y - 1,
        width: inner.width + 2,
        height: inner.height + 2,
    }
}

} // verus!
