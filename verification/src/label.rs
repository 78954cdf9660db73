//! Text.
//!
//! Every string the reader sees goes through here so that size, weight and
//! colour come from the type ramp rather than from whatever the calling site
//! felt like.
use crate::icon::{IconColor, Paint};
use vstd::prelude::*;

verus! {

/// How big a label is, on the type ramp.
#[derive(Clone, Copy, PartialEq, Eq, Structural, Debug)]
pub enum LabelSize {
    Small,
    Default,
    Large,
    /// The size of the code face.
    Code,
}

/// How heavy a label is.
#[derive(Clone, Copy, PartialEq, Eq, Structural, Debug)]
pub enum Weight {
    Normal,
    Medium,
    Semibold,
}

/// Which end of a label gives way.
#[derive(Clone, Copy, PartialEq, Eq, Structural, Debug)]
pub enum Elide {
    End,
    Start,
}

/// A label.
#[derive(Debug)]
pub struct Label {
    pub text: String,
    pub size: LabelSize,
    pub color: IconColor,
    pub weight: Weight,
    pub mono: bool,
    pub truncate: bool,
    pub elide: Elide,
}

/// A label as it is drawn.
#[derive(Clone, Copy, PartialEq, Eq, Structural, Debug)]
pub struct LabelFace {
    pub size: LabelSize,
    pub paint: Option<Paint>,
    pub weight: Weight,
    pub mono: bool,
    /// Which end is cut where it does not fit, and nothing for one that wraps.
    pub cut: Option<Elide>,
}

impl Label {
    /// A label of the usual size, in the usual colour, on one line.
    pub fn new(text: &str) -> (label: Label)
        ensures
            label.text@ == text@,
            label == (Label {
                text: label.text,
                size: LabelSize::Default,
                color: IconColor::Default,
                weight: Weight::Normal,
                mono: false,
                truncate: true,
                elide: Elide::End,
            }),
    {
        Label {
            text: text.to_owned(),
            size: LabelSize::Default,
            color: IconColor::Default,
            weight: Weight::Normal,
            mono: false,
            truncate: true,
            elide: Elide::End,
        }
    }

    /// Of another size.
    pub fn size(self, size: LabelSize) -> (label: Label)
        ensures
            label == (Label { size, ..self }),
    {
        Label { size, ..self }
    }

    /// Of another colour.
    pub fn color(self, color: IconColor) -> (label: Label)
        ensures
            label == (Label { color, ..self }),
    {
        Label { color, ..self }
    }

    /// Of another weight.
    pub fn weight(self, weight: Weight) -> (label: Label)
        ensures
            label == (Label { weight, ..self }),
    {
        Label { weight, ..self }
    }

    /// Heavier by two steps.
    pub fn strong(self) -> (label: Label)
        ensures
            label == (Label { weight: Weight::Semibold, ..self }),
    {
        self.weight(Weight::Semibold)
    }

    /// Heavier by a step.
    pub fn medium(self) -> (label: Label)
        ensures
            label == (Label { weight: Weight::Medium, ..self }),
    {
        self.weight(Weight::Medium)
    }

    /// In the code face.
    pub fn mono(self) -> (label: Label)
        ensures
            label == (Label { mono: true, ..self }),
    {
        Label { mono: true, ..self }
    }

    /// On as many lines as it takes.
    pub fn wrap(self) -> (label: Label)
        ensures
            label == (Label { truncate: false, ..self }),
    {
        Label { truncate: false, ..self }
    }

    /// Cut at its start where it does not fit.
    pub fn elide_start(self) -> (label: Label)
        ensures
            label == (Label { elide: Elide::Start, ..self }),
    {
        Label { elide: Elide::Start, ..self }
    }

    /// A step quieter.
    pub fn muted(self) -> (label: Label)
        ensures
            label == (Label { color: IconColor::Muted, ..self }),
    {
        self.color(IconColor::Muted)
    }

    /// Two steps quieter.
    pub fn subtle(self) -> (label: Label)
        ensures
            label == (Label { color: IconColor::Subtle, ..self }),
    {
        self.color(IconColor::Subtle)
    }

    /// The label as it is drawn: a label that wraps is not cut anywhere.
    pub fn render(&self) -> (face: LabelFace)
        ensures
            face == (LabelFace {
                size: self.size,
                paint: crate::icon::resolved(self.color),
                weight: self.weight,
                mono: self.mono,
                cut: if self.truncate {
                    Some(self.elide)
                } else {
                    None
                },
            }),
    {
        LabelFace {
            size: self.size,
            paint: self.color.resolve(),
            weight: self.weight,
            mono: self.mono,
            cut: if self.truncate {
                Some(self.elide)
            } else {
                None
            },
        }
    }
}

} // verus!
