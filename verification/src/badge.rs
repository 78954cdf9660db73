//! Badges and chips.
//!
//! Small, high-contrast labels: key types, connection environments, column
//! flags, row counts. They carry meaning through colour, so the palette of the
//! categorical ones is fixed rather than themeable.
use crate::casing::{to_uppercase, uppercase};
use crate::icon::Paint;
use vstd::prelude::*;

verus! {

/// The hue of a badge.
#[derive(Clone, Copy, PartialEq, Eq, Structural, Debug)]
pub enum BadgeTone {
    /// Theme-neutral: counts.
    Neutral,
    Accent,
    Success,
    Warning,
    Danger,
    Purple,
    Pink,
    Orange,
    Teal,
}

/// What a tone is painted in.
pub open spec fn tone_paint(tone: BadgeTone) -> Paint {
    match tone {
        BadgeTone::Neutral => Paint::TextMuted,
        BadgeTone::Accent => Paint::Accent,
        BadgeTone::Success => Paint::Success,
        BadgeTone::Warning => Paint::Warning,
        BadgeTone::Danger => Paint::Danger,
        BadgeTone::Purple => Paint::Hue(0xa78bfa),
        BadgeTone::Pink => Paint::Hue(0xf472b6),
        BadgeTone::Orange => Paint::Hue(0xf59e0b),
        BadgeTone::Teal => Paint::Hue(0x2dd4bf),
    }
}

impl BadgeTone {
    /// What the tone is painted in.
    pub fn color(self) -> (paint: Paint)
        ensures
            paint == tone_paint(self),
    {
        match self {
            BadgeTone::Neutral => Paint::TextMuted,
            BadgeTone::Accent => Paint::Accent,
            BadgeTone::Success => Paint::Success,
            BadgeTone::Warning => Paint::Warning,
            BadgeTone::Danger => Paint::Danger,
            BadgeTone::Purple => Paint::Hue(0xa78bfa),
            BadgeTone::Pink => Paint::Hue(0xf472b6),
            BadgeTone::Orange => Paint::Hue(0xf59e0b),
            BadgeTone::Teal => Paint::Hue(0x2dd4bf),
        }
    }
}

/// How much the badge asserts itself.
#[derive(Clone, Copy, PartialEq, Eq, Structural, Debug)]
pub enum BadgeStyle {
    /// Solid fill.
    Solid,
    /// A wash of the tone, and text in it. Status pills.
    Soft,
    /// Text and a hairline. Column flags in a dense header.
    Outline,
    /// Text only.
    Plain,
}

/// A badge.
#[derive(Debug)]
pub struct Badge {
    pub text: String,
    pub tone: BadgeTone,
    pub kind: BadgeStyle,
    /// In capitals.
    pub caps: bool,
}

/// A paint, and how much of it there is in a hundred parts.
#[derive(Clone, Copy, PartialEq, Eq, Structural, Debug)]
pub struct Tinted {
    pub paint: Paint,
    pub percent: u32,
}

/// A badge as it is drawn.
#[derive(Debug)]
pub struct BadgeFace {
    pub text: String,
    pub bg: Option<Tinted>,
    pub fg: Paint,
    pub border: Option<Tinted>,
}

/// The fill, the ink and the hairline of a badge.
pub open spec fn badge_paints(kind: BadgeStyle, tone: Paint) -> (Option<Tinted>, Paint, Option<Tinted>) {
    match kind {
        BadgeStyle::Solid => (
            Some(Tinted { paint: tone, percent: 100 }),
            Paint::TextOnAccent,
            None,
        ),
        BadgeStyle::Soft => (Some(Tinted { paint: tone, percent: 16 }), tone, None),
        BadgeStyle::Outline => (None, tone, Some(Tinted { paint: tone, percent: 45 })),
        BadgeStyle::Plain => (None, tone, None),
    }
}

impl Badge {
    /// A neutral badge.
    pub fn new(text: &str) -> (badge: Badge)
        ensures
            badge.text@ == text@,
            badge == (Badge {
                text: badge.text,
                tone: BadgeTone::Neutral,
                kind: BadgeStyle::Soft,
                caps: false,
            }),
    {
        Badge {
            text: text.to_owned(),
            tone: BadgeTone::Neutral,
            kind: BadgeStyle::Soft,
            caps: false,
        }
    }

    /// Of another tone.
    pub fn tone(self, tone: BadgeTone) -> (badge: Badge)
        ensures
            badge == (Badge { tone, ..self }),
    {
        Badge { tone, ..self }
    }

    /// Of another kind.
    pub fn kind(self, kind: BadgeStyle) -> (badge: Badge)
        ensures
            badge == (Badge { kind, ..self }),
    {
        Badge { kind, ..self }
    }

    /// In capitals.
    pub fn caps(self) -> (badge: Badge)
        ensures
            badge == (Badge { caps: true, ..self }),
    {
        Badge { caps: true, ..self }
    }

    /// The badge as it is drawn.
    pub fn render(&self) -> (face: BadgeFace)
        ensures
            face.text@ == if self.caps {
                uppercase(self.text@)
            } else {
                self.text@
            },
            (face.bg, face.fg, face.border) == badge_paints(self.kind, tone_paint(self.tone)),
    {
        let tone = self.tone.color();
        let (bg, fg, border) = match self.kind {
            BadgeStyle::Solid => (
                Some(Tinted { paint: tone, percent: 100 }),
                Paint::TextOnAccent,
                None,
            ),
            BadgeStyle::Soft => (Some(Tinted { paint: tone, percent: 16 }), tone, None),
            BadgeStyle::Outline => (None, tone, Some(Tinted { paint: tone, percent: 45 })),
            BadgeStyle::Plain => (None, tone, None),
        };
        let text = if self.caps {
            to_uppercase(self.text.as_str())
        } else {
            self.text.clone()
        };
        BadgeFace { text, bg, fg, border }
    }
}

} // verus!
