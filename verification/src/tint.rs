//! Connection colours.
//!
//! The tint a connection carries is the cheapest and most effective guardrail
//! there is: production is red in the sidebar, in the titlebar and in the
//! status bar, and no amount of care substitutes for the window looking
//! different from the one you meant to type into.
use vstd::prelude::*;

verus! {

/// The colour a connection is tagged with.
#[derive(Clone, Copy, PartialEq, Eq, Structural, Debug)]
pub enum ConnectionColor {
    Untagged,
    Grey,
    Red,
    Orange,
    Yellow,
    Green,
    Blue,
    Purple,
    Pink,
}

/// A colour: its hue in degrees, and the rest in parts of a hundred.
#[derive(Clone, Copy, PartialEq, Eq, Structural, Debug)]
pub struct Shade {
    pub hue: u32,
    pub saturation: u32,
    pub lightness: u32,
    pub alpha: u32,
}

/// A colour in one of its two lightnesses.
pub open spec fn shade(hue: u32, saturation: u32, lightness: (u32, u32), dark: bool) -> Shade {
    Shade {
        hue,
        saturation,
        lightness: if dark {
            lightness.0
        } else {
            lightness.1
        },
        alpha: 100,
    }
}

/// The colour of a tag, tuned per appearance: the light theme needs less
/// lightness to read against a white panel.
pub open spec fn tint_of(color: ConnectionColor, dark: bool) -> Option<Shade> {
    match color {
        ConnectionColor::Untagged => None,
        ConnectionColor::Grey => Some(shade(0, 0, (62, 46), dark)),
        ConnectionColor::Red => Some(shade(2, 72, (62, 50), dark)),
        ConnectionColor::Orange => Some(shade(26, 78, (60, 47), dark)),
        ConnectionColor::Yellow => Some(shade(44, 78, (58, 42), dark)),
        ConnectionColor::Green => Some(shade(142, 52, (50, 38), dark)),
        ConnectionColor::Blue => Some(shade(212, 72, (62, 50), dark)),
        ConnectionColor::Purple => Some(shade(266, 62, (66, 54), dark)),
        ConnectionColor::Pink => Some(shade(330, 68, (66, 54), dark)),
    }
}

/// A colour in one of its two lightnesses.
fn shaded(hue: u32, saturation: u32, in_dark: u32, in_light: u32, dark: bool) -> (made: Shade)
    ensures
        made == shade(hue, saturation, (in_dark, in_light), dark),
{
    Shade {
        hue,
        saturation,
        lightness: if dark {
            in_dark
        } else {
            in_light
        },
        alpha: 100,
    }
}

/// The colour of a tag.
pub fn tint(color: ConnectionColor, dark: bool) -> (shade: Option<Shade>)
    ensures
        shade == tint_of(color, dark),
{
    match color {
        ConnectionColor::Untagged => None,
        ConnectionColor::Grey => Some(shaded(0, 0, 62, 46, dark)),
        ConnectionColor::Red => Some(shaded(2, 72, 62, 50, dark)),
        ConnectionColor::Orange => Some(shaded(26, 78, 60, 47, dark)),
        ConnectionColor::Yellow => Some(shaded(44, 78, 58, 42, dark)),
        ConnectionColor::Green => Some(shaded(142, 52, 50, 38, dark)),
        ConnectionColor::Blue => Some(shaded(212, 72, 62, 50, dark)),
        ConnectionColor::Purple => Some(shaded(266, 62, 66, 54, dark)),
        ConnectionColor::Pink => Some(shaded(330, 68, 66, 54, dark)),
    }
}

/// The same colour at the weight a large filled area wants, where the
/// full-strength version would shout.
pub fn tint_wash(color: ConnectionColor, dark: bool) -> (shade: Option<Shade>)
    ensures
        shade == match tint_of(color, dark) {
            Some(base) => Some(
                Shade {
                    alpha: if dark {
                        20
                    } else {
                        14
                    },
                    ..base
                },
            ),
            None => None,
        },
{
    match tint(color, dark) {
        Some(base) => Some(
            Shade {
                alpha: if dark {
                    20
                } else {
                    14
                },
                ..base
            },
        ),
        None => None,
    }
}

/// Every colour in palette order.
pub open spec fn palette_list() -> Seq<ConnectionColor> {
    seq![
        ConnectionColor::Untagged,
        ConnectionColor::Grey,
        ConnectionColor::Red,
        ConnectionColor::Orange,
        ConnectionColor::Yellow,
        ConnectionColor::Green,
        ConnectionColor::Blue,
        ConnectionColor::Purple,
        ConnectionColor::Pink,
    ]
}

/// Every colour in palette order, for the picker.
pub fn palette() -> (colors: Vec<ConnectionColor>)
    ensures
        colors@ == palette_list(),
{
    let mut colors: Vec<ConnectionColor> = Vec::new();
    colors.push(ConnectionColor::Untagged);
    colors.push(ConnectionColor::Grey);
    colors.push(ConnectionColor::Red);
    colors.push(ConnectionColor::Orange);
    colors.push(ConnectionColor::Yellow);
    colors.push(ConnectionColor::Green);
    colors.push(ConnectionColor::Blue);
    colors.push(ConnectionColor::Purple);
    colors.push(ConnectionColor::Pink);
    assert(colors@ =~= palette_list());
    colors
}

/// No two tags look alike, in either appearance: a red server is never taken
/// for another.
pub proof fn tags_are_told_apart(a: ConnectionColor, b: ConnectionColor, dark: bool)
    requires
        tint_of(a, dark) == tint_of(b, dark),
    ensures
        a == b,
{
}

} // verus!
