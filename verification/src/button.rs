//! Buttons.
//!
//! Three shapes — text, icon, icon and text — behind one builder, because the
//! only thing that varies is which slots are filled. Variants are ordered by
//! emphasis.
use crate::icon::{IconColor, IconName, IconSize, Paint};
use crate::label::LabelSize;
use crate::text::maybe;
use vstd::prelude::*;

verus! {

/// How much a button asserts itself.
#[derive(Clone, Copy, PartialEq, Eq, Structural, Debug)]
pub enum ButtonVariant {
    /// No background until hovered. The default for anything living in chrome.
    Plain,
    /// Always has a faint background, for controls that must look clickable
    /// when surrounded by text.
    Subtle,
    /// A bordered surface. Secondary dialog actions.
    Filled,
    /// Solid accent. One per surface.
    Accent,
    /// Solid danger. Destructive confirmation only.
    Danger,
}

/// How big a button is.
#[derive(Clone, Copy, PartialEq, Eq, Structural, Debug)]
pub enum ButtonSize {
    /// Inside a toolbar row that is itself not tall.
    XSmall,
    /// Chrome default.
    Small,
    /// Forms.
    Medium,
    /// Dialog footers.
    Large,
}

/// The height of a button and the room beside its content, in points, and the
/// size of what is in it.
pub open spec fn measures_of(size: ButtonSize) -> (u32, u32, IconSize, LabelSize) {
    match size {
        ButtonSize::XSmall => (20, 5, IconSize::XSmall, LabelSize::Small),
        ButtonSize::Small => (24, 8, IconSize::Small, LabelSize::Default),
        ButtonSize::Medium => (28, 10, IconSize::Small, LabelSize::Default),
        ButtonSize::Large => (32, 14, IconSize::Medium, LabelSize::Default),
    }
}

impl ButtonSize {
    /// The height, in points.
    pub fn height(self) -> (height: u32)
        ensures
            height == measures_of(self).0,
    {
        match self {
            ButtonSize::XSmall => 20,
            ButtonSize::Small => 24,
            ButtonSize::Medium => 28,
            ButtonSize::Large => 32,
        }
    }

    /// The room on either side of the content, in points.
    pub fn padding_x(self) -> (padding: u32)
        ensures
            padding == measures_of(self).1,
    {
        match self {
            ButtonSize::XSmall => 5,
            ButtonSize::Small => 8,
            ButtonSize::Medium => 10,
            ButtonSize::Large => 14,
        }
    }

    /// The size of an icon in it.
    pub fn icon_size(self) -> (size: IconSize)
        ensures
            size == measures_of(self).2,
    {
        match self {
            ButtonSize::XSmall => IconSize::XSmall,
            ButtonSize::Small | ButtonSize::Medium => IconSize::Small,
            ButtonSize::Large => IconSize::Medium,
        }
    }

    /// The size of a label in it.
    pub fn label_size(self) -> (size: LabelSize)
        ensures
            size == measures_of(self).3,
    {
        match self {
            ButtonSize::XSmall => LabelSize::Small,
            _ => LabelSize::Default,
        }
    }
}

/// A button.
#[derive(Debug)]
pub struct Button {
    pub label: Option<String>,
    pub icon: Option<IconName>,
    pub trailing_icon: Option<IconName>,
    pub variant: ButtonVariant,
    pub size: ButtonSize,
    pub disabled: bool,
    /// Toggled on, for buttons that latch.
    pub selected: bool,
    /// Square, for the icon-only form.
    pub square: bool,
    pub full_width: bool,
    pub color_override: Option<IconColor>,
}

/// What a button is painted in.
#[derive(Clone, Copy, PartialEq, Eq, Structural, Debug)]
pub struct Skin {
    pub bg: Option<Paint>,
    pub hover: Paint,
    pub active: Paint,
    pub border: Option<Paint>,
    pub content: IconColor,
}

/// A button as it is drawn. What is in it stands in a row, in the colour of the
/// skin's content.
#[derive(Debug)]
pub struct ButtonFace {
    pub icon: Option<IconName>,
    pub label: Option<String>,
    pub trailing_icon: Option<IconName>,
    pub height: u32,
    /// How wide it is, where that is not up to what is in it.
    pub width: Option<u32>,
    /// The room on either side of the content.
    pub padding: u32,
    pub full_width: bool,
    pub centered: bool,
    pub skin: Skin,
    /// Whether it answers the pointer.
    pub live: bool,
    pub icon_size: IconSize,
    pub label_size: LabelSize,
}

/// What a button of a variant is painted in while it can be pressed.
pub open spec fn live_skin(variant: ButtonVariant, selected: bool) -> Skin {
    match variant {
        ButtonVariant::Plain => Skin {
            bg: if selected {
                Some(Paint::Active)
            } else {
                None
            },
            hover: Paint::Hover,
            active: Paint::Active,
            border: None,
            content: if selected {
                IconColor::Default
            } else {
                IconColor::Muted
            },
        },
        ButtonVariant::Subtle => Skin {
            bg: Some(if selected {
                Paint::Active
            } else {
                Paint::Hover
            }),
            hover: Paint::Active,
            active: Paint::Active,
            border: None,
            content: IconColor::Default,
        },
        ButtonVariant::Filled => Skin {
            bg: Some(Paint::Chrome),
            hover: Paint::Hover,
            active: Paint::Active,
            border: Some(Paint::BorderStrong),
            content: IconColor::Default,
        },
        ButtonVariant::Accent => Skin {
            bg: Some(Paint::Accent),
            hover: Paint::AccentHover,
            active: Paint::AccentActive,
            border: None,
            content: IconColor::Custom(Paint::TextOnAccent),
        },
        ButtonVariant::Danger => Skin {
            bg: Some(Paint::Danger),
            hover: Paint::Danger,
            active: Paint::Danger,
            border: None,
            content: IconColor::Custom(Paint::TextOnAccent),
        },
    }
}

/// What a button is painted in. One that is off loses its fill and keeps its
/// outline, so the shape is still there to come back to, and nothing recolours
/// what it says.
pub open spec fn skin_of(button: Button) -> Skin {
    let skin = live_skin(button.variant, button.selected);
    if button.disabled {
        Skin {
            bg: match skin.bg {
                Some(_) => Some(Paint::Surface),
                None => None,
            },
            border: Some(Paint::Border),
            content: IconColor::Disabled,
            ..skin
        }
    } else {
        Skin {
            content: match button.color_override {
                Some(color) => color,
                None => skin.content,
            },
            ..skin
        }
    }
}

/// A button as it is drawn.
pub open spec fn button_face(button: Button) -> ButtonFace {
    let (height, padding, icon_size, label_size) = measures_of(button.size);
    ButtonFace {
        icon: button.icon,
        label: button.label,
        trailing_icon: button.trailing_icon,
        height,
        width: if button.square && !button.full_width {
            Some(height)
        } else {
            None
        },
        padding: if button.square {
            0
        } else {
            padding
        },
        full_width: button.full_width,
        centered: button.square || button.full_width,
        skin: skin_of(button),
        live: !button.disabled,
        icon_size,
        label_size,
    }
}

/// A button with nothing in it.
pub open spec fn bare_button() -> Button {
    Button {
        label: None,
        icon: None,
        trailing_icon: None,
        variant: ButtonVariant::Plain,
        size: ButtonSize::Small,
        disabled: false,
        selected: false,
        square: false,
        full_width: false,
        color_override: None,
    }
}

/// What a button of a variant is painted in while it can be pressed.
fn skin_for(variant: ButtonVariant, selected: bool) -> (skin: Skin)
    ensures
        skin == live_skin(variant, selected),
{
    match variant {
        ButtonVariant::Plain => Skin {
            bg: if selected {
                Some(Paint::Active)
            } else {
                None
            },
            hover: Paint::Hover,
            active: Paint::Active,
            border: None,
            content: if selected {
                IconColor::Default
            } else {
                IconColor::Muted
            },
        },
        ButtonVariant::Subtle => Skin {
            bg: Some(
                if selected {
                    Paint::Active
                } else {
                    Paint::Hover
                },
            ),
            hover: Paint::Active,
            active: Paint::Active,
            border: None,
            content: IconColor::Default,
        },
        ButtonVariant::Filled => Skin {
            bg: Some(Paint::Chrome),
            hover: Paint::Hover,
            active: Paint::Active,
            border: Some(Paint::BorderStrong),
            content: IconColor::Default,
        },
        ButtonVariant::Accent => Skin {
            bg: Some(Paint::Accent),
            hover: Paint::AccentHover,
            active: Paint::AccentActive,
            border: None,
            content: IconColor::Custom(Paint::TextOnAccent),
        },
        ButtonVariant::Danger => Skin {
            bg: Some(Paint::Danger),
            hover: Paint::Danger,
            active: Paint::Danger,
            border: None,
            content: IconColor::Custom(Paint::TextOnAccent),
        },
    }
}

impl Button {
    /// A button that says what it does.
    pub fn new(label: &str) -> (button: Button)
        ensures
            maybe(button.label) == Some(label@),
            button == (Button { label: button.label, ..bare_button() }),
    {
        Self::bare().label(label)
    }

    /// Icon only. Square by construction so a row of them is evenly spaced.
    pub fn icon(icon: IconName) -> (button: Button)
        ensures
            button == (Button { icon: Some(icon), square: true, ..bare_button() }),
    {
        Self::bare().start_icon(icon).square()
    }

    /// A button with nothing in it.
    fn bare() -> (button: Button)
        ensures
            button == bare_button(),
    {
        Button {
            label: None,
            icon: None,
            trailing_icon: None,
            variant: ButtonVariant::Plain,
            size: ButtonSize::Small,
            disabled: false,
            selected: false,
            square: false,
            full_width: false,
            color_override: None,
        }
    }

    /// With a label.
    pub fn label(self, label: &str) -> (button: Button)
        ensures
            maybe(button.label) == Some(label@),
            button == (Button { label: button.label, ..self }),
    {
        Button { label: Some(label.to_owned()), ..self }
    }

    /// With an icon before the label.
    pub fn start_icon(self, icon: IconName) -> (button: Button)
        ensures
            button == (Button { icon: Some(icon), ..self }),
    {
        Button { icon: Some(icon), ..self }
    }

    /// With an icon after the label.
    pub fn end_icon(self, icon: IconName) -> (button: Button)
        ensures
            button == (Button { trailing_icon: Some(icon), ..self }),
    {
        Button { trailing_icon: Some(icon), ..self }
    }

    /// Of another variant.
    pub fn variant(self, variant: ButtonVariant) -> (button: Button)
        ensures
            button == (Button { variant, ..self }),
    {
        Button { variant, ..self }
    }

    /// Of another size.
    pub fn size(self, size: ButtonSize) -> (button: Button)
        ensures
            button == (Button { size, ..self }),
    {
        Button { size, ..self }
    }

    /// Off, or not.
    pub fn disabled(self, disabled: bool) -> (button: Button)
        ensures
            button == (Button { disabled, ..self }),
    {
        Button { disabled, ..self }
    }

    /// Toggled on, or not.
    pub fn selected(self, selected: bool) -> (button: Button)
        ensures
            button == (Button { selected, ..self }),
    {
        Button { selected, ..self }
    }

    /// As wide as it is tall.
    pub fn square(self) -> (button: Button)
        ensures
            button == (Button { square: true, ..self }),
    {
        Button { square: true, ..self }
    }

    /// As wide as what it is in.
    pub fn full_width(self) -> (button: Button)
        ensures
            button == (Button { full_width: true, ..self }),
    {
        Button { full_width: true, ..self }
    }

    /// Recolour the content: a plain button that should read as destructive
    /// without carrying a red background.
    pub fn content_color(self, color: IconColor) -> (button: Button)
        ensures
            button == (Button { color_override: Some(color), ..self }),
    {
        Button { color_override: Some(color), ..self }
    }

    /// The button as it is drawn.
    pub fn render(self) -> (face: ButtonFace)
        ensures
            face == button_face(self),
    {
        let skin = skin_for(self.variant, self.selected);
        let content = if self.disabled {
            IconColor::Disabled
        } else {
            match self.color_override {
                Some(color) => color,
                None => skin.content,
            }
        };
        let skin = if self.disabled {
            Skin {
                bg: match skin.bg {
                    Some(_) => Some(Paint::Surface),
                    None => None,
                },
                border: Some(Paint::Border),
                content,
                ..skin
            }
        } else {
            Skin { content, ..skin }
        };
        let height = self.size.height();
        ButtonFace {
            icon: self.icon,
            label: self.label,
            trailing_icon: self.trailing_icon,
            height,
            width: if self.square && !self.full_width {
                Some(height)
            } else {
                None
            },
            padding: if self.square {
                0
            } else {
                self.size.padding_x()
            },
            full_width: self.full_width,
            centered: self.square || self.full_width,
            skin,
            live: !self.disabled,
            icon_size: self.size.icon_size(),
            label_size: self.size.label_size(),
        }
    }
}

/// A button that is off looks off: no variant, no selection and no colour of
/// its own leaves it a fill to be pressed by or a voice to be read by.
pub proof fn a_disabled_button_has_no_voice(button: Button)
    requires
        button.disabled,
    ensures
        skin_of(button).content is Disabled,
        skin_of(button).border == Some(Paint::Border),
        skin_of(button).bg is Some ==> skin_of(button).bg == Some(Paint::Surface),
        !button_face(button).live,
{
}

} // verus!
