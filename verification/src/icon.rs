//! Icons, and the colours anything may take.
//!
//! An icon file carries shape but never colour. The duotone icons are drawn as
//! two stacked layers, and the colour of the lower one is picked apart.
use vstd::prelude::*;

verus! {

/// The shapes the window draws.
#[derive(Clone, Copy, PartialEq, Eq, Structural, Debug)]
pub enum IconName {
    ArrowTurn,
    Ban,
    Bookmark,
    BracketsCurly,
    BulletList,
    Check,
    ChevronDown,
    ChevronExpandY,
    ChevronRight,
    CircleCheck,
    CircleInfo,
    CircleXmark,
    Clock,
    Code,
    Columns,
    Command,
    Database,
    Eye,
    EyeFilled,
    File,
    Filter,
    Folder,
    Gear,
    Hashtag,
    History,
    Key,
    Layers,
    ListTree,
    Loader,
    Magnifier,
    PanelBottom,
    PanelLeft,
    PanelRight,
    Pen,
    Pin,
    Plug,
    Plus,
    Refresh,
    SortAsc,
    Sun,
    Table,
    TextA,
    Trash,
    User,
    Users,
    Warning,
    XmarkSm,
}

/// The size ramp. Icons snap to these so unrelated toolbars stay aligned.
#[derive(Clone, Copy, PartialEq, Eq, Structural, Debug)]
pub enum IconSize {
    /// Inline with small text: badges, tree affordances, sort arrows.
    XSmall,
    /// The default for dense chrome: tab strips, tree rows, status bar.
    Small,
    /// Toolbar buttons.
    Medium,
    /// Prominent single actions.
    Large,
    /// Empty-state and dialog art.
    XLarge,
}

/// The side of an icon, in points.
pub open spec fn side_of(size: IconSize) -> u32 {
    match size {
        IconSize::XSmall => 12,
        IconSize::Small => 14,
        IconSize::Medium => 16,
        IconSize::Large => 20,
        IconSize::XLarge => 32,
    }
}

impl IconSize {
    /// The side of an icon, in points.
    pub fn rems(self) -> (side: u32)
        ensures
            side == side_of(self),
    {
        match self {
            IconSize::XSmall => 12,
            IconSize::Small => 14,
            IconSize::Medium => 16,
            IconSize::Large => 20,
            IconSize::XLarge => 32,
        }
    }
}

/// A colour, by the part it plays in the theme.
#[derive(Clone, Copy, PartialEq, Eq, Structural, Debug)]
pub enum Paint {
    Accent,
    AccentActive,
    AccentHover,
    Active,
    Border,
    BorderStrong,
    Chrome,
    Danger,
    DangerWash,
    Field,
    Function,
    Hover,
    Info,
    InfoWash,
    Keyword,
    Number,
    Selected,
    SelectedInactive,
    Success,
    SuccessWash,
    Surface,
    TabActive,
    Text,
    TextDisabled,
    TextLiteral,
    TextMuted,
    TextOnAccent,
    TextSubtle,
    Transparent,
    TypeName,
    Warning,
    WarningWash,
    /// A hue of its own, the same in every theme.
    Hue(u32),
}

/// The colours an icon can take by their meaning.
#[derive(Clone, Copy, PartialEq, Eq, Structural, Debug)]
pub enum IconColor {
    Default,
    Muted,
    Subtle,
    Disabled,
    Accent,
    Success,
    Warning,
    Danger,
    /// Whatever the surroundings are drawn in.
    Inherit,
    Custom(Paint),
}

/// What an icon of a colour is painted in. Nothing for one that takes the
/// colour of its surroundings.
pub open spec fn resolved(color: IconColor) -> Option<Paint> {
    match color {
        IconColor::Default => Some(Paint::Text),
        IconColor::Muted => Some(Paint::TextMuted),
        IconColor::Subtle => Some(Paint::TextSubtle),
        IconColor::Disabled => Some(Paint::TextDisabled),
        IconColor::Accent => Some(Paint::Accent),
        IconColor::Success => Some(Paint::Success),
        IconColor::Warning => Some(Paint::Warning),
        IconColor::Danger => Some(Paint::Danger),
        IconColor::Inherit => None,
        IconColor::Custom(paint) => Some(paint),
    }
}

impl IconColor {
    /// What an icon of this colour is painted in.
    pub fn resolve(self) -> (paint: Option<Paint>)
        ensures
            paint == resolved(self),
    {
        match self {
            IconColor::Default => Some(Paint::Text),
            IconColor::Muted => Some(Paint::TextMuted),
            IconColor::Subtle => Some(Paint::TextSubtle),
            IconColor::Disabled => Some(Paint::TextDisabled),
            IconColor::Accent => Some(Paint::Accent),
            IconColor::Success => Some(Paint::Success),
            IconColor::Warning => Some(Paint::Warning),
            IconColor::Danger => Some(Paint::Danger),
            IconColor::Inherit => None,
            IconColor::Custom(paint) => Some(paint),
        }
    }
}

/// An icon.
#[derive(Clone, Copy, PartialEq, Eq, Structural, Debug)]
pub struct Icon {
    pub name: IconName,
    pub size: IconSize,
    pub color: IconColor,
    /// The colour of the lower layer, where it is not the accent.
    pub duo_color: Option<IconColor>,
    /// Leave the lower layer out.
    pub flat: bool,
}

/// An icon as it is drawn.
#[derive(Clone, Copy, PartialEq, Eq, Structural, Debug)]
pub struct IconFace {
    pub side: u32,
    pub primary: Option<Paint>,
    /// The colour of the lower layer, where there is one.
    pub duo: Option<Paint>,
}

impl Icon {
    /// An icon of the usual size and colour.
    pub fn new(name: IconName) -> (icon: Icon)
        ensures
            icon == (Icon {
                name,
                size: IconSize::Small,
                color: IconColor::Default,
                duo_color: None,
                flat: false,
            }),
    {
        Icon {
            name,
            size: IconSize::Small,
            color: IconColor::Default,
            duo_color: None,
            flat: false,
        }
    }

    /// Of another size.
    pub fn size(self, size: IconSize) -> (icon: Icon)
        ensures
            icon == (Icon { size, ..self }),
    {
        Icon { size, ..self }
    }

    /// Of another colour.
    pub fn color(self, color: IconColor) -> (icon: Icon)
        ensures
            icon == (Icon { color, ..self }),
    {
        Icon { color, ..self }
    }

    /// With a lower layer of another colour.
    pub fn duo_color(self, color: IconColor) -> (icon: Icon)
        ensures
            icon == (Icon { duo_color: Some(color), ..self }),
    {
        Icon { duo_color: Some(color), ..self }
    }

    /// Only the upper layer.
    pub fn flat(self) -> (icon: Icon)
        ensures
            icon == (Icon { flat: true, ..self }),
    {
        Icon { flat: true, ..self }
    }

    /// The icon as it is drawn. `duotone` says whether the shape has a lower
    /// layer: it is drawn unless the icon is flat, in its own colour, and in
    /// the accent where that would be the colour of the surroundings.
    pub fn render(self, duotone: bool) -> (face: IconFace)
        ensures
            face.side == side_of(self.size),
            face.primary == resolved(self.color),
            face.duo == if duotone && !self.flat {
                match self.duo_color {
                    None => Some(Paint::Accent),
                    Some(color) => match resolved(color) {
                        None => Some(Paint::Accent),
                        Some(paint) => Some(paint),
                    },
                }
            } else {
                None
            },
    {
        let duo = if duotone && !self.flat {
            let color = match self.duo_color {
                Some(color) => color,
                None => IconColor::Accent,
            };
            match color.resolve() {
                Some(paint) => Some(paint),
                None => Some(Paint::Accent),
            }
        } else {
            None
        };
        IconFace { side: self.size.rems(), primary: self.color.resolve(), duo }
    }
}

} // verus!
