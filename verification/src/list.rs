//! Rows.
//!
//! The schema tree, the key tree, menus and the connection list are all the
//! same object: a row of one height with an optional disclosure affordance, an
//! icon, a label and a trailing slot.
use crate::icon::{IconColor, IconName, Paint};
use crate::text::maybe;
use vstd::prelude::*;

verus! {

/// Whether a row opens.
#[derive(Clone, Copy, PartialEq, Eq, Structural, Debug)]
pub enum Disclosure {
    Collapsed,
    Expanded,
    /// It does not, but its neighbours do: it keeps the room.
    Leaf,
    /// It does not, and neither do its neighbours.
    Absent,
}

/// A row.
#[derive(Debug)]
pub struct ListItem {
    pub label: String,
    pub meta: Option<String>,
    pub icon: Option<IconName>,
    pub icon_color: IconColor,
    pub indent: usize,
    pub disclosure: Disclosure,
    pub selected: bool,
    /// Selected in a list that does not have the keyboard.
    pub inactive: bool,
    pub mono: bool,
    /// Whether the label is cut in the middle where it does not fit.
    pub elide_middle: bool,
}

/// What stands where a row would be opened.
#[derive(Clone, Copy, PartialEq, Eq, Structural, Debug)]
pub enum Affordance {
    Nothing,
    Room,
    Glyph(IconName),
}

/// A row as it is drawn.
#[derive(Clone, Copy, PartialEq, Eq, Debug)]
pub struct ListFace {
    pub bg: Option<Paint>,
    /// Whether it lights up under the pointer.
    pub hovers: bool,
    pub affordance: Affordance,
    pub icon: Option<(IconName, IconColor)>,
}

/// A row as it is drawn: its selection is a ground of its own, and the icon on
/// that ground gives up its colour to be read.
pub open spec fn list_face(item: ListItem) -> ListFace {
    ListFace {
        bg: if item.selected {
            Some(if item.inactive {
                Paint::SelectedInactive
            } else {
                Paint::Selected
            })
        } else {
            None
        },
        hovers: !item.selected,
        affordance: match item.disclosure {
            Disclosure::Absent => Affordance::Nothing,
            Disclosure::Leaf => Affordance::Room,
            Disclosure::Expanded => Affordance::Glyph(IconName::ChevronDown),
            Disclosure::Collapsed => Affordance::Glyph(IconName::ChevronRight),
        },
        icon: match item.icon {
            Some(name) => Some(
                (
                    name,
                    if item.selected {
                        IconColor::Default
                    } else {
                        item.icon_color
                    },
                ),
            ),
            None => None,
        },
    }
}

impl ListItem {
    /// A plain row.
    pub fn new(label: &str) -> (item: ListItem)
        ensures
            item.label@ == label@,
            item == (ListItem {
                label: item.label,
                meta: None,
                icon: None,
                icon_color: IconColor::Muted,
                indent: 0,
                disclosure: Disclosure::Absent,
                selected: false,
                inactive: false,
                mono: false,
                elide_middle: false,
            }),
    {
        ListItem {
            label: label.to_owned(),
            meta: None,
            icon: None,
            icon_color: IconColor::Muted,
            indent: 0,
            disclosure: Disclosure::Absent,
            selected: false,
            inactive: false,
            mono: false,
            elide_middle: false,
        }
    }

    /// With something said on its right.
    pub fn meta(self, meta: &str) -> (item: ListItem)
        ensures
            maybe(item.meta) == Some(meta@),
            item == (ListItem { meta: item.meta, ..self }),
    {
        ListItem { meta: Some(meta.to_owned()), ..self }
    }

    /// With an icon.
    pub fn icon(self, icon: IconName) -> (item: ListItem)
        ensures
            item == (ListItem { icon: Some(icon), ..self }),
    {
        ListItem { icon: Some(icon), ..self }
    }

    /// With an icon of another colour.
    pub fn icon_color(self, color: IconColor) -> (item: ListItem)
        ensures
            item == (ListItem { icon_color: color, ..self }),
    {
        ListItem { icon_color: color, ..self }
    }

    /// So many levels in.
    pub fn indent(self, level: usize) -> (item: ListItem)
        ensures
            item == (ListItem { indent: level, ..self }),
    {
        ListItem { indent: level, ..self }
    }

    /// One that opens, or could.
    pub fn disclosure(self, disclosure: Disclosure) -> (item: ListItem)
        ensures
            item == (ListItem { disclosure, ..self }),
    {
        ListItem { disclosure, ..self }
    }

    /// Selected, or not.
    pub fn selected(self, selected: bool) -> (item: ListItem)
        ensures
            item == (ListItem { selected, ..self }),
    {
        ListItem { selected, ..self }
    }

    /// In a list that has the keyboard, or in one that has not.
    pub fn inactive(self, inactive: bool) -> (item: ListItem)
        ensures
            item == (ListItem { inactive, ..self }),
    {
        ListItem { inactive, ..self }
    }

    /// In the code face.
    pub fn mono(self) -> (item: ListItem)
        ensures
            item == (ListItem { mono: true, ..self }),
    {
        ListItem { mono: true, ..self }
    }

    /// Keep the end of the label where it does not fit.
    pub fn elide_middle(self) -> (item: ListItem)
        ensures
            item == (ListItem { elide_middle: true, ..self }),
    {
        ListItem { elide_middle: true, ..self }
    }

    /// The row as it is drawn.
    pub fn render(&self) -> (face: ListFace)
        ensures
            face == list_face(*self),
    {
        ListFace {
            bg: if self.selected {
                Some(
                    if self.inactive {
                        Paint::SelectedInactive
                    } else {
                        Paint::Selected
                    },
                )
            } else {
                None
            },
            hovers: !self.selected,
            affordance: match self.disclosure {
                Disclosure::Absent => Affordance::Nothing,
                Disclosure::Leaf => Affordance::Room,
                Disclosure::Expanded => Affordance::Glyph(IconName::ChevronDown),
                Disclosure::Collapsed => Affordance::Glyph(IconName::ChevronRight),
            },
            icon: match self.icon {
                Some(name) => Some(
                    (
                        name,
                        if self.selected {
                            IconColor::Default
                        } else {
                            self.icon_color
                        },
                    ),
                ),
                None => None,
            },
        }
    }
}

} // verus!
