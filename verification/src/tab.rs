//! Tab strips.
//!
//! Every region of the window has its own strip, and they all have to look
//! identical or the window stops reading as one program. The active tab is a
//! notch: one hairline runs along the strip and detours around it.
use crate::icon::{IconColor, IconName, Paint};
use crate::label::Weight;
use crate::text::maybe;
use vstd::prelude::*;

verus! {

/// A tab of a strip.
#[derive(Debug)]
pub struct Tab {
    pub label: String,
    /// What tells it from another of the same name.
    pub detail: Option<String>,
    pub icon: Option<IconName>,
    pub icon_color: IconColor,
    pub active: bool,
    /// Whether it takes its share of the strip.
    pub fill: bool,
    pub dirty: bool,
    pub closable: bool,
    pub pinned: bool,
    /// Whether the seam may detour down its left side.
    pub seam_l: bool,
    /// Whether the seam may detour down its right side.
    pub seam_r: bool,
}

/// What stands at the end of a tab.
#[derive(Clone, Copy, PartialEq, Eq, Structural, Debug)]
pub enum Trailing {
    Nothing,
    Pin(IconColor),
    Dot(Paint),
    Close,
}

/// A tab as it is drawn.
#[derive(Clone, Copy, PartialEq, Eq, Structural, Debug)]
pub struct TabFace {
    pub bg: Option<Paint>,
    pub left_seam: bool,
    pub right_seam: bool,
    pub icon: IconColor,
    pub ink: IconColor,
    pub weight: Weight,
    pub trailing: Trailing,
}

/// A tab as it is drawn.
///
/// A pin outranks the dot and the dot outranks the button, because there is
/// room for one. A colour the caller chose for the icon outranks the active
/// state, because the reason to colour it is to be noticed from another tab.
pub open spec fn tab_face(tab: Tab) -> TabFace {
    TabFace {
        bg: if tab.active {
            Some(Paint::TabActive)
        } else {
            None
        },
        left_seam: tab.active && tab.seam_l,
        right_seam: tab.active && tab.seam_r,
        icon: if !(tab.icon_color is Muted) {
            tab.icon_color
        } else if tab.active {
            IconColor::Muted
        } else {
            IconColor::Subtle
        },
        ink: if tab.active {
            IconColor::Default
        } else {
            IconColor::Muted
        },
        weight: if tab.active {
            Weight::Medium
        } else {
            Weight::Normal
        },
        trailing: if tab.pinned {
            Trailing::Pin(
                if tab.active {
                    IconColor::Muted
                } else {
                    IconColor::Subtle
                },
            )
        } else if tab.dirty {
            Trailing::Dot(
                if tab.active {
                    Paint::Accent
                } else {
                    Paint::TextSubtle
                },
            )
        } else if tab.closable {
            Trailing::Close
        } else {
            Trailing::Nothing
        },
    }
}

impl Tab {
    /// A tab that is not showing.
    pub fn new(label: &str) -> (tab: Tab)
        ensures
            tab.label@ == label@,
            tab == (Tab {
                label: tab.label,
                detail: None,
                icon: None,
                icon_color: IconColor::Muted,
                active: false,
                fill: false,
                dirty: false,
                closable: false,
                pinned: false,
                seam_l: true,
                seam_r: true,
            }),
    {
        Tab {
            label: label.to_owned(),
            detail: None,
            icon: None,
            icon_color: IconColor::Muted,
            active: false,
            fill: false,
            dirty: false,
            closable: false,
            pinned: false,
            seam_l: true,
            seam_r: true,
        }
    }

    /// With what tells it from another of the same name.
    pub fn detail(self, detail: &str) -> (tab: Tab)
        ensures
            maybe(tab.detail) == Some(detail@),
            tab == (Tab { detail: tab.detail, ..self }),
    {
        Tab { detail: Some(detail.to_owned()), ..self }
    }

    /// With an icon.
    pub fn icon(self, icon: IconName) -> (tab: Tab)
        ensures
            tab == (Tab { icon: Some(icon), ..self }),
    {
        Tab { icon: Some(icon), ..self }
    }

    /// With an icon of another colour.
    pub fn icon_color(self, color: IconColor) -> (tab: Tab)
        ensures
            tab == (Tab { icon_color: color, ..self }),
    {
        Tab { icon_color: color, ..self }
    }

    /// Showing, or not.
    pub fn active(self, active: bool) -> (tab: Tab)
        ensures
            tab == (Tab { active, ..self }),
    {
        Tab { active, ..self }
    }

    /// Taking its share of the strip.
    pub fn fill(self) -> (tab: Tab)
        ensures
            tab == (Tab { fill: true, ..self }),
    {
        Tab { fill: true, ..self }
    }

    /// Holding something unsaved, or not.
    pub fn dirty(self, dirty: bool) -> (tab: Tab)
        ensures
            tab == (Tab { dirty, ..self }),
    {
        Tab { dirty, ..self }
    }

    /// One that can be closed, or not.
    pub fn closable(self, closable: bool) -> (tab: Tab)
        ensures
            tab == (Tab { closable, ..self }),
    {
        Tab { closable, ..self }
    }

    /// Pinned, or not.
    pub fn pinned(self, pinned: bool) -> (tab: Tab)
        ensures
            tab == (Tab { pinned, ..self }),
    {
        Tab { pinned, ..self }
    }

    /// The tab as it is drawn.
    pub fn render(&self) -> (face: TabFace)
        ensures
            face == tab_face(*self),
    {
        let trailing = if self.pinned {
            Trailing::Pin(
                if self.active {
                    IconColor::Muted
                } else {
                    IconColor::Subtle
                },
            )
        } else if self.dirty {
            Trailing::Dot(
                if self.active {
                    Paint::Accent
                } else {
                    Paint::TextSubtle
                },
            )
        } else if self.closable {
            Trailing::Close
        } else {
            Trailing::Nothing
        };
        let icon = match (self.icon_color, self.active) {
            (IconColor::Muted, true) => IconColor::Muted,
            (IconColor::Muted, false) => IconColor::Subtle,
            (color, _) => color,
        };
        TabFace {
            bg: if self.active {
                Some(Paint::TabActive)
            } else {
                None
            },
            left_seam: self.active && self.seam_l,
            right_seam: self.active && self.seam_r,
            icon,
            ink: if self.active {
                IconColor::Default
            } else {
                IconColor::Muted
            },
            weight: if self.active {
                Weight::Medium
            } else {
                Weight::Normal
            },
            trailing,
        }
    }
}

/// A strip of tabs.
#[derive(Debug)]
pub struct TabBar {
    pub tabs: Vec<Tab>,
    /// How many controls stand before the tabs.
    pub start: usize,
    /// How many controls stand after the tabs.
    pub end: usize,
    /// Whether another strip stands right below.
    pub stacked: bool,
    /// Whether the strip above has drawn the hairline between the two.
    pub nested: bool,
}

/// A strip as it is drawn.
#[derive(Debug)]
pub struct TabBarFace {
    pub height: u32,
    /// Whether it draws the hairline above it.
    pub top_line: bool,
    /// Whether the hairline below is drawn over the tabs rather than under
    /// them.
    pub seam_over: bool,
    pub tabs: Vec<TabFace>,
}

/// Whether the seam may detour down the left side of a tab: not at the end of
/// a strip, where some neighbour draws the divider, and not on a strip with
/// another below it, where the seam runs unbroken.
pub open spec fn left_seam(bar: TabBar, at: int) -> bool {
    bar.tabs@[at].seam_l && !bar.stacked && !(at == 0 && bar.start == 0)
}

/// Whether the seam may detour down the right side of a tab.
pub open spec fn right_seam(bar: TabBar, at: int) -> bool {
    bar.tabs@[at].seam_r && !bar.stacked && !(at == bar.tabs@.len() - 1 && bar.end == 0)
}

impl TabBar {
    /// A strip with nothing in it.
    pub fn new() -> (bar: TabBar)
        ensures
            bar.tabs@ == Seq::<Tab>::empty(),
            bar.start == 0 && bar.end == 0 && !bar.stacked && !bar.nested,
    {
        TabBar { tabs: Vec::new(), start: 0, end: 0, stacked: false, nested: false }
    }

    /// One with another strip right below.
    pub fn stacked(self) -> (bar: TabBar)
        ensures
            bar == (TabBar { stacked: true, ..self }),
    {
        TabBar { stacked: true, ..self }
    }

    /// One whose upper hairline the strip above has drawn.
    pub fn nested(self) -> (bar: TabBar)
        ensures
            bar == (TabBar { nested: true, ..self }),
    {
        TabBar { nested: true, ..self }
    }

    /// With one more tab.
    pub fn tab(self, tab: Tab) -> (bar: TabBar)
        ensures
            bar.tabs@ == self.tabs@.push(tab),
            bar == (TabBar { tabs: bar.tabs, ..self }),
    {
        let mut tabs = self.tabs;
        tabs.push(tab);
        TabBar { tabs, ..self }
    }

    /// With some more tabs.
    pub fn tabs(self, tabs: Vec<Tab>) -> (bar: TabBar)
        ensures
            bar.tabs@ == self.tabs@ + tabs@,
            bar == (TabBar { tabs: bar.tabs, ..self }),
    {
        let mut all = self.tabs;
        let mut more = tabs;
        all.append(&mut more);
        TabBar { tabs: all, ..self }
    }

    /// The strip as it is drawn in a band of some height, measured from one
    /// hairline to the next. A nested strip inherits the first of those from
    /// the strip above, so it spends nothing on one and stands a point shorter.
    pub fn render(&self, band: u32) -> (face: TabBarFace)
        requires
            self.nested ==> band >= 1,
        ensures
            face.height == if self.nested {
                band - 1
            } else {
                band as int
            },
            face.top_line == !self.nested,
            face.seam_over == self.stacked,
            face.tabs@.len() == self.tabs@.len(),
            forall|i: int|
                0 <= i < self.tabs@.len() ==> (#[trigger] face.tabs@[i]) == tab_face(
                    Tab {
                        seam_l: left_seam(*self, i),
                        seam_r: right_seam(*self, i),
                        ..self.tabs@[i]
                    },
                ),
    {
        let mut tabs: Vec<TabFace> = Vec::new();
        let mut at: usize = 0;
        while at < self.tabs.len()
            invariant
                at <= self.tabs@.len(),
                tabs@.len() == at,
                forall|i: int|
                    0 <= i < at ==> (#[trigger] tabs@[i]) == tab_face(
                        Tab {
                            seam_l: left_seam(*self, i),
                            seam_r: right_seam(*self, i),
                            ..self.tabs@[i]
                        },
                    ),
            decreases self.tabs@.len() - at,
        {
            let first = at == 0 && self.start == 0;
            let last = at == self.tabs.len() - 1 && self.end == 0;
            let seam_l = self.tabs[at].seam_l && !self.stacked && !first;
            let seam_r = self.tabs[at].seam_r && !self.stacked && !last;
            let face = self.tabs[at].render();
            tabs.push(
                TabFace {
                    left_seam: self.tabs[at].active && seam_l,
                    right_seam: self.tabs[at].active && seam_r,
                    ..face
                },
            );
            at += 1;
        }
        TabBarFace {
            height: if self.nested {
                band - 1
            } else {
                band
            },
            top_line: !self.nested,
            seam_over: self.stacked,
            tabs,
        }
    }
}

/// Under a strip with another right below it, no tab bends the seam.
pub proof fn a_stacked_strip_has_a_straight_seam(bar: TabBar, at: int)
    requires
        bar.stacked,
        0 <= at < bar.tabs@.len(),
    ensures
        !left_seam(bar, at),
        !right_seam(bar, at),
{
}

} // verus!
