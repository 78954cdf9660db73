//! Dragging the seams between regions.
//!
//! Lengths are whole numbers of points.
use vstd::prelude::*;

verus! {

/// How wide a panel may get.
pub const PANEL_WIDEST: i32 = 640;

/// How low the dock may get.
pub const DOCK_LOWEST: i32 = 90;

/// How high the dock may get.
pub const DOCK_HIGHEST: i32 = 900;

/// How wide the right panel is where no width was written down.
pub const RIGHT_WIDTH: i32 = 300;

/// The lengths that the theme has a say in.
#[derive(Clone, Copy, PartialEq, Eq, Structural, Debug)]
pub struct PanelMetrics {
    /// How wide the left panel is where no width was written down.
    pub panel_default_width: i32,
    /// How narrow a panel may get.
    pub panel_min_width: i32,
    /// How high the dock is where no height was written down.
    pub dock_default_height: i32,
}

/// A seam of the window.
#[derive(Clone, Copy, PartialEq, Eq, Structural, Debug)]
pub enum DragTarget {
    LeftPanel,
    RightPanel,
    BottomDock,
    /// A seam between two panes, which the layout moves itself.
    Seam,
}

/// Where the pointer is.
#[derive(Clone, Copy, PartialEq, Eq, Structural, Debug)]
pub struct Spot {
    pub x: i32,
    pub y: i32,
}

/// A seam being dragged.
#[derive(Clone, Copy, PartialEq, Eq, Structural, Debug)]
pub struct Drag {
    pub target: DragTarget,
    pub origin: Spot,
    /// How wide or tall the region was when the drag began.
    pub initial: i32,
}

/// The lengths that are dragged, and how far they may go.
#[derive(Clone, Copy, PartialEq, Eq, Structural, Debug)]
pub struct Panels {
    pub left_width: i32,
    pub right_width: i32,
    pub dock_height: i32,
    /// How narrow a panel may get.
    pub narrowest: i32,
    /// How wide a panel may get.
    pub widest: i32,
    /// How low the dock may get.
    pub lowest: i32,
    /// How high the dock may get.
    pub highest: i32,
    pub drag: Option<Drag>,
}

/// A length kept between two others.
pub open spec fn clamped(length: int, least: int, most: int) -> int {
    if length < least {
        least
    } else if length > most {
        most
    } else {
        length
    }
}

/// How long a region was when a drag of its seam began.
pub open spec fn length_of(panels: Panels, target: DragTarget) -> i32 {
    match target {
        DragTarget::LeftPanel => panels.left_width,
        DragTarget::RightPanel => panels.right_width,
        DragTarget::BottomDock => panels.dock_height,
        DragTarget::Seam => 0,
    }
}

/// The lengths while the pointer is somewhere. The left panel grows to the
/// right, the right one to the left, and the dock upwards.
pub open spec fn dragged(panels: Panels, at: Spot) -> Panels {
    match panels.drag {
        None => panels,
        Some(drag) => match drag.target {
            DragTarget::LeftPanel => Panels {
                left_width: clamped(
                    drag.initial + at.x - drag.origin.x,
                    panels.narrowest as int,
                    panels.widest as int,
                ) as i32,
                ..panels
            },
            DragTarget::RightPanel => Panels {
                right_width: clamped(
                    drag.initial - (at.x - drag.origin.x),
                    panels.narrowest as int,
                    panels.widest as int,
                ) as i32,
                ..panels
            },
            DragTarget::BottomDock => Panels {
                dock_height: clamped(
                    drag.initial - (at.y - drag.origin.y),
                    panels.lowest as int,
                    panels.highest as int,
                ) as i32,
                ..panels
            },
            DragTarget::Seam => panels,
        },
    }
}

/// A length kept between two others.
fn clamp(length: i64, least: i32, most: i32) -> (kept: i32)
    requires
        least <= most,
    ensures
        kept == clamped(length as int, least as int, most as int),
{
    if length < least as i64 {
        least
    } else if length > most as i64 {
        most
    } else {
        length as i32
    }
}

/// What holds of the lengths a region may have.
pub open spec fn bounded(panels: Panels) -> bool {
    panels.narrowest <= panels.widest && panels.lowest <= panels.highest
}

/// A length that was written down, and another where none was.
pub open spec fn length_or(written: Option<i32>, otherwise: i32) -> i32 {
    match written {
        Some(length) => length,
        None => otherwise,
    }
}

/// The lengths a window starts with: the ones that were written down, and
/// where none were, the ones it comes with.
pub open spec fn first_panels(
    left: Option<i32>,
    right: Option<i32>,
    dock: Option<i32>,
    metrics: PanelMetrics,
) -> Panels {
    Panels {
        left_width: length_or(left, metrics.panel_default_width),
        right_width: length_or(right, RIGHT_WIDTH),
        dock_height: length_or(dock, metrics.dock_default_height),
        narrowest: metrics.panel_min_width,
        widest: PANEL_WIDEST,
        lowest: DOCK_LOWEST,
        highest: DOCK_HIGHEST,
        drag: None,
    }
}

impl Panels {
    /// The lengths a window starts with. A panel is never wider than 640, and
    /// the dock is never lower than 90 nor higher than 900, however far its
    /// seam is dragged.
    pub fn new(
        left: Option<i32>,
        right: Option<i32>,
        dock: Option<i32>,
        metrics: PanelMetrics,
    ) -> (panels: Panels)
        ensures
            panels == first_panels(left, right, dock, metrics),
            metrics.panel_min_width <= PANEL_WIDEST ==> bounded(panels),
    {
        Panels {
            left_width: match left {
                Some(width) => width,
                None => metrics.panel_default_width,
            },
            right_width: match right {
                Some(width) => width,
                None => RIGHT_WIDTH,
            },
            dock_height: match dock {
                Some(height) => height,
                None => metrics.dock_default_height,
            },
            narrowest: metrics.panel_min_width,
            widest: PANEL_WIDEST,
            lowest: DOCK_LOWEST,
            highest: DOCK_HIGHEST,
            drag: None,
        }
    }

    /// A seam taken hold of.
    pub fn begin_drag(&mut self, target: DragTarget, origin: Spot)
        ensures
            *final(self) == (Panels {
                drag: Some(Drag { target, origin, initial: length_of(*old(self), target) }),
                ..*old(self)
            }),
    {
        let initial: i32 = match target {
            DragTarget::LeftPanel => self.left_width,
            DragTarget::RightPanel => self.right_width,
            DragTarget::BottomDock => self.dock_height,
            DragTarget::Seam => 0,
        };
        self.drag = Some(Drag { target, origin, initial });
    }

    /// The pointer moved.
    pub fn update_drag(&mut self, at: Spot)
        requires
            bounded(*old(self)),
        ensures
            *final(self) == dragged(*old(self), at),
    {
        if let Some(drag) = self.drag {
            let across: i64 = at.x as i64 - drag.origin.x as i64;
            let down: i64 = at.y as i64 - drag.origin.y as i64;
            match drag.target {
                DragTarget::LeftPanel => {
                    self.left_width = clamp(
                        drag.initial as i64 + across,
                        self.narrowest,
                        self.widest,
                    );
                },
                DragTarget::RightPanel => {
                    self.right_width = clamp(
                        drag.initial as i64 - across,
                        self.narrowest,
                        self.widest,
                    );
                },
                DragTarget::BottomDock => {
                    self.dock_height = clamp(
                        drag.initial as i64 - down,
                        self.lowest,
                        self.highest,
                    );
                },
                DragTarget::Seam => {},
            }
        }
    }

    /// The seam let go of. Says whether there was one, which is when the
    /// lengths are written down: none of the ones in between was one anybody
    /// chose.
    pub fn end_drag(&mut self) -> (was_dragging: bool)
        ensures
            *final(self) == (Panels { drag: None, ..*old(self) }),
            was_dragging == (old(self).drag is Some),
    {
        let was = self.drag.is_some();
        self.drag = None;
        was
    }

    /// The pointer moved over the shield that swallows it while a seam is
    /// dragged. A move with no button down means that the release was missed,
    /// and is one. Says whether the lengths are to be written down.
    pub fn shield_moved(&mut self, at: Spot, pressed: bool) -> (released: bool)
        requires
            bounded(*old(self)),
        ensures
            pressed ==> *final(self) == dragged(*old(self), at) && !released,
            !pressed ==> *final(self) == (Panels { drag: None, ..*old(self) }) && released == (
            old(self).drag is Some),
    {
        if pressed {
            self.update_drag(at);
            false
        } else {
            self.end_drag()
        }
    }

    /// Which seam is being dragged.
    pub fn current_drag_target(&self) -> (target: Option<DragTarget>)
        ensures
            target == match self.drag {
                Some(drag) => Some(drag.target),
                None => None,
            },
    {
        match self.drag {
            Some(drag) => Some(drag.target),
            None => None,
        }
    }

    /// Whether a seam is being dragged.
    pub fn dragging(&self, target: DragTarget) -> (answer: bool)
        ensures
            answer == (self.drag matches Some(drag) && drag.target == target),
    {
        match self.drag {
            Some(drag) => drag.target == target,
            None => false,
        }
    }
}

/// Whether every length is one it may have.
pub open spec fn in_bounds(panels: Panels) -> bool {
    &&& panels.narrowest <= panels.left_width <= panels.widest
    &&& panels.narrowest <= panels.right_width <= panels.widest
    &&& panels.lowest <= panels.dock_height <= panels.highest
}

/// No drag takes a region past how far it may go.
pub proof fn a_drag_stays_in_bounds(panels: Panels, at: Spot)
    requires
        bounded(panels),
        in_bounds(panels),
    ensures
        in_bounds(dragged(panels, at)),
{
}

/// Coming back to where a drag began undoes it, however far it went.
pub proof fn coming_back_undoes_a_drag(
    panels: Panels,
    target: DragTarget,
    origin: Spot,
    away: Spot,
)
    requires
        bounded(panels),
        in_bounds(panels),
    ensures
        ({
            let held = Panels {
                drag: Some(Drag { target, origin, initial: length_of(panels, target) }),
                ..panels
            };
            dragged(dragged(held, away), origin) == held
        }),
{
}

} // verus!
