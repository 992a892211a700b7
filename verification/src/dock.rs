//! The dock's splitters: which way each edge's panel grows.

use vstd::prelude::*;

verus! {

/// A docked panel's edge.
#[derive(Clone, Copy, PartialEq, Eq, Debug, Structural)]
pub enum Edge {
    /// The sidebar, on the left: a drag right widens it.
    Sidebar,
    /// The right pane: a drag left widens it.
    Right,
    /// The bottom pane: a drag up heightens it.
    Bottom,
}

impl Edge {
    /// Whether the splitter runs across the width: the side panels resize
    /// sideways, the bottom one up and down.
    pub fn is_horizontal(self) -> (r: bool)
        ensures
            r == (self != Edge::Bottom),
    {
        match self {
            Edge::Bottom => false,
            _ => true,
        }
    }

    /// Which pointer axis resizes the panel, and whether moving along it
    /// grows (`true`) or shrinks it: right for the sidebar, left for the
    /// right pane, up for the bottom one.
    pub fn growth(self) -> (r: (bool, bool))
        ensures
            r == (match self {
                Edge::Sidebar => (true, true),
                Edge::Right => (true, false),
                Edge::Bottom => (false, false),
            }),
    {
        match self {
            Edge::Sidebar => (true, true),
            Edge::Right => (true, false),
            Edge::Bottom => (false, false),
        }
    }
}

} // verus!
