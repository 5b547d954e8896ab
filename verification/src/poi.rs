//! Points of interest: the kinds of hand-shaped landmark scattered over the
//! world, assigned to the placed sites in a fixed rotation so every kind
//! appears and the mix is the same every run.

use vstd::prelude::*;

verus! {

/// The distinct kinds of landmark.
#[derive(Clone, Copy, Debug, PartialEq, Eq, Hash, Structural)]
pub enum PoiKind {
    /// A ring of standing stones around an open centre.
    StoneRing,
    /// A single, oversized tree towering over the forest.
    GreatTree,
    /// A stone ledge topped by a small glowing cairn.
    CliffOverlook,
}

/// The kind of the landmark placed `i`-th: the kinds in rotation.
pub open spec fn kind_at(i: int) -> PoiKind {
    if i % 3 == 0 {
        PoiKind::StoneRing
    } else if i % 3 == 1 {
        PoiKind::GreatTree
    } else {
        PoiKind::CliffOverlook
    }
}

impl PoiKind {
    /// The kind of the landmark placed `i`-th: `StoneRing`, `GreatTree`,
    /// `CliffOverlook`, then around again.
    pub fn from_index(i: usize) -> (kind: PoiKind)
        ensures
            kind == kind_at(i as int),
            i % 3 == 0 ==> kind == PoiKind::StoneRing,
            i % 3 == 1 ==> kind == PoiKind::GreatTree,
            i % 3 == 2 ==> kind == PoiKind::CliffOverlook,
    {
        match i % 3 {
            0 => PoiKind::StoneRing,
            1 => PoiKind::GreatTree,
            _ => PoiKind::CliffOverlook,
        }
    }
}

/// The rotation repeats every three placements, and any three consecutive
/// placements cover every kind.
pub proof fn lemma_kinds_rotate(i: int, kind: PoiKind)
    requires
        0 <= i,
    ensures
        kind_at(i + 3) == kind_at(i),
        kind_at(i) == kind || kind_at(i + 1) == kind || kind_at(i + 2) == kind,
{
}

} // verus!
