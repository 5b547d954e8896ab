//! The rendering-quality preset and how the settings menu steps through it.
//!
//! The presets are ordered `Low → Medium → High`; stepping clamps at either
//! end rather than wrapping around.

use vstd::prelude::*;

verus! {

/// Rendering quality preset.
#[derive(Clone, Copy, Debug, PartialEq, Eq, Hash, Structural)]
pub enum Quality {
    Low,
    Medium,
    High,
}

impl Default for Quality {
    /// The default preset is `High`.
    fn default() -> (q: Quality)
        ensures
            q == Quality::High,
    {
        Quality::High
    }
}

/// Position of a preset in the `Low → Medium → High` order.
pub open spec fn quality_rank(q: Quality) -> int {
    match q {
        Quality::Low => 0,
        Quality::Medium => 1,
        Quality::High => 2,
    }
}

/// The preset at position `rank`, clamped into `0..=2`.
pub open spec fn quality_at(rank: int) -> Quality {
    if rank <= 0 {
        Quality::Low
    } else if rank == 1 {
        Quality::Medium
    } else {
        Quality::High
    }
}

/// The text shown for a preset.
pub open spec fn quality_text(q: Quality) -> Seq<char> {
    match q {
        Quality::Low => "Low"@,
        Quality::Medium => "Medium"@,
        Quality::High => "High"@,
    }
}

/// Step the preset `dir` places along `Low → Medium → High`, clamping at the
/// ends (no wrap-around).
pub fn cycle_quality(q: Quality, dir: i32) -> (r: Quality)
    requires
        quality_rank(q) + dir <= i32::MAX,
    ensures
        r == quality_at(quality_rank(q) + dir),
        (match q {
            Quality::Low => 0int,
            Quality::Medium => 1int,
            Quality::High => 2int,
        }) + dir <= 0 ==> r == Quality::Low,
        (match q {
            Quality::Low => 0int,
            Quality::Medium => 1int,
            Quality::High => 2int,
        }) + dir == 1 ==> r == Quality::Medium,
        (match q {
            Quality::Low => 0int,
            Quality::Medium => 1int,
            Quality::High => 2int,
        }) + dir >= 2 ==> r == Quality::High,
{
    let idx: i32 = match q {
        Quality::Low => 0,
        Quality::Medium => 1,
        Quality::High => 2,
    };
    let stepped: i32 = idx + dir;
    let clamped: i32 = if stepped < 0 {
        0
    } else if stepped > 2 {
        2
    } else {
        stepped
    };
    match clamped {
        0 => Quality::Low,
        1 => Quality::Medium,
        _ => Quality::High,
    }
}

/// The preset's display name.
pub fn quality_label(q: Quality) -> (label: &'static str)
    ensures
        label@ == quality_text(q),
        q == Quality::Low ==> label@ == "Low"@,
        q == Quality::Medium ==> label@ == "Medium"@,
        q == Quality::High ==> label@ == "High"@,
{
    match q {
        Quality::Low => "Low",
        Quality::Medium => "Medium",
        Quality::High => "High",
    }
}

/// Stepping never leaves the preset range and never wraps: stepping up from
/// `High` or down from `Low` stays put, one step up then one step down from
/// `Low` or `Medium` returns to the start, and stepping up never lowers the
/// preset.
pub proof fn lemma_quality_steps_clamp(q: Quality, dir: i32)
    requires
        quality_rank(q) + dir <= i32::MAX,
    ensures
        q == Quality::High && dir > 0 ==> quality_at(quality_rank(q) + dir) == Quality::High,
        q == Quality::Low && dir < 0 ==> quality_at(quality_rank(q) + dir) == Quality::Low,
        q != Quality::High ==> quality_at(quality_rank(quality_at(quality_rank(q) + 1)) - 1) == q,
        dir >= 0 ==> quality_rank(quality_at(quality_rank(q) + dir)) >= quality_rank(q),
{
}

} // verus!
