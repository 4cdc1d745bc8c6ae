//! Geometry primitives: closed coordinate intervals and the axis-aligned
//! rectangle that bounds the simulation arena.

use vstd::prelude::*;

verus! {

/// Largest coordinate magnitude the arena may use, in thousandths of a world
/// unit (one million world units). Keeping every coordinate inside this band
/// is what lets the force arithmetic stay inside `i64`.
pub const MAX_COORD: i64 = 1_000_000_000;

/// A closed interval of fixed-point coordinates. Invariant: `min <= max`.
#[derive(Clone, Copy, Debug)]
pub struct Range {
    pub min: i64,
    pub max: i64,
}

/// Mathematical model of a [`Range`]: the same interval over unbounded integers.
pub ghost struct RangeV {
    pub min: int,
    pub max: int,
}

impl View for Range {
    type V = RangeV;

    open spec fn view(&self) -> RangeV {
        RangeV { min: self.min as int, max: self.max as int }
    }
}

impl RangeV {
    /// A well-formed interval is non-empty and lies inside the coordinate band.
    pub open spec fn wf(self) -> bool {
        -MAX_COORD <= self.min <= self.max <= MAX_COORD
    }

    /// The value moved to the nearest endpoint if it lies outside the interval.
    pub open spec fn clamp(self, value: int) -> int {
        if value < self.min {
            self.min
        } else if value > self.max {
            self.max
        } else {
            value
        }
    }

    pub open spec fn contains(self, value: int) -> bool {
        self.min <= value <= self.max
    }
}

/// The simulation arena: a pair of coordinate intervals.
#[derive(Clone, Copy, Debug)]
pub struct Rectangle {
    pub xrange: Range,
    pub yrange: Range,
}

/// Mathematical model of a [`Rectangle`].
pub ghost struct RectangleV {
    pub xrange: RangeV,
    pub yrange: RangeV,
}

impl View for Rectangle {
    type V = RectangleV;

    open spec fn view(&self) -> RectangleV {
        RectangleV { xrange: self.xrange@, yrange: self.yrange@ }
    }
}

impl RectangleV {
    pub open spec fn wf(self) -> bool {
        self.xrange.wf() && self.yrange.wf()
    }

    pub open spec fn contains(self, x: int, y: int) -> bool {
        self.xrange.contains(x) && self.yrange.contains(y)
    }
}

/// Returns `value` clamped into the closed interval `limits`. Total: every
/// input maps to the nearest point of the interval.
pub fn limit(value: i64, limits: &Range) -> (r: i64)
    requires
        limits.min <= limits.max,
    ensures
        r == limits@.clamp(value as int),
        limits.min <= r <= limits.max,
{
    if value < limits.min {
        limits.min
    } else if value > limits.max {
        limits.max
    } else {
        value
    }
}

} // verus!
