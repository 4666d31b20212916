//! Windows of ranks: the ray parameters among which a surface is looked for.
use vstd::prelude::*;

verus! {

/// A window of ranks, from `min` to `max`. A window whose `max` lies below
/// its `min` holds nothing.
#[derive(Clone, Copy, Debug, PartialEq, Eq)]
pub struct Interval {
    pub min: i64,
    pub max: i64,
}

impl Interval {
    /// Whether the window holds anything: its `min` lies at its `max` or
    /// below.
    pub open spec fn well_formed(&self) -> bool {
        self.min <= self.max
    }

    /// The window from `min` to `max`.
    pub fn new(min: i64, max: i64) -> (window: Interval)
        ensures
            window == (Interval { min, max }),
            window.well_formed() <==> min <= max,
    {
        Interval { min, max }
    }

    /// The window with its upper end moved to `max`.
    pub open spec fn spec_up_to(&self, max: i64) -> Interval {
        Interval { min: self.min, max }
    }

    /// The window with its upper end moved to `max`.
    #[verifier::when_used_as_spec(spec_up_to)]
    pub fn up_to(&self, max: i64) -> (window: Interval)
        ensures
            window == self.spec_up_to(max),
    {
        Interval { min: self.min, max }
    }

    /// Whether `x` lies in the window, the ends counted in.
    pub open spec fn spec_contains(&self, x: i64) -> bool {
        self.min <= x <= self.max
    }

    /// Whether `x` lies strictly inside the window.
    pub open spec fn spec_surrounds(&self, x: i64) -> bool {
        self.min < x < self.max
    }

    /// Whether `x` lies in the window, the ends counted in.
    #[verifier::when_used_as_spec(spec_contains)]
    pub fn contains(&self, x: i64) -> (inside: bool)
        ensures
            inside == self.spec_contains(x),
    {
        self.min <= x && x <= self.max
    }

    /// The rank in the window that is nearest to `x`.
    pub open spec fn spec_clamp(&self, x: i64) -> i64 {
        if x < self.min {
            self.min
        } else if x > self.max {
            self.max
        } else {
            x
        }
    }

    /// Whether `x` lies strictly inside the window.
    #[verifier::when_used_as_spec(spec_surrounds)]
    pub fn surrounds(&self, x: i64) -> (inside: bool)
        ensures
            inside == self.spec_surrounds(x),
    {
        self.min < x && x < self.max
    }

    /// The rank in the window that is nearest to `x`: `x` itself where the
    /// window holds it, else the end that it lies beyond.
    #[verifier::when_used_as_spec(spec_clamp)]
    pub fn clamp(&self, x: i64) -> (kept: i64)
        ensures
            kept == self.spec_clamp(x),
            self.min <= self.max ==> self.contains(kept),
    {
        if x < self.min {
            self.min
        } else if x > self.max {
            self.max
        } else {
            x
        }
    }
}

} // verus!
