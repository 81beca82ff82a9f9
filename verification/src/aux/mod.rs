use vstd::prelude::*;

pub mod interrupts;

verus! {

/// Bit-flag tests on hardware register values.
pub trait Flags: Sized {
    /// Whether `self` has at least one of the bits of `other` set.
    spec fn has_any(self, other: Self) -> bool;

    /// Returns whether any bit of `other` is set in `self`.
    fn check(self, other: Self) -> (r: bool)
        ensures
            r == self.has_any(other),
    ;
}

impl Flags for u8 {
    open spec fn has_any(self, other: u8) -> bool {
        self & other != 0
    }

    fn check(self, other: u8) -> (r: bool) {
        self & other != 0
    }
}

impl Flags for u16 {
    open spec fn has_any(self, other: u16) -> bool {
        self & other != 0
    }

    fn check(self, other: u16) -> (r: bool) {
        self & other != 0
    }
}

} // verus!
