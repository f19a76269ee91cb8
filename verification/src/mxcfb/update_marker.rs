//! Process-local, nonzero HWTCON update markers. This does not reserve
//! markers with the kernel or submit an update.
use vstd::prelude::*;

verus! {

/// A sequence of update markers: the first is the seed (or 1 if the seed is
/// zero); later markers increment, skipping zero after `u32::MAX`. Values are
/// distinct only within one sequence before a full wrap.
pub struct UpdateMarkerSequence {
    next: u32,
}

/// The marker after `marker`.
pub open spec fn following_marker(marker: u32) -> u32 {
    if marker == u32::MAX {
        1
    } else {
        (marker + 1) as u32
    }
}

impl View for UpdateMarkerSequence {
    type V = u32;

    /// The marker the next call hands out.
    closed spec fn view(&self) -> u32 {
        self.next
    }
}

impl UpdateMarkerSequence {
    #[verifier::type_invariant]
    closed spec fn never_zero(self) -> bool {
        self.next != 0
    }

    /// A sequence starting at `seed`, or at 1 for a zero seed.
    pub fn from_seed(seed: u32) -> (markers: Self)
        ensures
            markers@ == (if seed == 0 {
                1
            } else {
                seed
            }),
    {
        UpdateMarkerSequence {
            next: if seed == 0 {
                1
            } else {
                seed
            },
        }
    }

    /// Hand out the next marker, which is never zero.
    pub fn next_marker(&mut self) -> (marker: u32)
        ensures
            marker == old(self)@,
            marker != 0,
            final(self)@ == following_marker(marker),
            final(self)@ != 0,
    {
        proof {
            use_type_invariant(&*self);
        }
        let marker = self.next;
        self.next = if marker == u32::MAX {
            1
        } else {
            marker + 1
        };
        marker
    }
}

} // verus!
