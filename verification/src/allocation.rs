//! Allocation cap of the helper process.
//!
//! A hostile file can declare huge dimensions: the decoder then asks for tens of gigabytes, which
//! would push the whole machine into swap. Any single allocation above the cap is refused, which
//! stops the helper at once; the application reports the file as unreadable and restarts the
//! helper.

use vstd::prelude::*;

verus! {

/// Largest single allocation. Real files stay far below: a 177 Mpx sensor in 16 bits is 354 MB.
pub const MAX_ALLOCATION: usize = 2 * 1024 * 1024 * 1024;

/// The cap.
#[derive(Debug, Clone, Copy, PartialEq, Eq, Structural)]
pub struct Capped;

impl Capped {
    /// Whether an allocation of `size` bytes is let through, be it a new one or one that an
    /// earlier allocation grows or shrinks to.
    pub fn admits(&self, size: usize) -> (admitted: bool)
        ensures
            admitted == (size <= MAX_ALLOCATION),
    {
        !(size > MAX_ALLOCATION)
    }
}

} // verus!
