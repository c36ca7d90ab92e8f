//! The interrupt lines the kernel listens to, as indices into the
//! remapped controller range. Programming the controller itself is
//! hardware work and stays outside the library.

use vstd::prelude::*;

verus! {

/// Where the first controller's interrupts start after remapping.
pub const PIC_1_OFFSET: u8 = 32;

/// Where the second controller's interrupts start.
pub const PIC_2_OFFSET: u8 = PIC_1_OFFSET + 8;

/// The interrupt lines handled.
#[derive(Debug, Clone, Copy, PartialEq, Eq, Structural)]
pub enum InterruptIndex {
    Timer,
    Keyboard,
}

impl InterruptIndex {
    /// The interrupt vector of this line.
    pub fn as_u8(self) -> (r: u8)
        ensures
            self is Timer ==> r == PIC_1_OFFSET,
            self is Keyboard ==> r == PIC_1_OFFSET + 1,
    {
        match self {
            InterruptIndex::Timer => PIC_1_OFFSET,
            InterruptIndex::Keyboard => PIC_1_OFFSET + 1,
        }
    }

    /// The interrupt vector, as a table index.
    pub fn as_usize(self) -> (r: usize)
        ensures
            self is Timer ==> r == PIC_1_OFFSET,
            self is Keyboard ==> r == PIC_1_OFFSET + 1,
    {
        self.as_u8() as usize
    }
}

} // verus!
