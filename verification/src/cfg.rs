//! The device's configuration space: a fixed snapshot of 64 16-bit
//! registers read back from the hardware.  Word 33 holds the FIFO
//! capacity in 16-bit words; bit 0 of word 48 is the programmed latch.

use vstd::prelude::*;

verus! {

/// Index of the register holding the device FIFO capacity, in words.
pub const FIFO_SIZE_WORD: usize = 33;

/// Index of the register whose bit 0 is the programmed latch.
pub const PROGRAMMED_WORD: usize = 48;

/// A snapshot of the device's 64-word configuration space.
///
/// A fresh snapshot is all zeroes; it only carries device state after a
/// successful configuration read stored the decrypted registers here.
pub struct Cfg {
    /// The 64 configuration registers, in device order.
    pub cfg: Vec<u16>,
}

impl Cfg {
    /// A snapshot is well formed when it holds exactly 64 registers.
    pub open spec fn wf(&self) -> bool {
        self.cfg@.len() == 64
    }

    /// The FIFO capacity recorded in the snapshot, in 16-bit words.
    pub open spec fn spec_fifo_size(&self) -> u16 {
        self.cfg@[FIFO_SIZE_WORD as int]
    }

    /// Whether the snapshot's programmed latch is set.
    pub open spec fn spec_is_programmed(&self) -> bool {
        self.cfg@[PROGRAMMED_WORD as int] & 0x0001 != 0
    }

    /// An all-zero snapshot, the state before any configuration read.
    pub fn new() -> (r: Self)
        ensures
            r.wf(),
            forall|i: int| 0 <= i < 64 ==> r.cfg@[i] == 0u16,
    {
        let mut cfg: Vec<u16> = Vec::new();
        let mut i: usize = 0;
        while i < 64
            invariant
                i <= 64,
                cfg@.len() == i,
                forall|k: int| 0 <= k < i ==> cfg@[k] == 0u16,
            decreases 64 - i,
        {
            cfg.push(0u16);
            i = i + 1;
        }
        Cfg { cfg }
    }

    /// The device FIFO capacity, in 16-bit words.
    pub fn fifo_size(&self) -> (r: u16)
        requires
            self.wf(),
        ensures
            r == self.spec_fifo_size(),
    {
        self.cfg[FIFO_SIZE_WORD]
    }

    /// Whether the device reports its FPGA as programmed.
    pub fn is_programmed(&self) -> (r: bool)
        requires
            self.wf(),
        ensures
            r == self.spec_is_programmed(),
    {
        self.cfg[PROGRAMMED_WORD] & 0x0001 != 0
    }
}

} // verus!
