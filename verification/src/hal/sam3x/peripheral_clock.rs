//! Peripheral clock gating: enabling a peripheral's clock sets its bit in
//! the write-only peripheral-clock enable register of the power-management
//! controller.

use vstd::prelude::*;
use crate::machine::{wo_write_field, word_at};
use crate::bits::low_mask;
use crate::hal::sam3x::system_clock::{Pmc, PCER0_OFF};

verus! {

/// One peripheral's clock line, by its identifier index.
#[derive(Clone, Copy, PartialEq, Eq, Structural, Debug)]
pub struct PeripheralClock {
    pub index: usize,
}

impl PeripheralClock {
    /// Enable the clock: one store to the write-only enable register,
    /// carrying exactly this peripheral's bit.
    pub fn enable(&self, pmc: &mut Pmc)
        requires
            old(pmc).wf(),
            old(pmc).mem.headroom(1),
            self.index < 32,
        ensures
            final(pmc).wf(),
            final(pmc).pcer0() == (1u64 & low_mask(1)) << self.index as u64,
            forall|k: int|
                0 <= k < final(pmc).mem.mem().len() && !(PCER0_OFF <= k < PCER0_OFF + 4)
                    ==> final(pmc).mem.mem()[k] == old(pmc).mem.mem()[k],
            final(pmc).mem.loads == old(pmc).mem.loads,
            final(pmc).mem.stores == old(pmc).mem.stores + 1,
    {
        wo_write_field(&mut pmc.mem, PCER0_OFF, 4, self.index as u64, 1, 1);
    }
}

} // verus!
