//! The watchdog timer block: control register (write-only) at byte 0,
//! mode register at byte 4 with the disable bit `wddis` at bit 15.

use vstd::prelude::*;
use crate::machine::{
    BlockMem, Updater, upd_new_spec, upd_set_spec, committed_word, stored_word, word_at,
};
use crate::bits::{low_mask, field_get, fits};
use crate::laws::{lemma_round_trip_set, lemma_set_isolation};

verus! {

/// Byte offset of the mode register.
pub const MR_OFF: usize = 4;

/// Bit position of the `wddis` field in the mode register.
pub const WDDIS_SHIFT: u64 = 15;

/// The watchdog register block: eight bytes of registers.
pub struct Wdc {
    pub mem: BlockMem,
}

impl Wdc {
    /// The block has its full span.
    pub open spec fn wf(&self) -> bool {
        self.mem.mem().len() == 8
    }

    /// The current mode-register word.
    pub open spec fn mr(&self) -> u64 {
        word_at(self.mem.mem(), MR_OFF as int, 4) as u64
    }

    /// A zero-initialized model of the block.
    pub fn new() -> (r: Wdc)
        ensures
            r.wf(),
            r.mem.loads == 0,
            r.mem.stores == 0,
    {
        Wdc { mem: BlockMem::new(8) }
    }
}

/// Set the disable bit from the given enable state: one read-modify-write
/// of the mode register.  Bits outside `wddis` are preserved; the control
/// register is untouched.
pub fn set_disabled(wdc: &mut Wdc, enabled: bool)
    requires
        old(wdc).wf(),
        old(wdc).mem.headroom(1),
    ensures
        final(wdc).wf(),
        field_get(final(wdc).mr(), WDDIS_SHIFT, 1) == (if enabled {
            0u64
        } else {
            1u64
        }),
        final(wdc).mr() & !(low_mask(1) << WDDIS_SHIFT) == old(wdc).mr() & !(low_mask(1)
            << WDDIS_SHIFT),
        word_at(final(wdc).mem.mem(), 0, 4) == word_at(old(wdc).mem.mem(), 0, 4),
        final(wdc).mem.loads == old(wdc).mem.loads + 1,
        final(wdc).mem.stores == old(wdc).mem.stores + 1,
{
    let mut u = Updater::new();
    u.set_bool(WDDIS_SHIFT, !enabled);
    proof {
        crate::bits::lemma_and_zero(low_mask(1) << WDDIS_SHIFT);
        let w0 = old(wdc).mr();
        let v: u64 = if !enabled {
            1
        } else {
            0
        };
        crate::bits::lemma_low_mask_values();
        crate::bits::lemma_le_mask_fits(v, 1);
        crate::bits::lemma_ctx_nonzero(1, WDDIS_SHIFT);
        lemma_round_trip_set(w0, v, WDDIS_SHIFT, 1, 0);
        lemma_set_isolation(w0, v, WDDIS_SHIFT, 1, 0);
        crate::machine::lemma_zero_fits(32);
        crate::machine::lemma_upd_set_fits(upd_new_spec(), WDDIS_SHIFT, 1, v, 32);
    }
    u.commit(&mut wdc.mem, MR_OFF, 4, 0, false);
    proof {
        crate::machine::lemma_word_at_congruence(wdc.mem.mem(), old(wdc).mem.mem(), 0, 4);
    }
}

/// Enable the watchdog timer: one read-modify-write that clears the
/// disable bit.  Every other mode-register bit and the control register
/// are untouched.
pub fn enable(wdc: &mut Wdc)
    requires
        old(wdc).wf(),
        old(wdc).mem.headroom(1),
    ensures
        final(wdc).wf(),
        field_get(final(wdc).mr(), WDDIS_SHIFT, 1) == 0u64,
        final(wdc).mr() & !(low_mask(1) << WDDIS_SHIFT) == old(wdc).mr() & !(low_mask(1)
            << WDDIS_SHIFT),
        word_at(final(wdc).mem.mem(), 0, 4) == word_at(old(wdc).mem.mem(), 0, 4),
        final(wdc).mem.loads == old(wdc).mem.loads + 1,
        final(wdc).mem.stores == old(wdc).mem.stores + 1,
{
    set_disabled(wdc, true)
}

/// Disable the watchdog timer: one read-modify-write that sets the
/// disable bit.  Every other mode-register bit and the control register
/// are untouched.
pub fn disable(wdc: &mut Wdc)
    requires
        old(wdc).wf(),
        old(wdc).mem.headroom(1),
    ensures
        final(wdc).wf(),
        field_get(final(wdc).mr(), WDDIS_SHIFT, 1) == 1u64,
        final(wdc).mr() & !(low_mask(1) << WDDIS_SHIFT) == old(wdc).mr() & !(low_mask(1)
            << WDDIS_SHIFT),
        word_at(final(wdc).mem.mem(), 0, 4) == word_at(old(wdc).mem.mem(), 0, 4),
        final(wdc).mem.loads == old(wdc).mem.loads + 1,
        final(wdc).mem.stores == old(wdc).mem.stores + 1,
{
    set_disabled(wdc, false)
}

} // verus!
