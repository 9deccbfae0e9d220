//! The board's watchdog helpers: the same block as the HAL watchdog, with
//! the enable state named directly.

use vstd::prelude::*;
use crate::hal::sam3x::watchdog::{Wdc, WDDIS_SHIFT, set_disabled};
use crate::bits::{low_mask, field_get};
use crate::machine::word_at;

verus! {

/// Set the enable state of the watchdog timer: one read-modify-write of
/// the disable bit.  Every other mode-register bit and the control
/// register are untouched.
pub fn set_enabled(wdc: &mut Wdc, enabled: bool)
    requires
        old(wdc).wf(),
        old(wdc).mem.headroom(1),
    ensures
        final(wdc).wf(),
        field_get(final(wdc).mr(), WDDIS_SHIFT, 1) == (if enabled {
            0u64
        } else {
            1u64
        }),
        final(wdc).mr() & !(low_mask(1) << WDDIS_SHIFT) == old(wdc).mr() & !(low_mask(1)
            << WDDIS_SHIFT),
        word_at(final(wdc).mem.mem(), 0, 4) == word_at(old(wdc).mem.mem(), 0, 4),
        final(wdc).mem.loads == old(wdc).mem.loads + 1,
        final(wdc).mem.stores == old(wdc).mem.stores + 1,
{
    set_disabled(wdc, enabled)
}

/// Enable the watchdog timer: one read-modify-write that clears the
/// disable bit; other mode-register bits and the control register are
/// untouched.
pub fn enable(wdc: &mut Wdc)
    requires
        old(wdc).wf(),
        old(wdc).mem.headroom(1),
    ensures
        final(wdc).wf(),
        field_get(final(wdc).mr(), WDDIS_SHIFT, 1) == 0u64,
        final(wdc).mr() & !(low_mask(1) << WDDIS_SHIFT) == old(wdc).mr() & !(low_mask(1)
            << WDDIS_SHIFT),
        word_at(final(wdc).mem.mem(), 0, 4) == word_at(old(wdc).mem.mem(), 0, 4),
        final(wdc).mem.loads == old(wdc).mem.loads + 1,
        final(wdc).mem.stores == old(wdc).mem.stores + 1,
{
    set_enabled(wdc, true)
}

/// Disable the watchdog timer: one read-modify-write that sets the
/// disable bit; other mode-register bits and the control register are
/// untouched.
pub fn disable(wdc: &mut Wdc)
    requires
        old(wdc).wf(),
        old(wdc).mem.headroom(1),
    ensures
        final(wdc).wf(),
        field_get(final(wdc).mr(), WDDIS_SHIFT, 1) == 1u64,
        final(wdc).mr() & !(low_mask(1) << WDDIS_SHIFT) == old(wdc).mr() & !(low_mask(1)
            << WDDIS_SHIFT),
        word_at(final(wdc).mem.mem(), 0, 4) == word_at(old(wdc).mem.mem(), 0, 4),
        final(wdc).mem.loads == old(wdc).mem.loads + 1,
        final(wdc).mem.stores == old(wdc).mem.stores + 1,
{
    set_enabled(wdc, false)
}

} // verus!
