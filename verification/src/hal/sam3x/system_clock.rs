//! The power-management controller and flash controller, and the system
//! master-clock bring-up written over them.
//!
//! On hardware each write below is followed by a busy-wait on a status bit
//! of the status register until the controller reports ready; the model
//! cannot wait, so each sequence requires the awaited status bits to be
//! set in the model and performs the writes of the sequence in order.

use vstd::prelude::*;
use crate::machine::{
    BlockMem, Updater, upd_new_spec, upd_set_spec, rmw_result, commit_plain, rmw_set_field,
    read_field, word_at, lemma_upd_set_fits, lemma_zero_fits,
};
use crate::bits::{low_mask, field_get, lemma_ctx_nonzero, lemma_or_nonzero,
    lemma_disjoint_field_get, lemma_low_mask_values};

verus! {

/// Byte offset of the main-oscillator register.
pub const MOR_OFF: usize = 0x20;

/// Byte offset of the main-clock frequency register.
pub const MCFR_OFF: usize = 0x24;

/// Byte offset of the PLLA register.
pub const PLLAR_OFF: usize = 0x28;

/// Byte offset of the master-clock register.
pub const MCKR_OFF: usize = 0x30;

/// Byte offset of the peripheral-clock enable register.
pub const PCER0_OFF: usize = 0x10;

/// Byte offset of the status register.
pub const ST_OFF: usize = 0x68;

/// The key that main-oscillator writes must carry.
pub const MOR_KEY: u64 = 0x37;

/// The frequency of the slow clock, in hertz.
pub const SLOW_CLOCK_FREQ: u32 = 32_768;

/// Hertz per measured main-clock cycle: the slow clock over the sixteen
/// cycles of a measurement.
pub const MAINF_SCALE: u32 = 2_048;

/// The highest flash frequency per wait state, in hertz.
pub const FLASH_MAX_FREQ: u32 = 20_000_000;

/// The power-management controller block.
pub struct Pmc {
    pub mem: BlockMem,
}

impl Pmc {
    /// The block has its full span.
    pub open spec fn wf(&self) -> bool {
        self.mem.mem().len() == 0x6c
    }

    /// The current main-oscillator register word.
    pub open spec fn mor(&self) -> u64 {
        word_at(self.mem.mem(), MOR_OFF as int, 4) as u64
    }

    /// The current PLLA register word.
    pub open spec fn pllar(&self) -> u64 {
        word_at(self.mem.mem(), PLLAR_OFF as int, 4) as u64
    }

    /// The current master-clock register word.
    pub open spec fn mckr(&self) -> u64 {
        word_at(self.mem.mem(), MCKR_OFF as int, 4) as u64
    }

    /// The current status register word.
    pub open spec fn st(&self) -> u64 {
        word_at(self.mem.mem(), ST_OFF as int, 4) as u64
    }

    /// The current main-clock frequency register word.
    pub open spec fn mcfr(&self) -> u64 {
        word_at(self.mem.mem(), MCFR_OFF as int, 4) as u64
    }

    /// The current peripheral-clock enable register word.
    pub open spec fn pcer0(&self) -> u64 {
        word_at(self.mem.mem(), PCER0_OFF as int, 4) as u64
    }

    /// A zero-initialized model of the block.
    pub fn new() -> (r: Pmc)
        ensures
            r.wf(),
            r.mem.loads == 0,
            r.mem.stores == 0,
            forall|k: int| 0 <= k < r.mem.mem().len() ==> r.mem.mem()[k] == 0,
    {
        Pmc { mem: BlockMem::new(0x6c) }
    }
}

/// The flash controller block.
pub struct Eefc {
    pub mem: BlockMem,
}

impl Eefc {
    /// The block has its full span.
    pub open spec fn wf(&self) -> bool {
        self.mem.mem().len() == 0xc
    }

    /// The current flash-mode register word.
    pub open spec fn fmr(&self) -> u64 {
        word_at(self.mem.mem(), 0, 4) as u64
    }

    /// A zero-initialized model of the block.
    pub fn new() -> (r: Eefc)
        ensures
            r.wf(),
            r.mem.loads == 0,
            r.mem.stores == 0,
    {
        Eefc { mem: BlockMem::new(0xc) }
    }
}

/// The master-clock source selection.
#[derive(Clone, Copy, PartialEq, Eq, Structural, Debug)]
pub enum Css {
    SlowClk,
    MainClk,
    PplaClk,
    UpplClk,
}

impl Css {
    /// The field encoding of the selection.
    pub open spec fn code_spec(self) -> u64 {
        match self {
            Css::SlowClk => 0,
            Css::MainClk => 1,
            Css::PplaClk => 2,
            Css::UpplClk => 3,
        }
    }

    pub fn code(self) -> (r: u64)
        ensures
            r == self.code_spec(),
    {
        match self {
            Css::SlowClk => 0,
            Css::MainClk => 1,
            Css::PplaClk => 2,
            Css::UpplClk => 3,
        }
    }
}

/// The master-clock prescaler.
#[derive(Clone, Copy, PartialEq, Eq, Structural, Debug)]
#[allow(non_camel_case_types)]
pub enum Pres {
    CLK,
    CLK_2,
    CLK_4,
    CLK_8,
    CLK_16,
    CLK_32,
    CLK_64,
    CLK_3,
}

impl Pres {
    /// The field encoding of the prescaler.
    pub open spec fn code_spec(self) -> u64 {
        match self {
            Pres::CLK => 0,
            Pres::CLK_2 => 1,
            Pres::CLK_4 => 2,
            Pres::CLK_8 => 3,
            Pres::CLK_16 => 4,
            Pres::CLK_32 => 5,
            Pres::CLK_64 => 6,
            Pres::CLK_3 => 7,
        }
    }

    pub fn code(self) -> (r: u64)
        ensures
            r == self.code_spec(),
    {
        match self {
            Pres::CLK => 0,
            Pres::CLK_2 => 1,
            Pres::CLK_4 => 2,
            Pres::CLK_8 => 3,
            Pres::CLK_16 => 4,
            Pres::CLK_32 => 5,
            Pres::CLK_64 => 6,
            Pres::CLK_3 => 7,
        }
    }
}

/// The main-oscillator selection.
#[derive(Clone, Copy, PartialEq, Eq, Structural, Debug)]
#[allow(non_camel_case_types)]
pub enum Moscsel {
    MOSCRC,
    MOSCXT,
}

impl Moscsel {
    /// The field encoding of the selection.
    pub open spec fn code_spec(self) -> u64 {
        match self {
            Moscsel::MOSCRC => 0,
            Moscsel::MOSCXT => 1,
        }
    }

    pub fn code(self) -> (r: u64)
        ensures
            r == self.code_spec(),
    {
        match self {
            Moscsel::MOSCRC => 0,
            Moscsel::MOSCXT => 1,
        }
    }
}

/// The internal RC oscillator frequency.
#[derive(Clone, Copy, PartialEq, Eq, Structural, Debug)]
#[allow(non_camel_case_types)]
pub enum RCFreq {
    MHz_4,
    MHz_8,
    MHz_12,
}

impl RCFreq {
    /// The `moscrcf` field encoding of the frequency.
    pub open spec fn code_spec(self) -> u64 {
        match self {
            RCFreq::MHz_4 => 0,
            RCFreq::MHz_8 => 1,
            RCFreq::MHz_12 => 2,
        }
    }

    pub fn code(self) -> (r: u64)
        ensures
            r == self.code_spec(),
    {
        match self {
            RCFreq::MHz_4 => 0,
            RCFreq::MHz_8 => 1,
            RCFreq::MHz_12 => 2,
        }
    }
}

/// Set the master-clock source: one read-modify-write of the `css` field.
pub fn mckr_set_css(pmc: &mut Pmc, css: Css)
    requires
        old(pmc).wf(),
        old(pmc).mem.headroom(1),
    ensures
        final(pmc).wf(),
        field_get(final(pmc).mckr(), 0, 2) == css.code_spec(),
        final(pmc).mckr() & !(low_mask(2) << 0u64) == old(pmc).mckr() & !(low_mask(2)
            << 0u64),
        forall|k: int|
            0 <= k < final(pmc).mem.mem().len() && !(MCKR_OFF <= k < MCKR_OFF + 4)
                ==> final(pmc).mem.mem()[k] == old(pmc).mem.mem()[k],
        final(pmc).mem.loads == old(pmc).mem.loads + 1,
        final(pmc).mem.stores == old(pmc).mem.stores + 1,
{
    let code = css.code();
    rmw_set_field(&mut pmc.mem, MCKR_OFF, 4, 0, 2, code);
    proof {
        lemma_low_mask_values();
        crate::bits::lemma_le_mask_fits(css.code_spec(), 2);
    }
}

/// Set the master-clock prescaler: one read-modify-write of the `pres`
/// field.
pub fn mckr_set_pres(pmc: &mut Pmc, pres: Pres)
    requires
        old(pmc).wf(),
        old(pmc).mem.headroom(1),
    ensures
        final(pmc).wf(),
        field_get(final(pmc).mckr(), 4, 3) == pres.code_spec(),
        final(pmc).mckr() & !(low_mask(3) << 4u64) == old(pmc).mckr() & !(low_mask(3)
            << 4u64),
        forall|k: int|
            0 <= k < final(pmc).mem.mem().len() && !(MCKR_OFF <= k < MCKR_OFF + 4)
                ==> final(pmc).mem.mem()[k] == old(pmc).mem.mem()[k],
        final(pmc).mem.loads == old(pmc).mem.loads + 1,
        final(pmc).mem.stores == old(pmc).mem.stores + 1,
{
    let code = pres.code();
    rmw_set_field(&mut pmc.mem, MCKR_OFF, 4, 4, 3, code);
    proof {
        lemma_low_mask_values();
        crate::bits::lemma_le_mask_fits(pres.code_spec(), 3);
    }
}

/// The updater of the RC-oscillator enable write: `moscrcen`, the RC
/// frequency, and the key.
pub open spec fn mor_rc_upd(freq_code: u64) -> Updater {
    upd_set_spec(
        upd_set_spec(upd_set_spec(upd_new_spec(), 3, 1, 1), 4, 3, freq_code),
        16,
        8,
        MOR_KEY,
    )
}

/// Enable the internal RC oscillator at the given frequency: one
/// read-modify-write of the main-oscillator register.
pub fn mor_enable_rc(pmc: &mut Pmc, freq: RCFreq)
    requires
        old(pmc).wf(),
        old(pmc).mem.headroom(1),
    ensures
        final(pmc).wf(),
        final(pmc).mor() == rmw_result(old(pmc).mor(), mor_rc_upd(freq.code_spec())),
        forall|k: int|
            0 <= k < final(pmc).mem.mem().len() && !(MOR_OFF <= k < MOR_OFF + 4)
                ==> final(pmc).mem.mem()[k] == old(pmc).mem.mem()[k],
        final(pmc).mem.loads == old(pmc).mem.loads + 1,
        final(pmc).mem.stores == old(pmc).mem.stores + 1,
{
    let mut u = Updater::new();
    u.set(3, 1, 1);
    u.set(4, 3, freq.code());
    u.set(16, 8, MOR_KEY);
    proof {
        lemma_zero_fits(32);
        lemma_upd_set_fits(upd_new_spec(), 3, 1, 1, 32);
        lemma_upd_set_fits(upd_set_spec(upd_new_spec(), 3, 1, 1), 4, 3, freq.code_spec(), 32);
        lemma_upd_set_fits(
            upd_set_spec(upd_set_spec(upd_new_spec(), 3, 1, 1), 4, 3, freq.code_spec()),
            16,
            8,
            MOR_KEY,
            32,
        );
        lemma_ctx_nonzero(1, 3);
        lemma_or_nonzero(0u64 | (low_mask(1) << 3u64), low_mask(3) << 4u64);
        lemma_or_nonzero(
            (0u64 | (low_mask(1) << 3u64)) | (low_mask(3) << 4u64),
            low_mask(8) << 16u64,
        );
    }
    commit_plain(&mut pmc.mem, MOR_OFF, 4, u);
}

/// The updater of the oscillator-select write: `moscsel` and the key.
pub open spec fn mor_select_upd(sel_code: u64) -> Updater {
    upd_set_spec(upd_set_spec(upd_new_spec(), 24, 1, sel_code), 16, 8, MOR_KEY)
}

/// Select the main oscillator source: one read-modify-write of the
/// main-oscillator register.
pub fn mor_select(pmc: &mut Pmc, sel: Moscsel)
    requires
        old(pmc).wf(),
        old(pmc).mem.headroom(1),
    ensures
        final(pmc).wf(),
        final(pmc).mor() == rmw_result(old(pmc).mor(), mor_select_upd(sel.code_spec())),
        forall|k: int|
            0 <= k < final(pmc).mem.mem().len() && !(MOR_OFF <= k < MOR_OFF + 4)
                ==> final(pmc).mem.mem()[k] == old(pmc).mem.mem()[k],
        final(pmc).mem.loads == old(pmc).mem.loads + 1,
        final(pmc).mem.stores == old(pmc).mem.stores + 1,
{
    let mut u = Updater::new();
    u.set(24, 1, sel.code());
    u.set(16, 8, MOR_KEY);
    proof {
        lemma_zero_fits(32);
        lemma_upd_set_fits(upd_new_spec(), 24, 1, sel.code_spec(), 32);
        lemma_upd_set_fits(
            upd_set_spec(upd_new_spec(), 24, 1, sel.code_spec()),
            16,
            8,
            MOR_KEY,
            32,
        );
        lemma_ctx_nonzero(1, 24);
        lemma_or_nonzero(0u64 | (low_mask(1) << 24u64), low_mask(8) << 16u64);
    }
    commit_plain(&mut pmc.mem, MOR_OFF, 4, u);
}

/// The updater of the crystal-oscillator enable write: `moscxten`,
/// `moscrcen`, the start-up time, and the key.
pub open spec fn mor_main_upd(start_time: u64) -> Updater {
    upd_set_spec(
        upd_set_spec(
            upd_set_spec(upd_set_spec(upd_new_spec(), 0, 1, 1), 3, 1, 1),
            8,
            8,
            start_time,
        ),
        16,
        8,
        MOR_KEY,
    )
}

/// Enable the crystal oscillator with the given start-up time: one
/// read-modify-write of the main-oscillator register.
pub fn mor_enable_main(pmc: &mut Pmc, start_time: u8)
    requires
        old(pmc).wf(),
        old(pmc).mem.headroom(1),
    ensures
        final(pmc).wf(),
        final(pmc).mor() == rmw_result(old(pmc).mor(), mor_main_upd(start_time as u64)),
        forall|k: int|
            0 <= k < final(pmc).mem.mem().len() && !(MOR_OFF <= k < MOR_OFF + 4)
                ==> final(pmc).mem.mem()[k] == old(pmc).mem.mem()[k],
        final(pmc).mem.loads == old(pmc).mem.loads + 1,
        final(pmc).mem.stores == old(pmc).mem.stores + 1,
{
    let mut u = Updater::new();
    u.set(0, 1, 1);
    u.set(3, 1, 1);
    u.set(8, 8, start_time as u64);
    u.set(16, 8, MOR_KEY);
    proof {
        let s0 = upd_new_spec();
        let s1 = upd_set_spec(s0, 0, 1, 1);
        let s2 = upd_set_spec(s1, 3, 1, 1);
        let s3 = upd_set_spec(s2, 8, 8, start_time as u64);
        lemma_zero_fits(32);
        lemma_upd_set_fits(s0, 0, 1, 1, 32);
        lemma_upd_set_fits(s1, 3, 1, 1, 32);
        lemma_upd_set_fits(s2, 8, 8, start_time as u64, 32);
        lemma_upd_set_fits(s3, 16, 8, MOR_KEY, 32);
        lemma_ctx_nonzero(1, 0);
        lemma_or_nonzero(s1.mask, low_mask(1) << 3u64);
        lemma_or_nonzero(s2.mask, low_mask(8) << 8u64);
        lemma_or_nonzero(s3.mask, low_mask(8) << 16u64);
    }
    commit_plain(&mut pmc.mem, MOR_OFF, 4, u);
}

/// Read the `moscsel` field of the main-oscillator register: one load.
pub fn mor_moscsel(pmc: &mut Pmc) -> (r: Moscsel)
    requires
        old(pmc).wf(),
        old(pmc).mem.loads < u64::MAX,
    ensures
        final(pmc).wf(),
        final(pmc).mem.mem() == old(pmc).mem.mem(),
        r.code_spec() == field_get(old(pmc).mor(), 24, 1),
        final(pmc).mem.loads == old(pmc).mem.loads + 1,
        final(pmc).mem.stores == old(pmc).mem.stores,
{
    let v = read_field(&mut pmc.mem, MOR_OFF, 4, 24, 1);
    proof {
        lemma_low_mask_values();
    }
    if v == 0 {
        Moscsel::MOSCRC
    } else {
        Moscsel::MOSCXT
    }
}

/// The updater of the PLLA configuration write.
pub open spec fn pllar_upd(one: u64, mula: u64, diva: u64, count: u64) -> Updater {
    upd_set_spec(
        upd_set_spec(
            upd_set_spec(upd_set_spec(upd_new_spec(), 29, 1, one), 16, 11, mula),
            0,
            8,
            diva,
        ),
        8,
        6,
        count,
    )
}

/// Configure the PLLA: one read-modify-write of the PLLA register.
pub fn pllar_write(pmc: &mut Pmc, one: bool, mula: u16, diva: u8, pllacount: u8)
    requires
        old(pmc).wf(),
        old(pmc).mem.headroom(1),
    ensures
        final(pmc).wf(),
        final(pmc).pllar() == rmw_result(
            old(pmc).pllar(),
            pllar_upd(
                if one {
                    1u64
                } else {
                    0u64
                },
                mula as u64,
                diva as u64,
                pllacount as u64,
            ),
        ),
        forall|k: int|
            0 <= k < final(pmc).mem.mem().len() && !(PLLAR_OFF <= k < PLLAR_OFF + 4)
                ==> final(pmc).mem.mem()[k] == old(pmc).mem.mem()[k],
        final(pmc).mem.loads == old(pmc).mem.loads + 1,
        final(pmc).mem.stores == old(pmc).mem.stores + 1,
{
    let vone: u64 = if one {
        1
    } else {
        0
    };
    let mut u = Updater::new();
    u.set(29, 1, vone);
    u.set(16, 11, mula as u64);
    u.set(0, 8, diva as u64);
    u.set(8, 6, pllacount as u64);
    proof {
        let s0 = upd_new_spec();
        let s1 = upd_set_spec(s0, 29, 1, vone);
        let s2 = upd_set_spec(s1, 16, 11, mula as u64);
        let s3 = upd_set_spec(s2, 0, 8, diva as u64);
        lemma_zero_fits(32);
        lemma_upd_set_fits(s0, 29, 1, vone, 32);
        lemma_upd_set_fits(s1, 16, 11, mula as u64, 32);
        lemma_upd_set_fits(s2, 0, 8, diva as u64, 32);
        lemma_upd_set_fits(s3, 8, 6, pllacount as u64, 32);
        lemma_ctx_nonzero(1, 29);
        lemma_or_nonzero(s1.mask, low_mask(11) << 16u64);
        lemma_or_nonzero(s2.mask, low_mask(8) << 0u64);
        lemma_or_nonzero(s3.mask, low_mask(6) << 8u64);
    }
    commit_plain(&mut pmc.mem, PLLAR_OFF, 4, u);
}

/// One status bit of the status register, by its bit position: one load.
pub fn st_bit(pmc: &mut Pmc, bit: u64) -> (r: bool)
    requires
        old(pmc).wf(),
        old(pmc).mem.loads < u64::MAX,
        bit < 32,
    ensures
        final(pmc).wf(),
        final(pmc).mem.mem() == old(pmc).mem.mem(),
        r == (field_get(old(pmc).st(), bit, 1) != 0),
        final(pmc).mem.loads == old(pmc).mem.loads + 1,
        final(pmc).mem.stores == old(pmc).mem.stores,
{
    let v = read_field(&mut pmc.mem, ST_OFF, 4, bit, 1);
    v != 0
}

/// The measured main-clock frequency is ready to read.
pub open spec fn mainf_ready(pmc: Pmc) -> bool {
    field_get(pmc.mcfr(), 16, 1) == 1
}

/// Read the main clock frequency from the measurement register.  On
/// hardware the caller first awaits `mainfrdy`; the model requires it set.
pub fn mck_freq(pmc: &mut Pmc) -> (r: u32)
    requires
        old(pmc).wf(),
        old(pmc).mem.loads < u64::MAX,
        mainf_ready(*old(pmc)),
    ensures
        final(pmc).wf(),
        final(pmc).mem.mem() == old(pmc).mem.mem(),
        r == field_get(old(pmc).mcfr(), 0, 16) * MAINF_SCALE,
        final(pmc).mem.loads == old(pmc).mem.loads + 1,
        final(pmc).mem.stores == old(pmc).mem.stores,
{
    let cycles = read_field(&mut pmc.mem, MCFR_OFF, 4, 0, 16);
    proof {
        lemma_low_mask_values();
    }
    (cycles as u32) * MAINF_SCALE
}

/// The final poll of a hardware wait: on the model the awaited bit is
/// already set, so one load settles it.
pub fn await_st_bit(pmc: &mut Pmc, bit: u64)
    requires
        old(pmc).wf(),
        old(pmc).mem.loads < u64::MAX,
        bit < 32,
        field_get(old(pmc).st(), bit, 1) == 1,
    ensures
        final(pmc).wf(),
        final(pmc).mem.mem() == old(pmc).mem.mem(),
        final(pmc).mem.loads == old(pmc).mem.loads + 1,
        final(pmc).mem.stores == old(pmc).mem.stores,
{
    let ready = st_bit(pmc, bit);
    proof {
        lemma_low_mask_values();
    }
    assert(ready);
}

/// Set the flash wait states: one read-modify-write of the flash-mode
/// register.
pub fn fmr_set_fws(eefc: &mut Eefc, fws: u16)
    requires
        old(eefc).wf(),
        old(eefc).mem.headroom(1),
    ensures
        final(eefc).wf(),
        field_get(final(eefc).fmr(), 0, 12) == (fws as u64) & low_mask(12),
        final(eefc).fmr() & !(low_mask(12) << 0u64) == old(eefc).fmr() & !(low_mask(12)
            << 0u64),
        forall|k: int|
            4 <= k < final(eefc).mem.mem().len() ==> final(eefc).mem.mem()[k] == old(
                eefc,
            ).mem.mem()[k],
        final(eefc).mem.loads == old(eefc).mem.loads + 1,
        final(eefc).mem.stores == old(eefc).mem.stores + 1,
{
    rmw_set_field(&mut eefc.mem, 0, 4, 0, 12, fws as u64);
}

/// Whether the flash controller reports ready.
pub fn fsr_fready(eefc: &mut Eefc) -> (r: bool)
    requires
        old(eefc).wf(),
        old(eefc).mem.loads < u64::MAX,
    ensures
        final(eefc).wf(),
        final(eefc).mem.mem() == old(eefc).mem.mem(),
        r == (field_get(word_at(old(eefc).mem.mem(), 8, 4) as u64, 0, 1) != 0),
        final(eefc).mem.loads == old(eefc).mem.loads + 1,
        final(eefc).mem.stores == old(eefc).mem.stores,
{
    let v = read_field(&mut eefc.mem, 8, 4, 0, 1);
    v != 0
}

/// The master-clock source.
pub enum ClockSource {
    /// The internal slow clock.
    InternalSlow,
    /// The internal RC oscillator at the given frequency.
    InternalRc(RCFreq),
    /// The main oscillator; the frequency is measured where not given.
    Main(Option<u32>),
}

impl ClockSource {
    /// The source frequency in hertz.  For an unmeasured main oscillator
    /// it is read from the given measurement-register word.
    pub open spec fn freq_spec(&self, mcfr: u64) -> int {
        match self {
            ClockSource::InternalSlow => SLOW_CLOCK_FREQ as int,
            ClockSource::InternalRc(RCFreq::MHz_4) => 4_000_000,
            ClockSource::InternalRc(RCFreq::MHz_8) => 8_000_000,
            ClockSource::InternalRc(RCFreq::MHz_12) => 12_000_000,
            ClockSource::Main(Some(f)) => *f as int,
            ClockSource::Main(None) => field_get(mcfr, 0, 16) * MAINF_SCALE,
        }
    }

    /// The source needs the frequency measurement.
    pub open spec fn is_measured(&self) -> bool {
        match self {
            ClockSource::Main(None) => true,
            _ => false,
        }
    }

    /// The master-clock selection this source runs under.
    pub open spec fn css_spec(&self) -> Css {
        match self {
            ClockSource::InternalSlow => Css::SlowClk,
            _ => Css::MainClk,
        }
    }

    /// The source frequency in hertz.  An unmeasured main oscillator costs
    /// one load of the measurement register, which must be ready.
    pub fn freq(&self, pmc: &mut Pmc) -> (r: u32)
        requires
            old(pmc).wf(),
            old(pmc).mem.loads < u64::MAX,
            self.is_measured() ==> mainf_ready(*old(pmc)),
        ensures
            final(pmc).wf(),
            final(pmc).mem.mem() == old(pmc).mem.mem(),
            final(pmc).mem.stores == old(pmc).mem.stores,
            final(pmc).mem.loads <= old(pmc).mem.loads + 1,
            r == self.freq_spec(old(pmc).mcfr()),
    {
        match self {
            ClockSource::InternalSlow => SLOW_CLOCK_FREQ,
            ClockSource::InternalRc(RCFreq::MHz_4) => 4_000_000,
            ClockSource::InternalRc(RCFreq::MHz_8) => 8_000_000,
            ClockSource::InternalRc(RCFreq::MHz_12) => 12_000_000,
            ClockSource::Main(Some(f)) => *f,
            ClockSource::Main(None) => mck_freq(pmc),
        }
    }

    /// Bring the source up and switch the master clock to it.  On hardware
    /// every step awaits its status bit; the model requires them set.
    pub fn init(&self, pmc: &mut Pmc)
        requires
            old(pmc).wf(),
            old(pmc).mem.headroom(8),
            field_get(old(pmc).st(), 3, 1) == 1,
            self matches ClockSource::InternalRc(_f) ==> field_get(old(pmc).st(), 17, 1) == 1
                && field_get(old(pmc).st(), 16, 1) == 1,
            self matches ClockSource::Main(_f) ==> field_get(old(pmc).st(), 0, 1) == 1
                && field_get(old(pmc).st(), 16, 1) == 1,
        ensures
            final(pmc).wf(),
            field_get(final(pmc).mckr(), 0, 2) == self.css_spec().code_spec(),
            final(pmc).st() == old(pmc).st(),
            final(pmc).mcfr() == old(pmc).mcfr(),
            final(pmc).mem.loads <= old(pmc).mem.loads + 6,
            final(pmc).mem.stores <= old(pmc).mem.stores + 3,
    {
        match self {
            ClockSource::InternalSlow => {},
            ClockSource::InternalRc(freq) => {
                init_rc_oscillator(pmc, *freq);
            },
            ClockSource::Main(_f) => {
                init_main_oscillator(pmc, 0x8);
            },
        }
        proof {
            crate::machine::lemma_word_at_congruence(
                pmc.mem.mem(),
                old(pmc).mem.mem(),
                ST_OFF as int,
                4,
            );
        }
        let css = match self {
            ClockSource::InternalSlow => Css::SlowClk,
            _ => Css::MainClk,
        };
        mckr_set_css(pmc, css);
        proof {
            crate::machine::lemma_word_at_congruence(
                pmc.mem.mem(),
                old(pmc).mem.mem(),
                ST_OFF as int,
                4,
            );
            crate::machine::lemma_word_at_congruence(
                pmc.mem.mem(),
                old(pmc).mem.mem(),
                MCFR_OFF as int,
                4,
            );
        }
        await_st_bit(pmc, 3);
    }
}

/// PLLA scaling of a source clock.
pub struct Pll {
    pub mul: u32,
    pub div: u32,
    pub count: u32,
}

impl Pll {
    /// What the PLL makes of an input frequency.
    pub open spec fn apply_freq_spec(&self, freq: u32) -> int {
        (freq as int / self.div as int) * (self.mul + 1)
    }

    /// Apply the PLL ratio to a frequency.
    pub fn apply_freq(&self, freq: u32) -> (r: u32)
        requires
            self.div != 0,
            self.mul < u32::MAX,
            self.apply_freq_spec(freq) <= u32::MAX,
        ensures
            r == self.apply_freq_spec(freq),
    {
        (freq / self.div) * (self.mul + 1)
    }

    /// Configure and engage the PLLA: write its ratio, then switch the
    /// prescaler and the master-clock source to it.  On hardware each step
    /// awaits lock or clock-ready; the model requires those bits set.
    pub fn init(&self, pmc: &mut Pmc)
        requires
            old(pmc).wf(),
            old(pmc).mem.headroom(8),
            field_get(old(pmc).st(), 1, 1) == 1,
            field_get(old(pmc).st(), 3, 1) == 1,
        ensures
            final(pmc).wf(),
            field_get(final(pmc).mckr(), 0, 2) == Css::PplaClk.code_spec(),
            field_get(final(pmc).mckr(), 4, 3) == Pres::CLK.code_spec(),
            final(pmc).mem.loads <= old(pmc).mem.loads + 7,
            final(pmc).mem.stores <= old(pmc).mem.stores + 3,
    {
        let mula: u16 = #[verifier::truncate] (self.mul as u16);
        let diva: u8 = #[verifier::truncate] (self.div as u8);
        let cnt: u8 = #[verifier::truncate] (self.count as u8);
        pllar_write(pmc, true, mula, diva, cnt);
        proof {
            crate::machine::lemma_word_at_congruence(
                pmc.mem.mem(),
                old(pmc).mem.mem(),
                ST_OFF as int,
                4,
            );
        }
        await_st_bit(pmc, 1);
        mckr_set_pres(pmc, Pres::CLK);
        proof {
            crate::machine::lemma_word_at_congruence(
                pmc.mem.mem(),
                old(pmc).mem.mem(),
                ST_OFF as int,
                4,
            );
        }
        await_st_bit(pmc, 3);
        let ghost mckr_mid = pmc.mckr();
        mckr_set_css(pmc, Css::PplaClk);
        proof {
            lemma_disjoint_field_get(pmc.mckr(), mckr_mid, 0, 2, 4, 3);
            crate::machine::lemma_word_at_congruence(
                pmc.mem.mem(),
                old(pmc).mem.mem(),
                ST_OFF as int,
                4,
            );
        }
        await_st_bit(pmc, 3);
    }
}

/// Program the flash wait states of both banks for the given clock
/// frequency.  On hardware the sequence then awaits flash-ready on both
/// banks; the model requires the bits set.
pub fn init_flash(clk_freq: u32, eefc0: &mut Eefc, eefc1: &mut Eefc)
    requires
        old(eefc0).wf(),
        old(eefc0).mem.headroom(2),
        old(eefc1).wf(),
        old(eefc1).mem.headroom(2),
        field_get(word_at(old(eefc0).mem.mem(), 8, 4) as u64, 0, 1) == 1,
        field_get(word_at(old(eefc1).mem.mem(), 8, 4) as u64, 0, 1) == 1,
    ensures
        final(eefc0).wf(),
        final(eefc1).wf(),
        field_get(final(eefc0).fmr(), 0, 12) == ((clk_freq / FLASH_MAX_FREQ) as u64)
            & low_mask(12),
        field_get(final(eefc1).fmr(), 0, 12) == ((clk_freq / FLASH_MAX_FREQ) as u64)
            & low_mask(12),
{
    let cycles: u32 = clk_freq / FLASH_MAX_FREQ;
    let fws: u16 = #[verifier::truncate] (cycles as u16);
    proof {
        // four wait states at most on this part: the quotient fits
        assert(clk_freq as int / FLASH_MAX_FREQ as int <= 0xffff);
    }
    fmr_set_fws(eefc0, fws);
    fmr_set_fws(eefc1, fws);
    proof {
        crate::machine::lemma_word_at_congruence(
            eefc0.mem.mem(),
            old(eefc0).mem.mem(),
            8,
            4,
        );
        crate::machine::lemma_word_at_congruence(
            eefc1.mem.mem(),
            old(eefc1).mem.mem(),
            8,
            4,
        );
    }
    let r0 = fsr_fready(eefc0);
    let r1 = fsr_fready(eefc1);
    assert(r0 && r1);
}

/// Initialize the system master clock from the given source, optionally
/// scaled by the PLLA, and program the flash wait states for the result.
/// Returns the master-clock frequency in hertz.
pub fn init_clock(source: ClockSource, pll: Option<Pll>, pmc: &mut Pmc, eefc0: &mut Eefc,
    eefc1: &mut Eefc) -> (r: u32)
    requires
        old(pmc).wf(),
        old(pmc).mem.headroom(20),
        old(eefc0).wf(),
        old(eefc0).mem.headroom(2),
        old(eefc1).wf(),
        old(eefc1).mem.headroom(2),
        field_get(old(pmc).st(), 1, 1) == 1,
        field_get(old(pmc).st(), 3, 1) == 1,
        field_get(old(pmc).st(), 0, 1) == 1,
        field_get(old(pmc).st(), 16, 1) == 1,
        field_get(old(pmc).st(), 17, 1) == 1,
        field_get(word_at(old(eefc0).mem.mem(), 8, 4) as u64, 0, 1) == 1,
        field_get(word_at(old(eefc1).mem.mem(), 8, 4) as u64, 0, 1) == 1,
        source.is_measured() ==> mainf_ready(*old(pmc)),
        match pll {
            Some(p) => p.div != 0 && p.mul < u32::MAX && p.apply_freq_spec(
                (source.freq_spec(old(pmc).mcfr()) as u32),
            ) <= u32::MAX,
            None => true,
        },
        source.freq_spec(old(pmc).mcfr()) <= u32::MAX,
    ensures
        final(pmc).wf(),
        final(eefc0).wf(),
        final(eefc1).wf(),
        r == match pll {
            Some(p) => p.apply_freq_spec((source.freq_spec(old(pmc).mcfr()) as u32)),
            None => source.freq_spec(old(pmc).mcfr()),
        },
{
    source.init(pmc);
    let src_freq = source.freq(pmc);
    let freq = match &pll {
        Some(p) => p.apply_freq(src_freq),
        None => src_freq,
    };
    init_flash(freq, eefc0, eefc1);
    match pll {
        Some(p) => {
            p.init(pmc);
        },
        None => {},
    }
    freq
}

/// Bring the oscillators up the way the vendor start-up code does, ending
/// on the PLLA at half rate.  On hardware every step awaits its status
/// bit; the model requires them set.
pub fn temp_boot(pmc: &mut Pmc, eefc0: &mut Eefc, eefc1: &mut Eefc)
    requires
        old(pmc).wf(),
        old(pmc).mem.headroom(20),
        old(eefc0).wf(),
        old(eefc0).mem.headroom(1),
        old(eefc1).wf(),
        old(eefc1).mem.headroom(1),
        field_get(old(pmc).st(), 0, 1) == 1,
        field_get(old(pmc).st(), 1, 1) == 1,
        field_get(old(pmc).st(), 3, 1) == 1,
        field_get(old(pmc).st(), 16, 1) == 1,
    ensures
        final(pmc).wf(),
        final(eefc0).wf(),
        final(eefc1).wf(),
        field_get(final(pmc).mckr(), 0, 2) == Css::PplaClk.code_spec(),
        field_get(final(pmc).mckr(), 4, 3) == Pres::CLK_2.code_spec(),
        field_get(final(eefc0).fmr(), 0, 12) == 4u64 & low_mask(12),
        field_get(final(eefc1).fmr(), 0, 12) == 4u64 & low_mask(12),
{
    // flash wait states first
    fmr_set_fws(eefc0, 4);
    fmr_set_fws(eefc1, 4);
    // enable the crystal oscillator unless it is already selected
    let sel = mor_moscsel(pmc);
    match sel {
        Moscsel::MOSCXT => {},
        Moscsel::MOSCRC => {
            mor_enable_main(pmc, 0x8);
            proof {
                st_unchanged(pmc, old(pmc));
            }
            await_st_bit(pmc, 0);
        },
    }
    // switch over to the crystal
    mor_enable_main(pmc, 0x8);
    mor_select(pmc, Moscsel::MOSCXT);
    proof {
        st_unchanged(pmc, old(pmc));
    }
    await_st_bit(pmc, 16);
    mckr_set_css(pmc, Css::MainClk);
    proof {
        st_unchanged(pmc, old(pmc));
    }
    await_st_bit(pmc, 3);
    // engage the PLLA
    pllar_write(pmc, true, 0x3, 0x1, 0x3f);
    proof {
        st_unchanged(pmc, old(pmc));
    }
    await_st_bit(pmc, 1);
    mckr_set_pres(pmc, Pres::CLK_2);
    proof {
        st_unchanged(pmc, old(pmc));
    }
    await_st_bit(pmc, 3);
    let ghost mckr_mid = pmc.mckr();
    mckr_set_css(pmc, Css::PplaClk);
    proof {
        lemma_disjoint_field_get(pmc.mckr(), mckr_mid, 0, 2, 4, 3);
        st_unchanged(pmc, old(pmc));
    }
    await_st_bit(pmc, 3);
}

/// The status word is untouched when the bytes of the status register
/// are.
proof fn st_unchanged(a: &Pmc, b: &Pmc)
    requires
        a.wf(),
        b.wf(),
        forall|k: int| ST_OFF <= k < ST_OFF + 4 ==> a.mem.mem()[k] == b.mem.mem()[k],
    ensures
        a.st() == b.st(),
{
    crate::machine::lemma_word_at_congruence(a.mem.mem(), b.mem.mem(), ST_OFF as int, 4);
}

/// Enable the internal RC oscillator and select it: two main-oscillator
/// writes, each awaited on hardware.
pub fn init_rc_oscillator(pmc: &mut Pmc, freq: RCFreq)
    requires
        old(pmc).wf(),
        old(pmc).mem.headroom(4),
        field_get(old(pmc).st(), 17, 1) == 1,
        field_get(old(pmc).st(), 16, 1) == 1,
    ensures
        final(pmc).wf(),
        final(pmc).mor() == rmw_result(
            rmw_result(old(pmc).mor(), mor_rc_upd(freq.code_spec())),
            mor_select_upd(Moscsel::MOSCRC.code_spec()),
        ),
        forall|k: int|
            0 <= k < final(pmc).mem.mem().len() && !(MOR_OFF <= k < MOR_OFF + 4)
                ==> final(pmc).mem.mem()[k] == old(pmc).mem.mem()[k],
        final(pmc).mem.loads == old(pmc).mem.loads + 4,
        final(pmc).mem.stores == old(pmc).mem.stores + 2,
{
    mor_enable_rc(pmc, freq);
    proof {
        crate::machine::lemma_word_at_congruence(
            pmc.mem.mem(),
            old(pmc).mem.mem(),
            ST_OFF as int,
            4,
        );
    }
    await_st_bit(pmc, 17);
    mor_select(pmc, Moscsel::MOSCRC);
    proof {
        crate::machine::lemma_word_at_congruence(
            pmc.mem.mem(),
            old(pmc).mem.mem(),
            ST_OFF as int,
            4,
        );
    }
    await_st_bit(pmc, 16);
}

/// Enable the crystal oscillator and select it: two main-oscillator
/// writes, each awaited on hardware.
pub fn init_main_oscillator(pmc: &mut Pmc, start_time: u32)
    requires
        old(pmc).wf(),
        old(pmc).mem.headroom(4),
        field_get(old(pmc).st(), 0, 1) == 1,
        field_get(old(pmc).st(), 16, 1) == 1,
    ensures
        final(pmc).wf(),
        final(pmc).mor() == rmw_result(
            rmw_result(old(pmc).mor(), mor_main_upd((start_time as u8) as u64)),
            mor_select_upd(Moscsel::MOSCXT.code_spec()),
        ),
        forall|k: int|
            0 <= k < final(pmc).mem.mem().len() && !(MOR_OFF <= k < MOR_OFF + 4)
                ==> final(pmc).mem.mem()[k] == old(pmc).mem.mem()[k],
        final(pmc).mem.loads == old(pmc).mem.loads + 4,
        final(pmc).mem.stores == old(pmc).mem.stores + 2,
{
    let st8: u8 = #[verifier::truncate] (start_time as u8);
    mor_enable_main(pmc, st8);
    proof {
        crate::machine::lemma_word_at_congruence(
            pmc.mem.mem(),
            old(pmc).mem.mem(),
            ST_OFF as int,
            4,
        );
    }
    await_st_bit(pmc, 0);
    mor_select(pmc, Moscsel::MOSCXT);
    proof {
        crate::machine::lemma_word_at_congruence(
            pmc.mem.mem(),
            old(pmc).mem.mem(),
            ST_OFF as int,
            4,
        );
    }
    await_st_bit(pmc, 16);
}

} // verus!
