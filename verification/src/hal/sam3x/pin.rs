//! The parallel I/O controller and a pin driver over it.
//!
//! Every register of the controller carries one bit per pin.  The enable,
//! disable, direction and set-data registers are write-only: writing a one
//! at a pin's bit performs the action for that pin and nothing else, which
//! is what makes the one-store writes below safe without a read.

use vstd::prelude::*;
use crate::machine::{BlockMem, wo_write_field, rmw_set_field, read_field, word_at};
use crate::bits::{low_mask, field_get};
use crate::hal::pin::{GpioConf, GpioDirection, GpioLevel};
use crate::hal::sam3x::peripheral_clock::PeripheralClock;
use crate::hal::sam3x::system_clock::{Pmc, PCER0_OFF};

verus! {

/// Byte offset of the PIO enable register (write-only).
pub const PER_OFF: usize = 0x0;

/// Byte offset of the PIO disable register (write-only).
pub const PDR_OFF: usize = 0x4;

/// Byte offset of the output enable register (write-only).
pub const OER_OFF: usize = 0x10;

/// Byte offset of the output disable register (write-only).
pub const ODR_OFF: usize = 0x14;

/// Byte offset of the set output data register (write-only).
pub const SODR_OFF: usize = 0x30;

/// Byte offset of the pin data status register (read-only).
pub const PDSR_OFF: usize = 0x3c;

/// Byte offset of the peripheral select register.
pub const ABSR_OFF: usize = 0x70;

/// One parallel I/O controller block.
pub struct Pio {
    pub mem: BlockMem,
}

impl Pio {
    /// The block has its full span.
    pub open spec fn wf(&self) -> bool {
        self.mem.mem().len() == 0x74
    }

    /// The word of the register at `off`.
    pub open spec fn reg(&self, off: usize) -> u64 {
        word_at(self.mem.mem(), off as int, 4) as u64
    }

    /// A zero-initialized model of the block.
    pub fn new() -> (r: Pio)
        ensures
            r.wf(),
            r.mem.loads == 0,
            r.mem.stores == 0,
            forall|k: int| 0 <= k < r.mem.mem().len() ==> r.mem.mem()[k] == 0,
    {
        Pio { mem: BlockMem::new(0x74) }
    }
}

/// One store to a write-only per-pin register: the written word carries
/// `value` at the pin's bit and zeroes elsewhere.
pub fn wo_set_pin(pio: &mut Pio, off: usize, pin: usize, value: bool)
    requires
        old(pio).wf(),
        old(pio).mem.headroom(1),
        pin < 32,
        off + 4 <= 0x74,
    ensures
        final(pio).wf(),
        final(pio).reg(off) == (if value {
            1u64
        } else {
            0u64
        } & low_mask(1)) << pin as u64,
        forall|k: int|
            0 <= k < final(pio).mem.mem().len() && !(off <= k < off + 4)
                ==> final(pio).mem.mem()[k] == old(pio).mem.mem()[k],
        final(pio).mem.loads == old(pio).mem.loads,
        final(pio).mem.stores == old(pio).mem.stores + 1,
{
    let v: u64 = if value {
        1
    } else {
        0
    };
    wo_write_field(&mut pio.mem, off, 4, pin as u64, 1, v);
}

/// Read one pin's bit of the pin data status register: one load.
pub fn pdsr_pds(pio: &mut Pio, pin: usize) -> (r: bool)
    requires
        old(pio).wf(),
        old(pio).mem.loads < u64::MAX,
        pin < 32,
    ensures
        final(pio).wf(),
        final(pio).mem.mem() == old(pio).mem.mem(),
        r == (field_get(old(pio).reg(PDSR_OFF), pin as u64, 1) != 0),
        final(pio).mem.loads == old(pio).mem.loads + 1,
        final(pio).mem.stores == old(pio).mem.stores,
{
    let v = read_field(&mut pio.mem, PDSR_OFF, 4, pin as u64, 1);
    v != 0
}

/// The available controllers.
#[derive(Clone, Copy, PartialEq, Eq, Structural, Debug)]
pub enum Controller {
    ControllerA,
    ControllerB,
    ControllerC,
    ControllerD,
    ControllerE,
    ControllerF,
}

/// The two peripheral functions a pin can be handed to.
#[derive(Clone, Copy, PartialEq, Eq, Structural, Debug)]
pub enum Peripheral {
    PeripheralA,
    PeripheralB,
}

impl Peripheral {
    /// The `abs` field encoding of the selection.
    pub open spec fn code_spec(self) -> u64 {
        match self {
            Peripheral::PeripheralA => 0,
            Peripheral::PeripheralB => 1,
        }
    }

    pub fn code(self) -> (r: u64)
        ensures
            r == self.code_spec(),
    {
        match self {
            Peripheral::PeripheralA => 0,
            Peripheral::PeripheralB => 1,
        }
    }
}

/// What a pin is for: general-purpose I/O, or one of the peripherals.
#[derive(Clone, Copy, PartialEq, Eq, Structural, Debug)]
pub enum Function {
    Gpio(GpioDirection),
    Peripheral(Peripheral),
}

impl Controller {
    /// The controller's peripheral-clock line.  Only the first two
    /// controllers have their identifiers wired up here.
    pub fn clock(self) -> (r: PeripheralClock)
        requires
            self == Controller::ControllerA || self == Controller::ControllerB,
        ensures
            self == Controller::ControllerA ==> r.index == 11,
            self == Controller::ControllerB ==> r.index == 12,
            r.index < 32,
    {
        let index: usize = match self {
            Controller::ControllerA => 11,
            Controller::ControllerB => 12,
            _ => 0,
        };
        PeripheralClock { index }
    }
}

/// One pin of one controller.
#[derive(Clone, Copy, PartialEq, Eq, Structural, Debug)]
pub struct Pin {
    pub controller: Controller,
    pub pin: u8,
}

impl Pin {
    /// Claim a pin: start the controller's clock, then hand the pin to the
    /// requested function — pin-enable and a direction for GPIO, or
    /// pin-disable and a peripheral selection.
    pub fn new(
        controller: Controller,
        pin_index: u8,
        function: Function,
        pio: &mut Pio,
        pmc: &mut Pmc,
    ) -> (r: Pin)
        requires
            old(pio).wf(),
            old(pio).mem.headroom(2),
            old(pmc).wf(),
            old(pmc).mem.headroom(1),
            pin_index < 32,
            controller == Controller::ControllerA || controller == Controller::ControllerB,
        ensures
            final(pio).wf(),
            final(pmc).wf(),
            r.controller == controller,
            r.pin == pin_index,
            controller == Controller::ControllerA ==> final(pmc).pcer0() == (1u64 & low_mask(
                1,
            )) << 11u64,
            controller == Controller::ControllerB ==> final(pmc).pcer0() == (1u64 & low_mask(
                1,
            )) << 12u64,
            function matches Function::Gpio(_d) ==> final(pio).reg(PER_OFF) == (1u64
                & low_mask(1)) << pin_index as u64,
            function == Function::Gpio(GpioDirection::In) ==> final(pio).reg(ODR_OFF) == (
            1u64 & low_mask(1)) << pin_index as u64,
            function == Function::Gpio(GpioDirection::Out) ==> final(pio).reg(OER_OFF) == (
            1u64 & low_mask(1)) << pin_index as u64,
            function matches Function::Peripheral(_p) ==> final(pio).reg(PDR_OFF) == (1u64
                & low_mask(1)) << pin_index as u64,
            function matches Function::Peripheral(p) ==> field_get(
                final(pio).reg(ABSR_OFF),
                pin_index as u64,
                1,
            ) == p.code_spec(),
    {
        let p = Pin { controller, pin: pin_index };
        let offset = p.pin as usize;
        p.start_clock(pmc);
        match function {
            Function::Gpio(direction) => {
                wo_set_pin(pio, PER_OFF, offset, true);
                let ghost mid = pio.mem.mem();
                p.set_direction(pio, direction);
                proof {
                    crate::machine::lemma_word_at_congruence(
                        pio.mem.mem(),
                        mid,
                        PER_OFF as int,
                        4,
                    );
                }
            },
            Function::Peripheral(peripheral) => {
                wo_set_pin(pio, PDR_OFF, offset, true);
                let ghost mid = pio.mem.mem();
                absr_set_abs(pio, offset, peripheral);
                proof {
                    crate::machine::lemma_word_at_congruence(
                        pio.mem.mem(),
                        mid,
                        PDR_OFF as int,
                        4,
                    );
                }
            },
        }
        p
    }

    /// Start the controller's peripheral clock: one store to the
    /// write-only enable register carrying the controller's clock bit.
    pub fn start_clock(&self, pmc: &mut Pmc)
        requires
            old(pmc).wf(),
            old(pmc).mem.headroom(1),
            self.controller == Controller::ControllerA || self.controller
                == Controller::ControllerB,
        ensures
            final(pmc).wf(),
            self.controller == Controller::ControllerA ==> final(pmc).pcer0() == (1u64
                & low_mask(1)) << 11u64,
            self.controller == Controller::ControllerB ==> final(pmc).pcer0() == (1u64
                & low_mask(1)) << 12u64,
            forall|k: int|
                0 <= k < final(pmc).mem.mem().len() && !(PCER0_OFF <= k < PCER0_OFF + 4)
                    ==> final(pmc).mem.mem()[k] == old(pmc).mem.mem()[k],
            final(pmc).mem.loads == old(pmc).mem.loads,
            final(pmc).mem.stores == old(pmc).mem.stores + 1,
    {
        let p_clk = self.controller.clock();
        p_clk.enable(pmc);
    }

    /// Claim a pin from its flat configuration: controller and pin number
    /// from the index, direction as given.
    pub fn from(c: GpioConf, pio: &mut Pio, pmc: &mut Pmc) -> (r: Pin)
        requires
            old(pio).wf(),
            old(pio).mem.headroom(2),
            old(pmc).wf(),
            old(pmc).mem.headroom(1),
            c.index < 64,
        ensures
            final(pio).wf(),
            final(pmc).wf(),
            r.pin == c.index % 32,
            c.index / 32 == 0 ==> r.controller == Controller::ControllerA,
            c.index / 32 == 1 ==> r.controller == Controller::ControllerB,
    {
        let idx: u8 = (c.index % 32) as u8;
        let controller = match c.index / 32 {
            0 => Controller::ControllerA,
            1 => Controller::ControllerB,
            _ => Controller::ControllerA,
        };
        Pin::new(controller, idx, Function::Gpio(c.direction), pio, pmc)
    }

    /// Drive the pin's level: one store to the set-output-data register
    /// carrying the level at the pin's bit.
    pub fn set_level(&self, pio: &mut Pio, level: GpioLevel)
        requires
            old(pio).wf(),
            old(pio).mem.headroom(1),
            self.pin < 32,
        ensures
            final(pio).wf(),
            final(pio).reg(SODR_OFF) == (if level == GpioLevel::High {
                1u64
            } else {
                0u64
            } & low_mask(1)) << self.pin as u64,
    {
        let value = match level {
            GpioLevel::Low => false,
            GpioLevel::High => true,
        };
        wo_set_pin(pio, SODR_OFF, self.pin as usize, value);
    }

    /// Read the pin's level from the data status register.
    pub fn level(&self, pio: &mut Pio) -> (r: GpioLevel)
        requires
            old(pio).wf(),
            old(pio).mem.loads < u64::MAX,
            self.pin < 32,
        ensures
            final(pio).wf(),
            final(pio).mem.mem() == old(pio).mem.mem(),
            r == (if field_get(old(pio).reg(PDSR_OFF), self.pin as u64, 1) != 0 {
                GpioLevel::High
            } else {
                GpioLevel::Low
            }),
    {
        if pdsr_pds(pio, self.pin as usize) {
            GpioLevel::High
        } else {
            GpioLevel::Low
        }
    }

    /// Set the pin's direction: one store to the output-disable register
    /// for input, to the output-enable register for output.
    pub fn set_direction(&self, pio: &mut Pio, new_dir: GpioDirection)
        requires
            old(pio).wf(),
            old(pio).mem.headroom(1),
            self.pin < 32,
        ensures
            final(pio).wf(),
            new_dir == GpioDirection::In ==> final(pio).reg(ODR_OFF) == (1u64 & low_mask(1))
                << self.pin as u64,
            new_dir == GpioDirection::Out ==> final(pio).reg(OER_OFF) == (1u64 & low_mask(1))
                << self.pin as u64,
            forall|k: int|
                0 <= k < final(pio).mem.mem().len() && !(ODR_OFF <= k < ODR_OFF + 4) && !(
                OER_OFF <= k < OER_OFF + 4) ==> final(pio).mem.mem()[k] == old(
                    pio,
                ).mem.mem()[k],
            final(pio).mem.loads == old(pio).mem.loads,
            final(pio).mem.stores == old(pio).mem.stores + 1,
    {
        let offset = self.pin as usize;
        match new_dir {
            GpioDirection::In => {
                wo_set_pin(pio, ODR_OFF, offset, true);
            },
            GpioDirection::Out => {
                wo_set_pin(pio, OER_OFF, offset, true);
            },
        }
    }
}

/// Select the peripheral a pin is handed to: one read-modify-write of the
/// pin's bit in the select register.
pub fn absr_set_abs(pio: &mut Pio, pin: usize, p: Peripheral)
    requires
        old(pio).wf(),
        old(pio).mem.headroom(1),
        pin < 32,
    ensures
        final(pio).wf(),
        field_get(final(pio).reg(ABSR_OFF), pin as u64, 1) == p.code_spec(),
        final(pio).reg(ABSR_OFF) & !(low_mask(1) << pin as u64) == old(pio).reg(ABSR_OFF)
            & !(low_mask(1) << pin as u64),
        forall|k: int|
            0 <= k < final(pio).mem.mem().len() && !(ABSR_OFF <= k < ABSR_OFF + 4)
                ==> final(pio).mem.mem()[k] == old(pio).mem.mem()[k],
        final(pio).mem.loads == old(pio).mem.loads + 1,
        final(pio).mem.stores == old(pio).mem.stores + 1,
{
    let code = p.code();
    rmw_set_field(&mut pio.mem, ABSR_OFF, 4, pin as u64, 1, code);
    proof {
        crate::bits::lemma_low_mask_values();
        crate::bits::lemma_le_mask_fits(p.code_spec(), 1);
    }
}

} // verus!
