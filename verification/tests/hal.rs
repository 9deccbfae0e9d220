//! The SAM3X layer driven against the register models: watchdog bits, pin
//! writes, and the clock bring-up sequences.

use ioreg::hal::sam3x::watchdog::{self, Wdc};
use ioreg::hal::sam3x::pin::{Pin, Pio, Controller, Function, Peripheral};
use ioreg::hal::sam3x::system_clock::{
    Pmc, Eefc, ClockSource, Pll, RCFreq, init_clock, temp_boot, mck_freq, ST_OFF, MCFR_OFF,
    MCKR_OFF, MOR_OFF,
};
use ioreg::hal::pin::{GpioConf, GpioDirection, GpioLevel};
use ioreg::board;

#[test]
fn watchdog_bit_follows_the_calls() {
    let mut wdc = Wdc::new();
    watchdog::disable(&mut wdc);
    assert_eq!(wdc.mem.peek_word(4, 4), 1 << 15);
    watchdog::enable(&mut wdc);
    assert_eq!(wdc.mem.peek_word(4, 4), 0);
    // one read-modify-write each
    assert_eq!(wdc.mem.loads, 2);
    assert_eq!(wdc.mem.stores, 2);
}

#[test]
fn board_watchdog_polarity() {
    let mut wdc = Wdc::new();
    board::watchdog::disable(&mut wdc);
    assert_eq!(wdc.mem.peek_word(4, 4), 1 << 15);
    board::watchdog::enable(&mut wdc);
    assert_eq!(wdc.mem.peek_word(4, 4), 0);
}

#[test]
fn watchdog_preserves_other_bits() {
    let mut wdc = Wdc::new();
    wdc.mem.poke_word(4, 4, 0x0fff_0abc);
    board::watchdog::disable(&mut wdc);
    assert_eq!(wdc.mem.peek_word(4, 4), 0x0fff_0abc | (1 << 15));
}

#[test]
fn pin_from_conf_drives_the_led() {
    let mut pio = Pio::new();
    let mut pmc = Pmc::new();
    let conf = GpioConf { index: 27 + 32, direction: GpioDirection::Out };
    let led = Pin::from(conf, &mut pio, &mut pmc);
    assert_eq!(led.pin, 27);
    assert!(matches!(led.controller, Controller::ControllerB));
    // claiming the pin enabled it and made it an output
    assert_eq!(pio.mem.peek_word(0x0, 4), 1 << 27);
    assert_eq!(pio.mem.peek_word(0x10, 4), 1 << 27);
    // controller B's clock line was enabled
    assert_eq!(pmc.mem.peek_word(0x10, 4), 1 << 12);
    // driving the level writes the set-output-data register
    led.set_level(&mut pio, GpioLevel::High);
    assert_eq!(pio.mem.peek_word(0x30, 4), 1 << 27);
}

#[test]
fn pin_level_reads_the_status() {
    let mut pio = Pio::new();
    let pin = Pin { controller: Controller::ControllerA, pin: 5 };
    assert!(matches!(pin.level(&mut pio), GpioLevel::Low));
    pio.mem.poke_word(0x3c, 4, 1 << 5);
    assert!(matches!(pin.level(&mut pio), GpioLevel::High));
}

#[test]
fn pin_peripheral_selection() {
    let mut pio = Pio::new();
    let mut pmc = Pmc::new();
    let p = Pin::new(
        Controller::ControllerA,
        3,
        Function::Peripheral(Peripheral::PeripheralB),
        &mut pio,
        &mut pmc,
    );
    assert_eq!(p.pin, 3);
    assert_eq!(pio.mem.peek_word(0x4, 4), 1 << 3);
    assert_eq!(pio.mem.peek_word(0x70, 4) & (1 << 3), 1 << 3);
}

fn ready_pmc() -> Pmc {
    let mut pmc = Pmc::new();
    // moscxts, locka, mckrdy, moscsels, moscrcs
    let st = 1 | (1 << 1) | (1 << 3) | (1 << 16) | (1 << 17);
    pmc.mem.poke_word(ST_OFF, 4, st);
    pmc
}

#[test]
fn init_clock_main_with_pll() {
    let mut pmc = ready_pmc();
    let mut eefc0 = Eefc::new();
    let mut eefc1 = Eefc::new();
    eefc0.mem.poke_word(8, 4, 1);
    eefc1.mem.poke_word(8, 4, 1);
    let pll = Pll { mul: 6, div: 1, count: 0x3f };
    let freq = init_clock(
        ClockSource::Main(Some(12_000_000)),
        Some(pll),
        &mut pmc,
        &mut eefc0,
        &mut eefc1,
    );
    assert_eq!(freq, 84_000_000);
    // the master clock ends on the PLLA
    assert_eq!(pmc.mem.peek_word(MCKR_OFF, 4) & 0b11, 2);
    // four flash wait states for 84 MHz
    assert_eq!(eefc0.mem.peek_word(0, 4) & 0xfff, 4);
    assert_eq!(eefc1.mem.peek_word(0, 4) & 0xfff, 4);
}

#[test]
fn init_clock_internal_rc() {
    let mut pmc = ready_pmc();
    let mut eefc0 = Eefc::new();
    let mut eefc1 = Eefc::new();
    eefc0.mem.poke_word(8, 4, 1);
    eefc1.mem.poke_word(8, 4, 1);
    let freq = init_clock(
        ClockSource::InternalRc(RCFreq::MHz_8),
        None,
        &mut pmc,
        &mut eefc0,
        &mut eefc1,
    );
    assert_eq!(freq, 8_000_000);
    // the master clock runs from the main clock
    assert_eq!(pmc.mem.peek_word(MCKR_OFF, 4) & 0b11, 1);
    // the oscillator write carried the key and the RC enable
    let mor = pmc.mem.peek_word(MOR_OFF, 4);
    assert_eq!((mor >> 16) & 0xff, 0x37);
    assert_eq!((mor >> 3) & 1, 1);
    assert_eq!((mor >> 4) & 0b111, 1);
}

#[test]
fn measured_main_clock_frequency() {
    let mut pmc = Pmc::new();
    pmc.mem.poke_word(MCFR_OFF, 4, (1 << 16) | 1000);
    let f = mck_freq(&mut pmc);
    assert_eq!(f, 1000 * 2048);
}

#[test]
fn temp_boot_ends_on_plla_at_half_rate() {
    let mut pmc = ready_pmc();
    let mut eefc0 = Eefc::new();
    let mut eefc1 = Eefc::new();
    temp_boot(&mut pmc, &mut eefc0, &mut eefc1);
    let mckr = pmc.mem.peek_word(MCKR_OFF, 4);
    assert_eq!(mckr & 0b11, 2);
    assert_eq!((mckr >> 4) & 0b111, 1);
    assert_eq!(eefc0.mem.peek_word(0, 4) & 0xfff, 4);
    // the PLLA was configured with the vendor ratio
    let pllar = pmc.mem.peek_word(0x28, 4);
    assert_eq!((pllar >> 16) & 0x7ff, 0x3);
    assert_eq!(pllar & 0xff, 0x1);
    assert_eq!((pllar >> 29) & 1, 1);
}

#[test]
fn systick_countdown_consumes_wraps() {
    let mut wait = ioreg::hal::systick::SystickWait::new(2);
    assert!(!wait.tick(false));
    assert!(!wait.tick(true));
    assert_eq!(wait.remaining, 1);
    assert!(!wait.tick(false));
    assert!(wait.tick(true));
    assert_eq!(wait.remaining, 0);
    // a zero-tick wait is done at the first poll
    let mut nothing = ioreg::hal::systick::SystickWait::new(0);
    assert!(nothing.tick(false));
}
