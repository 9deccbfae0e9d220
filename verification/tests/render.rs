//! The rendered source text of a small block, pinned in full.

use ioreg::ioregs;
use ioreg::render::render_block;

#[test]
fn renders_a_minimal_block() {
    let out = ioregs(b"TINY = { 0x0 => reg32 cr { 0 => go, 1..2 => speed } }", false, false)
        .unwrap();
    let text = String::from_utf8(render_block(&out.plan, false)).unwrap();
    let expected = "\
pub mod tiny {
#[repr(C)]
pub struct Cr {
    value: ::volatile_cell::VolatileCell<u32>,
}
impl Cr {
    pub fn get(&self) -> CrGet {
        CrGet { value: self.value.get() }
    }
    pub fn update(&self) -> CrUpdate {
        CrUpdate { value: 0, mask: 0, write_only: false, reg: self }
    }
}
pub struct CrGet {
    value: u32,
}
impl CrGet {
    pub fn go(&self) -> bool {
        ((self.value >> 0) & 1) != 0
    }
    pub fn speed(&self) -> u8 {
        ((self.value >> 1) & 3) as u8
    }
}
pub struct CrUpdate<'a> {
    value: u32,
    mask: u32,
    write_only: bool,
    reg: &'a Cr,
}
impl<'a> CrUpdate<'a> {
    const CLEAR_MASK: u32 = 0;
    pub fn set_go(&mut self, new_value: bool) -> &mut Self {
        let context_mask = 1 << 0;
        self.value = (self.value & !context_mask) | (((new_value as u32) & 1) << 0);
        self.mask |= context_mask;
        self
    }
    pub fn set_speed(&mut self, new_value: u8) -> &mut Self {
        let context_mask = 3 << 1;
        self.value = (self.value & !context_mask) | (((new_value as u32) & 3) << 1);
        self.mask |= context_mask;
        self
    }
}
impl<'a> Drop for CrUpdate<'a> {
    fn drop(&mut self) {
        if self.mask != 0 {
            let initial = if self.write_only { 0 } else { self.reg.value.get() };
            self.reg.value.set(self.value | (initial & !Self::CLEAR_MASK & !self.mask));
        }
    }
}
#[repr(C)]
pub struct Tiny {
    pub cr: Cr,
}
}
";
    assert_eq!(text, expected);
}

#[test]
fn renders_variant_enums_and_groups() {
    let out = ioregs(
        b"G = {
            0x0 => group inner[2] {
                0x0 => reg16 st { 0..1 => mode { 0 => A, 1 => B }: set_to_clear },
            },
        }",
        false,
        true,
    )
    .unwrap();
    let text = String::from_utf8(render_block(&out.plan, false)).unwrap();
    // nested module, enum with checked conversion, a clearer, and an
    // offset self-test are all present
    assert!(text.contains("pub mod g {"));
    assert!(text.contains("pub mod inner {"));
    assert!(text.contains("pub mod st {"));
    assert!(text.contains("pub enum Mode {"));
    assert!(text.contains("A = 0,"));
    assert!(text.contains("impl core::convert::TryFrom<u16> for Mode"));
    assert!(text.contains("pub fn clear_mode"));
    assert!(text.contains("pub inner: [inner::Inner; 2],"));
    assert!(text.contains("fn test_align_g_inner()"));
}

#[test]
fn count_checks_guard_arrayed_setters() {
    let out = ioregs(b"C = { 0x0 => reg32 r { 0..3 => f[2] } }", false, false).unwrap();
    let unchecked = String::from_utf8(render_block(&out.plan, false)).unwrap();
    assert!(!unchecked.contains("assert!(index < 2);"));
    let checked = String::from_utf8(render_block(&out.plan, true)).unwrap();
    assert!(checked.contains("pub fn set_f(&mut self, index: usize, new_value: u8) -> &mut Self {"));
    assert!(checked.contains("assert!(index < 2);"));
}
