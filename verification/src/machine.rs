//! The run-time semantics of the code the generator emits.
//!
//! A register block is a span of bytes.  Every access the emitted facades
//! perform is a single full-width load or store of one register word; this
//! module models that memory together with counters of the volatile
//! transactions, and gives the reader and updater facades their exact
//! bit-level meaning.
//!
//! Two pairs of operations are distinguished.  `load_word` / `store_word`
//! are the transactions the emitted code performs: they are counted, and a
//! store honours the hardware's set-to-clear convention (writing a one to a
//! set-to-clear status bit clears it).  `peek_word` / `poke_word` are the
//! hardware's own side of the register file — the way a test plants a status
//! bit or observes what was written — and count as nothing.

use vstd::prelude::*;
use crate::bits::{low_mask, field_get, fits, mask_of};

verus! {

/// Little-endian value of a byte sequence: the first byte is least
/// significant.
pub open spec fn word_of_bytes(s: Seq<u8>) -> int
    decreases s.len(),
{
    if s.len() == 0 {
        0
    } else {
        s[0] + 256 * word_of_bytes(s.drop_first())
    }
}

/// 256 to the `n`.
pub open spec fn pow256(n: nat) -> int
    decreases n,
{
    if n == 0 {
        1
    } else {
        256 * pow256((n - 1) as nat)
    }
}

/// Byte `i` of the little-endian encoding of `w`.
pub open spec fn byte_of_word(w: u64, i: int) -> u8 {
    ((w >> ((8 * i) as u64)) & 0xff) as u8
}

/// The little-endian value at `off` of width `nbytes` in `mem`.
pub open spec fn word_at(mem: Seq<u8>, off: int, nbytes: int) -> int {
    word_of_bytes(mem.subrange(off, off + nbytes))
}

/// Decoding the encoding of a word gives the word back, provided it fits.
pub proof fn lemma_word_of_encoding(w: u64, n: nat)
    requires
        n <= 8,
        fits(w, (8 * n) as u64),
    ensures
        word_of_bytes(Seq::new(n, |i: int| byte_of_word(w, i))) == w,
    decreases n,
{
    let s = Seq::new(n, |i: int| byte_of_word(w, i));
    if n == 0 {
        assert((1u64 << 0) - 1 == 0) by (bit_vector);
        assert(w & !0u64 == w) by (bit_vector);
    } else {
        let w1: u64 = w >> 8;
        let nb: u64 = (8 * n) as u64;
        let nb1: u64 = (8 * (n - 1)) as u64;
        assert(1 <= n <= 8);
        assert(nb == nb1 + 8);
        assert(w & !low_mask(nb) == 0 ==> (w >> 8) & !low_mask(nb1) == 0) by (bit_vector)
            requires
                nb <= 64 && nb >= 8 && nb1 == nb - 8,
        ;
        lemma_word_of_encoding(w1, (n - 1) as nat);
        let s1 = Seq::new((n - 1) as nat, |i: int| byte_of_word(w1, i));
        assert forall|i: int| 0 <= i < n - 1 implies s.drop_first()[i] == s1[i] by {
            let iu: u64 = i as u64;
            assert((w >> ((8 * (iu + 1)) as u64)) == ((w >> 8) >> ((8 * iu) as u64)))
                by (bit_vector)
                requires
                    iu < 8,
            ;
            assert((8 * (i + 1)) as u64 == (8 * (iu + 1)) as u64);
        }
        assert(s.drop_first() =~= s1);
        assert(s[0] == byte_of_word(w, 0));
        assert((w >> (8u64 * 0)) & 0xff == w % 256 && w == (w % 256) + 256 * ((w >> 8) as u64))
            by (bit_vector);
    }
}

/// Two memories that agree on a byte range hold the same word there.
pub proof fn lemma_word_at_congruence(m1: Seq<u8>, m2: Seq<u8>, off: int, nbytes: int)
    requires
        0 <= off,
        0 <= nbytes,
        off + nbytes <= m1.len(),
        off + nbytes <= m2.len(),
        forall|k: int| off <= k < off + nbytes ==> m1[k] == m2[k],
    ensures
        word_at(m1, off, nbytes) == word_at(m2, off, nbytes),
{
    assert(m1.subrange(off, off + nbytes) =~= m2.subrange(off, off + nbytes));
}

/// The memory of one register block, with the number of volatile loads and
/// stores the emitted facades have performed on it.
pub struct BlockMem {
    pub bytes: Vec<u8>,
    pub loads: u64,
    pub stores: u64,
}

impl BlockMem {
    /// The bytes of the block.
    pub open spec fn mem(&self) -> Seq<u8> {
        self.bytes@
    }

    /// A register word of `nbytes` bytes lies wholly inside the block.
    pub open spec fn reg_ok(&self, off: usize, nbytes: usize) -> bool {
        (nbytes == 1 || nbytes == 2 || nbytes == 4 || nbytes == 8) && off + nbytes
            <= self.mem().len()
    }

    /// Both transaction counters can still advance.
    pub open spec fn counters_ok(&self) -> bool {
        self.loads < u64::MAX && self.stores < u64::MAX
    }

    /// Both transaction counters can advance `k` more times.
    pub open spec fn headroom(&self, k: int) -> bool {
        self.loads + k <= u64::MAX && self.stores + k <= u64::MAX
    }

    /// A zero-initialized block of `size` bytes.
    pub fn new(size: usize) -> (r: BlockMem)
        ensures
            r.mem().len() == size,
            forall|k: int| 0 <= k < size ==> r.mem()[k] == 0,
            r.loads == 0,
            r.stores == 0,
    {
        let mut bytes: Vec<u8> = Vec::new();
        let mut i: usize = 0;
        while i < size
            invariant
                i <= size,
                bytes@.len() == i,
                forall|k: int| 0 <= k < i ==> bytes@[k] == 0,
            decreases size - i,
        {
            bytes.push(0);
            i = i + 1;
        }
        BlockMem { bytes, loads: 0, stores: 0 }
    }

    /// Observe a register word without a transaction: the test bench's or
    /// the hardware's view of the bus.
    pub fn peek_word(&self, off: usize, nbytes: usize) -> (w: u64)
        requires
            self.reg_ok(off, nbytes),
        ensures
            w == word_at(self.mem(), off as int, nbytes as int),
            fits(w, (8 * nbytes) as u64),
    {
        let mut w: u64 = 0;
        let mut j: usize = 0;
        let len = self.bytes.len();
        proof {
            assert(self.mem().subrange(off + nbytes, off + nbytes).len() == 0);
        }
        while j < nbytes
            invariant
                j <= nbytes,
                nbytes <= 8,
                off + nbytes <= len <= usize::MAX,
                len == self.mem().len(),
                w == word_of_bytes(
                    self.mem().subrange(off + nbytes - j, off + nbytes),
                ),
                w < pow256(j as nat),
            decreases nbytes - j,
        {
            let b = self.bytes[off + (nbytes - 1 - j)];
            proof {
                let lo = off + (nbytes - 1 - j);
                let hi = off + nbytes;
                let s = self.mem().subrange(lo, hi);
                assert(s[0] == self.mem()[lo]);
                assert(s.drop_first() =~= self.mem().subrange(lo + 1, hi));
                lemma_pow256_le((j + 1) as nat);
            }
            w = w * 256 + (b as u64);
            j = j + 1;
        }
        proof {
            let nb: u64 = (8 * nbytes) as u64;
            lemma_pow256_pow2(nbytes as nat);
            if nbytes == 8 {
                assert(w & !0xffff_ffff_ffff_ffffu64 == 0) by (bit_vector);
            } else {
                assert(w & !low_mask(nb) == 0) by (bit_vector)
                    requires
                        w < (1u64 << nb) && 0 < nb < 64,
                ;
            }
        }
        w
    }

    /// Plant a register word without a transaction: the hardware setting a
    /// status bit under the program.
    pub fn poke_word(&mut self, off: usize, nbytes: usize, w: u64)
        requires
            old(self).reg_ok(off, nbytes),
            fits(w, (8 * nbytes) as u64),
        ensures
            final(self).mem().len() == old(self).mem().len(),
            forall|k: int|
                0 <= k < nbytes ==> final(self).mem()[off + k] == byte_of_word(w, k),
            forall|k: int|
                0 <= k < final(self).mem().len() && !(off <= k < off + nbytes)
                    ==> final(self).mem()[k] == old(self).mem()[k],
            word_at(final(self).mem(), off as int, nbytes as int) == w,
            final(self).loads == old(self).loads,
            final(self).stores == old(self).stores,
    {
        let mut j: usize = 0;
        let len = self.bytes.len();
        while j < nbytes
            invariant
                j <= nbytes,
                nbytes <= 8,
                off + nbytes <= len <= usize::MAX,
                len == self.mem().len(),
                self.mem().len() == old(self).mem().len(),
                self.loads == old(self).loads,
                self.stores == old(self).stores,
                forall|k: int| 0 <= k < j ==> self.mem()[off + k] == byte_of_word(w, k),
                forall|k: int|
                    0 <= k < self.mem().len() && !(off <= k < off + j) ==> self.mem()[k]
                        == old(self).mem()[k],
            decreases nbytes - j,
        {
            let sh: u64 = 8 * (j as u64);
            let b: u8 = #[verifier::truncate] (((w >> sh) & 0xff) as u8);
            self.bytes.set(off + j, b);
            j = j + 1;
        }
        proof {
            let s = self.mem().subrange(off as int, off + nbytes);
            let e = Seq::new(nbytes as nat, |i: int| byte_of_word(w, i));
            assert(s =~= e);
            lemma_word_of_encoding(w, nbytes as nat);
        }
    }

    /// One volatile load of a register word, as the emitted reader performs
    /// at construction and the updater may perform at commit.
    pub fn load_word(&mut self, off: usize, nbytes: usize) -> (w: u64)
        requires
            old(self).reg_ok(off, nbytes),
            old(self).loads < u64::MAX,
        ensures
            w == word_at(old(self).mem(), off as int, nbytes as int),
            fits(w, (8 * nbytes) as u64),
            final(self).mem() == old(self).mem(),
            final(self).loads == old(self).loads + 1,
            final(self).stores == old(self).stores,
    {
        let w = self.peek_word(off, nbytes);
        self.loads = self.loads + 1;
        w
    }

    /// One volatile store of a register word.  Normal bits take the written
    /// value; set-to-clear bits (those in `s2c_mask`) are cleared by a
    /// written one and kept by a written zero.
    pub fn store_word(&mut self, off: usize, nbytes: usize, w: u64, s2c_mask: u64) -> (stored:
        u64)
        requires
            old(self).reg_ok(off, nbytes),
            old(self).stores < u64::MAX,
            fits(w, (8 * nbytes) as u64),
            fits(s2c_mask, (8 * nbytes) as u64),
        ensures
            stored == stored_word(
                word_at(old(self).mem(), off as int, nbytes as int) as u64,
                w,
                s2c_mask,
            ),
            fits(stored, (8 * nbytes) as u64),
            word_at(final(self).mem(), off as int, nbytes as int) == stored,
            final(self).mem().len() == old(self).mem().len(),
            forall|k: int|
                0 <= k < final(self).mem().len() && !(off <= k < off + nbytes)
                    ==> final(self).mem()[k] == old(self).mem()[k],
            final(self).loads == old(self).loads,
            final(self).stores == old(self).stores + 1,
    {
        let current = self.peek_word(off, nbytes);
        let stored = (w & !s2c_mask) | (current & s2c_mask & !w);
        proof {
            let nb: u64 = (8 * nbytes) as u64;
            let cur = current;
            let s2c = s2c_mask;
            assert(((w & !s2c) | (cur & s2c & !w)) & !low_mask(nb) == 0) by (bit_vector)
                requires
                    w & !low_mask(nb) == 0 && cur & !low_mask(nb) == 0,
            ;
        }
        self.poke_word(off, nbytes, stored);
        self.stores = self.stores + 1;
        stored
    }
}

/// What a store of `w` leaves in a register whose current value is
/// `current` and whose set-to-clear bits are `s2c_mask`.
pub open spec fn stored_word(current: u64, w: u64, s2c_mask: u64) -> u64 {
    (w & !s2c_mask) | (current & s2c_mask & !w)
}

/// Zero fits every width.
pub proof fn lemma_zero_fits(nb: u64)
    ensures
        fits(0u64, nb),
{
    assert(0u64 & !low_mask(nb) == 0) by (bit_vector);
}

/// A setter keeps the updater's value and mask within the register width,
/// provided the field lies within it.
pub proof fn lemma_upd_set_fits(u: Updater, shift: u64, bits: u64, v: u64, nb: u64)
    requires
        fits(u.value, nb),
        fits(u.mask, nb),
        shift + bits <= nb,
        nb <= 64,
    ensures
        fits(upd_set_spec(u, shift, bits, v).value, nb),
        fits(upd_set_spec(u, shift, bits, v).mask, nb),
{
    let a = u.value;
    let b = u.mask;
    assert(((a & !(low_mask(bits) << shift)) | ((v & low_mask(bits)) << shift)) & !low_mask(nb)
        == 0 && (b | (low_mask(bits) << shift)) & !low_mask(nb) == 0) by (bit_vector)
        requires
            a & !low_mask(nb) == 0 && b & !low_mask(nb) == 0 && shift + bits <= nb && nb <= 64,
    ;
}

/// Without set-to-clear bits, a store leaves exactly the written word.
pub proof fn lemma_store_plain(current: u64, w: u64)
    ensures
        stored_word(current, w, 0) == w,
{
    assert((w & !0u64) | (current & 0u64 & !w) == w) by (bit_vector);
}

/// A point-in-time snapshot of one register: the reader facade.  It is
/// built from exactly one volatile load and serves any number of field
/// getters from that snapshot.
pub struct Reader {
    pub value: u64,
}

impl Reader {
    /// One volatile load at construction.
    pub fn new(mem: &mut BlockMem, off: usize, nbytes: usize) -> (r: Reader)
        requires
            old(mem).reg_ok(off, nbytes),
            old(mem).loads < u64::MAX,
        ensures
            r.value == word_at(old(mem).mem(), off as int, nbytes as int),
            fits(r.value, (8 * nbytes) as u64),
            final(mem).mem() == old(mem).mem(),
            final(mem).loads == old(mem).loads + 1,
            final(mem).stores == old(mem).stores,
    {
        let value = mem.load_word(off, nbytes);
        Reader { value }
    }

    /// Integer getter: the field of `bits` bits at `shift`.
    pub fn get(&self, shift: u64, bits: u64) -> (v: u64)
        requires
            shift < 64,
        ensures
            v == field_get(self.value, shift, bits),
            v <= low_mask(bits),
    {
        let m = mask_of(bits);
        let v = (self.value >> shift) & m;
        proof {
            let x = self.value >> shift;
            assert(x & m <= m) by (bit_vector);
        }
        v
    }

    /// Boolean getter for a single-bit field without variants.
    pub fn get_bool(&self, shift: u64) -> (b: bool)
        requires
            shift < 64,
        ensures
            b == (field_get(self.value, shift, 1) != 0),
    {
        self.get(shift, 1) != 0
    }

    /// Getter for element `index` of an arrayed field: the shift grows by
    /// `bits` per element.
    pub fn get_indexed(&self, shift_base: u64, bits: u64, index: u64) -> (v: u64)
        requires
            shift_base + bits * index < 64,
        ensures
            v == field_get(self.value, (shift_base + bits * index) as u64, bits),
            v <= low_mask(bits),
    {
        self.get(shift_base + bits * index, bits)
    }
}

/// The accumulating write transaction: the updater facade.  Field writes
/// build up `value` and `mask`; a single commit merges them into the
/// register.
pub struct Updater {
    pub value: u64,
    pub mask: u64,
    pub write_only: bool,
}

/// A fresh default updater.
pub open spec fn upd_new_spec() -> Updater {
    Updater { value: 0, mask: 0, write_only: false }
}

/// A fresh ignoring-state updater.
pub open spec fn upd_new_ignoring_spec() -> Updater {
    Updater { value: 0, mask: 0, write_only: true }
}

/// The updater after a setter: the field's bits are replaced by `v` and
/// join the write mask.
pub open spec fn upd_set_spec(u: Updater, shift: u64, bits: u64, v: u64) -> Updater {
    let ctx = low_mask(bits) << shift;
    Updater {
        value: (u.value & !ctx) | ((v & low_mask(bits)) << shift),
        mask: u.mask | ctx,
        write_only: u.write_only,
    }
}

/// The updater after a clearer: the field's ones-mask joins both the value
/// and the write mask.
pub open spec fn upd_clear_spec(u: Updater, shift: u64, bits: u64) -> Updater {
    let ctx = low_mask(bits) << shift;
    Updater { value: u.value | ctx, mask: u.mask | ctx, write_only: u.write_only }
}

/// The word a commit writes: the accumulated value, with the current
/// register contents kept in the bits that were neither written nor are
/// set-to-clear.  `initial` is what a load at commit time returns; it is
/// ignored for a write-only path.
pub open spec fn committed_word(u: Updater, initial: u64, clear_mask: u64, wholly_wo: bool)
    -> u64 {
    let init = if wholly_wo || u.write_only {
        0u64
    } else {
        initial
    };
    u.value | (init & !clear_mask & !u.mask)
}

impl Updater {
    /// Default constructor: the commit merges with the current register
    /// contents.
    pub fn new() -> (r: Updater)
        ensures
            r == upd_new_spec(),
    {
        Updater { value: 0, mask: 0, write_only: false }
    }

    /// Ignoring-state constructor: the commit treats unwritten bits as
    /// zero, as write-only registers require.
    pub fn new_ignoring_state() -> (r: Updater)
        ensures
            r == upd_new_ignoring_spec(),
    {
        Updater { value: 0, mask: 0, write_only: true }
    }

    /// Setter for the field of `bits` bits at `shift`.
    pub fn set(&mut self, shift: u64, bits: u64, v: u64)
        requires
            shift < 64,
        ensures
            *final(self) == upd_set_spec(*old(self), shift, bits, v),
    {
        let m = mask_of(bits);
        let context_mask = m << shift;
        self.value = (self.value & !context_mask) | ((v & m) << shift);
        self.mask = self.mask | context_mask;
    }

    /// Setter for a single-bit boolean field.
    pub fn set_bool(&mut self, shift: u64, b: bool)
        requires
            shift < 64,
        ensures
            *final(self) == upd_set_spec(*old(self), shift, 1, if b { 1u64 } else { 0u64 }),
    {
        self.set(shift, 1, if b { 1 } else { 0 });
    }

    /// Setter for element `index` of an arrayed field.
    pub fn set_indexed(&mut self, shift_base: u64, bits: u64, index: u64, v: u64)
        requires
            shift_base + bits * index < 64,
        ensures
            *final(self) == upd_set_spec(
                *old(self),
                (shift_base + bits * index) as u64,
                bits,
                v,
            ),
    {
        self.set(shift_base + bits * index, bits, v);
    }

    /// Clearer for a set-to-clear field: writes the field's ones-mask.
    pub fn clear(&mut self, shift: u64, bits: u64)
        requires
            shift < 64,
        ensures
            *final(self) == upd_clear_spec(*old(self), shift, bits),
    {
        let m = mask_of(bits);
        let context_mask = m << shift;
        self.value = self.value | context_mask;
        self.mask = self.mask | context_mask;
    }

    /// Clearer for element `index` of an arrayed set-to-clear field.
    pub fn clear_indexed(&mut self, shift_base: u64, bits: u64, index: u64)
        requires
            shift_base + bits * index < 64,
        ensures
            *final(self) == upd_clear_spec(*old(self), (shift_base + bits * index) as u64, bits),
    {
        self.clear(shift_base + bits * index, bits);
    }

    /// Commit the transaction.  Nothing at all happens when no field was
    /// touched.  Otherwise: at most one volatile load (none on a write-only
    /// path) and exactly one volatile store.
    pub fn commit(
        self,
        mem: &mut BlockMem,
        off: usize,
        nbytes: usize,
        clear_mask: u64,
        wholly_wo: bool,
    )
        requires
            old(mem).reg_ok(off, nbytes),
            old(mem).counters_ok(),
            fits(self.value, (8 * nbytes) as u64),
            fits(self.mask, (8 * nbytes) as u64),
            fits(clear_mask, (8 * nbytes) as u64),
        ensures
            self.mask == 0 ==> final(mem).mem() == old(mem).mem() && final(mem).loads == old(
                mem,
            ).loads && final(mem).stores == old(mem).stores,
            self.mask != 0 ==> {
                let initial = word_at(old(mem).mem(), off as int, nbytes as int) as u64;
                let c = committed_word(self, initial, clear_mask, wholly_wo);
                word_at(final(mem).mem(), off as int, nbytes as int) == stored_word(
                    initial,
                    c,
                    clear_mask,
                ) && final(mem).mem().len() == old(mem).mem().len() && (forall|k: int|
                    0 <= k < final(mem).mem().len() && !(off <= k < off + nbytes)
                        ==> final(mem).mem()[k] == old(mem).mem()[k]) && final(mem).stores == old(
                    mem,
                ).stores + 1 && final(mem).loads == old(mem).loads + (
                if wholly_wo || self.write_only {
                    0int
                } else {
                    1int
                })
            },
    {
        if self.mask != 0 {
            let initial: u64 = if wholly_wo || self.write_only {
                0
            } else {
                mem.load_word(off, nbytes)
            };
            let committed = self.value | (initial & !clear_mask & !self.mask);
            proof {
                let nb: u64 = (8 * nbytes) as u64;
                let a = self.value;
                let b = initial;
                let c = clear_mask;
                let d = self.mask;
                assert((a | (b & !c & !d)) & !low_mask(nb) == 0) by (bit_vector)
                    requires
                        a & !low_mask(nb) == 0 && (b == 0 || b & !low_mask(nb) == 0),
                ;
            }
            mem.store_word(off, nbytes, committed, clear_mask);
        }
    }
}

/// The checked primitive-to-variant conversion of the emitted reader: the
/// index of the first declared variant carrying value `p`, or nothing when
/// no variant does.  When the variants cover the element's whole domain
/// (`laws::lemma_variant_totality`), the result is never `None`.
pub fn variant_from_primitive(variants: &Vec<crate::ast::RegisterVariant>, p: u64) -> (r:
    Option<usize>)
    ensures
        match r {
            Some(i) => i < variants@.len() && variants@[i as int].value == p && (forall|j: int|
                0 <= j < i ==> variants@[j].value != p),
            None => forall|j: int| 0 <= j < variants@.len() ==> variants@[j].value != p,
        },
{
    let mut i: usize = 0;
    while i < variants.len()
        invariant
            i <= variants@.len(),
            forall|j: int| 0 <= j < i ==> variants@[j].value != p,
        decreases variants@.len() - i,
    {
        if variants[i].value == p {
            return Some(i);
        }
        i = i + 1;
    }
    None
}

/// One emitted setter followed by its commit: the read-modify-write of a
/// single read-write field of a register without set-to-clear bits.  The
/// field reads back as the written value; every other bit of the register
/// and every other register is untouched; exactly one load and one store.
pub fn rmw_set_field(mem: &mut BlockMem, off: usize, nbytes: usize, shift: u64, bits: u64, v:
    u64)
    requires
        old(mem).reg_ok(off, nbytes),
        old(mem).headroom(1),
        1 <= bits,
        shift + bits <= 8 * nbytes,
    ensures
        final(mem).mem().len() == old(mem).mem().len(),
        field_get(word_at(final(mem).mem(), off as int, nbytes as int) as u64, shift, bits)
            == v & low_mask(bits),
        (word_at(final(mem).mem(), off as int, nbytes as int) as u64) & !(low_mask(bits)
            << shift) == (word_at(old(mem).mem(), off as int, nbytes as int) as u64)
            & !(low_mask(bits) << shift),
        forall|k: int|
            0 <= k < final(mem).mem().len() && !(off <= k < off + nbytes)
                ==> final(mem).mem()[k] == old(mem).mem()[k],
        final(mem).loads == old(mem).loads + 1,
        final(mem).stores == old(mem).stores + 1,
{
    let vm = v & mask_of(bits);
    let mut u = Updater::new();
    u.set(shift, bits, vm);
    proof {
        let w0 = word_at(old(mem).mem(), off as int, nbytes as int) as u64;
        crate::bits::lemma_and_zero(low_mask(bits) << shift);
        crate::bits::lemma_and_le(v, low_mask(bits));
        crate::bits::lemma_le_mask_fits(vm, bits);
        crate::bits::lemma_ctx_nonzero(bits, shift);
        crate::laws::lemma_round_trip_set(w0, vm, shift, bits, 0);
        crate::laws::lemma_set_isolation(w0, vm, shift, bits, 0);
        lemma_zero_fits((8 * nbytes) as u64);
        lemma_upd_set_fits(upd_new_spec(), shift, bits, vm, (8 * nbytes) as u64);
        assert((vm & low_mask(bits)) == (v & low_mask(bits))) by (bit_vector)
            requires
                vm == v & low_mask(bits),
        ;
    }
    u.commit(mem, off, nbytes, 0, false);
}

/// One emitted setter followed by its commit on a wholly write-only
/// register: no load, one store, and the stored word is exactly the
/// field's value at its shift — untouched bits are written as zero.
pub fn wo_write_field(mem: &mut BlockMem, off: usize, nbytes: usize, shift: u64, bits: u64, v:
    u64)
    requires
        old(mem).reg_ok(off, nbytes),
        old(mem).headroom(1),
        1 <= bits,
        shift + bits <= 8 * nbytes,
    ensures
        final(mem).mem().len() == old(mem).mem().len(),
        word_at(final(mem).mem(), off as int, nbytes as int) == (v & low_mask(bits)) << shift,
        forall|k: int|
            0 <= k < final(mem).mem().len() && !(off <= k < off + nbytes)
                ==> final(mem).mem()[k] == old(mem).mem()[k],
        final(mem).loads == old(mem).loads,
        final(mem).stores == old(mem).stores + 1,
{
    let mut u = Updater::new();
    u.set(shift, bits, v);
    proof {
        let w0 = word_at(old(mem).mem(), off as int, nbytes as int) as u64;
        crate::bits::lemma_ctx_nonzero(bits, shift);
        crate::laws::lemma_write_only_invisibility(w0, v, shift, bits);
        lemma_zero_fits((8 * nbytes) as u64);
        lemma_upd_set_fits(upd_new_spec(), shift, bits, v, (8 * nbytes) as u64);
        let c = committed_word(upd_set_spec(upd_new_spec(), shift, bits, v), w0, 0, true);
        lemma_store_plain(w0, c);
    }
    u.commit(mem, off, nbytes, 0, true);
}

/// What a register holds after an updater commits over current contents
/// `w0`, for a register without set-to-clear bits.
pub open spec fn rmw_result(w0: u64, u: Updater) -> u64 {
    stored_word(w0, committed_word(u, w0, 0, false), 0)
}

/// Commit an accumulated updater on a register without set-to-clear bits.
/// The caller shows that the accumulated value and mask fit the register
/// and that something was written.
pub fn commit_plain(mem: &mut BlockMem, off: usize, nbytes: usize, u: Updater)
    requires
        old(mem).reg_ok(off, nbytes),
        old(mem).headroom(1),
        fits(u.value, (8 * nbytes) as u64),
        fits(u.mask, (8 * nbytes) as u64),
        u.mask != 0,
    ensures
        final(mem).mem().len() == old(mem).mem().len(),
        word_at(final(mem).mem(), off as int, nbytes as int) == rmw_result(
            word_at(old(mem).mem(), off as int, nbytes as int) as u64,
            u,
        ),
        forall|k: int|
            0 <= k < final(mem).mem().len() && !(off <= k < off + nbytes)
                ==> final(mem).mem()[k] == old(mem).mem()[k],
        final(mem).loads == old(mem).loads + (if u.write_only {
            0int
        } else {
            1int
        }),
        final(mem).stores == old(mem).stores + 1,
{
    proof {
        let w0 = word_at(old(mem).mem(), off as int, nbytes as int) as u64;
        lemma_zero_fits((8 * nbytes) as u64);
        lemma_store_plain(w0, committed_word(u, w0, 0, false));
    }
    u.commit(mem, off, nbytes, 0, false);
}

/// One emitted reader getter: a single load, then the field extracted from
/// the snapshot.
pub fn read_field(mem: &mut BlockMem, off: usize, nbytes: usize, shift: u64, bits: u64) -> (v:
    u64)
    requires
        old(mem).reg_ok(off, nbytes),
        old(mem).loads < u64::MAX,
        shift < 64,
    ensures
        v == field_get(word_at(old(mem).mem(), off as int, nbytes as int) as u64, shift, bits),
        v <= low_mask(bits),
        final(mem).mem() == old(mem).mem(),
        final(mem).loads == old(mem).loads + 1,
        final(mem).stores == old(mem).stores,
{
    let r = Reader::new(mem, off, nbytes);
    r.get(shift, bits)
}

proof fn lemma_pow256_le(n: nat)
    requires
        n <= 8,
    ensures
        pow256(n) <= pow256(8),
        pow256(8) == 0x1_0000_0000_0000_0000,
    decreases 8 - n,
{
    assert(pow256(1) == 256 * pow256(0));
    assert(pow256(2) == 256 * pow256(1));
    assert(pow256(3) == 256 * pow256(2));
    assert(pow256(4) == 256 * pow256(3));
    assert(pow256(5) == 256 * pow256(4));
    assert(pow256(6) == 256 * pow256(5));
    assert(pow256(7) == 256 * pow256(6));
    assert(pow256(8) == 256 * pow256(7));
    if n < 8 {
        lemma_pow256_le(n + 1);
    }
}

proof fn lemma_pow256_pow2(n: nat)
    requires
        n <= 8,
    ensures
        n < 8 ==> pow256(n) == (1u64 << ((8 * n) as u64)),
        n == 8 ==> pow256(n) == 0x1_0000_0000_0000_0000,
{
    lemma_pow256_le(n);
    if n < 8 {
        let nb: u64 = (8 * n) as u64;
        assert(pow256(0) == 1);
        assert(pow256(1) == 256 * pow256(0));
        assert(pow256(2) == 256 * pow256(1));
        assert(pow256(3) == 256 * pow256(2));
        assert(pow256(4) == 256 * pow256(3));
        assert(pow256(5) == 256 * pow256(4));
        assert(pow256(6) == 256 * pow256(5));
        assert(pow256(7) == 256 * pow256(6));
        assert(nb < 64 ==> (nb == 0 ==> 1u64 << nb == 1) && (nb == 8 ==> 1u64 << nb == 0x100)
            && (nb == 16 ==> 1u64 << nb == 0x1_0000) && (nb == 24 ==> 1u64 << nb == 0x100_0000)
            && (nb == 32 ==> 1u64 << nb == 0x1_0000_0000) && (nb == 40 ==> 1u64 << nb
            == 0x100_0000_0000) && (nb == 48 ==> 1u64 << nb == 0x1_0000_0000_0000) && (nb == 56
            ==> 1u64 << nb == 0x100_0000_0000_0000)) by (bit_vector);
    }
}

} // verus!
