//! User-definable 5x8 glyphs and the display's eight-slot pattern memory.

use vstd::prelude::*;

verus! {

/// Number of user-definable glyph slots in pattern memory.
pub const GLYPH_SLOTS: usize = 8;

/// A heart, the base pattern from which the accented glyph is derived.
pub const HEART: [u8; 8] = [0b00000, 0b00000, 0b01010, 0b11111, 0b01110, 0b00100, 0b00000, 0b00000];

/// The byte `b` with bit `pos` set.
pub open spec fn bit_set(b: u8, pos: u8) -> u8
    recommends
        pos <= 7,
{
    b | ((1u8 << pos) as u8)
}

/// Relies on lcd1602_driver's `BitOps::set_bit` for `u8`: it ors the bit at `pos`
/// into the byte, and panics when `pos` is above 7.
#[verifier::external_body]
fn set_bit(byte: &mut u8, pos: u8)
    requires
        pos <= 7,
    ensures
        *final(byte) == bit_set(*old(byte), pos),
{
    lcd1602_driver::utils::BitOps::set_bit(byte, pos);
}

/// `g` with pixel `bit` of row `row` lit.
pub open spec fn with_pixel_spec(g: Seq<u8>, row: int, bit: u8) -> Seq<u8> {
    g.update(row, bit_set(g[row], bit))
}

/// The accented variant of a glyph: bit 2 lit in rows 1 and 2.
pub open spec fn accented(g: Seq<u8>) -> Seq<u8> {
    with_pixel_spec(with_pixel_spec(g, 1, 2), 2, 2)
}

/// Returns `g` with pixel `bit` of row `row` lit; every other bit is kept.
pub fn with_pixel(g: [u8; 8], row: usize, bit: u8) -> (r: [u8; 8])
    requires
        row < 8,
        bit <= 7,
    ensures
        r@ == with_pixel_spec(g@, row as int, bit),
{
    let mut r = g;
    let mut b: u8 = r[row];
    set_bit(&mut b, bit);
    r[row] = b;
    assert(r@ =~= with_pixel_spec(g@, row as int, bit));
    r
}

/// Derives the accented variant of `base` (bit 2 lit in rows 1 and 2).
pub fn accent_glyph(base: [u8; 8]) -> (r: [u8; 8])
    ensures
        r@ == accented(base@),
{
    let g = with_pixel(base, 1, 2);
    with_pixel(g, 2, 2)
}

/// The display's pattern memory: eight slots of eight bytes each.
pub struct PatternMemory {
    slots: Vec<[u8; 8]>,
}

impl View for PatternMemory {
    type V = Seq<Seq<u8>>;

    closed spec fn view(&self) -> Seq<Seq<u8>> {
        self.slots@.map_values(|g: [u8; 8]| g@)
    }
}

impl PatternMemory {
    /// Eight slots and eight bytes to each.
    pub open spec fn wf(&self) -> bool {
        &&& self@.len() == GLYPH_SLOTS
        &&& forall|i: int| 0 <= i < self@.len() ==> (#[trigger] self@[i]).len() == 8
    }

    /// Pattern memory with every slot blank.
    pub fn new() -> (m: PatternMemory)
        ensures
            m.wf(),
            forall|i: int| 0 <= i < GLYPH_SLOTS ==> #[trigger] m@[i] == seq![0u8; 8],
    {
        let mut slots: Vec<[u8; 8]> = Vec::new();
        let mut i: usize = 0;
        while i < GLYPH_SLOTS
            invariant
                i <= GLYPH_SLOTS,
                slots@.len() == i,
                forall|j: int| 0 <= j < i ==> (#[trigger] slots@[j])@ == seq![0u8; 8],
            decreases GLYPH_SLOTS - i,
        {
            let blank: [u8; 8] = [0u8; 8];
            assert(blank@ =~= seq![0u8; 8]);
            slots.push(blank);
            i = i + 1;
        }
        PatternMemory { slots }
    }

    /// Stores `g` in `slot`; the other slots are untouched.
    pub fn write_glyph(&mut self, slot: usize, g: [u8; 8])
        requires
            old(self).wf(),
            slot < GLYPH_SLOTS,
        ensures
            final(self).wf(),
            final(self)@ == old(self)@.update(slot as int, g@),
    {
        self.slots.set(slot, g);
        assert(self@ =~= old(self)@.update(slot as int, g@));
    }

    /// The pattern stored in `slot`.
    pub fn read_glyph(&self, slot: usize) -> (g: [u8; 8])
        requires
            self.wf(),
            slot < GLYPH_SLOTS,
        ensures
            g@ == self@[slot as int],
    {
        self.slots[slot]
    }

    /// Reads the glyph in slot `from`, lights bit 2 of its rows 1 and 2 and
    /// stores the result in slot `to`.
    pub fn derive_glyph(&mut self, from: usize, to: usize)
        requires
            old(self).wf(),
            from < GLYPH_SLOTS,
            to < GLYPH_SLOTS,
        ensures
            final(self).wf(),
            final(self)@ == old(self)@.update(to as int, accented(old(self)@[from as int])),
    {
        let base = self.read_glyph(from);
        let derived = accent_glyph(base);
        self.write_glyph(to, derived);
    }
}

/// Writing a base pattern to slot 1, reading it back, lighting bit 2 of rows
/// 1 and 2 and writing the result to slot 2 leaves slot 1 holding the base
/// pattern and slot 2 holding the base pattern with exactly those two bits lit.
pub proof fn lemma_derived_glyph(m: Seq<Seq<u8>>, p: Seq<u8>)
    requires
        m.len() == GLYPH_SLOTS,
        p.len() == 8,
    ensures
        ({
            let m1 = m.update(1, p);
            let m2 = m1.update(2, accented(m1[1]));
            &&& m2[1] == p
            &&& m2[2] == accented(p)
            &&& m2[2][1] == (p[1] | 4u8) && m2[2][2] == (p[2] | 4u8)
            &&& forall|r: int| 0 <= r < 8 && r != 1 && r != 2 ==> m2[2][r] == p[r]
            &&& forall|s: int| 0 <= s < GLYPH_SLOTS && s != 1 && s != 2 ==> m2[s] == m[s]
        }),
{
    assert((1u8 << 2u8) == 4u8) by (bit_vector);
}

} // verus!
