use vstd::prelude::*;

verus! {

/// Number of signal channels a logic word carries.
pub const CHANNELS: u8 = 16;

/// Whether channel `ch` of the word `w` is on. Channels at or above
/// [`CHANNELS`] do not exist and read as off.
pub open spec fn bit(w: u16, ch: u8) -> bool {
    ch < 16 && ((w >> (ch as u16)) & 1u16) == 1u16
}

/// A 16-channel logic word: the signal state held by a voxel.
#[derive(Clone, Copy, Debug, PartialEq, Eq, Structural)]
pub struct Bits16 {
    pub word: u16,
}

/// Turning channel `c` on changes that channel only.
pub proof fn lemma_bit_set(w: u16, c: u8, ch: u8)
    requires
        c < 16,
    ensures
        bit(w | (1u16 << (c as u16)), ch) == (ch == c || bit(w, ch)),
{
    let cc = c as u16;
    if ch < 16 {
        let chh = ch as u16;
        assert((((w | (1u16 << cc)) >> chh) & 1u16 == 1u16) == (chh == cc || ((w >> chh) & 1u16)
            == 1u16)) by (bit_vector)
            requires
                cc < 16,
                chh < 16,
        ;
    }
}

/// Turning channel `c` off changes that channel only.
pub proof fn lemma_bit_clear(w: u16, c: u8, ch: u8)
    requires
        c < 16,
    ensures
        bit(w & !(1u16 << (c as u16)), ch) == (ch != c && bit(w, ch)),
{
    let cc = c as u16;
    if ch < 16 {
        let chh = ch as u16;
        assert((((w & !(1u16 << cc)) >> chh) & 1u16 == 1u16) == (chh != cc && ((w >> chh) & 1u16)
            == 1u16)) by (bit_vector)
            requires
                cc < 16,
                chh < 16,
        ;
    }
}

/// A channel of the union of two words is on when it is on in either.
pub proof fn lemma_bit_or(a: u16, b: u16, ch: u8)
    ensures
        bit(a | b, ch) == (bit(a, ch) || bit(b, ch)),
{
    if ch < 16 {
        let chh = ch as u16;
        assert((((a | b) >> chh) & 1u16 == 1u16) == (((a >> chh) & 1u16) == 1u16 || ((b >> chh)
            & 1u16) == 1u16)) by (bit_vector);
    }
}

/// The empty word has no channel on; the full word has every channel on.
pub proof fn lemma_bit_constants(ch: u8)
    ensures
        !bit(0u16, ch),
        bit(0xffffu16, ch) == (ch < 16),
{
    if ch < 16 {
        let chh = ch as u16;
        assert(((0u16 >> chh) & 1u16) != 1u16) by (bit_vector);
        assert(((0xffffu16 >> chh) & 1u16) == 1u16) by (bit_vector)
            requires
                chh < 16,
        ;
    }
}

/// A word is nonzero exactly when some channel is on.
pub proof fn lemma_nonzero_has_bit(w: u16)
    ensures
        (w != 0) == (exists|ch: u8| #[trigger] bit(w, ch)),
{
    if w != 0 {
        assert(w != 0u16 ==> ((w >> 0u16) & 1u16) == 1u16 || ((w >> 1u16) & 1u16) == 1u16 || ((w
            >> 2u16) & 1u16) == 1u16 || ((w >> 3u16) & 1u16) == 1u16 || ((w >> 4u16) & 1u16)
            == 1u16 || ((w >> 5u16) & 1u16) == 1u16 || ((w >> 6u16) & 1u16) == 1u16 || ((w
            >> 7u16) & 1u16) == 1u16 || ((w >> 8u16) & 1u16) == 1u16 || ((w >> 9u16) & 1u16)
            == 1u16 || ((w >> 10u16) & 1u16) == 1u16 || ((w >> 11u16) & 1u16) == 1u16 || ((w
            >> 12u16) & 1u16) == 1u16 || ((w >> 13u16) & 1u16) == 1u16 || ((w >> 14u16) & 1u16)
            == 1u16 || ((w >> 15u16) & 1u16) == 1u16) by (bit_vector);
        if bit(w, 0) {
        } else if bit(w, 1) {
        } else if bit(w, 2) {
        } else if bit(w, 3) {
        } else if bit(w, 4) {
        } else if bit(w, 5) {
        } else if bit(w, 6) {
        } else if bit(w, 7) {
        } else if bit(w, 8) {
        } else if bit(w, 9) {
        } else if bit(w, 10) {
        } else if bit(w, 11) {
        } else if bit(w, 12) {
        } else if bit(w, 13) {
        } else if bit(w, 14) {
        } else {
            assert(bit(w, 15));
        }
    } else {
        assert forall|ch: u8| !#[trigger] bit(w, ch) by {
            lemma_bit_constants(ch);
        }
    }
}

impl Bits16 {
    /// The word with every channel off.
    pub fn all_zeros() -> (r: Bits16)
        ensures
            r.word == 0,
    {
        Bits16 { word: 0 }
    }

    /// The word with every channel on.
    pub fn all_ones() -> (r: Bits16)
        ensures
            r.word == 0xffff,
    {
        Bits16 { word: 0xffff }
    }

    /// Wraps a raw 16-bit value.
    pub fn new(word: u16) -> (r: Bits16)
        ensures
            r.word == word,
    {
        Bits16 { word }
    }

    /// The raw 16-bit value.
    pub fn value(self) -> (r: u16)
        ensures
            r == self.word,
    {
        self.word
    }

    /// Whether channel `ch` is on.
    pub fn get(self, ch: u8) -> (r: bool)
        ensures
            r == bit(self.word, ch),
    {
        if ch < 16 {
            ((self.word >> (ch as u16)) & 1u16) == 1u16
        } else {
            false
        }
    }

    /// Turns channel `ch` on; a channel at or above 16 leaves the word as it is.
    pub fn set(&mut self, ch: u8)
        ensures
            ch < 16 ==> final(self).word == old(self).word | (1u16 << (ch as u16)),
            ch >= 16 ==> final(self).word == old(self).word,
            forall|k: u8| #[trigger] bit(final(self).word, k) == ((k == ch && ch < 16) || bit(old(self).word, k)),
    {
        if ch < 16 {
            proof {
                assert forall|k: u8| #[trigger]
                    bit(self.word | (1u16 << (ch as u16)), k) == ((k == ch && ch < 16) || bit(
                        self.word,
                        k,
                    )) by {
                    lemma_bit_set(self.word, ch, k);
                }
            }
            self.word = self.word | (1u16 << (ch as u16));
        }
    }

    /// Turns channel `ch` off; a channel at or above 16 leaves the word as it is.
    pub fn clear(&mut self, ch: u8)
        ensures
            ch < 16 ==> final(self).word == old(self).word & !(1u16 << (ch as u16)),
            ch >= 16 ==> final(self).word == old(self).word,
            forall|k: u8| #[trigger] bit(final(self).word, k) == (!(k == ch) && bit(old(self).word, k)),
    {
        if ch < 16 {
            proof {
                assert forall|k: u8| #[trigger]
                    bit(self.word & !(1u16 << (ch as u16)), k) == (!(k == ch) && bit(self.word, k)) by {
                    lemma_bit_clear(self.word, ch, k);
                }
            }
            self.word = self.word & !(1u16 << (ch as u16));
        } else {
            proof {
                assert forall|k: u8| #[trigger]
                    bit(self.word, k) == (!(k == ch) && bit(self.word, k)) by {}
            }
        }
    }

    /// Whether any channel is on.
    pub fn any_set(self) -> (r: bool)
        ensures
            r == (self.word != 0),
    {
        self.word != 0
    }

    /// Whether every channel is off.
    pub fn is_all_zero(self) -> (r: bool)
        ensures
            r == (self.word == 0),
    {
        self.word == 0
    }
}

/// The word a gate drives for a boolean output: every channel on, or every
/// channel off.
pub fn bitword(on: bool) -> (r: Bits16)
    ensures
        r.word == (if on { 0xffffu16 } else { 0u16 }),
{
    if on {
        Bits16::all_ones()
    } else {
        Bits16::all_zeros()
    }
}

} // verus!
