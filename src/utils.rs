use vstd::prelude::*;

verus! {

pub type Byte = u8;

pub type SignedByte = i8;

pub type Address = u16;

pub type Word = u16;

/// The little-endian word made of a low and a high byte.
pub open spec fn word_of(lsb: u8, msb: u8) -> u16 {
    (msb as int * 256 + lsb as int) as u16
}

pub open spec fn low_of(w: u16) -> u8 {
    (w % 256) as u8
}

pub open spec fn high_of(w: u16) -> u8 {
    (w / 256) as u8
}

pub proof fn lemma_word_of_parts(lsb: u8, msb: u8)
    ensures
        low_of(word_of(lsb, msb)) == lsb,
        high_of(word_of(lsb, msb)) == msb,
{
}

pub fn to_word(lsb: Byte, msb: Byte) -> (r: Word)
    ensures
        r == word_of(lsb, msb),
        r as int == msb as int * 256 + lsb as int,
{
    (lsb as Word).set_high(msb)
}

/// Operations on a byte.
pub trait ByteOP {
    fn mask(&self, mask: Byte) -> Byte;

    fn get_low_nibble(&self) -> Byte;

    fn get_high_nibble(&self) -> Byte;
}

impl ByteOP for Byte {
    fn mask(&self, mask: Byte) -> (r: Byte)
        ensures
            r == *self & mask,
    {
        *self & mask
    }

    fn get_low_nibble(&self) -> (r: Byte)
        ensures
            r == *self % 16,
    {
        let x = *self;
        assert(x & 0xF == x % 16) by (bit_vector);
        x & 0xF
    }

    fn get_high_nibble(&self) -> (r: Byte)
        ensures
            r == *self / 16,
    {
        let x = *self;
        assert((x & 0xF0) >> 4 == x / 16) by (bit_vector);
        (x & 0xF0) >> 4
    }
}

/// Operations on a little-endian word.
pub trait WordOP {
    fn get_low(&self) -> Byte;

    fn get_high(&self) -> Byte;

    fn set_low(&self, value: Byte) -> Word;

    fn set_high(&self, value: Byte) -> Word;

    fn mask(&self, mask: Word) -> Word;
}

impl WordOP for Word {
    fn get_low(&self) -> (r: Byte)
        ensures
            r == low_of(*self),
    {
        let w = *self;
        assert((w & 0xff) == w % 256) by (bit_vector);
        (w & 0xff) as Byte
    }

    fn get_high(&self) -> (r: Byte)
        ensures
            r == high_of(*self),
    {
        let w = *self;
        assert((w >> 8) == w / 256) by (bit_vector);
        (w >> 8) as Byte
    }

    fn set_low(&self, value: Byte) -> (r: Word)
        ensures
            r == word_of(value, high_of(*self)),
    {
        let w = *self;
        let v = value as u16;
        assert(v < 256 ==> ((w & !0xffu16) | v) == (w / 256) * 256 + v) by (bit_vector);
        (w & !0xff) | v
    }

    fn set_high(&self, value: Byte) -> (r: Word)
        ensures
            r == word_of(low_of(*self), value),
    {
        let w = *self;
        let v = value as u16;
        assert(v < 256 ==> ((w & 0xffu16) | (v << 8u16)) == v * 256 + w % 256) by (bit_vector);
        (w & 0xff) | (v << 8)
    }

    fn mask(&self, mask: Word) -> (r: Word)
        ensures
            r == *self & mask,
    {
        *self & mask
    }
}

} // verus!
