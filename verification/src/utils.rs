//! Bit and word utilities used by the instruction decoder: splitting and
//! joining bytes and nibbles of 16-bit instruction words.
use vstd::prelude::*;

verus! {

pub const NIBBLES_IN_WORD: u8 = 4;

pub const BYTES_IN_WORD: u8 = 2;

/// The 16-bit word whose high byte is `hi` and low byte is `lo`.
pub open spec fn word_of_bytes(hi: u8, lo: u8) -> u16 {
    (hi * 256 + lo) as u16
}

/// Nibble `pos` (0 = least significant) of a 16-bit word, as a value below 16.
pub open spec fn nibble_of(w: u16, pos: int) -> u16 {
    if pos == 0 {
        (w as int % 16) as u16
    } else if pos == 1 {
        ((w as int / 16) % 16) as u16
    } else if pos == 2 {
        ((w as int / 256) % 16) as u16
    } else {
        ((w as int / 4096) % 16) as u16
    }
}

/// Byte `pos` (0 = least significant) of a 16-bit word.
pub open spec fn byte_of(w: u16, pos: int) -> u16 {
    if pos == 0 {
        (w as int % 256) as u16
    } else {
        (w as int / 256) as u16
    }
}

/// Bit `pos` of the byte `b`: 0 or 1.
pub open spec fn byte_bit(b: u8, pos: u16) -> u16 {
    ((b as u16) >> pos) & 1
}

pub fn concat_u8_to_u16(l1: u8, l0: u8) -> (r: u16)
    ensures
        r == word_of_bytes(l1, l0),
{
    let r = ((l1 as u16) << 8) | (l0 as u16);
    proof {
        assert(((l1 as u16) << 8) | (l0 as u16) == l1 * 256 + l0) by (bit_vector);
    }
    r
}

pub fn split_u16_to_u8(data: u16) -> (r: (u8, u8))
    ensures
        r.0 == data as int / 256,
        r.1 == data as int % 256,
        word_of_bytes(r.0, r.1) == data,
{
    let hi = (data >> 8) as u8;
    let lo = (data & 0xFF) as u8;
    proof {
        assert((data >> 8) as u8 == data as int / 256 && (data & 0xFF) as u8 == data as int % 256)
            by (bit_vector);
    }
    (hi, lo)
}

pub fn concat_nib_to_u16(n3: u8, n2: u8, n1: u8, n0: u8) -> (r: u16)
    ensures
        r == (n3 as int % 16) * 4096 + (n2 as int % 16) * 256 + (n1 as int % 16) * 16 + (
        n0 as int % 16),
{
    let r = ((n3 & 0xF) as u16) << 12 | ((n2 & 0xF) as u16) << 8 | ((n1 & 0xF) as u16) << 4 | (n0
        & 0xF) as u16;
    proof {
        assert(((n3 & 0xF) as u16) << 12 | ((n2 & 0xF) as u16) << 8 | ((n1 & 0xF) as u16) << 4 | (
        n0 & 0xF) as u16 == (n3 as int % 16) * 4096 + (n2 as int % 16) * 256 + (n1 as int % 16) * 16
            + (n0 as int % 16)) by (bit_vector);
    }
    r
}

pub fn concat_nib_to_u8(n1: u8, n0: u8) -> (r: u8)
    ensures
        r == (n1 as int % 16) * 16 + (n0 as int % 16),
{
    let r = ((n1 & 0xF)) << 4 | (n0 & 0xF);
    proof {
        assert(((n1 & 0xF)) << 4 | (n0 & 0xF) == (n1 as int % 16) * 16 + (n0 as int % 16))
            by (bit_vector);
    }
    r
}

/// Bit `bit_pos` of `data`, zero-indexed from the least significant end.
pub fn get_nth_bit_u16(data: u16, bit_pos: u8) -> (r: u8)
    requires
        bit_pos < 16,
    ensures
        r == (data >> (bit_pos as u16)) & 1,
        r == 0 || r == 1,
{
    let r = ((data & (1u16 << bit_pos)) >> bit_pos) as u8;
    proof {
        assert(bit_pos < 16 ==> ((data & (1u16 << bit_pos)) >> bit_pos) as u8 == (data >> (
        bit_pos as u16)) & 1 && (data >> (bit_pos as u16)) & 1 < 2) by (bit_vector);
    }
    r
}

pub fn get_nth_nibble(data: u16, nibble_pos: u8) -> (r: u8)
    requires
        nibble_pos < 4,
    ensures
        r == nibble_of(data, nibble_pos as int),
        r < 16,
{
    let shamt = (NIBBLES_IN_WORD - nibble_pos - 1) * 4;
    let r = ((data << shamt) >> 12) as u8;
    proof {
        if nibble_pos == 0 {
            assert(((data << 12u8) >> 12) as u8 == data as int % 16) by (bit_vector);
        } else if nibble_pos == 1 {
            assert(((data << 8u8) >> 12) as u8 == (data as int / 16) % 16) by (bit_vector);
        } else if nibble_pos == 2 {
            assert(((data << 4u8) >> 12) as u8 == (data as int / 256) % 16) by (bit_vector);
        } else {
            assert(((data << 0u8) >> 12) as u8 == (data as int / 4096) % 16) by (bit_vector);
        }
    }
    r
}

pub fn get_nth_byte(data: u16, byte_pos: u8) -> (r: u8)
    requires
        byte_pos < 2,
    ensures
        r == byte_of(data, byte_pos as int),
{
    let shamt = (BYTES_IN_WORD - byte_pos - 1) * 8;
    let r = ((data << shamt) >> 8) as u8;
    proof {
        if byte_pos == 0 {
            assert(((data << 8u8) >> 8) as u8 == data as int % 256) by (bit_vector);
        } else {
            assert(((data << 0u8) >> 8) as u8 == data as int / 256) by (bit_vector);
        }
    }
    r
}

/// All four nibbles of an instruction word, most significant first.
pub fn nibbles_to_tuple(data: u16) -> (r: (u8, u8, u8, u8))
    ensures
        r.0 == nibble_of(data, 3),
        r.1 == nibble_of(data, 2),
        r.2 == nibble_of(data, 1),
        r.3 == nibble_of(data, 0),
        r.0 < 16 && r.1 < 16 && r.2 < 16 && r.3 < 16,
{
    (
        get_nth_nibble(data, 3),
        get_nth_nibble(data, 2),
        get_nth_nibble(data, 1),
        get_nth_nibble(data, 0),
    )
}

} // verus!
