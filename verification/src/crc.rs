//! CRC-8 with polynomial 0x07, initial value 0x00, no reflection and no
//! final XOR. Every frame payload on the serial link ends with it.

use vstd::prelude::*;

verus! {

/// The generator polynomial x^8 + x^2 + x + 1, without its top bit.
pub const CRC8_POLY: u8 = 0x07;

/// One bit of polynomial division: shift left, and subtract the polynomial
/// when a set bit was shifted out.
pub open spec fn crc8_shift(c: u8) -> u8 {
    if c & 0x80 != 0 {
        (c << 1) ^ CRC8_POLY
    } else {
        c << 1
    }
}

/// `n` division steps applied to `c`.
pub open spec fn crc8_shifts(c: u8, n: nat) -> u8
    decreases n,
{
    if n == 0 {
        c
    } else {
        crc8_shift(crc8_shifts(c, (n - 1) as nat))
    }
}

/// The register after one input byte: the byte is folded into the register
/// and shifted out over eight steps.
pub open spec fn crc8_update(crc: u8, byte: u8) -> u8 {
    crc8_shifts(crc ^ byte, 8)
}

/// The checksum of a byte sequence.
pub open spec fn crc8_spec(data: Seq<u8>) -> u8
    decreases data.len(),
{
    if data.len() == 0 {
        0
    } else {
        crc8_update(crc8_spec(data.drop_last()), data.last())
    }
}

/// Computes the CRC-8 of `data`.
pub fn crc8(data: &[u8]) -> (crc: u8)
    ensures
        crc == crc8_spec(data@),
{
    let mut crc: u8 = 0x00;
    let mut i: usize = 0;
    while i < data.len()
        invariant
            i <= data.len(),
            crc == crc8_spec(data@.take(i as int)),
        decreases data.len() - i,
    {
        let ghost before = crc;
        crc = crc ^ data[i];
        let mut bit: u8 = 0;
        while bit < 8
            invariant
                bit <= 8,
                crc == crc8_shifts(before ^ data@[i as int], bit as nat),
            decreases 8 - bit,
        {
            if crc & 0x80 != 0 {
                crc = (crc << 1) ^ CRC8_POLY;
            } else {
                crc = crc << 1;
            }
            bit = bit + 1;
        }
        proof {
            assert(data@.take(i + 1).drop_last() =~= data@.take(i as int));
        }
        i = i + 1;
    }
    proof {
        assert(data@.take(i as int) =~= data@);
    }
    crc
}

/// The register is zero after eight steps from zero.
proof fn lemma_crc8_shifts_zero(n: nat)
    ensures
        crc8_shifts(0, n) == 0,
    decreases n,
{
    if n > 0 {
        lemma_crc8_shifts_zero((n - 1) as nat);
        assert(crc8_shift(0u8) == 0u8) by (bit_vector);
    }
}

/// A payload followed by its own checksum has checksum zero.
pub proof fn lemma_crc8_of_payload_with_crc(payload: Seq<u8>)
    ensures
        crc8_spec(payload.push(crc8_spec(payload))) == 0,
{
    let c = crc8_spec(payload);
    let framed = payload.push(c);
    assert(framed.drop_last() =~= payload);
    assert(framed.last() == c);
    assert(c ^ c == 0u8) by (bit_vector);
    lemma_crc8_shifts_zero(8);
}

} // verus!
