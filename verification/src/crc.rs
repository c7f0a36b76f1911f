//! CRC-16 as cartridge headers and firmware settings use it (reflected
//! polynomial 0xA001, start value 0xFFFF).

use vstd::prelude::*;

verus! {

/// One division step.
pub open spec fn stepped(crc: u16) -> u16 {
    if crc % 2 == 1 {
        (crc / 2) ^ 0xA001
    } else {
        crc / 2
    }
}

/// A number of division steps.
pub open spec fn divided(crc: u16, steps: int) -> u16
    decreases steps,
{
    if steps <= 0 {
        crc
    } else {
        stepped(divided(crc, steps - 1))
    }
}

/// The checksum of some bytes.
pub open spec fn checksum(data: Seq<u8>) -> u16
    decreases data.len(),
{
    if data.len() == 0 {
        0xFFFF
    } else {
        divided(checksum(data.drop_last()) ^ data.last() as u16, 8)
    }
}

/// The checksum of some bytes.
pub fn crc16_modbus(data: &[u8]) -> (crc: u16)
    ensures
        crc == checksum(data@),
{
    let mut crc: u16 = 0xFFFF;
    for i in 0..data.len()
        invariant
            crc == checksum(data@.take(i as int)),
    {
        assert(data@.take(i + 1).drop_last() =~= data@.take(i as int));
        let start: u16 = crc ^ data[i] as u16;
        crc = start;
        for k in 0..8u8
            invariant
                crc == divided(start, k as int),
        {
            crc = if crc % 2 == 1 {
                (crc / 2) ^ 0xA001
            } else {
                crc / 2
            };
        }
    }
    assert(data@.take(data@.len() as int) =~= data@);
    crc
}

proof fn lemma_cancel(crc: u16)
    by (bit_vector)
    ensures
        (crc ^ (crc % 256)) == crc - crc % 256,
        crc ^ crc == 0,
{
}

/// Eight steps move the high byte down where the low byte is 0.
proof fn lemma_shifted_out(high: u16)
    requires
        high < 256,
    ensures
        divided((high * 256) as u16, 8) == high,
{
    let start = (high * 256) as u16;
    assert(divided(start, 0) == high * 256);
    assert(divided(start, 1) == high * 128);
    assert(divided(start, 2) == high * 64);
    assert(divided(start, 3) == high * 32);
    assert(divided(start, 4) == high * 16);
    assert(divided(start, 5) == high * 8);
    assert(divided(start, 6) == high * 4);
    assert(divided(start, 7) == high * 2);
}

/// Bytes followed by their checksum, low byte first, have checksum 0.
pub proof fn law_checksum_cancels(data: Seq<u8>)
    ensures
        ({
            let crc = checksum(data);
            checksum(data.push((crc % 256) as u8).push((crc / 256) as u8)) == 0
        }),
{
    let crc = checksum(data);
    let one = data.push((crc % 256) as u8);
    let two = one.push((crc / 256) as u8);
    assert(one.drop_last() =~= data);
    assert(two.drop_last() =~= one);
    lemma_cancel(crc);
    let high = (crc / 256) as u16;
    assert(checksum(one) == divided((crc - crc % 256) as u16, 8));
    lemma_shifted_out(high);
    lemma_shifted_out(0);
    lemma_cancel(high);
    assert(checksum(two) == divided(0, 8));
}

/// A step divides by the polynomial with the terms 16, 15, 2 and 0: where the lowest
/// bit falls out, bits 15, 13 and 0 of the rest turn over, and nothing else does.
pub proof fn law_step_polynomial(crc: u16)
    ensures
        crc % 2 == 0 ==> stepped(crc) == crc / 2,
        crc % 2 == 1 ==> stepped(crc) ^ (crc / 2) == 0x8000 + 0x2000 + 1,
        checksum(Seq::empty()) == 0xFFFF,
{
    lemma_turned_bits((crc / 2) as u16);
}

proof fn lemma_turned_bits(x: u16)
    by (bit_vector)
    ensures
        (x ^ 0xA001u16) ^ x == 0xA001u16,
{
}

} // verus!
