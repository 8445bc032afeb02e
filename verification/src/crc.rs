//! CRC-32 (IEEE 802.3, reflected polynomial `0xEDB88320`).

use vstd::prelude::*;

verus! {

/// One bit of the reflected CRC-32 shift register.
pub open spec fn crc32_shift(reg: u32) -> u32 {
    if reg & 1 == 1 {
        (reg >> 1) ^ 0xEDB8_8320u32
    } else {
        reg >> 1
    }
}

/// The register after `bits` more shifts.
pub open spec fn crc32_shifts(reg: u32, bits: nat) -> u32
    decreases bits,
{
    if bits == 0 {
        reg
    } else {
        crc32_shifts(crc32_shift(reg), (bits - 1) as nat)
    }
}

/// The register after one more input byte.
pub open spec fn crc32_byte(reg: u32, byte: u8) -> u32 {
    crc32_shifts(reg ^ (byte as u32), 8)
}

/// The register after all of `data`, starting from `reg`.
pub open spec fn crc32_fold(reg: u32, data: Seq<u8>) -> u32
    decreases data.len(),
{
    if data.len() == 0 {
        reg
    } else {
        crc32_byte(crc32_fold(reg, data.drop_last()), data.last())
    }
}

/// The CRC-32 checksum of `data`: the register starts with all bits set and
/// is inverted at the end.
pub open spec fn crc32(data: Seq<u8>) -> u32 {
    crc32_fold(0xFFFF_FFFFu32, data) ^ 0xFFFF_FFFFu32
}

fn step_byte(reg: u32, byte: u8) -> (r: u32)
    ensures
        r == crc32_byte(reg, byte),
{
    let mut cur: u32 = reg ^ (byte as u32);
    let mut k: u8 = 0;
    while k < 8
        invariant
            k <= 8,
            crc32_shifts(cur, (8 - k) as nat) == crc32_byte(reg, byte),
        decreases 8 - k,
    {
        cur = if cur & 1 == 1 {
            (cur >> 1) ^ 0xEDB8_8320u32
        } else {
            cur >> 1
        };
        k = k + 1;
    }
    cur
}

/// Computes the CRC-32 checksum of `data`.
pub fn checksum(data: &[u8]) -> (sum: u32)
    ensures
        sum == crc32(data@),
{
    let mut reg: u32 = 0xFFFF_FFFFu32;
    let mut i: usize = 0;
    while i < data.len()
        invariant
            i <= data.len(),
            reg == crc32_fold(0xFFFF_FFFFu32, data@.take(i as int)),
        decreases data.len() - i,
    {
        proof {
            assert(data@.take(i + 1).drop_last() =~= data@.take(i as int));
        }
        reg = step_byte(reg, data[i]);
        i = i + 1;
    }
    proof {
        assert(data@.take(i as int) =~= data@);
    }
    reg ^ 0xFFFF_FFFFu32
}

} // verus!
