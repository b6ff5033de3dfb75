//! The 16-bit checksum guarding the save-file database: polynomial 0x1021,
//! MSB-first per input byte, initial value 0, accumulator masked to 16 bits
//! whenever the polynomial is folded in.

use vstd::prelude::*;

verus! {

/// One shift step of the checksum accumulator.
pub open spec fn spec_crc16_shift(crc: u32) -> u32 {
    if (crc << 1) & 0x10000 != 0 {
        ((crc << 1) ^ 0x1021) & 0xFFFF
    } else {
        crc << 1
    }
}

/// `k` shift steps of the checksum accumulator.
pub open spec fn spec_crc16_shifts(crc: u32, k: nat) -> u32
    decreases k,
{
    if k == 0 {
        crc
    } else {
        spec_crc16_shifts(spec_crc16_shift(crc), (k - 1) as nat)
    }
}

/// The accumulator after folding in one input byte, MSB first.
pub open spec fn spec_crc16_byte(crc: u32, b: u8) -> u32 {
    spec_crc16_shifts(crc ^ ((b as u32) << 8), 8)
}

/// The accumulator after folding in every byte of `s`, in order.
pub open spec fn spec_crc16_from(crc: u32, s: Seq<u8>) -> u32
    decreases s.len(),
{
    if s.len() == 0 {
        crc
    } else {
        spec_crc16_from(spec_crc16_byte(crc, s[0]), s.drop_first())
    }
}

/// The checksum of a byte string.
pub open spec fn spec_crc16(s: Seq<u8>) -> u16 {
    (spec_crc16_from(0, s) & 0xFFFF) as u16
}

/// The checksum of the empty byte string is zero.
pub proof fn lemma_crc16_empty()
    ensures
        spec_crc16(Seq::<u8>::empty()) == 0,
{
    assert((0u32 & 0xFFFF) as u16 == 0) by (bit_vector);
}

/// Folding in one more byte at the end continues the accumulator.
pub proof fn lemma_crc16_push(crc: u32, s: Seq<u8>, b: u8)
    ensures
        spec_crc16_from(crc, s.push(b)) == spec_crc16_byte(spec_crc16_from(crc, s), b),
    decreases s.len(),
{
    if s.len() == 0 {
        assert(s.push(b)[0] == b);
        assert(s.push(b).drop_first() =~= Seq::<u8>::empty());
        assert(spec_crc16_from(crc, s) == crc);
        assert(spec_crc16_from(crc, s.push(b)) == spec_crc16_from(
            spec_crc16_byte(crc, b),
            s.push(b).drop_first(),
        ));
        assert(spec_crc16_from(spec_crc16_byte(crc, b), Seq::<u8>::empty()) == spec_crc16_byte(
            crc,
            b,
        ));
    } else {
        assert(s.push(b)[0] == s[0]);
        assert(s.push(b).drop_first() =~= s.drop_first().push(b));
        assert(spec_crc16_from(crc, s.push(b)) == spec_crc16_from(
            spec_crc16_byte(crc, s[0]),
            s.drop_first().push(b),
        ));
        assert(spec_crc16_from(crc, s) == spec_crc16_from(
            spec_crc16_byte(crc, s[0]),
            s.drop_first(),
        ));
        lemma_crc16_push(spec_crc16_byte(crc, s[0]), s.drop_first(), b);
    }
}

/// A bounded accumulator stays bounded across one shift step.
proof fn lemma_crc16_shift_bound(crc: u32)
    requires
        crc < 0x10000,
    ensures
        spec_crc16_shift(crc) < 0x10000,
{
    assert(crc < 0x10000 ==> ((crc << 1) & 0x10000 != 0 ==> ((crc << 1) ^ 0x1021) & 0xFFFF
        < 0x10000) && ((crc << 1) & 0x10000 == 0 ==> (crc << 1) < 0x10000)) by (bit_vector);
}

/// The checksum of `data`: deterministic in the bytes alone.
pub exec fn crc16_ninty(data: &[u8]) -> (r: u16)
    ensures
        r == spec_crc16(data@),
{
    let mut crc: u32 = 0;
    let n = data.len();
    let mut i: usize = 0;
    proof {
        assert(data@.take(0) =~= Seq::<u8>::empty());
    }
    while i < n
        invariant
            i <= n,
            n == data@.len(),
            crc == spec_crc16_from(0, data@.take(i as int)),
            crc < 0x10000,
        decreases n - i,
    {
        let b = data[i];
        let ghost crc_in = crc;
        crc = crc ^ ((b as u32) << 8);
        proof {
            assert(crc_in < 0x10000 ==> (crc_in ^ ((b as u32) << 8)) < 0x10000) by (bit_vector);
        }
        let ghost folded = crc;
        let mut k: usize = 0;
        while k < 8
            invariant
                k <= 8,
                crc < 0x10000,
                spec_crc16_shifts(crc, (8 - k) as nat) == spec_crc16_shifts(folded, 8),
            decreases 8 - k,
        {
            proof {
                lemma_crc16_shift_bound(crc);
            }
            let ghost c0 = crc;
            let shifted = crc << 1u32;
            if shifted & 0x10000 != 0 {
                crc = (shifted ^ 0x1021) & 0xFFFF;
            } else {
                crc = shifted;
            }
            proof {
                assert(crc == spec_crc16_shift(c0));
                assert(spec_crc16_shifts(c0, (8 - k) as nat) == spec_crc16_shifts(
                    spec_crc16_shift(c0),
                    (7 - k) as nat,
                ));
            }
            k = k + 1;
        }
        proof {
            lemma_crc16_push(0, data@.take(i as int), b);
            assert(data@.take(i as int).push(b) =~= data@.take(i + 1));
        }
        i = i + 1;
    }
    proof {
        assert(data@.take(n as int) =~= data@);
        assert(crc & 0xFFFF == crc) by (bit_vector)
            requires
                crc < 0x10000,
        ;
    }
    (crc & 0xFFFF) as u16
}

} // verus!
