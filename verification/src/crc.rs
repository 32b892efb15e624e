use vstd::prelude::*;

verus! {

/// The CRC polynomial of CRC-16/CCITT-FALSE.
pub const CRC16_POLY: u16 = 0x1021;

/// The initial register value of CRC-16/CCITT-FALSE.
pub const CRC16_INIT: u16 = 0xFFFF;

/// One bit step of the MSB-first shift register.
pub open spec fn crc_shift(crc: u16) -> u16 {
    if crc & 0x8000 != 0 {
        ((crc << 1u16) ^ CRC16_POLY) as u16
    } else {
        (crc << 1u16) as u16
    }
}

/// `n` bit steps of the shift register.
pub open spec fn crc_shifts(crc: u16, n: nat) -> u16
    decreases n,
{
    if n == 0 {
        crc
    } else {
        crc_shifts(crc_shift(crc), (n - 1) as nat)
    }
}

/// The register after feeding one byte: the byte is xored into the high
/// half, then eight bit steps follow.
pub open spec fn crc_feed(crc: u16, byte: u8) -> u16 {
    crc_shifts(crc ^ ((byte as u16) << 8u16), 8)
}

/// The register after feeding all of `data`, starting from `crc`.
pub open spec fn crc_over(crc: u16, data: Seq<u8>) -> u16
    decreases data.len(),
{
    if data.len() == 0 {
        crc
    } else {
        crc_feed(crc_over(crc, data.drop_last()), data.last())
    }
}

/// CRC-16/CCITT-FALSE of `data` (poly 0x1021, init 0xFFFF, no reflection,
/// no final xor).
pub open spec fn crc16(data: Seq<u8>) -> u16 {
    crc_over(CRC16_INIT, data)
}

/// CRC-16/CCITT-FALSE: poly=0x1021, init=0xFFFF, RefIn=false, RefOut=false,
/// XorOut=0x0000. The check value for ASCII "123456789" is 0x29B1.
pub fn crc16_ccitt_false(data: &[u8]) -> (crc: u16)
    ensures
        crc == crc16(data@),
{
    let mut crc: u16 = CRC16_INIT;
    let mut i: usize = 0;
    while i < data.len()
        invariant
            i <= data@.len(),
            crc == crc_over(CRC16_INIT, data@.take(i as int)),
        decreases data@.len() - i,
    {
        let byte = data[i];
        crc = crc ^ ((byte as u16) << 8u16);
        let ghost start = crc;
        let mut k: u32 = 0;
        while k < 8
            invariant
                k <= 8,
                crc_shifts(start, 8) == crc_shifts(crc, (8 - k) as nat),
            decreases 8 - k,
        {
            crc = if crc & 0x8000 != 0 {
                (crc << 1u16) ^ CRC16_POLY
            } else {
                crc << 1u16
            };
            k = k + 1;
        }
        assert(data@.take(i + 1).drop_last() =~= data@.take(i as int));
        i = i + 1;
    }
    assert(data@.take(data@.len() as int) =~= data@);
    crc
}

} // verus!

verus! {

/// The byte-wise xor of two messages of equal length.
pub open spec fn xor_bytes(a: Seq<u8>, b: Seq<u8>) -> Seq<u8> {
    Seq::new(a.len(), |i: int| a[i] ^ b[i])
}

proof fn lemma_shift_linear(a: u16, b: u16)
    ensures
        crc_shift(a ^ b) == crc_shift(a) ^ crc_shift(b),
{
    assert(((a ^ b) & 0x8000 != 0 ==> (a & 0x8000 != 0) != (b & 0x8000 != 0)) && ((a ^ b)
        & 0x8000 == 0 ==> (a & 0x8000 != 0) == (b & 0x8000 != 0))) by (bit_vector);
    assert((((a ^ b) << 1u16) ^ 0x1021u16) == ((a << 1u16) ^ 0x1021u16) ^ (b << 1u16))
        by (bit_vector);
    assert((((a ^ b) << 1u16) ^ 0x1021u16) == (a << 1u16) ^ ((b << 1u16) ^ 0x1021u16))
        by (bit_vector);
    assert(((a ^ b) << 1u16) == (a << 1u16) ^ (b << 1u16)) by (bit_vector);
    assert(((a ^ b) << 1u16) == ((a << 1u16) ^ 0x1021u16) ^ ((b << 1u16) ^ 0x1021u16))
        by (bit_vector);
}

proof fn lemma_shift_nonzero(a: u16)
    requires
        a != 0,
    ensures
        crc_shift(a) != 0,
{
    assert(a != 0 ==> (a << 1u16) ^ 0x1021u16 != 0) by (bit_vector);
    assert(a != 0 && a & 0x8000 == 0 ==> a << 1u16 != 0) by (bit_vector);
}

proof fn lemma_shifts_linear(a: u16, b: u16, n: nat)
    ensures
        crc_shifts(a ^ b, n) == crc_shifts(a, n) ^ crc_shifts(b, n),
    decreases n,
{
    if n > 0 {
        lemma_shift_linear(a, b);
        lemma_shifts_linear(crc_shift(a), crc_shift(b), (n - 1) as nat);
    }
}

proof fn lemma_shifts_nonzero(a: u16, n: nat)
    requires
        a != 0,
    ensures
        crc_shifts(a, n) != 0,
    decreases n,
{
    if n > 0 {
        lemma_shift_nonzero(a);
        lemma_shifts_nonzero(crc_shift(a), (n - 1) as nat);
    }
}

proof fn lemma_feed_linear(r1: u16, r2: u16, b1: u8, b2: u8)
    ensures
        crc_feed(r1, b1) ^ crc_feed(r2, b2) == crc_feed(r1 ^ r2, b1 ^ b2),
{
    assert((r1 ^ ((b1 as u16) << 8u16)) ^ (r2 ^ ((b2 as u16) << 8u16)) == (r1 ^ r2) ^ (((b1
        ^ b2) as u16) << 8u16)) by (bit_vector);
    lemma_shifts_linear(r1 ^ ((b1 as u16) << 8u16), r2 ^ ((b2 as u16) << 8u16), 8);
}

/// The register is linear in xor: running two equal-length messages from
/// two start values and xoring the results is running the xor of the
/// messages from the xor of the start values.
proof fn lemma_crc_over_xor(c1: u16, c2: u16, m1: Seq<u8>, m2: Seq<u8>)
    requires
        m1.len() == m2.len(),
    ensures
        crc_over(c1, m1) ^ crc_over(c2, m2) == crc_over(c1 ^ c2, xor_bytes(m1, m2)),
    decreases m1.len(),
{
    if m1.len() > 0 {
        lemma_crc_over_xor(c1, c2, m1.drop_last(), m2.drop_last());
        assert(xor_bytes(m1, m2).drop_last() =~= xor_bytes(m1.drop_last(), m2.drop_last()));
        lemma_feed_linear(crc_over(c1, m1.drop_last()), crc_over(c2, m2.drop_last()), m1.last(), m2.last());
    }
}

/// From a zero register, a message of zero bytes leaves it zero, and a
/// message whose only non-zero byte is at `j` leaves it non-zero.
proof fn lemma_crc_one_nonzero_byte(d: Seq<u8>, j: int)
    requires
        0 <= j,
        forall|i: int| 0 <= i < d.len() && i != j ==> d[i] == 0,
    ensures
        j >= d.len() ==> crc_over(0, d) == 0,
        j < d.len() && d[j] != 0 ==> crc_over(0, d) != 0,
    decreases d.len(),
{
    if d.len() > 0 {
        let prev = d.drop_last();
        lemma_crc_one_nonzero_byte(prev, j);
        let r = crc_over(0, prev);
        let b = d.last();
        if d.len() - 1 == j {
            if b != 0 {
                assert(b != 0 ==> (0u16 ^ ((b as u16) << 8u16)) != 0) by (bit_vector);
                lemma_shifts_nonzero(0u16 ^ ((b as u16) << 8u16), 8);
            }
        } else {
            assert(b == 0);
            assert(r ^ ((0u8 as u16) << 8u16) == r) by (bit_vector);
            if j >= d.len() {
                assert(crc_shift(0) == 0) by (bit_vector);
                assert forall|n: nat| crc_shifts(0, n) == 0 by {
                    lemma_shifts_zero(n);
                }
            } else if d[j] != 0 {
                lemma_shifts_nonzero(r, 8);
            }
        }
    }
}

proof fn lemma_shifts_zero(n: nat)
    ensures
        crc_shifts(0, n) == 0,
    decreases n,
{
    if n > 0 {
        assert(crc_shift(0) == 0) by (bit_vector);
        lemma_shifts_zero((n - 1) as nat);
    }
}

/// The CRC catches every error confined to one byte: changing one byte of
/// a message, in any way, changes its CRC-16/CCITT-FALSE.
pub proof fn lemma_crc_detects_single_byte_error(m: Seq<u8>, j: int, b: u8)
    requires
        0 <= j < m.len(),
        b != m[j],
    ensures
        crc16(m.update(j, b)) != crc16(m),
{
    let m2 = m.update(j, b);
    lemma_crc_over_xor(CRC16_INIT, CRC16_INIT, m, m2);
    let d = xor_bytes(m, m2);
    assert(CRC16_INIT ^ CRC16_INIT == 0) by (bit_vector);
    let x = m[j];
    assert(x != b ==> x ^ b != 0) by (bit_vector);
    assert forall|i: int| 0 <= i < d.len() && i != j implies d[i] == 0 by {
        let y = m[i];
        assert(y ^ y == 0) by (bit_vector);
    }
    lemma_crc_one_nonzero_byte(d, j);
    let c1 = crc16(m);
    let c2 = crc16(m2);
    assert(c1 ^ c2 != 0 ==> c1 != c2) by (bit_vector);
}

/// The CRC catches every single-bit error: flipping one bit of a message
/// changes its CRC-16/CCITT-FALSE.
pub proof fn lemma_crc_detects_single_bit_error(m: Seq<u8>, j: int, bit: u8)
    requires
        0 <= j < m.len(),
        bit < 8,
    ensures
        crc16(m.update(j, m[j] ^ (1u8 << bit))) != crc16(m),
{
    let x = m[j];
    assert(bit < 8 ==> x ^ (1u8 << bit) != x) by (bit_vector);
    lemma_crc_detects_single_byte_error(m, j, x ^ (1u8 << bit));
}

} // verus!

verus! {

proof fn lemma_shifts_eight(x: u16)
    ensures
        crc_shifts(x, 8) == crc_shift(
            crc_shift(crc_shift(crc_shift(crc_shift(crc_shift(crc_shift(crc_shift(x))))))),
        ),
{
    reveal_with_fuel(crc_shifts, 9);
}

/// The CRC register of a message followed by its own CRC, big-endian, is
/// zero: a receiver may run the checksum over the whole frame, CRC field
/// included, and test for zero.
pub proof fn lemma_crc_of_message_with_crc_is_zero(data: Seq<u8>)
    ensures
        crc16(data + seq![(crc16(data) >> 8u16) as u8, crc16(data) as u8]) == 0,
{
    let c = crc16(data);
    let hi = (c >> 8u16) as u8;
    let lo = c as u8;
    let m = data + seq![hi, lo];
    assert(m.drop_last() =~= data.push(hi));
    assert(data.push(hi).drop_last() =~= data);
    let r1 = c ^ ((hi as u16) << 8u16);
    assert(r1 == (lo as u16)) by (bit_vector)
        requires
            r1 == c ^ ((hi as u16) << 8u16),
            hi == (c >> 8u16) as u8,
            lo == c as u8,
    ;
    let y = lo as u16;
    lemma_shifts_eight(y);
    assert(crc_shift(
        crc_shift(crc_shift(crc_shift(crc_shift(crc_shift(crc_shift(crc_shift(y))))))),
    ) == y << 8u16) by (bit_vector)
        requires
            y < 256,
    ;
    let r2 = (y << 8u16) ^ ((lo as u16) << 8u16);
    assert(r2 == 0) by (bit_vector)
        requires
            y == lo as u16,
            r2 == (y << 8u16) ^ ((lo as u16) << 8u16),
    ;
    lemma_shifts_zero(8);
    assert(crc_feed(c, hi) == y << 8u16);
    assert(crc_feed(y << 8u16, lo) == 0);
    assert(crc_over(CRC16_INIT, data.push(hi)) == crc_feed(c, hi));
    assert(crc_over(CRC16_INIT, m) == crc_feed(crc_over(CRC16_INIT, data.push(hi)), lo));
}

} // verus!
