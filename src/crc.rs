use vstd::prelude::*;

verus! {

/// Generator polynomial of the MPEG-2 CRC-32 (x^32 + x^26 + ... + 1), most significant bit first.
pub const CRC_POLYNOMIAL: u32 = 0x04C1_1DB7;

/// Register value before the first byte is shifted in.
pub const CRC_INITIAL: u32 = 0xFFFF_FFFF;

/// One shift of the CRC register.
pub open spec fn crc_shift(c: u32) -> u32 {
    if c & 0x8000_0000 != 0 {
        (c << 1) ^ CRC_POLYNOMIAL
    } else {
        c << 1
    }
}

/// The register after one byte has been shifted in, most significant bit first.
pub open spec fn crc_byte(c: u32, b: u8) -> u32 {
    let x = c ^ ((b as u32) << 24);
    crc_shift(crc_shift(crc_shift(crc_shift(crc_shift(crc_shift(crc_shift(crc_shift(x))))))))
}

/// The register after shifting in every byte of `s`, starting from `c`.
pub open spec fn crc_update(c: u32, s: Seq<u8>) -> u32
    decreases s.len(),
{
    if s.len() == 0 {
        c
    } else {
        crc_byte(crc_update(c, s.drop_last()), s.last())
    }
}

/// The MPEG-2 CRC-32 of `s` (no reflection, no final complement).
pub open spec fn crc32_mpeg2(s: Seq<u8>) -> u32 {
    crc_update(CRC_INITIAL, s)
}

/// A PSI section whose trailing CRC field matches its contents: the CRC of the whole
/// section, CRC field included, is zero.
pub open spec fn section_crc_ok(section: Seq<u8>) -> bool {
    crc32_mpeg2(section) == 0
}

/// Byte-wise exclusive or of two sequences of equal length.
pub open spec fn xor_seq(a: Seq<u8>, b: Seq<u8>) -> Seq<u8> {
    Seq::new(a.len(), |i: int| a[i] ^ b[i])
}

/// `s` with bit `bit` of byte `index` inverted.
pub open spec fn flip_bit(s: Seq<u8>, index: int, bit: u8) -> Seq<u8> {
    s.update(index, s[index] ^ (1u8 << bit))
}

fn shift(c: u32) -> (r: u32)
    ensures
        r == crc_shift(c),
{
    if c & 0x8000_0000 != 0 {
        (c << 1) ^ CRC_POLYNOMIAL
    } else {
        c << 1
    }
}

fn update_byte(c: u32, b: u8) -> (r: u32)
    ensures
        r == crc_byte(c, b),
{
    let x = c ^ ((b as u32) << 24);
    shift(shift(shift(shift(shift(shift(shift(shift(x))))))))
}

/// Computes the MPEG-2 CRC-32 of `data`.
pub fn crc32(data: &[u8]) -> (r: u32)
    ensures
        r == crc32_mpeg2(data@),
{
    let mut c: u32 = CRC_INITIAL;
    let mut i: usize = 0;
    while i < data.len()
        invariant
            i <= data.len(),
            c == crc_update(CRC_INITIAL, data@.subrange(0, i as int)),
        decreases data.len() - i,
    {
        proof {
            let s = data@.subrange(0, i as int + 1);
            assert(s.drop_last() =~= data@.subrange(0, i as int));
        }
        c = update_byte(c, data[i]);
        i = i + 1;
    }
    proof {
        assert(data@.subrange(0, i as int) =~= data@);
    }
    c
}

proof fn lemma_shift_linear(a: u32, b: u32)
    ensures
        crc_shift(a ^ b) == crc_shift(a) ^ crc_shift(b),
{
    assert((a ^ b) & 0x8000_0000 != 0 <==> ((a & 0x8000_0000 != 0) != (b & 0x8000_0000 != 0)))
        by (bit_vector);
    assert(((a ^ b) << 1) == (a << 1) ^ (b << 1)) by (bit_vector);
    assert(((a << 1) ^ (b << 1)) ^ 0x04C1_1DB7u32 == (((a << 1) ^ 0x04C1_1DB7u32) ^ (b << 1)))
        by (bit_vector);
    assert(((a << 1) ^ (b << 1)) ^ 0x04C1_1DB7u32 == ((a << 1) ^ ((b << 1) ^ 0x04C1_1DB7u32)))
        by (bit_vector);
    assert(((a << 1) ^ (b << 1)) == (((a << 1) ^ 0x04C1_1DB7u32) ^ ((b << 1) ^ 0x04C1_1DB7u32)))
        by (bit_vector);
}

proof fn lemma_shift_nonzero(c: u32)
    requires
        c != 0,
    ensures
        crc_shift(c) != 0,
{
    assert(c != 0 && c & 0x8000_0000 != 0 ==> (c << 1) ^ 0x04C1_1DB7u32 != 0) by (bit_vector);
    assert(c != 0 && c & 0x8000_0000 == 0 ==> (c << 1) != 0) by (bit_vector);
}

proof fn lemma_byte_linear(a: u32, b: u32, x: u8, y: u8)
    ensures
        crc_byte(a ^ b, x ^ y) == crc_byte(a, x) ^ crc_byte(b, y),
{
    let xa = a ^ ((x as u32) << 24);
    let xb = b ^ ((y as u32) << 24);
    let xy = x ^ y;
    assert((a ^ b) ^ ((xy as u32) << 24) == xa ^ xb) by (bit_vector)
        requires xy == x ^ y, xa == a ^ ((x as u32) << 24), xb == b ^ ((y as u32) << 24);
    let p = xa;
    let q = xb;
    lemma_shift_linear(p, q);
    lemma_shift_linear(crc_shift(p), crc_shift(q));
    lemma_shift_linear(crc_shift(crc_shift(p)), crc_shift(crc_shift(q)));
    lemma_shift_linear(crc_shift(crc_shift(crc_shift(p))), crc_shift(crc_shift(crc_shift(q))));
    lemma_shift_linear(
        crc_shift(crc_shift(crc_shift(crc_shift(p)))),
        crc_shift(crc_shift(crc_shift(crc_shift(q)))),
    );
    lemma_shift_linear(
        crc_shift(crc_shift(crc_shift(crc_shift(crc_shift(p))))),
        crc_shift(crc_shift(crc_shift(crc_shift(crc_shift(q))))),
    );
    lemma_shift_linear(
        crc_shift(crc_shift(crc_shift(crc_shift(crc_shift(crc_shift(p)))))),
        crc_shift(crc_shift(crc_shift(crc_shift(crc_shift(crc_shift(q)))))),
    );
    lemma_shift_linear(
        crc_shift(crc_shift(crc_shift(crc_shift(crc_shift(crc_shift(crc_shift(p))))))),
        crc_shift(crc_shift(crc_shift(crc_shift(crc_shift(crc_shift(crc_shift(q))))))),
    );
}

proof fn lemma_byte_nonzero(c: u32, b: u8)
    requires
        c ^ ((b as u32) << 24) != 0,
    ensures
        crc_byte(c, b) != 0,
{
    let x = c ^ ((b as u32) << 24);
    lemma_shift_nonzero(x);
    lemma_shift_nonzero(crc_shift(x));
    lemma_shift_nonzero(crc_shift(crc_shift(x)));
    lemma_shift_nonzero(crc_shift(crc_shift(crc_shift(x))));
    lemma_shift_nonzero(crc_shift(crc_shift(crc_shift(crc_shift(x)))));
    lemma_shift_nonzero(crc_shift(crc_shift(crc_shift(crc_shift(crc_shift(x))))));
    lemma_shift_nonzero(crc_shift(crc_shift(crc_shift(crc_shift(crc_shift(crc_shift(x)))))));
    lemma_shift_nonzero(
        crc_shift(crc_shift(crc_shift(crc_shift(crc_shift(crc_shift(crc_shift(x))))))),
    );
}

/// The CRC register is linear over GF(2): running two messages from two start values
/// and xoring the results equals running their xor from the xor of the start values.
pub proof fn lemma_crc_linear(a: u32, b: u32, s: Seq<u8>, t: Seq<u8>)
    requires
        s.len() == t.len(),
    ensures
        crc_update(a ^ b, xor_seq(s, t)) == crc_update(a, s) ^ crc_update(b, t),
    decreases s.len(),
{
    if s.len() > 0 {
        let st = xor_seq(s, t);
        assert(st.drop_last() =~= xor_seq(s.drop_last(), t.drop_last()));
        lemma_crc_linear(a, b, s.drop_last(), t.drop_last());
        lemma_byte_linear(crc_update(a, s.drop_last()), crc_update(b, t.drop_last()), s.last(), t.last());
    }
}

/// From a zero register, a message that is zero outside index `i` and nonzero at `i`
/// leaves a nonzero register once byte `i` has been shifted in.
proof fn lemma_single_error_nonzero(e: Seq<u8>, i: int, n: int)
    requires
        0 <= i < n <= e.len(),
        e[i] != 0,
        forall|j: int| 0 <= j < e.len() && j != i ==> e[j] == 0,
    ensures
        crc_update(0, e.subrange(0, n)) != 0,
    decreases n,
{
    let pre = e.subrange(0, n);
    assert(pre.drop_last() =~= e.subrange(0, n - 1));
    if n == i + 1 {
        lemma_zero_message(e.subrange(0, i));
        assert(e.subrange(0, i) =~= pre.drop_last());
        let b = e[i];
        assert(b != 0 ==> 0u32 ^ ((b as u32) << 24) != 0) by (bit_vector);
        lemma_byte_nonzero(0, b);
    } else {
        lemma_single_error_nonzero(e, i, n - 1);
        let c = crc_update(0, e.subrange(0, n - 1));
        assert(c != 0 ==> c ^ ((0u8 as u32) << 24) != 0) by (bit_vector);
        lemma_byte_nonzero(c, 0);
    }
}

proof fn lemma_zero_message(z: Seq<u8>)
    requires
        forall|j: int| 0 <= j < z.len() ==> z[j] == 0,
    ensures
        crc_update(0, z) == 0,
    decreases z.len(),
{
    if z.len() > 0 {
        lemma_zero_message(z.drop_last());
        assert(crc_shift(0) == 0) by (bit_vector);
        assert(0u32 ^ ((0u8 as u32) << 24) == 0) by (bit_vector);
    }
}

/// Every single-bit error in a section whose CRC checks is detected: after inverting any
/// one bit, the CRC no longer checks.
pub proof fn lemma_bit_flip_detected(section: Seq<u8>, index: int, bit: u8)
    requires
        section_crc_ok(section),
        0 <= index < section.len(),
        bit < 8,
    ensures
        !section_crc_ok(flip_bit(section, index, bit)),
{
    let m = 1u8 << bit;
    assert(bit < 8 ==> (1u8 << bit) != 0) by (bit_vector);
    let e = Seq::new(section.len(), |j: int| if j == index { m } else { 0u8 });
    assert forall|j: int| 0 <= j < e.len() && j != index implies e[j] == 0 by {}
    lemma_single_error_nonzero(e, index, e.len() as int);
    assert(e.subrange(0, e.len() as int) =~= e);
    assert forall|j: int| 0 <= j < section.len() implies #[trigger] section[j] ^ 0u8 == section[j] by {
        let x = section[j];
        assert(x ^ 0u8 == x) by (bit_vector);
    }
    assert(xor_seq(section, e) =~= flip_bit(section, index, bit));
    lemma_crc_linear(CRC_INITIAL, 0, section, e);
    let c = crc_update(0, e);
    assert(CRC_INITIAL ^ 0u32 == CRC_INITIAL) by (bit_vector);
    assert(c != 0 ==> 0u32 ^ c != 0) by (bit_vector);
}

} // verus!
