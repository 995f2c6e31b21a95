//! What holds of fields in byte buffers and of the CRC.
use vstd::prelude::*;

use crate::bytes;

verus! {

/// A number is kept with its least significant byte first: each byte counts 256
/// times what the byte before it counts.
pub proof fn the_low_byte_comes_first(b: Seq<u8>, o: int)
    ensures
        bytes::field32(b, o) == b[o] + 256 * (b[o + 1] + 256 * (b[o + 2] + 256 * b[o + 3])),
        bytes::field64(b, o) == b[o] + 256 * (b[o + 1] + 256 * (b[o + 2] + 256 * (b[o + 3] + 256 * (
        b[o + 4] + 256 * (b[o + 5] + 256 * (b[o + 6] + 256 * b[o + 7])))))),
{
}

/// Writing a field changes the bytes of the field and nothing else.
pub proof fn only_the_field_changes(b: Seq<u8>, o: int, d: Seq<u8>, i: int)
    requires
        0 <= i < b.len(),
    ensures
        bytes::splice(b, o, d).len() == b.len(),
        o <= i < o + d.len() ==> bytes::splice(b, o, d)[i] == d[i - o],
        i < o || o + d.len() <= i ==> bytes::splice(b, o, d)[i] == b[i],
        bytes::le32(o).len() == 4,
        bytes::le64(o).len() == 8,
{
}

/// The register after `n` more message bits that are zero.
spec fn zeros(register: u32, n: nat) -> u32
    decreases n,
{
    if n == 0 {
        register
    } else {
        bytes::crc_bit(zeros(register, (n - 1) as nat), false)
    }
}

/// A message bit counts as if it were in the register already.
proof fn lemma_bit_in_register(x: u32, y: u32)
    ensures
        bytes::crc_bit(x, y & 1 == 1) ^ (y >> 1u32) == bytes::crc_bit(x ^ y, false),
{
    assert(((if (x & 1 == 1) != (y & 1 == 1) {
        (x >> 1u32) ^ 0xEDB8_8320u32
    } else {
        x >> 1u32
    }) ^ (y >> 1u32)) == (if ((x ^ y) & 1 == 1) != false {
        ((x ^ y) >> 1u32) ^ 0xEDB8_8320u32
    } else {
        (x ^ y) >> 1u32
    })) by (bit_vector);
}

proof fn lemma_bits_in_register(r: u32, b: u8, n: nat)
    requires
        n <= 8,
    ensures
        bytes::crc_byte(r, b, n) ^ ((b as u32) >> (n as u32)) == zeros(r ^ (b as u32), n),
    decreases n,
{
    let y = b as u32;
    if n == 0 {
        assert(y >> 0u32 == y) by (bit_vector);
    } else {
        let m = (n - 1) as nat;
        lemma_bits_in_register(r, b, m);
        let rest = y >> (m as u32);
        let x = bytes::crc_byte(r, b, m);
        lemma_bit_in_register(x, rest);
        let k = m as u32;
        assert(k < 8 ==> (y >> k) >> 1u32 == y >> ((k + 1) as u32)) by (bit_vector);
    }
}

proof fn lemma_byte_in_register(r: u32, b: u8)
    ensures
        bytes::crc_byte(r, b, 8) == zeros(r ^ (b as u32), 8),
{
    lemma_bits_in_register(r, b, 8);
    let y = b as u32;
    let x = bytes::crc_byte(r, b, 8);
    assert(y < 256 ==> x ^ (y >> 8u32) == x) by (bit_vector);
}

proof fn lemma_zeros_tell_apart(a: u32, b: u32, n: nat)
    requires
        a != b,
    ensures
        zeros(a, n) != zeros(b, n),
    decreases n,
{
    if n > 0 {
        let m = (n - 1) as nat;
        lemma_zeros_tell_apart(a, b, m);
        let x = zeros(a, m);
        let y = zeros(b, m);
        assert((if x & 1 == 1 {
            (x >> 1u32) ^ 0xEDB8_8320u32
        } else {
            x >> 1u32
        }) == (if y & 1 == 1 {
            (y >> 1u32) ^ 0xEDB8_8320u32
        } else {
            y >> 1u32
        }) ==> x == y) by (bit_vector);
    }
}

/// Higher bits move down unchanged.
proof fn lemma_high_bits(u: u32, w: u32, n: nat)
    requires
        n <= 8,
        w & 0xff == 0,
    ensures
        zeros(u ^ w, n) == zeros(u, n) ^ (w >> (n as u32)),
    decreases n,
{
    if n == 0 {
        assert(w >> 0u32 == w) by (bit_vector);
    } else {
        let m = (n - 1) as nat;
        lemma_high_bits(u, w, m);
        let x = zeros(u, m);
        let k = m as u32;
        let y = w >> k;
        assert(k < 8 && w & 0xff == 0 ==> (w >> k) & 1 == 0) by (bit_vector);
        assert(k < 8 ==> (w >> k) >> 1u32 == w >> ((k + 1) as u32)) by (bit_vector);
        assert(y & 1 == 0 ==> (if (x ^ y) & 1 == 1 {
            ((x ^ y) >> 1u32) ^ 0xEDB8_8320u32
        } else {
            (x ^ y) >> 1u32
        }) == (if x & 1 == 1 {
            (x >> 1u32) ^ 0xEDB8_8320u32
        } else {
            x >> 1u32
        }) ^ (y >> 1u32)) by (bit_vector);
    }
}

/// A byte and what follows it, in the register ahead of its turn.
proof fn lemma_word_in_register(r: u32, word: u32, b: u8)
    requires
        b as u32 == word & 0xff,
    ensures
        zeros(r ^ word, 8) == bytes::crc_byte(r, b, 8) ^ (word >> 8u32),
{
    let low = word & 0xff;
    let high = word & 0xffff_ff00;
    assert((word & 0xffff_ff00) & 0xff == 0) by (bit_vector);
    assert((r ^ (word & 0xff)) ^ (word & 0xffff_ff00) == r ^ word) by (bit_vector);
    assert((word & 0xffff_ff00) >> 8u32 == word >> 8u32) by (bit_vector);
    lemma_byte_in_register(r, b);
    lemma_high_bits(r ^ low, high, 8);
}

proof fn lemma_one_zero(r: u32, n: nat)
    ensures
        zeros(r, n + 1) == (if zeros(r, n) & 1 == 1 {
            (zeros(r, n) >> 1u32) ^ 0xEDB8_8320u32
        } else {
            zeros(r, n) >> 1u32
        }),
{
}

/// What eight zero bits make of a register that is all ones, and of what comes
/// of that, up to the four bytes of a word.
proof fn lemma_all_ones()
    ensures
        zeros(0xffff_ffffu32, 8) == 0x2dfd_1072u32,
        zeros(0x2dfd_1072u32, 8) == 0xbe26_ed00u32,
        zeros(0xbe26_ed00u32, 8) == 0x00be_26edu32,
        zeros(0x00be_26edu32, 8) == 0xdebb_20e3u32,
{
    assert(zeros(0xffff_ffffu32, 8) == 0x2dfd_1072u32) by {
        lemma_one_zero(0xffff_ffffu32, 0);
        lemma_one_zero(0xffff_ffffu32, 1);
        lemma_one_zero(0xffff_ffffu32, 2);
        lemma_one_zero(0xffff_ffffu32, 3);
        lemma_one_zero(0xffff_ffffu32, 4);
        lemma_one_zero(0xffff_ffffu32, 5);
        lemma_one_zero(0xffff_ffffu32, 6);
        lemma_one_zero(0xffff_ffffu32, 7);
        let r0 = 0xffff_ffffu32;
        let r1 = zeros(0xffff_ffffu32, 1);
        let r2 = zeros(0xffff_ffffu32, 2);
        let r3 = zeros(0xffff_ffffu32, 3);
        let r4 = zeros(0xffff_ffffu32, 4);
        let r5 = zeros(0xffff_ffffu32, 5);
        let r6 = zeros(0xffff_ffffu32, 6);
        let r7 = zeros(0xffff_ffffu32, 7);
        let r8 = zeros(0xffff_ffffu32, 8);
        assert(zeros(0xffff_ffffu32, 0) == r0);
        assert(r8 == 0x2dfd_1072u32) by (bit_vector)
            requires
                r0 == 0xffff_ffffu32,
                r1 == (if r0 & 1 == 1 {
                    (r0 >> 1u32) ^ 0xEDB8_8320u32
                } else {
                    r0 >> 1u32
                }),
                r2 == (if r1 & 1 == 1 {
                    (r1 >> 1u32) ^ 0xEDB8_8320u32
                } else {
                    r1 >> 1u32
                }),
                r3 == (if r2 & 1 == 1 {
                    (r2 >> 1u32) ^ 0xEDB8_8320u32
                } else {
                    r2 >> 1u32
                }),
                r4 == (if r3 & 1 == 1 {
                    (r3 >> 1u32) ^ 0xEDB8_8320u32
                } else {
                    r3 >> 1u32
                }),
                r5 == (if r4 & 1 == 1 {
                    (r4 >> 1u32) ^ 0xEDB8_8320u32
                } else {
                    r4 >> 1u32
                }),
                r6 == (if r5 & 1 == 1 {
                    (r5 >> 1u32) ^ 0xEDB8_8320u32
                } else {
                    r5 >> 1u32
                }),
                r7 == (if r6 & 1 == 1 {
                    (r6 >> 1u32) ^ 0xEDB8_8320u32
                } else {
                    r6 >> 1u32
                }),
                r8 == (if r7 & 1 == 1 {
                    (r7 >> 1u32) ^ 0xEDB8_8320u32
                } else {
                    r7 >> 1u32
                }),
        ;
    }
    assert(zeros(0x2dfd_1072u32, 8) == 0xbe26_ed00u32) by {
        lemma_one_zero(0x2dfd_1072u32, 0);
        lemma_one_zero(0x2dfd_1072u32, 1);
        lemma_one_zero(0x2dfd_1072u32, 2);
        lemma_one_zero(0x2dfd_1072u32, 3);
        lemma_one_zero(0x2dfd_1072u32, 4);
        lemma_one_zero(0x2dfd_1072u32, 5);
        lemma_one_zero(0x2dfd_1072u32, 6);
        lemma_one_zero(0x2dfd_1072u32, 7);
        let r0 = 0x2dfd_1072u32;
        let r1 = zeros(0x2dfd_1072u32, 1);
        let r2 = zeros(0x2dfd_1072u32, 2);
        let r3 = zeros(0x2dfd_1072u32, 3);
        let r4 = zeros(0x2dfd_1072u32, 4);
        let r5 = zeros(0x2dfd_1072u32, 5);
        let r6 = zeros(0x2dfd_1072u32, 6);
        let r7 = zeros(0x2dfd_1072u32, 7);
        let r8 = zeros(0x2dfd_1072u32, 8);
        assert(zeros(0x2dfd_1072u32, 0) == r0);
        assert(r8 == 0xbe26_ed00u32) by (bit_vector)
            requires
                r0 == 0x2dfd_1072u32,
                r1 == (if r0 & 1 == 1 {
                    (r0 >> 1u32) ^ 0xEDB8_8320u32
                } else {
                    r0 >> 1u32
                }),
                r2 == (if r1 & 1 == 1 {
                    (r1 >> 1u32) ^ 0xEDB8_8320u32
                } else {
                    r1 >> 1u32
                }),
                r3 == (if r2 & 1 == 1 {
                    (r2 >> 1u32) ^ 0xEDB8_8320u32
                } else {
                    r2 >> 1u32
                }),
                r4 == (if r3 & 1 == 1 {
                    (r3 >> 1u32) ^ 0xEDB8_8320u32
                } else {
                    r3 >> 1u32
                }),
                r5 == (if r4 & 1 == 1 {
                    (r4 >> 1u32) ^ 0xEDB8_8320u32
                } else {
                    r4 >> 1u32
                }),
                r6 == (if r5 & 1 == 1 {
                    (r5 >> 1u32) ^ 0xEDB8_8320u32
                } else {
                    r5 >> 1u32
                }),
                r7 == (if r6 & 1 == 1 {
                    (r6 >> 1u32) ^ 0xEDB8_8320u32
                } else {
                    r6 >> 1u32
                }),
                r8 == (if r7 & 1 == 1 {
                    (r7 >> 1u32) ^ 0xEDB8_8320u32
                } else {
                    r7 >> 1u32
                }),
        ;
    }
    assert(zeros(0xbe26_ed00u32, 8) == 0x00be_26edu32) by {
        lemma_one_zero(0xbe26_ed00u32, 0);
        lemma_one_zero(0xbe26_ed00u32, 1);
        lemma_one_zero(0xbe26_ed00u32, 2);
        lemma_one_zero(0xbe26_ed00u32, 3);
        lemma_one_zero(0xbe26_ed00u32, 4);
        lemma_one_zero(0xbe26_ed00u32, 5);
        lemma_one_zero(0xbe26_ed00u32, 6);
        lemma_one_zero(0xbe26_ed00u32, 7);
        let r0 = 0xbe26_ed00u32;
        let r1 = zeros(0xbe26_ed00u32, 1);
        let r2 = zeros(0xbe26_ed00u32, 2);
        let r3 = zeros(0xbe26_ed00u32, 3);
        let r4 = zeros(0xbe26_ed00u32, 4);
        let r5 = zeros(0xbe26_ed00u32, 5);
        let r6 = zeros(0xbe26_ed00u32, 6);
        let r7 = zeros(0xbe26_ed00u32, 7);
        let r8 = zeros(0xbe26_ed00u32, 8);
        assert(zeros(0xbe26_ed00u32, 0) == r0);
        assert(r8 == 0x00be_26edu32) by (bit_vector)
            requires
                r0 == 0xbe26_ed00u32,
                r1 == (if r0 & 1 == 1 {
                    (r0 >> 1u32) ^ 0xEDB8_8320u32
                } else {
                    r0 >> 1u32
                }),
                r2 == (if r1 & 1 == 1 {
                    (r1 >> 1u32) ^ 0xEDB8_8320u32
                } else {
                    r1 >> 1u32
                }),
                r3 == (if r2 & 1 == 1 {
                    (r2 >> 1u32) ^ 0xEDB8_8320u32
                } else {
                    r2 >> 1u32
                }),
                r4 == (if r3 & 1 == 1 {
                    (r3 >> 1u32) ^ 0xEDB8_8320u32
                } else {
                    r3 >> 1u32
                }),
                r5 == (if r4 & 1 == 1 {
                    (r4 >> 1u32) ^ 0xEDB8_8320u32
                } else {
                    r4 >> 1u32
                }),
                r6 == (if r5 & 1 == 1 {
                    (r5 >> 1u32) ^ 0xEDB8_8320u32
                } else {
                    r5 >> 1u32
                }),
                r7 == (if r6 & 1 == 1 {
                    (r6 >> 1u32) ^ 0xEDB8_8320u32
                } else {
                    r6 >> 1u32
                }),
                r8 == (if r7 & 1 == 1 {
                    (r7 >> 1u32) ^ 0xEDB8_8320u32
                } else {
                    r7 >> 1u32
                }),
        ;
    }
    assert(zeros(0x00be_26edu32, 8) == 0xdebb_20e3u32) by {
        lemma_one_zero(0x00be_26edu32, 0);
        lemma_one_zero(0x00be_26edu32, 1);
        lemma_one_zero(0x00be_26edu32, 2);
        lemma_one_zero(0x00be_26edu32, 3);
        lemma_one_zero(0x00be_26edu32, 4);
        lemma_one_zero(0x00be_26edu32, 5);
        lemma_one_zero(0x00be_26edu32, 6);
        lemma_one_zero(0x00be_26edu32, 7);
        let r0 = 0x00be_26edu32;
        let r1 = zeros(0x00be_26edu32, 1);
        let r2 = zeros(0x00be_26edu32, 2);
        let r3 = zeros(0x00be_26edu32, 3);
        let r4 = zeros(0x00be_26edu32, 4);
        let r5 = zeros(0x00be_26edu32, 5);
        let r6 = zeros(0x00be_26edu32, 6);
        let r7 = zeros(0x00be_26edu32, 7);
        let r8 = zeros(0x00be_26edu32, 8);
        assert(zeros(0x00be_26edu32, 0) == r0);
        assert(r8 == 0xdebb_20e3u32) by (bit_vector)
            requires
                r0 == 0x00be_26edu32,
                r1 == (if r0 & 1 == 1 {
                    (r0 >> 1u32) ^ 0xEDB8_8320u32
                } else {
                    r0 >> 1u32
                }),
                r2 == (if r1 & 1 == 1 {
                    (r1 >> 1u32) ^ 0xEDB8_8320u32
                } else {
                    r1 >> 1u32
                }),
                r3 == (if r2 & 1 == 1 {
                    (r2 >> 1u32) ^ 0xEDB8_8320u32
                } else {
                    r2 >> 1u32
                }),
                r4 == (if r3 & 1 == 1 {
                    (r3 >> 1u32) ^ 0xEDB8_8320u32
                } else {
                    r3 >> 1u32
                }),
                r5 == (if r4 & 1 == 1 {
                    (r4 >> 1u32) ^ 0xEDB8_8320u32
                } else {
                    r4 >> 1u32
                }),
                r6 == (if r5 & 1 == 1 {
                    (r5 >> 1u32) ^ 0xEDB8_8320u32
                } else {
                    r5 >> 1u32
                }),
                r7 == (if r6 & 1 == 1 {
                    (r6 >> 1u32) ^ 0xEDB8_8320u32
                } else {
                    r6 >> 1u32
                }),
                r8 == (if r7 & 1 == 1 {
                    (r7 >> 1u32) ^ 0xEDB8_8320u32
                } else {
                    r7 >> 1u32
                }),
        ;
    }
}

proof fn lemma_register_of_two(a: Seq<u8>, b: u8)
    ensures
        bytes::crc_register(a.push(b)) == bytes::crc_byte(bytes::crc_register(a), b, 8),
{
    assert(a.push(b).drop_last() =~= a);
}

/// Data with its own CRC behind it, whatever the data, has the same CRC as any
/// other: that is how a receiver can tell that it is intact. The constant is that
/// of the CRC-32 of IEEE 802.3.
pub proof fn sealed_data_has_the_residue(data: Seq<u8>)
    ensures
        bytes::crc32_of(data + bytes::le32(bytes::crc32_of(data) as int)) == 0x2144_df1cu32,
        bytes::crc32_of(Seq::<u8>::empty()) == 0,
{
    let r = bytes::crc_register(data);
    let c = bytes::crc32_of(data);
    let d = bytes::le32(c as int);
    let c1 = c >> 8u32;
    let c2 = c1 >> 8u32;
    let c3 = c2 >> 8u32;
    assert(c >> 8u32 == c / 0x100 && c1 >> 8u32 == c1 / 0x100 && c2 >> 8u32 == c2 / 0x100 && c & 0xff
        == c % 0x100 && c1 & 0xff == c1 % 0x100 && c2 & 0xff == c2 % 0x100 && c3 & 0xff == c3
        % 0x100) by (bit_vector)
        requires
            c1 == c >> 8u32,
            c2 == c1 >> 8u32,
            c3 == c2 >> 8u32,
    ;
    assert(d[0] as u32 == c & 0xff && d[1] as u32 == c1 & 0xff && d[2] as u32 == c2 & 0xff
        && d[3] as u32 == c3 & 0xff);
    let r1 = bytes::crc_byte(r, d[0], 8);
    let r2 = bytes::crc_byte(r1, d[1], 8);
    let r3 = bytes::crc_byte(r2, d[2], 8);
    let r4 = bytes::crc_byte(r3, d[3], 8);
    lemma_word_in_register(r, c, d[0]);
    lemma_word_in_register(r1, c1, d[1]);
    lemma_word_in_register(r2, c2, d[2]);
    lemma_word_in_register(r3, c3, d[3]);
    assert(r ^ !r == 0xffff_ffffu32) by (bit_vector);
    assert(c3 >> 8u32 == 0 && r4 ^ 0 == r4) by (bit_vector)
        requires
            c1 == c >> 8u32,
            c2 == c1 >> 8u32,
            c3 == c2 >> 8u32,
    ;
    lemma_all_ones();
    let p1 = data.push(d[0]);
    let p2 = p1.push(d[1]);
    let p3 = p2.push(d[2]);
    let p4 = p3.push(d[3]);
    assert(data + d =~= p4);
    lemma_register_of_two(data, d[0]);
    lemma_register_of_two(p1, d[1]);
    lemma_register_of_two(p2, d[2]);
    lemma_register_of_two(p3, d[3]);
    assert(!0xdebb_20e3u32 == 0x2144_df1cu32) by (bit_vector);
    assert(!0xffff_ffffu32 == 0u32) by (bit_vector);
}

proof fn lemma_registers_stay_apart(a: Seq<u8>, b: Seq<u8>, more: Seq<u8>)
    requires
        bytes::crc_register(a) != bytes::crc_register(b),
    ensures
        bytes::crc_register(a + more) != bytes::crc_register(b + more),
    decreases more.len(),
{
    if more.len() == 0 {
        assert(a + more =~= a && b + more =~= b);
    } else {
        let less = more.drop_last();
        let c = more.last();
        lemma_registers_stay_apart(a, b, less);
        let x = bytes::crc_register(a + less);
        let y = bytes::crc_register(b + less);
        assert((a + less).push(c) =~= a + more);
        assert((b + less).push(c) =~= b + more);
        lemma_register_of_two(a + less, c);
        lemma_register_of_two(b + less, c);
        lemma_byte_in_register(x, c);
        lemma_byte_in_register(y, c);
        let w = c as u32;
        assert(x != y ==> x ^ w != y ^ w) by (bit_vector);
        lemma_zeros_tell_apart(x ^ w, y ^ w, 8);
    }
}

/// A change of one byte is always noticed: data that differs in a single byte has
/// another CRC, wherever the byte is and however long the data.
pub proof fn a_changed_byte_is_noticed(front: Seq<u8>, a: u8, b: u8, back: Seq<u8>)
    requires
        a != b,
    ensures
        bytes::crc32_of(front.push(a) + back) != bytes::crc32_of(front.push(b) + back),
{
    let r = bytes::crc_register(front);
    lemma_register_of_two(front, a);
    lemma_register_of_two(front, b);
    lemma_byte_in_register(r, a);
    lemma_byte_in_register(r, b);
    let x = a as u32;
    let y = b as u32;
    assert(x != y ==> r ^ x != r ^ y) by (bit_vector);
    lemma_zeros_tell_apart(r ^ x, r ^ y, 8);
    lemma_registers_stay_apart(front.push(a), front.push(b), back);
    let p = bytes::crc_register(front.push(a) + back);
    let q = bytes::crc_register(front.push(b) + back);
    assert(p != q ==> !p != !q) by (bit_vector);
}

} // verus!
