//! Little-endian fields in byte buffers, and the CRC-32 that seals GPT structures.
use vstd::prelude::*;

verus! {

/// `b` with the bytes from `o` on replaced by `d`.
pub open spec fn splice(b: Seq<u8>, o: int, d: Seq<u8>) -> Seq<u8> {
    Seq::new(
        b.len(),
        |i: int|
            if o <= i < o + d.len() {
                d[i - o]
            } else {
                b[i]
            },
    )
}

/// The unsigned number in the four bytes at `o`, least significant byte first.
pub open spec fn field32(b: Seq<u8>, o: int) -> int {
    b[o] + 0x100 * b[o + 1] + 0x1_0000 * b[o + 2] + 0x100_0000 * b[o + 3]
}

/// The unsigned number in the eight bytes at `o`, least significant byte first.
pub open spec fn field64(b: Seq<u8>, o: int) -> int {
    field32(b, o) + 0x1_0000_0000 * field32(b, o + 4)
}

/// The four bytes of `v`, least significant first.
pub open spec fn le32(v: int) -> Seq<u8> {
    seq![
        (v % 0x100) as u8,
        (v / 0x100 % 0x100) as u8,
        (v / 0x1_0000 % 0x100) as u8,
        (v / 0x100_0000 % 0x100) as u8,
    ]
}

/// The eight bytes of `v`, least significant first.
pub open spec fn le64(v: int) -> Seq<u8> {
    le32(v % 0x1_0000_0000) + le32(v / 0x1_0000_0000)
}

/// Reads the four-byte number at `o`.
pub fn ru32(b: &[u8], o: usize) -> (r: u32)
    requires
        o + 4 <= b@.len(),
    ensures
        r == field32(b@, o as int),
{
    (b[o] as u32) + 0x100 * (b[o + 1] as u32) + 0x1_0000 * (b[o + 2] as u32) + 0x100_0000 * (b[o
        + 3] as u32)
}

/// Reads the eight-byte number at `o`.
pub fn ru64(b: &[u8], o: usize) -> (r: u64)
    requires
        o + 8 <= b@.len(),
    ensures
        r == field64(b@, o as int),
{
    assert(o + 8 <= b.len());
    (ru32(b, o) as u64) + 0x1_0000_0000 * (ru32(b, o + 4) as u64)
}

/// Writes the four-byte number `v` at `o`.
pub fn wu32(b: &mut [u8], o: usize, v: u32)
    requires
        o + 4 <= old(b)@.len(),
    ensures
        final(b)@ == splice(old(b)@, o as int, le32(v as int)),
{
    b[o] = (v % 0x100) as u8;
    b[o + 1] = (v / 0x100 % 0x100) as u8;
    b[o + 2] = (v / 0x1_0000 % 0x100) as u8;
    b[o + 3] = (v / 0x100_0000 % 0x100) as u8;
}

/// Writes the eight-byte number `v` at `o`.
pub fn wu64(b: &mut [u8], o: usize, v: u64)
    requires
        o + 8 <= old(b)@.len(),
    ensures
        final(b)@ == splice(old(b)@, o as int, le64(v as int)),
{
    assert(o + 8 <= b.len());
    wu32(b, o, (v % 0x1_0000_0000) as u32);
    wu32(b, o + 4, (v / 0x1_0000_0000) as u32);
}

/// A four-byte number reads back as it was written.
pub proof fn field32_round_trip(b: Seq<u8>, o: int, v: int)
    requires
        0 <= o,
        o + 4 <= b.len(),
        0 <= v <= u32::MAX,
    ensures
        field32(splice(b, o, le32(v)), o) == v,
{
}

/// An eight-byte number reads back as it was written.
pub proof fn field64_round_trip(b: Seq<u8>, o: int, v: int)
    requires
        0 <= o,
        o + 8 <= b.len(),
        0 <= v <= u64::MAX,
    ensures
        field64(splice(b, o, le64(v)), o) == v,
{
    let c = splice(b, o, le64(v));
    let low = v % 0x1_0000_0000;
    let high = v / 0x1_0000_0000;
    field32_round_trip(b, o, low);
    field32_round_trip(b, o + 4, high);
    assert(field32(c, o) == field32(splice(b, o, le32(low)), o));
    assert(field32(c, o + 4) == field32(splice(b, o + 4, le32(high)), o + 4));
}

/// The register of the CRC after one more message bit: the register moves one
/// place down, and the polynomial is subtracted when the bit that falls out
/// differs from the message bit.
pub open spec fn crc_bit(register: u32, bit: bool) -> u32 {
    if (register & 1 == 1) != bit {
        (register >> 1) ^ 0xEDB8_8320
    } else {
        register >> 1
    }
}

/// The register after the lowest `n` bits of `byte`, lowest bit first.
pub open spec fn crc_byte(register: u32, byte: u8, n: nat) -> u32
    decreases n,
{
    if n == 0 {
        register
    } else {
        crc_bit(
            crc_byte(register, byte, (n - 1) as nat),
            ((byte as u32) >> ((n - 1) as u32)) & 1 == 1,
        )
    }
}

/// The register after all of `data`, starting from all ones.
pub open spec fn crc_register(data: Seq<u8>) -> u32
    decreases data.len(),
{
    if data.len() == 0 {
        0xffff_ffff
    } else {
        crc_byte(crc_register(data.drop_last()), data.last(), 8)
    }
}

/// The CRC-32 of IEEE 802.3: the complement of the register after the message.
pub open spec fn crc32_of(data: Seq<u8>) -> u32 {
    !crc_register(data)
}

/// CRC-32 (IEEE 802.3), as used by GPT.
pub fn crc32(data: &[u8]) -> (r: u32)
    ensures
        r == crc32_of(data@),
{
    let mut crc: u32 = 0xffff_ffff;
    let n: usize = data.len();
    let mut i: usize = 0;
    assert(data@.take(0) =~= Seq::<u8>::empty());
    while i < n
        invariant
            n == data@.len(),
            0 <= i <= n,
            crc == crc_register(data@.take(i as int)),
        decreases n - i,
    {
        let byte: u8 = data[i];
        let ghost start = crc;
        crc = crc ^ (byte as u32);
        let mut k: u32 = 0;
        assert(start ^ (byte as u32) == start ^ ((byte as u32) >> 0u32)) by (bit_vector);
        while k < 8
            invariant
                0 <= k <= 8,
                crc == crc_byte(start, byte, k as nat) ^ ((byte as u32) >> k),
            decreases 8 - k,
        {
            let ghost reg = crc_byte(start, byte, k as nat);
            let ghost rest = (byte as u32) >> k;
            let low: u32 = crc & 1;
            proof {
                assert(crc == (reg ^ rest));
                assert(low == (reg ^ rest) & 1);
                assert((((reg ^ rest) >> 1u32) ^ (0xEDB8_8320u32 & (if ((reg ^ rest) & 1) == 1 {
                    0xffff_ffffu32
                } else {
                    0u32
                }))) == ((if (reg & 1 == 1) != (rest & 1 == 1) {
                    (reg >> 1u32) ^ 0xEDB8_8320u32
                } else {
                    reg >> 1u32
                }) ^ (rest >> 1u32))) by (bit_vector);
                let b32 = byte as u32;
                assert(k < 8 ==> ((b32 >> k) >> 1u32) == b32 >> ((k + 1) as u32)) by (bit_vector);
                assert(crc & 1 == 0 || crc & 1 == 1) by (bit_vector);
            }
            crc = (crc >> 1) ^ (0xEDB8_8320 & 0u32.wrapping_sub(low));
            k = k + 1;
        }
        proof {
            let b32 = byte as u32;
            let reg = crc_byte(start, byte, 8);
            assert(b32 < 256 ==> reg ^ (b32 >> 8u32) == reg) by (bit_vector);
            assert(data@.take(i + 1).drop_last() =~= data@.take(i as int));
        }
        i = i + 1;
    }
    assert(data@.take(n as int) =~= data@);
    !crc
}

} // verus!
