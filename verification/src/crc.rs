//! The checksum engine: CRC-32 in the PNG/zlib variant — reflected
//! polynomial `0xEDB88320`, accumulator initialized to all-ones and XORed
//! with all-ones at the end — computed byte at a time over a 256-entry
//! lookup table.

use vstd::prelude::*;

verus! {

/// The reflected CRC-32 polynomial used by PNG and zlib.
pub const CRC_POLYNOMIAL: u32 = 0xedb88320;

/// One round of table generation: shift right one bit and, when the bit
/// shifted out was set, fold in the reflected polynomial.
pub open spec fn spec_crc_round(c: u32) -> u32 {
    if c & 1 != 0 {
        CRC_POLYNOMIAL ^ (c >> 1)
    } else {
        c >> 1
    }
}

/// `k` rounds of table generation applied to `c`.
pub open spec fn spec_crc_rounds(c: u32, k: nat) -> u32
    decreases k,
{
    if k == 0 {
        c
    } else {
        spec_crc_round(spec_crc_rounds(c, (k - 1) as nat))
    }
}

/// Entry `n` of the CRC lookup table: eight generation rounds applied to `n`.
pub open spec fn spec_crc_table_entry(n: u8) -> u32 {
    spec_crc_rounds(n as u32, 8)
}

/// Folds one byte into a running CRC accumulator, table-driven: index the
/// table by the low byte of `c XOR b` and XOR with the accumulator shifted
/// right by eight.
pub open spec fn spec_crc_step(c: u32, b: u8) -> u32 {
    spec_crc_table_entry(((c ^ (b as u32)) & 0xff) as u8) ^ (c >> 8)
}

/// Folds a whole byte sequence into a running CRC accumulator, front to back.
pub open spec fn spec_crc_accumulate(c: u32, s: Seq<u8>) -> u32
    decreases s.len(),
{
    if s.len() == 0 {
        c
    } else {
        spec_crc_accumulate(spec_crc_step(c, s[0]), s.skip(1))
    }
}

/// The CRC-32 (PNG/zlib variant) of a byte sequence: accumulate over an
/// all-ones initial value, then XOR the result with all-ones.
pub open spec fn spec_crc32(s: Seq<u8>) -> u32 {
    spec_crc_accumulate(0xffffffffu32, s) ^ 0xffffffffu32
}

/// Accumulating a concatenation is accumulating the two parts in turn.
pub proof fn lemma_crc_accumulate_concat(c: u32, a: Seq<u8>, b: Seq<u8>)
    ensures
        spec_crc_accumulate(c, a + b) == spec_crc_accumulate(spec_crc_accumulate(c, a), b),
    decreases a.len(),
{
    if a.len() == 0 {
        assert(a + b =~= b);
    } else {
        assert((a + b)[0] == a[0]);
        assert((a + b).skip(1) =~= a.skip(1) + b);
        lemma_crc_accumulate_concat(spec_crc_step(c, a[0]), a.skip(1), b);
    }
}

/// The checksum of a chunk is a function of its type tag and payload alone:
/// any two checksum results computed over the same type tag and payload are
/// equal, whatever framing (length encoding, declared checksum) surrounded
/// them, and repeating the computation on the same record changes nothing.
pub proof fn lemma_checksum_deterministic(r1: u32, r2: u32, t: Seq<u8>, p: Seq<u8>)
    requires
        r1 == spec_crc32(t + p),
        r2 == spec_crc32(t + p),
    ensures
        r1 == r2,
{
}

/// Table generation is deterministic: any two tables whose entries each
/// equal the specified entry are the same table.
pub proof fn lemma_crc_table_deterministic(t1: Seq<u32>, t2: Seq<u32>)
    requires
        t1.len() == 256,
        t2.len() == 256,
        forall|i: int| 0 <= i < 256 ==> t1[i] == spec_crc_table_entry(i as u8),
        forall|i: int| 0 <= i < 256 ==> t2[i] == spec_crc_table_entry(i as u8),
    ensures
        t1 == t2,
{
    assert(t1 =~= t2);
}

/// Builds the 256-entry CRC lookup table; every entry equals its specified
/// value, so any two generations of the table agree.
pub fn make_crc_table() -> (t: Vec<u32>)
    ensures
        t@.len() == 256,
        forall|i: int| 0 <= i < 256 ==> t@[i] == spec_crc_table_entry(i as u8),
{
    let mut t: Vec<u32> = Vec::new();
    let mut n: usize = 0;
    while n < 256
        invariant
            n <= 256,
            t@.len() == n,
            forall|i: int| 0 <= i < n ==> t@[i] == spec_crc_table_entry(i as u8),
        decreases 256 - n,
    {
        let mut c: u32 = n as u32;
        let mut k: usize = 0;
        while k < 8
            invariant
                k <= 8,
                n < 256,
                c == spec_crc_rounds(n as u32, k as nat),
            decreases 8 - k,
        {
            c = if c & 1 != 0 {
                CRC_POLYNOMIAL ^ (c >> 1)
            } else {
                c >> 1
            };
            k = k + 1;
        }
        t.push(c);
        n = n + 1;
    }
    t
}

/// Folds every byte of `s` into the accumulator `c`, table-driven.
fn crc_accumulate_slice(table: &Vec<u32>, c: u32, s: &[u8]) -> (r: u32)
    requires
        table@.len() == 256,
        forall|i: int| 0 <= i < 256 ==> table@[i] == spec_crc_table_entry(i as u8),
    ensures
        r == spec_crc_accumulate(c, s@),
{
    let mut acc: u32 = c;
    let mut i: usize = 0;
    let n = s.len();
    proof {
        assert(s@.skip(0) =~= s@);
    }
    while i < n
        invariant
            i <= n,
            n == s@.len(),
            table@.len() == 256,
            forall|j: int| 0 <= j < 256 ==> table@[j] == spec_crc_table_entry(j as u8),
            spec_crc_accumulate(c, s@) == spec_crc_accumulate(acc, s@.skip(i as int)),
        decreases n - i,
    {
        let b = s[i];
        let idx = ((acc ^ (b as u32)) & 0xff) as usize;
        proof {
            assert((acc ^ (b as u32)) & 0xff < 256) by (bit_vector);
            assert(s@.skip(i as int)[0] == s@[i as int]);
            assert(s@.skip(i as int).skip(1) =~= s@.skip(i + 1));
        }
        acc = table[idx] ^ (acc >> 8);
        i = i + 1;
    }
    proof {
        assert(s@.skip(n as int) =~= Seq::<u8>::empty());
    }
    acc
}

/// The CRC-32 (PNG/zlib variant) of the concatenation of two byte slices:
/// initialize to all-ones, fold in `a` then `b`, and finish by XOR with
/// all-ones.
pub fn crc32_of_concat(a: &[u8], b: &[u8]) -> (r: u32)
    ensures
        r == spec_crc32(a@ + b@),
{
    let table = make_crc_table();
    let acc = crc_accumulate_slice(&table, 0xffffffffu32, a);
    let acc = crc_accumulate_slice(&table, acc, b);
    proof {
        lemma_crc_accumulate_concat(0xffffffffu32, a@, b@);
    }
    acc ^ 0xffffffffu32
}

/// The CRC-32 (PNG/zlib variant) of one byte slice.
pub fn crc32(s: &[u8]) -> (r: u32)
    ensures
        r == spec_crc32(s@),
{
    let table = make_crc_table();
    let acc = crc_accumulate_slice(&table, 0xffffffffu32, s);
    acc ^ 0xffffffffu32
}

} // verus!
