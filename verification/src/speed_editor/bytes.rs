use vstd::prelude::*;

verus! {

/// The number that eight bytes spell in little-endian order: byte `i` counts
/// `256^i` times.
pub open spec fn spec_u64_from_le(b: Seq<u8>) -> int
    recommends
        b.len() == 8,
{
    b[0] + 0x100 * b[1] + 0x1_0000 * b[2] + 0x100_0000 * b[3] + 0x1_0000_0000 * b[4]
        + 0x100_0000_0000 * b[5] + 0x1_0000_0000_0000 * b[6] + 0x100_0000_0000_0000 * b[7]
}

/// The eight bytes that spell a number in little-endian order.
pub open spec fn spec_u64_to_le(v: u64) -> Seq<u8> {
    seq![
        (v % 0x100) as u8,
        (v / 0x100 % 0x100) as u8,
        (v / 0x1_0000 % 0x100) as u8,
        (v / 0x100_0000 % 0x100) as u8,
        (v / 0x1_0000_0000 % 0x100) as u8,
        (v / 0x100_0000_0000 % 0x100) as u8,
        (v / 0x1_0000_0000_0000 % 0x100) as u8,
        (v / 0x100_0000_0000_0000 % 0x100) as u8,
    ]
}

/// The number that four bytes spell in little-endian order.
pub open spec fn spec_u32_from_le(b: Seq<u8>) -> int
    recommends
        b.len() == 4,
{
    b[0] + 0x100 * b[1] + 0x1_0000 * b[2] + 0x100_0000 * b[3]
}

/// The four bytes that spell a number in little-endian order.
pub open spec fn spec_u32_to_le(v: u32) -> Seq<u8> {
    seq![
        (v % 0x100) as u8,
        (v / 0x100 % 0x100) as u8,
        (v / 0x1_0000 % 0x100) as u8,
        (v / 0x100_0000 % 0x100) as u8,
    ]
}

/// The signed number that four bytes spell in little-endian two's complement.
pub open spec fn spec_i32_from_le(b: Seq<u8>) -> int
    recommends
        b.len() == 4,
{
    let u = spec_u32_from_le(b);
    if u < 0x8000_0000 {
        u
    } else {
        u - 0x1_0000_0000
    }
}

/// Reads eight bytes of `b`, from index `at` on, as a little-endian number.
pub fn u64_from_le(b: &[u8], at: usize) -> (v: u64)
    requires
        at + 8 <= b@.len(),
    ensures
        v == spec_u64_from_le(b@.subrange(at as int, at + 8)),
{
    let len: usize = b.len();
    assert(at + 8 <= len);
    let v: u64 = b[at + 7] as u64;
    let v: u64 = v * 0x100 + b[at + 6] as u64;
    let v: u64 = v * 0x100 + b[at + 5] as u64;
    let v: u64 = v * 0x100 + b[at + 4] as u64;
    let v: u64 = v * 0x100 + b[at + 3] as u64;
    let v: u64 = v * 0x100 + b[at + 2] as u64;
    let v: u64 = v * 0x100 + b[at + 1] as u64;
    let v: u64 = v * 0x100 + b[at] as u64;
    v
}

/// Spells a number as eight little-endian bytes.
pub fn u64_to_le(v: u64) -> (b: [u8; 8])
    ensures
        b@ == spec_u64_to_le(v),
{
    [
        (v % 0x100) as u8,
        (v / 0x100 % 0x100) as u8,
        (v / 0x1_0000 % 0x100) as u8,
        (v / 0x100_0000 % 0x100) as u8,
        (v / 0x1_0000_0000 % 0x100) as u8,
        (v / 0x100_0000_0000 % 0x100) as u8,
        (v / 0x1_0000_0000_0000 % 0x100) as u8,
        (v / 0x100_0000_0000_0000 % 0x100) as u8,
    ]
}

/// Spells a number as four little-endian bytes.
pub fn u32_to_le(v: u32) -> (b: [u8; 4])
    ensures
        b@ == spec_u32_to_le(v),
{
    [
        (v % 0x100) as u8,
        (v / 0x100 % 0x100) as u8,
        (v / 0x1_0000 % 0x100) as u8,
        (v / 0x100_0000 % 0x100) as u8,
    ]
}

/// Reads four bytes of `b`, from index `at` on, as a little-endian signed
/// number in two's complement.
pub fn i32_from_le(b: &[u8], at: usize) -> (v: i32)
    requires
        at + 4 <= b@.len(),
    ensures
        v == spec_i32_from_le(b@.subrange(at as int, at + 4)),
{
    let len: usize = b.len();
    assert(at + 4 <= len);
    let u: i64 = b[at + 3] as i64;
    let u: i64 = u * 0x100 + b[at + 2] as i64;
    let u: i64 = u * 0x100 + b[at + 1] as i64;
    let u: i64 = u * 0x100 + b[at] as i64;
    if u < 0x8000_0000 {
        u as i32
    } else {
        (u - 0x1_0000_0000) as i32
    }
}

/// Little-endian spelling loses nothing: the bytes of a number spell that number.
pub proof fn lemma_u64_le_round_trip(v: u64)
    ensures
        spec_u64_to_le(v).len() == 8,
        spec_u64_from_le(spec_u64_to_le(v)) == v,
{
    assert(v == (v % 0x100) + 0x100 * (v / 0x100 % 0x100) + 0x1_0000 * (v / 0x1_0000 % 0x100)
        + 0x100_0000 * (v / 0x100_0000 % 0x100) + 0x1_0000_0000 * (v / 0x1_0000_0000 % 0x100)
        + 0x100_0000_0000 * (v / 0x100_0000_0000 % 0x100) + 0x1_0000_0000_0000 * (v
        / 0x1_0000_0000_0000 % 0x100) + 0x100_0000_0000_0000 * (v / 0x100_0000_0000_0000 % 0x100))
        by (bit_vector);
}

/// Little-endian spelling loses nothing: the bytes of a number spell that number.
pub proof fn lemma_u32_le_round_trip(v: u32)
    ensures
        spec_u32_to_le(v).len() == 4,
        spec_u32_from_le(spec_u32_to_le(v)) == v,
{
}

} // verus!
