use vstd::prelude::*;

verus! {

// Mathematical meaning of little-endian fields inside a byte sequence.
// All functions speak over `int` so that signed and unsigned fields share
// one vocabulary; the executable readers are proved against them.

/// The unsigned 16-bit value stored little-endian at index `i`.
pub open spec fn le16(d: Seq<u8>, i: int) -> int {
    d[i] + 0x100 * d[i + 1]
}

/// The unsigned 32-bit value stored little-endian at index `i`.
pub open spec fn le32(d: Seq<u8>, i: int) -> int {
    le16(d, i) + 0x1_0000 * le16(d, i + 2)
}

/// The unsigned 64-bit value stored little-endian at index `i`.
pub open spec fn le64(d: Seq<u8>, i: int) -> int {
    le32(d, i) + 0x1_0000_0000 * le32(d, i + 4)
}

/// The two's-complement 16-bit value stored little-endian at index `i`.
pub open spec fn le_i16(d: Seq<u8>, i: int) -> int {
    if le16(d, i) >= 0x8000 {
        le16(d, i) - 0x1_0000
    } else {
        le16(d, i)
    }
}

/// The two's-complement 32-bit value stored little-endian at index `i`.
pub open spec fn le_i32(d: Seq<u8>, i: int) -> int {
    if le32(d, i) >= 0x8000_0000 {
        le32(d, i) - 0x1_0000_0000
    } else {
        le32(d, i)
    }
}

/// The two's-complement value of a single byte.
pub open spec fn as_i8(b: u8) -> int {
    if b >= 0x80 {
        b - 0x100
    } else {
        b as int
    }
}

/// A byte that pads the tail of a fixed-width string field: NUL or space.
pub open spec fn is_pad(b: u8) -> bool {
    b == 0 || b == 0x20
}

/// The sequence with its trailing NUL and space padding removed.
pub open spec fn trim_pad(s: Seq<u8>) -> Seq<u8>
    decreases s.len(),
{
    if s.len() == 0 {
        s
    } else if is_pad(s.last()) {
        trim_pad(s.drop_last())
    } else {
        s
    }
}

/// The little-endian 16-bit field holds a value below 2^16.
pub proof fn lemma_le16_bound(d: Seq<u8>, i: int)
    requires
        0 <= i,
        i + 2 <= d.len(),
    ensures
        0 <= le16(d, i) < 0x1_0000,
{
}

/// The little-endian 32-bit field holds a value below 2^32.
pub proof fn lemma_le32_bound(d: Seq<u8>, i: int)
    requires
        0 <= i,
        i + 4 <= d.len(),
    ensures
        0 <= le32(d, i) < 0x1_0000_0000,
{
    lemma_le16_bound(d, i);
    lemma_le16_bound(d, i + 2);
}

/// The little-endian 64-bit field holds a value below 2^64.
pub proof fn lemma_le64_bound(d: Seq<u8>, i: int)
    requires
        0 <= i,
        i + 8 <= d.len(),
    ensures
        0 <= le64(d, i) < 0x1_0000_0000_0000_0000,
{
    lemma_le32_bound(d, i);
    lemma_le32_bound(d, i + 4);
}

/// Reads the byte at `at`.
pub fn get_u8(d: &Vec<u8>, at: usize) -> (r: u8)
    requires
        at < d.len(),
    ensures
        r == d@[at as int],
{
    d[at]
}

/// Reads the little-endian u16 at `at`.
pub fn get_u16(d: &Vec<u8>, at: usize) -> (r: u16)
    requires
        at + 2 <= d.len(),
    ensures
        r as int == le16(d@, at as int),
{
    d[at] as u16 + (d[at + 1] as u16) * 0x100
}

/// Reads the little-endian u32 at `at`.
pub fn get_u32(d: &Vec<u8>, at: usize) -> (r: u32)
    requires
        at + 4 <= d.len(),
    ensures
        r as int == le32(d@, at as int),
{
    d[at] as u32 + (d[at + 1] as u32) * 0x100 + (d[at + 2] as u32) * 0x1_0000 + (d[at + 3]
        as u32) * 0x100_0000
}

/// Reads the little-endian u64 at `at`.
pub fn get_u64(d: &Vec<u8>, at: usize) -> (r: u64)
    requires
        at + 8 <= d.len(),
    ensures
        r as int == le64(d@, at as int),
{
    let lo = get_u32(d, at);
    let hi = get_u32(d, at + 4);
    lo as u64 + (hi as u64) * 0x1_0000_0000
}

/// Reads the little-endian two's-complement i32 at `at`.
pub fn get_i32(d: &Vec<u8>, at: usize) -> (r: i32)
    requires
        at + 4 <= d.len(),
    ensures
        r as int == le_i32(d@, at as int),
{
    let u = get_u32(d, at);
    if u >= 0x8000_0000 {
        -((0xFFFF_FFFFu32 - u) as i32) - 1
    } else {
        u as i32
    }
}

/// Reads the little-endian two's-complement i16 at `at`.
pub fn get_i16(d: &Vec<u8>, at: usize) -> (r: i16)
    requires
        at + 2 <= d.len(),
    ensures
        r as int == le_i16(d@, at as int),
{
    let u = get_u16(d, at);
    if u >= 0x8000 {
        -((0xFFFFu16 - u) as i16) - 1
    } else {
        u as i16
    }
}

/// Copies the `n` bytes starting at `start` into a fresh vector.
pub fn copy_range(d: &Vec<u8>, start: usize, n: usize) -> (r: Vec<u8>)
    requires
        start + n <= d.len(),
    ensures
        r@ == d@.subrange(start as int, start + n),
{
    let mut v: Vec<u8> = Vec::new();
    let mut i: usize = 0;
    while i < n
        invariant
            i <= n,
            start + n <= d.len(),
            v@ == d@.subrange(start as int, start + i),
        decreases n - i,
    {
        let b = get_u8(d, start + i);
        v.push(b);
        i = i + 1;
        proof {
            assert(v@ =~= d@.subrange(start as int, start + i));
        }
    }
    v
}

/// Copies the `n` bytes starting at `start` and removes the trailing NUL
/// and space padding, as fixed-width string fields are stored.
pub fn copy_trimmed(d: &Vec<u8>, start: usize, n: usize) -> (r: Vec<u8>)
    requires
        start + n <= d.len(),
    ensures
        r@ == trim_pad(d@.subrange(start as int, start + n)),
{
    let mut v = copy_range(d, start, n);
    let ghost full = v@;
    proof {
        assert(full.take(n as int) =~= full);
    }
    let mut end: usize = n;
    while end > 0 && (v[end - 1] == 0 || v[end - 1] == 0x20)
        invariant
            end <= n,
            v@ == full,
            full.len() == n,
            trim_pad(full) == trim_pad(full.take(end as int)),
        decreases end,
    {
        proof {
            let t = full.take(end as int);
            assert(t.last() == full[end - 1]);
            assert(t.drop_last() =~= full.take(end - 1));
        }
        end = end - 1;
    }
    proof {
        if end == 0 {
            assert(full.take(0) =~= Seq::<u8>::empty());
        } else {
            let t = full.take(end as int);
            assert(t.last() == full[end - 1]);
            assert(!is_pad(t.last()));
            assert(trim_pad(t) == t);
        }
    }
    v.truncate(end);
    v
}

} // verus!
