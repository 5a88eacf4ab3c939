use vstd::prelude::*;

verus! {

/// Size in bytes of one logical block of the medium.
pub const BLOCK_SIZE: u64 = 2048;

/// Unsigned 16-bit little-endian value at offset `o` of `d`.
pub open spec fn le16(d: Seq<u8>, o: int) -> int {
    d[o] as int + d[o + 1] as int * 256
}

/// Unsigned 32-bit little-endian value at offset `o` of `d`.
pub open spec fn le32(d: Seq<u8>, o: int) -> int {
    le16(d, o) + le16(d, o + 2) * 65536
}

/// Unsigned 64-bit little-endian value at offset `o` of `d`.
pub open spec fn le64(d: Seq<u8>, o: int) -> int {
    le32(d, o) + le32(d, o + 4) * 0x1_0000_0000
}

pub fn read_le16(d: &Vec<u8>, o: usize) -> (r: u16)
    requires
        o + 2 <= d@.len(),
    ensures
        r as int == le16(d@, o as int),
{
    let _n: usize = d.len();
    d[o] as u16 + (d[o + 1] as u16) * 256
}

pub fn read_le32(d: &Vec<u8>, o: usize) -> (r: u32)
    requires
        o + 4 <= d@.len(),
    ensures
        r as int == le32(d@, o as int),
{
    let _n: usize = d.len();
    let lo = read_le16(d, o);
    let hi = read_le16(d, o + 2);
    lo as u32 + (hi as u32) * 65536
}

pub fn read_le64(d: &Vec<u8>, o: usize) -> (r: u64)
    requires
        o + 8 <= d@.len(),
    ensures
        r as int == le64(d@, o as int),
{
    let _n: usize = d.len();
    let lo = read_le32(d, o);
    let hi = read_le32(d, o + 4);
    lo as u64 + (hi as u64) * 0x1_0000_0000
}

/// ASCII upper-case form of a byte; other bytes are kept.
pub open spec fn upper(b: u8) -> u8 {
    if 97 <= b && b <= 122 {
        (b - 32) as u8
    } else {
        b
    }
}

/// ASCII lower-case form of a byte; other bytes are kept.
pub open spec fn lower(b: u8) -> u8 {
    if 65 <= b && b <= 90 {
        (b + 32) as u8
    } else {
        b
    }
}

/// Two names are equal when ASCII case is ignored.
pub open spec fn same_name(a: Seq<u8>, b: Seq<u8>) -> bool {
    a.len() == b.len() && forall|i: int| 0 <= i < a.len() ==> upper(#[trigger] a[i]) == upper(b[i])
}

pub fn upper_byte(b: u8) -> (r: u8)
    ensures
        r == upper(b),
{
    if 97 <= b && b <= 122 {
        b - 32
    } else {
        b
    }
}

pub fn lower_byte(b: u8) -> (r: u8)
    ensures
        r == lower(b),
{
    if 65 <= b && b <= 90 {
        b + 32
    } else {
        b
    }
}

/// Compares `len` bytes of `d` at offset `off` with `name`, ignoring ASCII case.
pub fn name_matches_at(d: &Vec<u8>, off: usize, len: usize, name: &Vec<u8>) -> (r: bool)
    requires
        off + len <= d@.len(),
    ensures
        r == same_name(d@.subrange(off as int, off + len), name@),
{
    if len != name.len() {
        return false;
    }
    let n: usize = d.len();
    let mut i: usize = 0;
    while i < len
        invariant
            off + len <= d@.len(),
            n == d@.len(),
            len == name@.len(),
            i <= len,
            forall|j: int| 0 <= j < i ==> upper(d@[off + j]) == upper(name@[j]),
        decreases len - i,
    {
        if upper_byte(d[off + i]) != upper_byte(name[i]) {
            assert(upper(d@.subrange(off as int, off + len)[i as int]) != upper(name@[i as int]));
            return false;
        }
        i = i + 1;
    }
    true
}

/// Copies `len` bytes of `d` from offset `off`.
pub fn copy_range(d: &Vec<u8>, off: usize, len: usize) -> (r: Vec<u8>)
    requires
        off + len <= d@.len(),
    ensures
        r@ == d@.subrange(off as int, off + len),
{
    let mut r: Vec<u8> = Vec::with_capacity(len);
    let n: usize = d.len();
    let mut i: usize = 0;
    while i < len
        invariant
            off + len <= d@.len(),
            n == d@.len(),
            i <= len,
            r@ == d@.subrange(off as int, off + i),
        decreases len - i,
    {
        r.push(d[off + i]);
        i = i + 1;
        assert(r@ =~= d@.subrange(off as int, off + i));
    }
    r
}

/// ASCII lower-case form of a name.
pub open spec fn lower_name(s: Seq<u8>) -> Seq<u8> {
    s.map_values(|b: u8| lower(b))
}

pub fn to_lower(s: &Vec<u8>) -> (r: Vec<u8>)
    ensures
        r@ == lower_name(s@),
{
    let mut r: Vec<u8> = Vec::new();
    let mut i: usize = 0;
    while i < s.len()
        invariant
            i <= s@.len(),
            r@ == lower_name(s@.take(i as int)),
        decreases s@.len() - i,
    {
        r.push(lower_byte(s[i]));
        i = i + 1;
        assert(r@ =~= lower_name(s@.take(i as int)));
    }
    assert(s@.take(s@.len() as int) =~= s@);
    r
}

/// Whether two byte strings are equal.
pub fn bytes_equal(a: &Vec<u8>, b: &Vec<u8>) -> (r: bool)
    ensures
        r == (a@ == b@),
{
    if a.len() != b.len() {
        return false;
    }
    let mut i: usize = 0;
    while i < a.len()
        invariant
            i <= a@.len(),
            a@.len() == b@.len(),
            forall|j: int| 0 <= j < i ==> a@[j] == b@[j],
        decreases a@.len() - i,
    {
        if a[i] != b[i] {
            return false;
        }
        i = i + 1;
    }
    assert(a@ =~= b@);
    true
}

} // verus!
