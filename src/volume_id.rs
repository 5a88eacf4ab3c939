use vstd::prelude::*;
use crate::bytes::copy_range;

verus! {

/// Offset of the volume identifier in a UDF Primary Volume Descriptor.
pub const UDF_VOLUME_ID: usize = 24;

/// Offset of the volume set identifier in a UDF Primary Volume Descriptor.
pub const UDF_VOLUME_SET_ID: usize = 72;

/// Offset of the volume identifier in an ISO9660 Primary Volume Descriptor.
pub const ISO_VOLUME_ID: usize = 40;

/// Offset of the volume set identifier in an ISO9660 Primary Volume Descriptor.
pub const ISO_VOLUME_SET_ID: usize = 190;

/// Number of bytes a 32-byte d-string uses, from its last byte, at most 31.
pub open spec fn dstring_used(f: Seq<u8>) -> int {
    if f[31] > 31 { 31 } else { f[31] as int }
}

/// The characters of a 32-byte UDF d-string as Latin-1 bytes: after the
/// compression identifier, each byte (8) or the low byte of each pair (16).
pub open spec fn decode_dstring(f: Seq<u8>) -> Seq<u8> {
    let n = dstring_used(f);
    if n <= 1 {
        seq![]
    } else if f[0] == 8u8 {
        f.subrange(1, n)
    } else if f[0] == 16u8 {
        Seq::new(((n - 1) / 2) as nat, |i: int| f[2 + 2 * i])
    } else {
        seq![]
    }
}

/// Decodes the 32-byte d-string at offset `o` of `d`.
pub fn read_dstring(d: &Vec<u8>, o: usize) -> (r: Vec<u8>)
    requires
        o + 32 <= d@.len(),
    ensures
        r@ == decode_dstring(d@.subrange(o as int, o + 32)),
{
    let ghost f = d@.subrange(o as int, o + 32);
    let _n: usize = d.len();
    let used: usize = if d[o + 31] > 31 { 31 } else { d[o + 31] as usize };
    assert(used == dstring_used(f));
    if used <= 1 {
        return Vec::new();
    }
    if d[o] == 8 {
        let r = copy_range(d, o + 1, used - 1);
        assert(r@ =~= decode_dstring(f));
        r
    } else if d[o] == 16 {
        let count: usize = (used - 1) / 2;
        let mut r: Vec<u8> = Vec::new();
        let mut i: usize = 0;
        while i < count
            invariant
                o + 32 <= d@.len(),
                _n == d@.len(),
                f == d@.subrange(o as int, o + 32),
                count == (used - 1) / 2,
                used <= 31,
                i <= count,
                r@.len() == i,
                forall|j: int| 0 <= j < i ==> r@[j] == f[2 + 2 * j],
            decreases count - i,
        {
            assert(2 + 2 * i < 32) by (nonlinear_arith)
                requires
                    i < count,
                    count == (used - 1) / 2,
                    used <= 31,
            ;
            r.push(d[o + 2 + 2 * i]);
            i = i + 1;
        }
        assert(r@ =~= decode_dstring(f));
        r
    } else {
        Vec::new()
    }
}

/// Position of the first space in `f` from `i` on, or the length of `f`.
pub open spec fn first_space(f: Seq<u8>, i: int) -> int
    decreases f.len() - i,
{
    if i < 0 || i >= f.len() {
        f.len() as int
    } else if f[i] == 32u8 {
        i
    } else {
        first_space(f, i + 1)
    }
}

/// The identifier of a space-padded ISO9660 field: the bytes before the first space.
pub open spec fn iso_identifier(f: Seq<u8>) -> Seq<u8> {
    f.take(first_space(f, 0))
}

/// Reads the space-padded field of `len` bytes at offset `o` of `d`.
pub fn read_iso_identifier(d: &Vec<u8>, o: usize, len: usize) -> (r: Vec<u8>)
    requires
        o + len <= d@.len(),
    ensures
        r@ == iso_identifier(d@.subrange(o as int, o + len)),
{
    let ghost f = d@.subrange(o as int, o + len);
    let _n: usize = d.len();
    let mut i: usize = 0;
    while i < len && d[o + i] != 32
        invariant
            o + len <= d@.len(),
            _n == d@.len(),
            f == d@.subrange(o as int, o + len),
            i <= len,
            first_space(f, i as int) == first_space(f, 0),
        decreases len - i,
    {
        i = i + 1;
    }
    let r = copy_range(d, o, i);
    assert(r@ =~= iso_identifier(f));
    r
}

/// At most `n` bytes of `s`, from its start.
pub open spec fn clipped(s: Seq<u8>, n: int) -> Seq<u8> {
    if s.len() <= n { s } else { s.take(n) }
}

pub fn clip(s: Vec<u8>, n: usize) -> (r: Vec<u8>)
    ensures
        r@ == clipped(s@, n as int),
{
    if s.len() <= n {
        s
    } else {
        copy_range(&s, 0, n)
    }
}

} // verus!
