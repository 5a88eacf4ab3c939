use vstd::prelude::*;
use crate::bytes::{le32, name_matches_at, read_le32, same_name, BLOCK_SIZE};
use crate::error::DvdError;
use crate::location::{DirEntry, FileLocation};
use crate::names::video_ts;

verus! {

/// Block that holds the ISO9660 Primary Volume Descriptor.
pub const ISO_PVD_BLOCK: usize = 16;

/// Offset of the root directory record in the Primary Volume Descriptor.
pub const ISO_ROOT_RECORD: usize = 156;

/// Length of a directory record before its file identifier.
pub const ISO_RECORD_HEAD: usize = 33;

/// Offset of the Primary Volume Descriptor in the image.
pub open spec fn pvd_offset() -> int {
    ISO_PVD_BLOCK as int * BLOCK_SIZE as int
}

/// The image holds an ISO9660 Primary Volume Descriptor: type 1, then `CD001`.
pub open spec fn has_iso_pvd(img: Seq<u8>) -> bool {
    let p = pvd_offset();
    &&& img.len() >= p + BLOCK_SIZE
    &&& img[p] == 1u8
    &&& img.subrange(p + 1, p + 6) == seq![67u8, 68u8, 48u8, 48u8, 49u8]
}

/// The directory record at offset `o` of the image; a record flagged as
/// not the final one of a multi-extent file is not contiguous.
pub open spec fn record_entry(img: Seq<u8>, o: int) -> DirEntry {
    DirEntry {
        start: le32(img, o + 2) as u32,
        size: le32(img, o + 10) as u64,
        is_dir: img[o + 25] & 2u8 != 0,
        contiguous: img[o + 25] & 0x80u8 == 0,
        ads: 0,
        ad_count: 0,
        ad_step: 8,
    }
}

/// An ISO9660 identifier names `name` when it is `name`, perhaps followed by a
/// `;` and a version number, ASCII case ignored.
pub open spec fn iso_name_matches(ident: Seq<u8>, name: Seq<u8>) -> bool {
    same_name(ident, name) || (ident.len() > name.len() && ident[name.len() as int] == 59u8
        && same_name(ident.subrange(0, name.len() as int), name))
}

/// Scans the directory records in `[off, end)` of the image for `name`. Zero
/// bytes between records are padding up to the next block; a record that does
/// not fit ends the scan.
pub open spec fn iso_scan(img: Seq<u8>, off: int, end: int, name: Seq<u8>) -> Option<DirEntry>
    decreases end - off,
{
    if off < 0 || off >= end || end > img.len() {
        None
    } else {
        let len = img[off] as int;
        if len == 0 {
            iso_scan(img, off + 1, end, name)
        } else {
            let nlen = if off + ISO_RECORD_HEAD <= end { img[off + 32] as int } else { 0 };
            if off + ISO_RECORD_HEAD > end || ISO_RECORD_HEAD + nlen > len || off + len > end {
                None
            } else if iso_name_matches(img.subrange(off + ISO_RECORD_HEAD, off + ISO_RECORD_HEAD + nlen), name) {
                Some(record_entry(img, off))
            } else {
                iso_scan(img, off + len, end, name)
            }
        }
    }
}

/// Looks `name` up in the directory described by `dir`.
pub open spec fn iso_find(img: Seq<u8>, dir: DirEntry, name: Seq<u8>) -> Option<DirEntry> {
    iso_scan(
        img,
        dir.start as int * BLOCK_SIZE as int,
        dir.start as int * BLOCK_SIZE as int + dir.size as int,
        name,
    )
}

/// The root directory of the ISO9660 file system, when the image has one.
pub open spec fn iso_root(img: Seq<u8>) -> Option<DirEntry> {
    if has_iso_pvd(img) {
        Some(record_entry(img, pvd_offset() + ISO_ROOT_RECORD))
    } else {
        None
    }
}

/// Resolves `/VIDEO_TS/<name>` through the ISO9660 file system. A file
/// recorded in several extents gives `CorruptVolume`: it is not read.
pub open spec fn iso_lookup(img: Seq<u8>, name: Seq<u8>) -> Result<FileLocation, DvdError> {
    match iso_root(img) {
        None => Err(DvdError::CorruptVolume),
        Some(root) => match iso_find(img, root, video_ts()) {
            Some(d) if d.is_dir => match iso_find(img, d, name) {
                Some(f) if !f.is_dir => if f.contiguous {
                    Ok(FileLocation::Blocks { start: f.start, size: f.size })
                } else {
                    Err(DvdError::CorruptVolume)
                },
                _ => Err(DvdError::NotFound),
            },
            _ => Err(DvdError::NotFound),
        },
    }
}

fn record_at(img: &Vec<u8>, o: usize) -> (r: DirEntry)
    requires
        o + ISO_RECORD_HEAD <= img@.len(),
    ensures
        r == record_entry(img@, o as int),
{
    let _n: usize = img.len();
    let start = read_le32(img, o + 2);
    let size = read_le32(img, o + 10);
    DirEntry {
        start,
        size: size as u64,
        is_dir: img[o + 25] & 2u8 != 0,
        contiguous: img[o + 25] & 0x80u8 == 0,
        ads: 0,
        ad_count: 0,
        ad_step: 8,
    }
}

fn iso_name_matches_at(img: &Vec<u8>, off: usize, len: usize, name: &Vec<u8>) -> (r: bool)
    requires
        off + len <= img@.len(),
    ensures
        r == iso_name_matches(img@.subrange(off as int, off + len), name@),
{
    if name_matches_at(img, off, len, name) {
        return true;
    }
    let _n: usize = img.len();
    let nl = name.len();
    if len > nl && img[off + nl] == 59u8 {
        let r = name_matches_at(img, off, nl, name);
        assert(img@.subrange(off as int, off + len).subrange(0, nl as int) =~= img@.subrange(
            off as int,
            off + nl,
        ));
        r
    } else {
        false
    }
}

/// Looks `name` up in the directory described by `dir`.
pub fn iso_find_in(img: &Vec<u8>, dir: DirEntry, name: &Vec<u8>) -> (r: Option<DirEntry>)
    ensures
        r == iso_find(img@, dir, name@),
{
    let n: usize = img.len();
    let begin: u64 = dir.start as u64 * BLOCK_SIZE;
    if dir.size > n as u64 || begin > n as u64 - dir.size {
        return None;
    }
    let end: usize = (begin + dir.size) as usize;
    let mut off: usize = begin as usize;
    while off < end
        invariant
            end <= n == img@.len(),
            iso_scan(img@, off as int, end as int, name@) == iso_find(img@, dir, name@),
        decreases end - off,
    {
        let len: usize = img[off] as usize;
        if len == 0 {
            off = off + 1;
        } else {
            if end - off < ISO_RECORD_HEAD {
                return None;
            }
            let nlen: usize = img[off + 32] as usize;
            if ISO_RECORD_HEAD + nlen > len || len > end - off {
                return None;
            }
            if iso_name_matches_at(img, off + ISO_RECORD_HEAD, nlen, name) {
                return Some(record_at(img, off));
            }
            off = off + len;
        }
    }
    None
}

/// Reads the root directory record, when the image has an ISO9660 descriptor.
pub fn iso_root_entry(img: &Vec<u8>) -> (r: Option<DirEntry>)
    ensures
        r == iso_root(img@),
{
    let p: usize = ISO_PVD_BLOCK * 2048;
    if img.len() < p + 2048 {
        return None;
    }
    let ok = img[p] == 1 && img[p + 1] == 67 && img[p + 2] == 68 && img[p + 3] == 48 && img[p + 4] == 48
        && img[p + 5] == 49;
    assert(ok == has_iso_pvd(img@)) by {
        if ok {
            assert(img@.subrange(p + 1, p + 6) =~= seq![67u8, 68u8, 48u8, 48u8, 49u8]);
        }
        if has_iso_pvd(img@) {
            assert(img@.subrange(p + 1, p + 6)[0] == 67u8);
            assert(img@.subrange(p + 1, p + 6)[1] == 68u8);
            assert(img@.subrange(p + 1, p + 6)[2] == 48u8);
            assert(img@.subrange(p + 1, p + 6)[3] == 48u8);
            assert(img@.subrange(p + 1, p + 6)[4] == 49u8);
        }
    }
    if ok {
        Some(record_at(img, p + ISO_ROOT_RECORD))
    } else {
        None
    }
}

/// Resolves `/VIDEO_TS/<name>` through the ISO9660 file system.
pub fn iso_resolve(img: &Vec<u8>, name: &Vec<u8>) -> (r: Result<FileLocation, DvdError>)
    ensures
        r == iso_lookup(img@, name@),
{
    match iso_root_entry(img) {
        None => Err(DvdError::CorruptVolume),
        Some(root) => {
            let vts = crate::names::video_ts_name();
            match iso_find_in(img, root, &vts) {
                Some(d) if d.is_dir => match iso_find_in(img, d, name) {
                    Some(f) if !f.is_dir => if f.contiguous {
                    Ok(FileLocation::Blocks { start: f.start, size: f.size })
                } else {
                    Err(DvdError::CorruptVolume)
                },
                    _ => Err(DvdError::NotFound),
                },
                _ => Err(DvdError::NotFound),
            }
        },
    }
}

proof fn lemma_le32_bound(d: Seq<u8>, o: int)
    ensures
        0 <= le32(d, o) <= u32::MAX,
{
    let a = d[o] as int;
    let b = d[o + 1] as int;
    let c = d[o + 2] as int;
    let e = d[o + 3] as int;
    assert(0 <= a + b * 256 + (c + e * 256) * 65536 <= 0xFFFF_FFFF) by (nonlinear_arith)
        requires
            0 <= a <= 255,
            0 <= b <= 255,
            0 <= c <= 255,
            0 <= e <= 255,
    ;
}

proof fn lemma_scan_size(img: Seq<u8>, off: int, end: int, name: Seq<u8>)
    ensures
        iso_scan(img, off, end, name) matches Some(e) ==> e.size <= u32::MAX,
    decreases end - off,
{
    if !(off < 0 || off >= end || end > img.len()) {
        let len = img[off] as int;
        if len == 0 {
            lemma_scan_size(img, off + 1, end, name);
        } else {
            lemma_le32_bound(img, off + 10);
            if off + len <= end {
                lemma_scan_size(img, off + len, end, name);
            }
        }
    }
}

/// A file found through ISO9660 has a 32-bit size.
pub proof fn lemma_iso_size_bound(img: Seq<u8>, name: Seq<u8>)
    ensures
        iso_lookup(img, name) matches Ok(l) ==> l.size_spec() <= u32::MAX,
{
    match iso_root(img) {
        Some(root) => match iso_find(img, root, video_ts()) {
            Some(d) => {
                lemma_scan_size(
                    img,
                    d.start as int * BLOCK_SIZE as int,
                    d.start as int * BLOCK_SIZE as int + d.size as int,
                    name,
                );
            },
            None => {},
        },
        None => {},
    }
}

} // verus!
