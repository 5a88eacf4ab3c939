use vstd::prelude::*;
use crate::bytes::{le16, le32, le64, name_matches_at, read_le16, read_le32, read_le64, same_name};
use crate::error::DvdError;
use crate::location::{DirEntry, FileLocation};
use crate::names::video_ts;

verus! {

/// Block of the Anchor Volume Descriptor Pointer.
pub const UDF_ANCHOR_BLOCK: u64 = 256;

pub const TAG_PRIMARY_VOLUME: u16 = 1;
pub const TAG_ANCHOR: u16 = 2;
pub const TAG_PARTITION: u16 = 5;
pub const TAG_LOGICAL_VOLUME: u16 = 6;
pub const TAG_TERMINATING: u16 = 8;
pub const TAG_FILE_SET: u16 = 256;
pub const TAG_FILE_IDENTIFIER: u16 = 257;
pub const TAG_FILE_ENTRY: u16 = 261;

/// Length of a File Identifier Descriptor before its implementation use field.
pub const FID_HEAD: u64 = 38;

/// What the walk needs from the volume descriptors: the block of the Primary
/// Volume Descriptor, the first block of the partition, and the block of the
/// File Set Descriptor within the partition.
#[derive(Clone, Copy, Debug, PartialEq, Eq, Structural)]
pub struct UdfVolume {
    pub pvd_block: u64,
    pub part_start: u64,
    pub root_icb: u64,
}

/// Byte offset of block `b`.
pub open spec fn at(b: int) -> int {
    b * 2048
}

/// Block `b` lies within the image.
pub open spec fn has_block(img: Seq<u8>, b: int) -> bool {
    0 <= b && at(b + 1) <= img.len()
}

/// Descriptor tag identifier of block `b`.
pub open spec fn tag_of(img: Seq<u8>, b: int) -> int {
    le16(img, at(b))
}

/// Descriptors found so far in the main volume descriptor sequence.
#[derive(Clone, Copy, Debug, PartialEq, Eq, Structural)]
pub struct Descriptors {
    pub pvd: Option<u64>,
    pub part_start: Option<u64>,
    pub fsd: Option<u64>,
}

/// Walks the descriptor blocks `[b, end)`, keeping the first Primary Volume,
/// Partition and Logical Volume descriptor of each kind, until a terminating
/// descriptor or a block beyond the image.
pub open spec fn scan_descriptors(img: Seq<u8>, b: int, end: int, d: Descriptors) -> Descriptors
    decreases end - b,
{
    if b >= end || !has_block(img, b) || tag_of(img, b) == TAG_TERMINATING {
        d
    } else {
        let t = tag_of(img, b);
        let d2 = if t == TAG_PRIMARY_VOLUME && d.pvd.is_none() {
            Descriptors { pvd: Some(b as u64), ..d }
        } else if t == TAG_PARTITION && d.part_start.is_none() {
            Descriptors { part_start: Some(le32(img, at(b) + 188) as u64), ..d }
        } else if t == TAG_LOGICAL_VOLUME && d.fsd.is_none() {
            Descriptors { fsd: Some(le32(img, at(b) + 252) as u64), ..d }
        } else {
            d
        };
        scan_descriptors(img, b + 1, end, d2)
    }
}

/// The volume found from the anchor, when the descriptors are all there.
pub open spec fn udf_volume(img: Seq<u8>) -> Option<UdfVolume> {
    let a = UDF_ANCHOR_BLOCK as int;
    if !has_block(img, a) || tag_of(img, a) != TAG_ANCHOR {
        None
    } else {
        let loc = le32(img, at(a) + 20);
        let len = le32(img, at(a) + 16);
        let none = Descriptors { pvd: None, part_start: None, fsd: None };
        let d = scan_descriptors(img, loc, loc + len / 2048, none);
        match (d.pvd, d.part_start, d.fsd) {
            (Some(pvd), Some(ps), Some(fsd)) => {
                let fb = ps + fsd;
                if has_block(img, fb) && tag_of(img, fb) == TAG_FILE_SET {
                    Some(UdfVolume { pvd_block: pvd, part_start: ps, root_icb: le32(img, at(fb) + 404) as u64 })
                } else {
                    None
                }
            },
            _ => None,
        }
    }
}

/// The File Entry at block `lbn` of the partition: where its data starts, its
/// length, whether it is a directory, and where its allocation descriptors
/// (short or long) are. The first descriptor gives the start; the entry is
/// contiguous when that descriptor's extent covers the whole length.
pub open spec fn file_entry(img: Seq<u8>, vol: UdfVolume, lbn: int) -> Option<DirEntry> {
    let b = vol.part_start + lbn;
    if !has_block(img, b) || tag_of(img, b) != TAG_FILE_ENTRY {
        None
    } else {
        let o = at(b);
        let ad_type = le16(img, o + 34) % 8;
        let l_ea = le32(img, o + 168);
        let l_ad = le32(img, o + 172);
        let ad = o + 176 + l_ea;
        if (ad_type != 0 && ad_type != 1) || l_ad < 8 || 176 + l_ea + l_ad > 2048 {
            None
        } else {
            let start = vol.part_start + le32(img, ad + 4);
            if start > u32::MAX {
                None
            } else {
                Some(
                    DirEntry {
                        start: start as u32,
                        size: le64(img, o + 56) as u64,
                        is_dir: img[o + 27] == 4u8,
                        contiguous: le32(img, ad) % 0x4000_0000 >= le64(img, o + 56),
                        ads: ad as u64,
                        ad_count: (l_ad / if ad_type == 0 { 8int } else { 16int }) as u32,
                        ad_step: if ad_type == 0 { 8u8 } else { 16u8 },
                    },
                )
            }
        }
    }
}

/// Length of a File Identifier Descriptor whose fields take `x` bytes, padded to four.
pub open spec fn fid_len(x: int) -> int {
    x + (4 - x % 4) % 4
}

/// Scans the File Identifier Descriptors in `[off, end)` of the image for
/// `name` (8-bit identifiers, ASCII case ignored, parent entries skipped) and
/// gives the partition block of the File Entry it points to.
pub open spec fn udf_scan(img: Seq<u8>, off: int, end: int, name: Seq<u8>) -> Option<int>
    decreases end - off,
{
    if off < 0 || off + FID_HEAD > end || end > img.len() || le16(img, off) != TAG_FILE_IDENTIFIER {
        None
    } else {
        let l_fi = img[off + 19] as int;
        let l_iu = le16(img, off + 36);
        let fi = off + FID_HEAD + l_iu;
        if fi + l_fi > end {
            None
        } else if img[off + 18] & 8u8 == 0 && l_fi >= 1 && img[fi] == 8u8 && same_name(
            img.subrange(fi + 1, fi + l_fi),
            name,
        ) {
            Some(le32(img, off + 24))
        } else {
            let next = off + fid_len(FID_HEAD + l_iu + l_fi);
            if next <= off || next > end {
                None
            } else {
                udf_scan(img, next, end, name)
            }
        }
    }
}

/// Looks `name` up in the directory `dir`, giving the entry it names.
pub open spec fn udf_find(img: Seq<u8>, vol: UdfVolume, dir: DirEntry, name: Seq<u8>) -> Option<DirEntry> {
    let begin = at(dir.start as int);
    match udf_scan(img, begin, begin + dir.size, name) {
        Some(lbn) => file_entry(img, vol, lbn),
        None => None,
    }
}

/// Resolves `/VIDEO_TS/<name>` through the UDF file system of `vol`: the
/// file is the extents of all its allocation descriptors, in order.
pub open spec fn udf_lookup(img: Seq<u8>, vol: UdfVolume, name: Seq<u8>) -> Result<FileLocation, DvdError> {
    match file_entry(img, vol, vol.root_icb as int) {
        Some(root) if root.is_dir => match udf_find(img, vol, root, video_ts()) {
            Some(d) if d.is_dir => match udf_find(img, vol, d, name) {
                Some(f) if !f.is_dir => Ok(
                    FileLocation::Extents {
                        ads: f.ads,
                        count: f.ad_count,
                        step: f.ad_step,
                        part_start: vol.part_start as u32,
                        size: f.size,
                    },
                ),
                _ => Err(DvdError::NotFound),
            },
            _ => Err(DvdError::NotFound),
        },
        _ => Err(DvdError::CorruptVolume),
    }
}

/// The partition start and the File Set Descriptor block are 32-bit values.
pub open spec fn bounded(d: Descriptors) -> bool {
    (d.part_start.is_some() ==> d.part_start.unwrap() <= u32::MAX) && (d.fsd.is_some() ==> d.fsd.unwrap()
        <= u32::MAX)
}

proof fn lemma_scan_bounded(img: Seq<u8>, b: int, end: int, d: Descriptors)
    requires
        bounded(d),
    ensures
        bounded(scan_descriptors(img, b, end, d)),
    decreases end - b,
{
    if !(b >= end || !has_block(img, b) || tag_of(img, b) == TAG_TERMINATING) {
        let t = tag_of(img, b);
        let d2 = if t == TAG_PRIMARY_VOLUME && d.pvd.is_none() {
            Descriptors { pvd: Some(b as u64), ..d }
        } else if t == TAG_PARTITION && d.part_start.is_none() {
            Descriptors { part_start: Some(le32(img, at(b) + 188) as u64), ..d }
        } else if t == TAG_LOGICAL_VOLUME && d.fsd.is_none() {
            Descriptors { fsd: Some(le32(img, at(b) + 252) as u64), ..d }
        } else {
            d
        };
        lemma_scan_bounded(img, b + 1, end, d2);
    }
}

/// A volume's partition start and root File Entry block are 32-bit values.
pub open spec fn volume_bounded(v: UdfVolume) -> bool {
    v.part_start <= u32::MAX && v.root_icb <= u32::MAX
}

proof fn lemma_block_fits(b: int, len: int)
    requires
        0 <= b,
        0 <= len,
    ensures
        (at(b + 1) <= len) == (b + 1 <= len / 2048),
        at(b + 1) <= len ==> at(b) + 2048 <= len,
{
    assert((b + 1) * 2048 <= len <==> b + 1 <= len / 2048) by (nonlinear_arith)
        requires
            0 <= b,
            0 <= len,
    ;
}

/// Byte offset of block `b` when that block lies within the image.
fn block_offset(img: &Vec<u8>, b: u64) -> (r: Option<usize>)
    ensures
        r.is_some() == has_block(img@, b as int),
        r.is_some() ==> r.unwrap() as int == at(b as int) && r.unwrap() + 2048 <= img@.len(),
{
    let n: usize = img.len();
    proof {
        lemma_block_fits(b as int, n as int);
    }
    if b < (n / 2048) as u64 {
        Some((b * 2048) as usize)
    } else {
        None
    }
}

fn tag_at(img: &Vec<u8>, o: usize) -> (r: u16)
    requires
        o + 2048 <= img@.len(),
    ensures
        r as int == le16(img@, o as int),
{
    read_le16(img, o)
}

fn scan_descriptors_exec(img: &Vec<u8>, first: u64, end: u64) -> (r: Descriptors)
    ensures
        r == scan_descriptors(img@, first as int, end as int, Descriptors { pvd: None, part_start: None, fsd: None }),
{
    let mut d = Descriptors { pvd: None, part_start: None, fsd: None };
    let mut b: u64 = first;
    while b < end
        invariant
            scan_descriptors(img@, b as int, end as int, d) == scan_descriptors(
                img@,
                first as int,
                end as int,
                Descriptors { pvd: None, part_start: None, fsd: None },
            ),
        decreases end - b,
    {
        let o = match block_offset(img, b) {
            Some(o) => o,
            None => return d,
        };
        let t = tag_at(img, o);
        if t == TAG_TERMINATING {
            return d;
        }
        if t == TAG_PRIMARY_VOLUME && d.pvd.is_none() {
            d = Descriptors { pvd: Some(b), ..d };
        } else if t == TAG_PARTITION && d.part_start.is_none() {
            d = Descriptors { part_start: Some(read_le32(img, o + 188) as u64), ..d };
        } else if t == TAG_LOGICAL_VOLUME && d.fsd.is_none() {
            d = Descriptors { fsd: Some(read_le32(img, o + 252) as u64), ..d };
        }
        b = b + 1;
    }
    d
}

/// Reads the anchor and the volume descriptors; `None` when the image holds
/// no complete UDF volume.
pub fn udf_open(img: &Vec<u8>) -> (r: Option<UdfVolume>)
    ensures
        r == udf_volume(img@),
        r.is_some() ==> volume_bounded(r.unwrap()),
{
    let a = match block_offset(img, UDF_ANCHOR_BLOCK) {
        Some(a) => a,
        None => return None,
    };
    if tag_at(img, a) != TAG_ANCHOR {
        return None;
    }
    let loc = read_le32(img, a + 20) as u64;
    let len = read_le32(img, a + 16) as u64;
    let d = scan_descriptors_exec(img, loc, loc + len / 2048);
    proof {
        lemma_scan_bounded(img@, loc as int, (loc + len / 2048) as int, Descriptors { pvd: None, part_start: None, fsd: None });
    }
    match (d.pvd, d.part_start, d.fsd) {
        (Some(pvd), Some(ps), Some(fsd)) => {
            match block_offset(img, ps + fsd) {
                Some(f) => {
                    if tag_at(img, f) == TAG_FILE_SET {
                        Some(UdfVolume { pvd_block: pvd, part_start: ps, root_icb: read_le32(img, f + 404) as u64 })
                    } else {
                        None
                    }
                },
                None => None,
            }
        },
        _ => None,
    }
}

/// Reads the File Entry at block `lbn` of the partition.
pub fn read_file_entry(img: &Vec<u8>, vol: UdfVolume, lbn: u64) -> (r: Option<DirEntry>)
    requires
        vol.part_start <= u32::MAX,
        lbn <= u32::MAX,
    ensures
        r == file_entry(img@, vol, lbn as int),
{
    let o = match block_offset(img, vol.part_start + lbn) {
        Some(o) => o,
        None => return None,
    };
    if tag_at(img, o) != TAG_FILE_ENTRY {
        return None;
    }
    let ad_type = read_le16(img, o + 34) % 8;
    let l_ea = read_le32(img, o + 168) as u64;
    let l_ad = read_le32(img, o + 172) as u64;
    if (ad_type != 0 && ad_type != 1) || l_ad < 8 || l_ea > 2048 - 176 || l_ad > 2048 - 176 - l_ea {
        return None;
    }
    let ad = o + 176 + l_ea as usize;
    let start = vol.part_start + read_le32(img, ad + 4) as u64;
    if start > u32::MAX as u64 {
        return None;
    }
    let size = read_le64(img, o + 56);
    let extent = (read_le32(img, ad) % 0x4000_0000) as u64;
    let step: u8 = if ad_type == 0 { 8 } else { 16 };
    Some(
        DirEntry {
            start: start as u32,
            size,
            is_dir: img[o + 27] == 4u8,
            contiguous: extent >= size,
            ads: ad as u64,
            ad_count: (l_ad / step as u64) as u32,
            ad_step: step,
        },
    )
}

/// Scans the File Identifier Descriptors of a directory's data for `name`.
fn udf_scan_exec(img: &Vec<u8>, begin: usize, end: usize, name: &Vec<u8>) -> (r: Option<u32>)
    requires
        begin <= end <= img@.len(),
    ensures
        match r {
            Some(l) => udf_scan(img@, begin as int, end as int, name@) == Some(l as int),
            None => udf_scan(img@, begin as int, end as int, name@).is_none(),
        },
{
    let n: usize = img.len();
    let mut off: usize = begin;
    while off <= end
        invariant
            begin <= off,
            end <= n == img@.len(),
            udf_scan(img@, off as int, end as int, name@) == udf_scan(img@, begin as int, end as int, name@),
        decreases end - off,
    {
        if end - off < 38 || read_le16(img, off) != TAG_FILE_IDENTIFIER {
            return None;
        }
        let l_fi: usize = img[off + 19] as usize;
        let l_iu: usize = read_le16(img, off + 36) as usize;
        if l_iu > end - off - 38 || l_fi > end - off - 38 - l_iu {
            return None;
        }
        let fi: usize = off + 38 + l_iu;
        if img[off + 18] & 8u8 == 0 && l_fi >= 1 && img[fi] == 8u8 && name_matches_at(img, fi + 1, l_fi - 1, name) {
            return Some(read_le32(img, off + 24));
        }
        let x: usize = 38 + l_iu + l_fi;
        let step: usize = x + (4 - x % 4) % 4;
        if step == 0 || step > end - off {
            return None;
        }
        off = off + step;
    }
    None
}

/// Looks `name` up in the directory `dir`.
pub fn udf_find_in(img: &Vec<u8>, vol: UdfVolume, dir: DirEntry, name: &Vec<u8>) -> (r: Option<DirEntry>)
    requires
        vol.part_start <= u32::MAX,
    ensures
        r == udf_find(img@, vol, dir, name@),
{
    let n: usize = img.len();
    let begin: u64 = dir.start as u64 * 2048;
    if dir.size > n as u64 || begin > n as u64 - dir.size {
        return None;
    }
    match udf_scan_exec(img, begin as usize, (begin + dir.size) as usize, name) {
        Some(lbn) => read_file_entry(img, vol, lbn as u64),
        None => None,
    }
}

/// Resolves `/VIDEO_TS/<name>` through the UDF file system of `vol`.
pub fn udf_resolve(img: &Vec<u8>, vol: UdfVolume, name: &Vec<u8>) -> (r: Result<FileLocation, DvdError>)
    requires
        volume_bounded(vol),
    ensures
        r == udf_lookup(img@, vol, name@),
{
    match read_file_entry(img, vol, vol.root_icb) {
        Some(root) if root.is_dir => {
            let vts = crate::names::video_ts_name();
            match udf_find_in(img, vol, root, &vts) {
                Some(d) if d.is_dir => match udf_find_in(img, vol, d, name) {
                    Some(f) if !f.is_dir => Ok(
                    FileLocation::Extents {
                        ads: f.ads,
                        count: f.ad_count,
                        step: f.ad_step,
                        part_start: vol.part_start as u32,
                        size: f.size,
                    },
                ),
                    _ => Err(DvdError::NotFound),
                },
                _ => Err(DvdError::NotFound),
            }
        },
        _ => Err(DvdError::CorruptVolume),
    }
}

/// Position of the first `/` in `path` from `i` on, or the length of `path`.
pub open spec fn next_slash(path: Seq<u8>, i: int) -> int
    decreases path.len() - i,
{
    if i < 0 || i >= path.len() {
        path.len() as int
    } else if path[i] == 47u8 {
        i
    } else {
        next_slash(path, i + 1)
    }
}

/// Walks the components of `path` from position `i` on, starting in the
/// directory `dir`: each component but the last names a directory, the last
/// names the entry found.
pub open spec fn udf_walk(img: Seq<u8>, vol: UdfVolume, dir: DirEntry, path: Seq<u8>, i: int) -> Option<DirEntry>
    decreases path.len() - i,
{
    if i < 0 || i > path.len() {
        None
    } else {
        let j = next_slash(path, i);
        if j < i {
            None
        } else {
            match udf_find(img, vol, dir, path.subrange(i, j)) {
                None => None,
                Some(e) => if j >= path.len() {
                    Some(e)
                } else if e.is_dir {
                    udf_walk(img, vol, e, path, j + 1)
                } else {
                    None
                },
            }
        }
    }
}

/// Resolves an absolute path (`/VIDEO_TS/VTS_01_1.IFO`) through the UDF file system.
pub open spec fn udf_path_lookup(img: Seq<u8>, vol: UdfVolume, path: Seq<u8>) -> Option<DirEntry> {
    if path.len() == 0 || path[0] != 47u8 {
        None
    } else {
        match file_entry(img, vol, vol.root_icb as int) {
            Some(root) if root.is_dir => udf_walk(img, vol, root, path, 1),
            _ => None,
        }
    }
}

/// Resolves an absolute path through the UDF file system of `vol`.
pub fn udf_resolve_path(img: &Vec<u8>, vol: UdfVolume, path: &Vec<u8>) -> (r: Option<DirEntry>)
    requires
        volume_bounded(vol),
    ensures
        r == udf_path_lookup(img@, vol, path@),
{
    if path.len() == 0 || path[0] != 47u8 {
        return None;
    }
    let mut dir = match read_file_entry(img, vol, vol.root_icb) {
        Some(root) if root.is_dir => root,
        _ => return None,
    };
    let mut i: usize = 1;
    while i <= path.len()
        invariant
            1 <= i,
            volume_bounded(vol),
            udf_walk(img@, vol, dir, path@, i as int) == udf_path_lookup(img@, vol, path@),
        decreases path@.len() + 1 - i,
    {
        let mut j: usize = i;
        while j < path.len() && path[j] != 47u8
            invariant
                i <= j <= path@.len(),
                next_slash(path@, j as int) == next_slash(path@, i as int),
            decreases path@.len() - j,
        {
            j = j + 1;
        }
        let comp = crate::bytes::copy_range(path, i, j - i);
        match udf_find_in(img, vol, dir, &comp) {
            None => return None,
            Some(e) => {
                if j >= path.len() {
                    return Some(e);
                }
                if !e.is_dir {
                    return None;
                }
                dir = e;
            },
        }
        i = j + 1;
    }
    None
}

} // verus!
