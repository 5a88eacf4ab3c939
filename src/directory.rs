use vstd::prelude::*;
use crate::bytes::{bytes_equal, lower_name, to_lower};
use crate::error::DvdError;
use crate::location::FileLocation;
use crate::names::{video_ts, video_ts_name};

verus! {

/// A file of a directory-backed volume: its path below the volume's root
/// directory, with `/` between components, and its bytes.
pub struct HostFile {
    pub path: Vec<u8>,
    pub data: Vec<u8>,
}

/// The paths of the host files.
pub open spec fn paths_of(files: Seq<HostFile>) -> Seq<Seq<u8>> {
    files.map_values(|f: HostFile| f.path@)
}

/// The first host file at or after `i` whose path is `p`.
pub open spec fn find_from(files: Seq<HostFile>, p: Seq<u8>, i: int) -> Option<int>
    decreases files.len() - i,
{
    if i < 0 || i >= files.len() {
        None
    } else if files[i].path@ == p {
        Some(i)
    } else {
        find_from(files, p, i + 1)
    }
}

/// The paths tried for `name`, in order: `VIDEO_TS/NAME`, `video_ts/name`,
/// `NAME`, `name`.
pub open spec fn host_candidates(name: Seq<u8>) -> Seq<Seq<u8>> {
    seq![
        video_ts() + seq![47u8] + name,
        lower_name(video_ts()) + seq![47u8] + lower_name(name),
        name,
        lower_name(name),
    ]
}

/// Resolves `name` against the host files: the first candidate path that a
/// file has.
pub open spec fn dir_lookup(files: Seq<HostFile>, name: Seq<u8>) -> Result<FileLocation, DvdError> {
    dir_lookup_from(files, host_candidates(name), 0)
}

pub open spec fn dir_lookup_from(files: Seq<HostFile>, cands: Seq<Seq<u8>>, k: int) -> Result<FileLocation, DvdError>
    decreases cands.len() - k,
{
    if k < 0 || k >= cands.len() {
        Err(DvdError::NotFound)
    } else {
        match find_from(files, cands[k], 0) {
            Some(i) => Ok(FileLocation::Host { index: i as usize, size: files[i].data@.len() as u64 }),
            None => dir_lookup_from(files, cands, k + 1),
        }
    }
}

fn find_file(files: &Vec<HostFile>, p: &Vec<u8>) -> (r: Option<usize>)
    ensures
        match r {
            Some(i) => i < files@.len() && find_from(files@, p@, 0) == Some(i as int),
            None => find_from(files@, p@, 0).is_none(),
        },
{
    let mut i: usize = 0;
    while i < files.len()
        invariant
            i <= files@.len(),
            find_from(files@, p@, i as int) == find_from(files@, p@, 0),
        decreases files@.len() - i,
    {
        if bytes_equal(&files[i].path, p) {
            return Some(i);
        }
        i = i + 1;
    }
    None
}

fn joined(dir: Vec<u8>, name: &Vec<u8>) -> (r: Vec<u8>)
    ensures
        r@ == dir@ + seq![47u8] + name@,
{
    let mut r = dir;
    r.push(47u8);
    let mut i: usize = 0;
    while i < name.len()
        invariant
            i <= name@.len(),
            r@ == dir@ + seq![47u8] + name@.take(i as int),
        decreases name@.len() - i,
    {
        r.push(name[i]);
        i = i + 1;
        assert(r@ =~= dir@ + seq![47u8] + name@.take(i as int));
    }
    assert(name@.take(name@.len() as int) =~= name@);
    r
}

/// Resolves `name` against the host files of a directory-backed volume.
pub fn dir_resolve(files: &Vec<HostFile>, name: &Vec<u8>) -> (r: Result<FileLocation, DvdError>)
    ensures
        r == dir_lookup(files@, name@),
{
    let lname = to_lower(name);
    let vts = video_ts_name();
    let lvts = to_lower(&vts);
    let c0 = joined(vts, name);
    let c1 = joined(lvts, &lname);
    let mut cands: Vec<Vec<u8>> = Vec::new();
    cands.push(c0);
    cands.push(c1);
    cands.push(name.clone());
    cands.push(lname);
    let ghost cs = host_candidates(name@);
    assert(cands@.map_values(|c: Vec<u8>| c@) =~= cs);
    let mut k: usize = 0;
    while k < cands.len()
        invariant
            k <= cands@.len() == cs.len(),
            forall|j: int| 0 <= j < cs.len() ==> #[trigger] cands@[j]@ == cs[j],
            dir_lookup_from(files@, cs, k as int) == dir_lookup(files@, name@),
        decreases cands@.len() - k,
    {
        assert(cands@[k as int]@ == cs[k as int]);
        match find_file(files, &cands[k]) {
            Some(i) => {
                return Ok(FileLocation::Host { index: i, size: files[i].data.len() as u64 });
            },
            None => {},
        }
        k = k + 1;
    }
    Err(DvdError::NotFound)
}

} // verus!
