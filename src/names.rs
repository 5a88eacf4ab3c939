use vstd::prelude::*;

verus! {

/// The kind of file requested for a title set.
#[derive(Clone, Copy, Debug, PartialEq, Eq, Structural)]
pub enum DvdDomain {
    InfoFile,
    BackupFile,
    MenuVobs,
    TitleVobs,
}

/// Largest title set number on a DVD-Video volume.
pub const MAX_TITLE: usize = 99;

/// Largest number of parts of a title's VOB set.
pub const MAX_PARTS: usize = 9;

/// A (title, domain, part) triple names a file: title 0 is the video
/// manager, which has no title VOBs; only title VOBs have parts, numbered
/// from 1, and every other domain is asked for as part 0.
pub open spec fn valid_request(title: int, domain: DvdDomain, part: int) -> bool {
    &&& 0 <= title <= MAX_TITLE
    &&& (title == 0 ==> domain != DvdDomain::TitleVobs)
    &&& if domain == DvdDomain::TitleVobs {
        1 <= part <= MAX_PARTS
    } else {
        part == 0
    }
}

pub open spec fn ascii_digit(d: int) -> u8 {
    (48 + d) as u8
}

/// `IFO`, `BUP` or `VOB`.
pub open spec fn extension(domain: DvdDomain) -> Seq<u8> {
    match domain {
        DvdDomain::InfoFile => seq![73u8, 70u8, 79u8],
        DvdDomain::BackupFile => seq![66u8, 85u8, 80u8],
        _ => seq![86u8, 79u8, 66u8],
    }
}

/// `VIDEO_TS`, the name of the directory that holds the files.
pub open spec fn video_ts() -> Seq<u8> {
    seq![86u8, 73u8, 68u8, 69u8, 79u8, 95u8, 84u8, 83u8]
}

/// Canonical file name: `VIDEO_TS.EXT` for title 0, `VTS_tt_p.EXT` otherwise.
pub open spec fn file_name(title: int, domain: DvdDomain, part: int) -> Seq<u8> {
    if title == 0 {
        video_ts() + seq![46u8] + extension(domain)
    } else {
        seq![86u8, 84u8, 83u8, 95u8, ascii_digit(title / 10), ascii_digit(title % 10), 95u8,
            ascii_digit(part), 46u8] + extension(domain)
    }
}

fn push_extension(v: &mut Vec<u8>, domain: DvdDomain)
    ensures
        final(v)@ == old(v)@ + extension(domain),
{
    let (a, b, c): (u8, u8, u8) = match domain {
        DvdDomain::InfoFile => (73, 70, 79),
        DvdDomain::BackupFile => (66, 85, 80),
        _ => (86, 79, 66),
    };
    v.push(a);
    v.push(b);
    v.push(c);
    assert(v@ =~= old(v)@ + extension(domain));
}

/// Builds the `VIDEO_TS` directory name.
pub fn video_ts_name() -> (r: Vec<u8>)
    ensures
        r@ == video_ts(),
{
    let r: Vec<u8> = vec![86, 73, 68, 69, 79, 95, 84, 83];
    assert(r@ =~= video_ts());
    r
}

/// Builds the canonical file name of a request.
pub fn make_file_name(title: usize, domain: DvdDomain, part: usize) -> (r: Vec<u8>)
    requires
        valid_request(title as int, domain, part as int),
    ensures
        r@ == file_name(title as int, domain, part as int),
{
    let mut v: Vec<u8>;
    if title == 0 {
        v = video_ts_name();
        v.push(46);
    } else {
        v = vec![86, 84, 83, 95];
        v.push((48 + title / 10) as u8);
        v.push((48 + title % 10) as u8);
        v.push(95);
        v.push((48 + part) as u8);
        v.push(46);
    }
    push_extension(&mut v, domain);
    assert(v@ =~= file_name(title as int, domain, part as int));
    v
}

} // verus!
