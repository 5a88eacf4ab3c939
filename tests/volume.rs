use dvdread_rs::directory::HostFile;
use dvdread_rs::digest::hex_string;
use dvdread_rs::dvd_reader::{DvdDomain, DvdReader, FileKey};
use dvdread_rs::error::DvdError;
use dvdread_rs::multipart::{plan_read, Span};
use dvdread_rs::names::make_file_name;

const BLOCK: usize = 2048;

fn put_le32(img: &mut [u8], at: usize, v: u32) {
    img[at..at + 4].copy_from_slice(&v.to_le_bytes());
}

fn put_le16(img: &mut [u8], at: usize, v: u16) {
    img[at..at + 2].copy_from_slice(&v.to_le_bytes());
}

/// Writes an ISO9660 directory record; returns the offset after it.
fn iso_record(img: &mut [u8], at: usize, name: &[u8], extent: u32, size: u32, dir: bool) -> usize {
    let mut len = 33 + name.len();
    if len % 2 == 1 {
        len += 1;
    }
    img[at] = len as u8;
    put_le32(img, at + 2, extent);
    put_le32(img, at + 10, size);
    img[at + 25] = if dir { 2 } else { 0 };
    img[at + 32] = name.len() as u8;
    img[at + 33..at + 33 + name.len()].copy_from_slice(name);
    at + len
}

struct IsoFile {
    name: &'static str,
    extent: u32,
    size: u32,
}

/// An image with an ISO9660 file system: root at block 18, VIDEO_TS at block 19.
fn iso_image(blocks: usize, files: &[IsoFile]) -> Vec<u8> {
    let mut img = vec![0u8; blocks * BLOCK];
    let p = 16 * BLOCK;
    img[p] = 1;
    img[p + 1..p + 6].copy_from_slice(b"CD001");
    img[p + 40..p + 72].copy_from_slice(b"MYDISC                          ");
    for i in 0..128 {
        img[p + 190 + i] = b'S';
    }
    iso_record(&mut img, p + 156, &[0], 18, 2048, true);
    let mut at = 18 * BLOCK;
    at = iso_record(&mut img, at, &[0], 18, 2048, true);
    at = iso_record(&mut img, at, &[1], 18, 2048, true);
    iso_record(&mut img, at, b"VIDEO_TS", 19, 2048, true);
    let mut at = 19 * BLOCK;
    for f in files {
        let mut name = f.name.as_bytes().to_vec();
        name.extend_from_slice(b";1");
        at = iso_record(&mut img, at, &name, f.extent, f.size, false);
    }
    img
}

fn fill(img: &mut [u8], block: usize, blocks: usize, seed: u8) {
    for i in 0..blocks * BLOCK {
        img[block * BLOCK + i] = seed.wrapping_add((i % 251) as u8);
    }
}

/// A small disc: VIDEO_TS.IFO (1 block), VTS_01_0.IFO (1 block), and a
/// title VOB in two parts of 2 and 3 blocks.
fn small_iso() -> Vec<u8> {
    let mut img = iso_image(
        40,
        &[
            IsoFile { name: "VIDEO_TS.IFO", extent: 20, size: 2048 },
            IsoFile { name: "VTS_01_0.IFO", extent: 21, size: 2048 },
            IsoFile { name: "VTS_01_1.VOB", extent: 22, size: 4096 },
            IsoFile { name: "VTS_01_2.VOB", extent: 24, size: 6144 },
        ],
    );
    fill(&mut img, 20, 1, 1);
    fill(&mut img, 21, 1, 2);
    fill(&mut img, 22, 2, 3);
    fill(&mut img, 24, 3, 4);
    img
}

fn put_fid(img: &mut [u8], at: usize, name: &[u8], icb: u32, chars: u8) -> usize {
    put_le16(img, at, 257);
    img[at + 18] = chars;
    let l_fi = if name.is_empty() { 0 } else { name.len() + 1 };
    img[at + 19] = l_fi as u8;
    put_le32(img, at + 24, icb);
    put_le16(img, at + 36, 0);
    if l_fi > 0 {
        img[at + 38] = 8;
        img[at + 39..at + 39 + name.len()].copy_from_slice(name);
    }
    let x = 38 + l_fi;
    at + x + (4 - x % 4) % 4
}

fn put_fe(img: &mut [u8], block: usize, dir: bool, size: u64, data_lbn: u32) {
    let o = block * BLOCK;
    put_le16(img, o, 261);
    img[o + 27] = if dir { 4 } else { 5 };
    put_le16(img, o + 34, 0);
    img[o + 56..o + 64].copy_from_slice(&size.to_le_bytes());
    put_le32(img, o + 168, 0);
    put_le32(img, o + 172, 8);
    put_le32(img, o + 176, size as u32);
    put_le32(img, o + 180, data_lbn);
}

/// An image with a UDF file system (partition from block 64) holding
/// VIDEO_TS.IFO and a one-part title VOB.
fn udf_image() -> Vec<u8> {
    let mut img = vec![0u8; 300 * BLOCK];
    udf_into(&mut img);
    img
}

fn udf_into(img: &mut Vec<u8>) {
    let mut img = img;
    let a = 256 * BLOCK;
    put_le16(&mut img, a, 2);
    put_le32(&mut img, a + 16, 4 * 2048);
    put_le32(&mut img, a + 20, 32);
    let pvd = 32 * BLOCK;
    put_le16(&mut img, pvd, 1);
    img[pvd + 24] = 8;
    img[pvd + 25..pvd + 28].copy_from_slice(b"DVD");
    img[pvd + 55] = 4;
    for i in 0..128 {
        img[pvd + 72 + i] = b'Z';
    }
    put_le16(&mut img, 33 * BLOCK, 5);
    put_le32(&mut img, 33 * BLOCK + 188, 64);
    put_le16(&mut img, 34 * BLOCK, 6);
    put_le32(&mut img, 34 * BLOCK + 252, 0);
    put_le16(&mut img, 35 * BLOCK, 8);
    put_le16(&mut img, 64 * BLOCK, 256);
    put_le32(&mut img, 64 * BLOCK + 404, 1);
    // root directory
    put_fe(&mut img, 65, true, 2048, 2);
    let mut at = 66 * BLOCK;
    at = put_fid(&mut img, at, b"", 1, 10);
    put_fid(&mut img, at, b"VIDEO_TS", 3, 2);
    // VIDEO_TS directory
    put_fe(&mut img, 67, true, 2048, 4);
    let mut at = 68 * BLOCK;
    at = put_fid(&mut img, at, b"", 1, 10);
    at = put_fid(&mut img, at, b"video_ts.ifo", 5, 0);
    put_fid(&mut img, at, b"VTS_01_1.VOB", 6, 0);
    put_fe(&mut img, 69, false, 2048, 10);
    put_fe(&mut img, 70, false, 4096, 11);
    fill(&mut img, 74, 1, 7);
    fill(&mut img, 75, 2, 9);
}

#[test]
fn canonical_file_names() {
    assert_eq!(make_file_name(0, DvdDomain::InfoFile, 0), b"VIDEO_TS.IFO".to_vec());
    assert_eq!(make_file_name(0, DvdDomain::MenuVobs, 0), b"VIDEO_TS.VOB".to_vec());
    assert_eq!(make_file_name(1, DvdDomain::TitleVobs, 2), b"VTS_01_2.VOB".to_vec());
    assert_eq!(make_file_name(12, DvdDomain::BackupFile, 0), b"VTS_12_0.BUP".to_vec());
}

#[test]
fn plan_spanning_two_parts() {
    let sizes = vec![1073741824u64, 536870912u64];
    let spans = plan_read(&sizes, 524288 - 100, 200).unwrap();
    assert_eq!(
        spans,
        vec![
            Span { part: 0, start: (524288 - 100) * 2048, len: 100 * 2048 },
            Span { part: 1, start: 0, len: 100 * 2048 },
        ]
    );
    let total: u64 = spans.iter().map(|s| s.len).sum();
    assert_eq!(total, 200 * 2048);
}

#[test]
fn plan_past_end_fails() {
    let sizes = vec![4096u64, 6144u64];
    assert_eq!(plan_read(&sizes, 4, 2), Err(DvdError::IoError));
    assert_eq!(plan_read(&sizes, 0, 5).unwrap().len(), 2);
}

#[test]
fn stat_of_large_title_set() {
    let img = iso_image(
        30,
        &[
            IsoFile { name: "VIDEO_TS.IFO", extent: 20, size: 12288 },
            IsoFile { name: "VTS_01_0.IFO", extent: 26, size: 8192 },
            IsoFile { name: "VTS_01_1.VOB", extent: 1000, size: 1073741824 },
            IsoFile { name: "VTS_01_2.VOB", extent: 600000, size: 536870912 },
        ],
    );
    let mut dvd = DvdReader::new(img).unwrap();
    let st = dvd.file_stat(1, DvdDomain::TitleVobs).unwrap();
    assert_eq!(st.size, 1610612736);
    assert_eq!(st.nr_parts, 2);
    assert_eq!(st.parts_size, vec![1073741824, 536870912]);
    let ifo = dvd.file_stat(0, DvdDomain::InfoFile).unwrap();
    assert_eq!(ifo.size, 12288);
    assert_eq!(ifo.nr_parts, 1);
    let vts = dvd.file_stat(1, DvdDomain::InfoFile).unwrap();
    assert_eq!((vts.size, vts.nr_parts), (8192, 1));
}

#[test]
fn stat_sums_parts_and_single_part_domains() {
    let mut dvd = DvdReader::new(small_iso()).unwrap();
    for (title, domain) in [
        (0usize, DvdDomain::InfoFile),
        (1, DvdDomain::InfoFile),
        (1, DvdDomain::TitleVobs),
    ] {
        let st = dvd.file_stat(title, domain).unwrap();
        assert_eq!(st.size, st.parts_size.iter().sum::<u64>());
        assert_eq!(st.nr_parts, st.parts_size.len());
        if domain != DvdDomain::TitleVobs {
            assert_eq!(st.nr_parts, 1);
        }
    }
}

#[test]
fn stat_missing_files() {
    let mut dvd = DvdReader::new(small_iso()).unwrap();
    assert_eq!(dvd.file_stat(2, DvdDomain::TitleVobs).err(), Some(DvdError::NotFound));
    assert_eq!(dvd.file_stat(0, DvdDomain::TitleVobs).err(), Some(DvdError::NotFound));
    assert_eq!(dvd.file_stat(100, DvdDomain::InfoFile).err(), Some(DvdError::NotFound));
    assert_eq!(dvd.file_stat(0, DvdDomain::BackupFile).err(), Some(DvdError::NotFound));
}

#[test]
fn read_across_part_boundary() {
    let img = small_iso();
    let mut dvd = DvdReader::new(img.clone()).unwrap();
    let mut f = dvd.open_file(1, DvdDomain::TitleVobs).unwrap();
    assert_eq!(f.nr_parts(), 2);
    assert_eq!(f.size(), 10240);
    let whole = dvd.read(&mut f, 0, 5).unwrap();
    let mut expected = img[22 * BLOCK..24 * BLOCK].to_vec();
    expected.extend_from_slice(&img[24 * BLOCK..27 * BLOCK]);
    assert_eq!(whole, expected);
    assert_eq!(f.position(), 5);
    let middle = dvd.read(&mut f, 1, 2).unwrap();
    assert_eq!(middle.len(), 2 * BLOCK);
    assert_eq!(middle, img[23 * BLOCK..25 * BLOCK].to_vec());
    assert_eq!(dvd.read(&mut f, 4, 2), Err(DvdError::IoError));
    assert_eq!(dvd.close_file(f), Ok(()));
    assert_eq!(dvd.close(), Ok(()));
}

#[test]
fn read_of_part_outside_image_fails() {
    let img = iso_image(30, &[IsoFile { name: "VTS_01_1.VOB", extent: 29, size: 4096 }]);
    let mut dvd = DvdReader::new(img).unwrap();
    let mut f = dvd.open_file(1, DvdDomain::TitleVobs).unwrap();
    assert_eq!(dvd.read(&mut f, 0, 1), Err(DvdError::IoError));
}

#[test]
fn disc_id_digests_info_files() {
    let img = small_iso();
    let mut a = DvdReader::new(img.clone()).unwrap();
    let mut b = DvdReader::new(img.clone()).unwrap();
    let ida = a.disc_id().unwrap();
    assert_eq!(ida, b.disc_id().unwrap());
    assert_eq!(ida.len(), 32);
    let mut data = img[20 * BLOCK..21 * BLOCK].to_vec();
    data.extend_from_slice(&img[21 * BLOCK..22 * BLOCK]);
    assert_eq!(ida, format!("{:x}", md5::compute(&data)));
    let mut changed = img.clone();
    changed[21 * BLOCK + 7] ^= 1;
    let mut c = DvdReader::new(changed).unwrap();
    assert_ne!(ida, c.disc_id().unwrap());
}

#[test]
fn disc_id_without_video_manager_fails() {
    let img = iso_image(30, &[IsoFile { name: "VTS_01_0.IFO", extent: 21, size: 2048 }]);
    let mut dvd = DvdReader::new(img).unwrap();
    assert_eq!(dvd.disc_id(), Err(DvdError::NotFound));
}

#[test]
fn hex_rendering() {
    assert_eq!(hex_string(&vec![0x01, 0xab, 0xff, 0x00]), "01abff00");
}

#[test]
fn cache_level_one_walks_once() {
    let mut dvd = DvdReader::new(small_iso()).unwrap();
    let key = FileKey { title: 1, domain: DvdDomain::TitleVobs, part: 1 };
    let first = dvd.resolve(key).unwrap();
    let second = dvd.resolve(key).unwrap();
    assert_eq!(first, second);
    assert_eq!(dvd.walk_count(), 1);
}

#[test]
fn cache_level_zero_walks_each_time() {
    let mut dvd = DvdReader::new(small_iso()).unwrap();
    assert_eq!(dvd.udf_cache_level(0), 0);
    let key = FileKey { title: 0, domain: DvdDomain::InfoFile, part: 0 };
    let first = dvd.resolve(key).unwrap();
    let second = dvd.resolve(key).unwrap();
    assert_eq!(first, second);
    assert_eq!(dvd.walk_count(), 2);
}

#[test]
fn cache_level_query_and_rejection() {
    let mut dvd = DvdReader::new(small_iso()).unwrap();
    assert_eq!(dvd.udf_cache_level(-1), 1);
    assert_eq!(dvd.udf_cache_level(7), 1);
    assert_eq!(dvd.udf_cache_level(0), 0);
    assert_eq!(dvd.udf_cache_level(-1), 0);
    assert_eq!(dvd.udf_cache_level(1), 1);
}

#[test]
fn udf_volume_resolves() {
    let img = udf_image();
    let mut dvd = DvdReader::new(img.clone()).unwrap();
    let st = dvd.file_stat(0, DvdDomain::InfoFile).unwrap();
    assert_eq!((st.size, st.nr_parts), (2048, 1));
    let mut f = dvd.open_file(1, DvdDomain::TitleVobs).unwrap();
    let data = dvd.read(&mut f, 0, 2).unwrap();
    assert_eq!(data, img[75 * BLOCK..77 * BLOCK].to_vec());
    assert_eq!(dvd.udf_get_volume_identifier(), Ok(b"DVD".to_vec()));
    assert_eq!(dvd.udf_get_volume_set_identifier(), Ok(vec![b'Z'; 128]));
    assert_eq!(dvd.udf_volume_info(2, 16), Ok((b"DV".to_vec(), vec![b'Z'; 16])));
    assert_eq!(dvd.iso_volume_info(32, 128), Err(DvdError::IoError));
}

#[test]
fn iso_only_volume_falls_back() {
    let mut dvd = DvdReader::new(small_iso()).unwrap();
    assert_eq!(dvd.udf_get_volume_identifier(), Err(DvdError::IoError));
    assert_eq!(dvd.udf_volume_info(32, 128), Err(DvdError::IoError));
    assert!(dvd.file_stat(1, DvdDomain::TitleVobs).is_ok());
    let (id, set) = dvd.iso_volume_info(32, 4).unwrap();
    assert_eq!(id, b"MYDISC".to_vec());
    assert_eq!(set, b"SSSS".to_vec());
}

#[test]
fn image_without_file_system_is_corrupt() {
    assert_eq!(DvdReader::new(vec![0u8; 40 * BLOCK]).err(), Some(DvdError::CorruptVolume));
}

#[test]
fn directory_volume_resolves_name_variants() {
    let files = vec![
        HostFile { path: b"VIDEO_TS/VIDEO_TS.IFO".to_vec(), data: vec![1u8; 2048] },
        HostFile { path: b"video_ts/vts_01_1.vob".to_vec(), data: vec![2u8; 4096] },
        HostFile { path: b"VTS_01_2.VOB".to_vec(), data: vec![3u8; 2048] },
        HostFile { path: b"vts_01_0.ifo".to_vec(), data: vec![4u8; 1024] },
    ];
    let mut dvd = DvdReader::from_directory(files);
    let st = dvd.file_stat(1, DvdDomain::TitleVobs).unwrap();
    assert_eq!(st.parts_size, vec![4096, 2048]);
    assert_eq!(dvd.file_stat(1, DvdDomain::InfoFile).unwrap().size, 1024);
    let mut f = dvd.open_file(1, DvdDomain::TitleVobs).unwrap();
    let data = dvd.read(&mut f, 1, 2).unwrap();
    let mut expected = vec![2u8; 2048];
    expected.extend_from_slice(&[3u8; 2048]);
    assert_eq!(data, expected);
    assert!(dvd.disc_id().is_ok());
}

#[test]
fn directory_prefers_upper_case_subdirectory() {
    let files = vec![
        HostFile { path: b"VIDEO_TS.IFO".to_vec(), data: vec![1u8; 10] },
        HostFile { path: b"VIDEO_TS/VIDEO_TS.IFO".to_vec(), data: vec![1u8; 20] },
    ];
    let mut dvd = DvdReader::from_directory(files);
    assert_eq!(dvd.file_stat(0, DvdDomain::InfoFile).unwrap().size, 20);
}

#[test]
fn close_requires_files_closed() {
    let mut dvd = DvdReader::new(small_iso()).unwrap();
    let mut f = dvd.open_file(0, DvdDomain::InfoFile).unwrap();
    assert_eq!(dvd.close(), Err(DvdError::PreconditionViolation));
    assert!(dvd.read(&mut f, 0, 1).is_ok());
    assert_eq!(dvd.close_file(f), Ok(()));
    assert_eq!(dvd.close(), Ok(()));
    assert_eq!(dvd.close(), Err(DvdError::PreconditionViolation));
    assert_eq!(dvd.file_stat(0, DvdDomain::InfoFile).err(), Some(DvdError::PreconditionViolation));
    assert_eq!(dvd.disc_id(), Err(DvdError::PreconditionViolation));
}

#[test]
fn read_after_close_fails() {
    let mut a = DvdReader::new(small_iso()).unwrap();
    let mut f = a.open_file(0, DvdDomain::InfoFile).unwrap();
    let mut b = DvdReader::new(small_iso()).unwrap();
    assert_eq!(b.close(), Ok(()));
    assert_eq!(b.read(&mut f, 0, 1), Err(DvdError::PreconditionViolation));
    assert!(a.read(&mut f, 0, 1).is_ok());
}

#[test]
fn udf_find_file_walks_paths() {
    let mut dvd = DvdReader::new(udf_image()).unwrap();
    assert_eq!(dvd.udf_find_file(&b"/VIDEO_TS/VTS_01_1.VOB".to_vec()), Ok((75, 4096)));
    assert_eq!(dvd.udf_find_file(&b"/VIDEO_TS/VIDEO_TS.IFO".to_vec()), Ok((74, 2048)));
    assert_eq!(dvd.udf_find_file(&b"/video_ts".to_vec()), Ok((68, 2048)));
    assert_eq!(dvd.udf_find_file(&b"/VIDEO_TS/VTS_02_1.VOB".to_vec()), Err(DvdError::NotFound));
    assert_eq!(dvd.udf_find_file(&b"VIDEO_TS".to_vec()), Err(DvdError::NotFound));
    let mut iso = DvdReader::new(small_iso()).unwrap();
    assert_eq!(iso.udf_find_file(&b"/VIDEO_TS/VIDEO_TS.IFO".to_vec()), Err(DvdError::NotFound));
}

#[test]
fn ifo_files_are_handed_out_whole() {
    let img = small_iso();
    let mut dvd = DvdReader::new(img.clone()).unwrap();
    assert_eq!(dvd.ifo_open(0), Ok(img[20 * BLOCK..21 * BLOCK].to_vec()));
    assert_eq!(dvd.ifo_open_vmgi(), Ok(img[20 * BLOCK..21 * BLOCK].to_vec()));
    assert_eq!(dvd.ifo_open_vtsi(1), Ok(img[21 * BLOCK..22 * BLOCK].to_vec()));
    assert_eq!(dvd.ifo_open_vtsi(0), Err(DvdError::NotFound));
    assert_eq!(dvd.ifo_open(3), Err(DvdError::NotFound));
}

#[test]
fn udf_find_file_counts_walks_by_cache_level() {
    let mut dvd = DvdReader::new(udf_image()).unwrap();
    let path = b"/VIDEO_TS/VTS_01_1.VOB".to_vec();
    let first = dvd.udf_find_file(&path);
    assert_eq!(dvd.walk_count(), 1);
    assert_eq!(dvd.udf_find_file(&path), first);
    assert_eq!(dvd.walk_count(), 1);
    assert_eq!(dvd.udf_cache_level(0), 0);
    assert_eq!(dvd.udf_find_file(&path), first);
    assert_eq!(dvd.udf_find_file(&path), first);
    assert_eq!(dvd.walk_count(), 3);
}

#[test]
fn fragmented_files_across_extents() {
    let mut img = iso_image(30, &[IsoFile { name: "VIDEO_TS.IFO", extent: 20, size: 2048 }]);
    // mark the record as one extent of a multi-extent file
    let rec = 19 * BLOCK;
    img[rec + 25] |= 0x80;
    let mut dvd = DvdReader::new(img).unwrap();
    assert_eq!(dvd.file_stat(0, DvdDomain::InfoFile).err(), Some(DvdError::CorruptVolume));

    let mut udf = udf_image();
    // VIDEO_TS.IFO in two extents: block 76, then block 74
    let fe = 69 * BLOCK;
    udf[fe + 56..fe + 64].copy_from_slice(&4096u64.to_le_bytes());
    put_le32(&mut udf, fe + 172, 16);
    put_le32(&mut udf, fe + 176, 2048);
    put_le32(&mut udf, fe + 180, 12);
    put_le32(&mut udf, fe + 184, 2048);
    put_le32(&mut udf, fe + 188, 10);
    let mut dvd = DvdReader::new(udf.clone()).unwrap();
    assert_eq!(dvd.file_stat(0, DvdDomain::InfoFile).unwrap().size, 4096);
    let mut f = dvd.open_file(0, DvdDomain::InfoFile).unwrap();
    let mut expected = udf[76 * BLOCK..77 * BLOCK].to_vec();
    expected.extend_from_slice(&udf[74 * BLOCK..75 * BLOCK]);
    assert_eq!(dvd.read(&mut f, 0, 2), Ok(expected.clone()));
    assert_eq!(dvd.read(&mut f, 1, 1), Ok(expected[BLOCK..].to_vec()));
    assert_eq!(dvd.ifo_open(0), Ok(expected));
}

#[test]
fn handle_of_another_volume_is_refused() {
    let mut a = DvdReader::new(small_iso()).unwrap();
    let mut f = a.open_file(1, DvdDomain::TitleVobs).unwrap();
    let b = DvdReader::new(udf_image()).unwrap();
    assert_eq!(b.read(&mut f, 0, 1), Err(DvdError::PreconditionViolation));
    assert!(a.read(&mut f, 0, 1).is_ok());
}

#[test]
fn disc_id_is_32_lower_hex_digits() {
    let mut dvd = DvdReader::new(udf_image()).unwrap();
    let id = dvd.disc_id().unwrap();
    assert_eq!(id.len(), 32);
    assert!(id.chars().all(|c| c.is_ascii_digit() || ('a'..='f').contains(&c)));
}

#[test]
fn bad_udf_root_falls_back_to_iso9660() {
    let mut img = iso_image(300, &[IsoFile { name: "VIDEO_TS.IFO", extent: 20, size: 6144 }]);
    udf_into(&mut img);
    let mut both = DvdReader::new(img.clone()).unwrap();
    assert_eq!(both.file_stat(0, DvdDomain::InfoFile).unwrap().size, 2048);
    // the UDF root File Entry no longer reads
    img[65 * BLOCK] = 0;
    let mut dvd = DvdReader::new(img).unwrap();
    assert_eq!(dvd.udf_find_file(&b"/VIDEO_TS".to_vec()), Err(DvdError::NotFound));
    assert_eq!(dvd.file_stat(0, DvdDomain::InfoFile).unwrap().size, 6144);
}

#[test]
fn close_file_refuses_foreign_handle() {
    let mut a = DvdReader::new(small_iso()).unwrap();
    let mut b = DvdReader::new(udf_image()).unwrap();
    let f = a.open_file(0, DvdDomain::InfoFile).unwrap();
    assert_eq!(b.close_file(f), Err(DvdError::PreconditionViolation));
    assert_eq!(a.close(), Err(DvdError::PreconditionViolation));
}
