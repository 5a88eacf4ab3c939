use vstd::prelude::*;
use crate::bytes::copy_range;
use crate::digest::{hex_string, hex_text, lemma_hex_text_len, md5_digest, md5_of};
use crate::directory::{dir_lookup, dir_resolve, HostFile};
use crate::error::DvdError;
use crate::extents::{lemma_extents_content_len, extents_content, extents_readable, extents_readable_exec, read_extents};
use crate::iso9660::{lemma_iso_size_bound, iso_lookup, iso_resolve, iso_root, iso_root_entry};
use crate::bytes::bytes_equal;
use crate::location::{DirEntry, FileLocation};
use crate::multipart::{part_base, checked_total, concat_parts, lemma_plan_bytes, lemma_plan_in_bounds, parts_sized, plan, plan_read, span_bytes, total_size};
pub use crate::names::DvdDomain;
use crate::names::{file_name, make_file_name, valid_request, MAX_PARTS, MAX_TITLE};
use crate::volume_id::{clip, clipped, decode_dstring, iso_identifier, read_dstring, read_iso_identifier, ISO_VOLUME_ID, ISO_VOLUME_SET_ID, UDF_VOLUME_ID, UDF_VOLUME_SET_ID};
use crate::iso9660::{has_iso_pvd, pvd_offset};
use crate::udf::{file_entry, read_file_entry, at, has_block, udf_path_lookup, udf_resolve_path, udf_lookup, udf_open, udf_resolve, udf_volume, volume_bounded, UdfVolume};

verus! {

/// How names are resolved on a volume, chosen when it is opened.
#[derive(Clone, Copy, Debug, PartialEq, Eq, Structural)]
pub enum Resolver {
    /// Through the UDF file system.
    Udf(UdfVolume),
    /// Through the ISO9660 file system, on an image without a usable UDF volume.
    Iso,
    /// Against the files of a host directory.
    Directory,
}

/// A file of the volume: title set, domain and part (1 to 9 for title VOBs,
/// 0 for every other domain).
#[derive(Clone, Copy, Debug, PartialEq, Eq, Structural)]
pub struct FileKey {
    pub title: usize,
    pub domain: DvdDomain,
    pub part: usize,
}

struct PathEntry {
    path: Vec<u8>,
    entry: DirEntry,
}

#[derive(Clone, Copy, Debug, PartialEq, Eq, Structural)]
struct CacheEntry {
    key: FileKey,
    loc: FileLocation,
}

/// An opened DVD-Video volume: an image of the medium, or the files of a
/// directory, with the resolver chosen for it and a cache of resolved files.
pub struct DvdReader {
    image: Vec<u8>,
    files: Vec<HostFile>,
    resolver: Resolver,
    cache_level: i32,
    cache: Vec<CacheEntry>,
    path_cache: Vec<PathEntry>,
    walks: u64,
    open_handles: u64,
    closed: bool,
}

impl DvdReader {
    pub closed spec fn image_view(self) -> Seq<u8> {
        self.image@
    }

    pub closed spec fn files_view(self) -> Seq<HostFile> {
        self.files@
    }

    pub closed spec fn resolver_view(self) -> Resolver {
        self.resolver
    }

    /// The current cache level: 1 keeps resolved files, 0 resolves each time.
    pub closed spec fn level(self) -> i32 {
        self.cache_level
    }

    /// How many metadata walks the volume has made.
    pub closed spec fn walk_total(self) -> u64 {
        self.walks
    }

    /// How many file handles are open.
    pub closed spec fn handles(self) -> u64 {
        self.open_handles
    }

    pub closed spec fn is_closed(self) -> bool {
        self.closed
    }

    /// The cache holds the location of `key`.
    pub closed spec fn cached(self, key: FileKey) -> bool {
        exists|i: int| 0 <= i < self.cache@.len() && (#[trigger] self.cache@[i]).key == key
    }

    /// The cache holds the UDF entry of the absolute path `p`.
    pub closed spec fn cached_path(self, p: Seq<u8>) -> bool {
        exists|i: int| 0 <= i < self.path_cache@.len() && (#[trigger] self.path_cache@[i]).path@ == p
    }

    /// The volume is read through UDF.
    pub open spec fn reads_udf(self) -> bool {
        match self.resolver_view() {
            Resolver::Udf(_) => true,
            _ => false,
        }
    }

    /// The UDF entry that an absolute path names, on a volume read through UDF.
    pub open spec fn path_found(self, p: Seq<u8>) -> Option<DirEntry> {
        match self.resolver_view() {
            Resolver::Udf(v) => udf_path_lookup(self.image_view(), v, p),
            _ => None,
        }
    }

    /// Resolves a canonical file name with the volume's resolver.
    pub open spec fn lookup(self, name: Seq<u8>) -> Result<FileLocation, DvdError> {
        match self.resolver_view() {
            Resolver::Udf(v) => udf_lookup(self.image_view(), v, name),
            Resolver::Iso => iso_lookup(self.image_view(), name),
            Resolver::Directory => dir_lookup(self.files_view(), name),
        }
    }

    /// Where the file `key` is, or why it is not there.
    pub open spec fn located(self, key: FileKey) -> Result<FileLocation, DvdError> {
        if valid_request(key.title as int, key.domain, key.part as int) {
            self.lookup(file_name(key.title as int, key.domain, key.part as int))
        } else {
            Err(DvdError::NotFound)
        }
    }

    /// What a file handle records of this volume.
    pub open spec fn stamp(self) -> VolumeStamp {
        VolumeStamp {
            image_len: self.image_view().len() as usize,
            files_len: self.files_view().len() as usize,
            resolver: self.resolver_view(),
        }
    }

    fn volume_stamp(&self) -> (r: VolumeStamp)
        ensures
            r == self.stamp(),
    {
        VolumeStamp { image_len: self.image.len(), files_len: self.files.len(), resolver: self.resolver }
    }

    /// Both values are the same volume: same bytes, same resolver.
    pub open spec fn same_volume(self, other: DvdReader) -> bool {
        &&& self.image_view() == other.image_view()
        &&& self.files_view() == other.files_view()
        &&& self.resolver_view() == other.resolver_view()
    }

    /// The reader's invariant: a UDF volume's fields are 32-bit, the cache
    /// level is 0 or 1, and every cached location or path entry is where the
    /// file is.
    pub closed spec fn wf(self) -> bool {
        &&& (self.resolver matches Resolver::Udf(v) ==> volume_bounded(v))
        &&& (self.cache_level == 0 || self.cache_level == 1)
        &&& forall|i: int| 0 <= i < self.cache@.len() ==> self.located((#[trigger] self.cache@[i]).key)
            == Ok::<FileLocation, DvdError>(self.cache@[i].loc)
        &&& forall|i: int| 0 <= i < self.path_cache@.len() ==> self.path_found((#[trigger] self.path_cache@[i]).path@)
            == Some(self.path_cache@[i].entry) && self.path_cache@[i].entry.start != 0
    }

    /// Opens a volume image: through its UDF file system when its descriptors
    /// and root directory read, else through its ISO9660 file system; fails
    /// with `CorruptVolume` when it has neither.
    pub fn new(image: Vec<u8>) -> (r: Result<DvdReader, DvdError>)
        ensures
            match r {
                Ok(d) => {
                    &&& udf_usable(image@).is_some() || iso_root(image@).is_some()
                    &&& d.wf()
                    &&& d.image_view() == image@
                    &&& d.files_view().len() == 0
                    &&& d.resolver_view() == match udf_usable(image@) {
                        Some(v) => Resolver::Udf(v),
                        None => Resolver::Iso,
                    }
                    &&& d.level() == 1 && d.walk_total() == 0 && d.handles() == 0 && !d.is_closed()
                },
                Err(e) => e == DvdError::CorruptVolume && udf_usable(image@).is_none() && iso_root(
                    image@,
                ).is_none(),
            },
    {
        let usable = match udf_open(&image) {
            Some(v) => match read_file_entry(&image, v, v.root_icb) {
                Some(root) if root.is_dir => Some(v),
                _ => None,
            },
            None => None,
        };
        let resolver = match usable {
            Some(v) => Resolver::Udf(v),
            None => {
                if iso_root_entry(&image).is_none() {
                    return Err(DvdError::CorruptVolume);
                }
                Resolver::Iso
            },
        };
        Ok(DvdReader {
            image,
            files: Vec::new(),
            resolver,
            cache_level: 1,
            cache: Vec::new(),
            path_cache: Vec::new(),
            walks: 0,
            open_handles: 0,
            closed: false,
        })
    }

    /// Opens the files of a directory holding a DVD-Video copy.
    pub fn from_directory(files: Vec<HostFile>) -> (r: DvdReader)
        ensures
            r.wf(),
            r.files_view() == files@,
            r.image_view().len() == 0,
            r.resolver_view() == Resolver::Directory,
            r.level() == 1 && r.walk_total() == 0 && r.handles() == 0 && !r.is_closed(),
    {
        DvdReader {
            image: Vec::new(),
            files,
            resolver: Resolver::Directory,
            cache_level: 1,
            cache: Vec::new(),
            path_cache: Vec::new(),
            walks: 0,
            open_handles: 0,
            closed: false,
        }
    }

    fn find_cached(&self, key: FileKey) -> (r: Option<FileLocation>)
        requires
            self.wf(),
        ensures
            match r {
                Some(l) => self.cached(key) && self.located(key) == Ok::<FileLocation, DvdError>(l),
                None => !self.cached(key),
            },
    {
        let mut i: usize = 0;
        while i < self.cache.len()
            invariant
                self.wf(),
                i <= self.cache@.len(),
                forall|j: int| 0 <= j < i ==> (#[trigger] self.cache@[j]).key != key,
            decreases self.cache@.len() - i,
        {
            if self.cache[i].key == key {
                assert(self.cache@[i as int].key == key);
                return Some(self.cache[i].loc);
            }
            i = i + 1;
        }
        None
    }

    fn walk(&self, key: FileKey) -> (r: Result<FileLocation, DvdError>)
        requires
            self.wf(),
        ensures
            r == self.located(key),
    {
        if key.title > MAX_TITLE || (key.title == 0 && key.domain == DvdDomain::TitleVobs) {
            return Err(DvdError::NotFound);
        }
        if key.domain == DvdDomain::TitleVobs {
            if key.part < 1 || key.part > MAX_PARTS {
                return Err(DvdError::NotFound);
            }
        } else if key.part != 0 {
            return Err(DvdError::NotFound);
        }
        let name = make_file_name(key.title, key.domain, key.part);
        match self.resolver {
            Resolver::Udf(v) => udf_resolve(&self.image, v, &name),
            Resolver::Iso => iso_resolve(&self.image, &name),
            Resolver::Directory => dir_resolve(&self.files, &name),
        }
    }

    /// Resolves the file `key`. At cache level 1 a file already resolved is
    /// answered from the cache, without a walk, and a resolved file is kept;
    /// at level 0 every call walks the metadata.
    pub fn resolve(&mut self, key: FileKey) -> (r: Result<FileLocation, DvdError>)
        requires
            old(self).wf(),
        ensures
            final(self).wf(),
            final(self).same_volume(*old(self)),
            final(self).level() == old(self).level(),
            final(self).handles() == old(self).handles(),
            final(self).is_closed() == old(self).is_closed(),
            old(self).is_closed() ==> r == Err::<FileLocation, DvdError>(DvdError::PreconditionViolation),
            !old(self).is_closed() ==> r == old(self).located(key),
            old(self).level() == 1 && old(self).cached(key) ==> final(self).walk_total() == old(
                self,
            ).walk_total(),
            !old(self).is_closed() && !(old(self).level() == 1 && old(self).cached(key))
                && old(self).walk_total() < u64::MAX ==> final(self).walk_total() == old(self).walk_total()
                + 1,
            old(self).level() == 1 && r.is_ok() ==> final(self).cached(key),
    {
        if self.closed {
            return Err(DvdError::PreconditionViolation);
        }
        if self.cache_level == 1 {
            match self.find_cached(key) {
                Some(l) => return Ok(l),
                None => {},
            }
        }
        let r = self.walk(key);
        if self.walks < u64::MAX {
            self.walks = self.walks + 1;
        }
        if self.cache_level == 1 {
            if let Ok(l) = r {
                let ghost before = self.cache@;
                self.cache.push(CacheEntry { key, loc: l });
                assert(self.cache@[before.len() as int].key == key);
                assert forall|i: int| 0 <= i < self.cache@.len() implies self.located(
                    (#[trigger] self.cache@[i]).key,
                ) == Ok::<FileLocation, DvdError>(self.cache@[i].loc) by {
                    if i < before.len() {
                        assert(self.cache@[i] == before[i]);
                    }
                }
            }
        }
        r
    }

    /// Sets the cache level: -1 only asks for it, 0 turns caching off and
    /// empties the cache, 1 turns it on; any other value leaves it as it
    /// is. Returns the level in effect.
    pub fn udf_cache_level(&mut self, cache_level: i32) -> (r: i32)
        requires
            old(self).wf(),
        ensures
            final(self).wf(),
            final(self).same_volume(*old(self)),
            final(self).handles() == old(self).handles(),
            final(self).is_closed() == old(self).is_closed(),
            final(self).walk_total() == old(self).walk_total(),
            final(self).level() == if cache_level == 0 || cache_level == 1 {
                cache_level
            } else {
                old(self).level()
            },
            r == final(self).level(),
            r == 0 || r == 1,
    {
        if cache_level == 0 {
            self.cache_level = 0;
            self.cache = Vec::new();
            self.path_cache = Vec::new();
        } else if cache_level == 1 {
            self.cache_level = 1;
        }
        self.cache_level
    }

    /// How many metadata walks the volume has made.
    pub fn walk_count(&self) -> (r: u64)
        ensures
            r == self.walk_total(),
    {
        self.walks
    }

    /// The location lies within the volume's bytes.
    pub open spec fn readable(self, l: FileLocation) -> bool {
        match l {
            FileLocation::Blocks { start, size } => start as int * 2048 + size <= self.image_view().len(),
            FileLocation::Extents { ads, count, step, part_start, size } => extents_readable(
                self.image_view(),
                ads as int,
                count as nat,
                step as int,
                part_start as int,
                size as int,
            ),
            FileLocation::Host { index, size } => index < self.files_view().len() && size
                <= self.files_view()[index as int].data@.len(),
        }
    }

    /// The bytes of the file at a location.
    pub open spec fn content(self, l: FileLocation) -> Seq<u8> {
        match l {
            FileLocation::Blocks { start, size } => self.image_view().subrange(
                start as int * 2048,
                start as int * 2048 + size,
            ),
            FileLocation::Extents { ads, count, step, part_start, size } => extents_content(
                self.image_view(),
                ads as int,
                count as nat,
                step as int,
                part_start as int,
                size as int,
            ),
            FileLocation::Host { index, size } => self.files_view()[index as int].data@.subrange(0, size as int),
        }
    }

    proof fn lemma_content_len(self, l: FileLocation)
        requires
            self.readable(l),
        ensures
            self.content(l).len() == l.size_spec(),
    {
        if let FileLocation::Extents { ads, count, step, part_start, size } = l {
            lemma_extents_content_len(self.image_view(), ads as int, count as nat, step as int, part_start as int, size as int);
        }
    }

    pub open spec fn contents(self, ls: Seq<FileLocation>) -> Seq<Seq<u8>> {
        ls.map_values(|l: FileLocation| self.content(l))
    }

    /// The title VOB parts of `title` from part `p` on, up to the first one missing.
    pub open spec fn vob_parts(self, title: usize, p: int) -> Seq<FileLocation>
        decreases MAX_PARTS + 1 - p,
    {
        if p < 1 || p > MAX_PARTS {
            seq![]
        } else {
            match self.located(FileKey { title, domain: DvdDomain::TitleVobs, part: p as usize }) {
                Ok(l) => seq![l] + self.vob_parts(title, p + 1),
                Err(_) => seq![],
            }
        }
    }

    /// The parts of the file of `title` in `domain`: the consecutive title
    /// VOB parts from 1, or the single file of another domain.
    pub open spec fn title_parts(self, title: usize, domain: DvdDomain) -> Seq<FileLocation> {
        if domain == DvdDomain::TitleVobs {
            self.vob_parts(title, 1)
        } else {
            match self.located(first_key(title, domain)) {
                Ok(l) => seq![l],
                Err(_) => seq![],
            }
        }
    }

    proof fn lemma_vob_parts_len(self, title: usize, p: int)
        requires
            1 <= p <= MAX_PARTS + 1,
        ensures
            self.vob_parts(title, p).len() <= MAX_PARTS + 1 - p,
            p <= MAX_PARTS ==> (self.vob_parts(title, p).len() == 0 <==> self.located(
                FileKey { title, domain: DvdDomain::TitleVobs, part: p as usize },
            ).is_err()),
        decreases MAX_PARTS + 1 - p,
    {
        if p <= MAX_PARTS {
            self.lemma_vob_parts_len(title, p + 1);
        }
    }

    /// Resolves the parts of the file of `title` in `domain`.
    fn locate_parts(&mut self, title: usize, domain: DvdDomain) -> (r: Result<Vec<FileLocation>, DvdError>)
        requires
            old(self).wf(),
            !old(self).is_closed(),
        ensures
            final(self).wf(),
            final(self).same_volume(*old(self)),
            final(self).level() == old(self).level(),
            final(self).handles() == old(self).handles(),
            final(self).is_closed() == old(self).is_closed(),
            match old(self).located(first_key(title, domain)) {
                Err(e) => r == Err::<Vec<FileLocation>, DvdError>(e),
                Ok(_) => r.is_ok() && r.unwrap()@ == old(self).title_parts(title, domain),
            },
            old(self).title_parts(title, domain).len() <= MAX_PARTS,
            domain != DvdDomain::TitleVobs ==> old(self).title_parts(title, domain).len() <= 1,
            (old(self).title_parts(title, domain).len() == 0) == old(self).located(first_key(title, domain)).is_err(),
    {
        let ghost s0 = *self;
        proof {
            s0.lemma_vob_parts_len(title, 1);
        }
        let mut v: Vec<FileLocation> = Vec::new();
        if domain != DvdDomain::TitleVobs {
            match self.resolve(FileKey { title, domain, part: 0 }) {
                Ok(l) => {
                    v.push(l);
                    assert(v@ =~= s0.title_parts(title, domain));
                    return Ok(v);
                },
                Err(e) => return Err(e),
            }
        }
        let mut p: usize = 1;
        while p <= MAX_PARTS
            invariant
                s0 == *old(self),
                self.wf(),
                self.same_volume(s0),
                self.level() == s0.level(),
                self.handles() == s0.handles(),
                !self.is_closed(),
                s0.is_closed() == self.is_closed(),
                domain == DvdDomain::TitleVobs,
                1 <= p <= MAX_PARTS + 1,
                v@.len() == p - 1,
                s0.vob_parts(title, 1) == v@ + s0.vob_parts(title, p as int),
            decreases MAX_PARTS + 1 - p,
        {
            let key = FileKey { title, domain, part: p };
            assert(self.located(key) == s0.located(key));
            match self.resolve(key) {
                Ok(l) => {
                    let ghost before = v@;
                    v.push(l);
                    assert(s0.vob_parts(title, p as int) == seq![l] + s0.vob_parts(title, p as int + 1));
                    assert(before + (seq![l] + s0.vob_parts(title, p as int + 1)) =~= v@ + s0.vob_parts(
                        title,
                        p as int + 1,
                    ));
                },
                Err(e) => {
                    assert(s0.vob_parts(title, p as int) == Seq::<FileLocation>::empty());
                    assert(v@ + Seq::<FileLocation>::empty() =~= v@);
                    if p == 1 {
                        return Err(e);
                    }
                    return Ok(v);
                },
            }
            p = p + 1;
        }
        assert(s0.vob_parts(title, p as int) == Seq::<FileLocation>::empty());
        assert(v@ + Seq::<FileLocation>::empty() =~= v@);
        Ok(v)
    }

    /// Size, number of parts and part sizes of the file of `title` in
    /// `domain`. Only title VOBs have more than one part; the size is the sum
    /// of the part sizes. Fails as the first part fails to resolve, and with
    /// `CorruptVolume` when the sizes add up past 64 bits.
    pub fn file_stat(&mut self, title_num: usize, domain: DvdDomain) -> (r: Result<FileStat, DvdError>)
        requires
            old(self).wf(),
        ensures
            final(self).wf(),
            final(self).same_volume(*old(self)),
            final(self).level() == old(self).level(),
            final(self).handles() == old(self).handles(),
            final(self).is_closed() == old(self).is_closed(),
            old(self).is_closed() ==> r == Err::<FileStat, DvdError>(DvdError::PreconditionViolation),
            !old(self).is_closed() ==> {
                let ps = old(self).title_parts(title_num, domain);
                let sz = sizes_of(ps);
                match r {
                    Ok(st) => {
                        &&& ps.len() > 0
                        &&& st.parts_size@ == sz
                        &&& st.nr_parts == ps.len()
                        &&& st.size as int == total_size(sz)
                    },
                    Err(e) => match old(self).located(first_key(title_num, domain)) {
                        Err(e1) => e == e1,
                        Ok(_) => e == DvdError::CorruptVolume && total_size(sz) > u64::MAX,
                    },
                }
            },
            r matches Ok(st) ==> st.size as int == total_size(st.parts_size@),
            r matches Ok(st) ==> 1 <= st.nr_parts <= MAX_PARTS,
            r matches Ok(st) ==> (domain != DvdDomain::TitleVobs ==> st.nr_parts == 1),
    {
        if self.closed {
            return Err(DvdError::PreconditionViolation);
        }
        let parts = match self.locate_parts(title_num, domain) {
            Ok(v) => v,
            Err(e) => return Err(e),
        };
        let sizes = part_sizes(&parts);
        match checked_total(&sizes) {
            Some(t) => Ok(FileStat { size: t, nr_parts: parts.len(), parts_size: sizes }),
            None => Err(DvdError::CorruptVolume),
        }
    }

    /// Opens the file of `title_number` in `domain` for reading; it counts as
    /// open until handed back to `close_file`. Fails as `file_stat` does.
    pub fn open_file(&mut self, title_number: usize, domain: DvdDomain) -> (r: Result<DvdFile, DvdError>)
        requires
            old(self).wf(),
        ensures
            final(self).wf(),
            final(self).same_volume(*old(self)),
            final(self).level() == old(self).level(),
            final(self).is_closed() == old(self).is_closed(),
            old(self).is_closed() ==> r == Err::<DvdFile, DvdError>(DvdError::PreconditionViolation),
            !old(self).is_closed() ==> {
                let ps = old(self).title_parts(title_number, domain);
                match r {
                    Ok(f) => {
                        &&& f.wf()
                        &&& ps.len() > 0
                        &&& total_size(sizes_of(ps)) <= u64::MAX
                        &&& f.parts_view() == ps
                        &&& f.offset_view() == 0
                        &&& f.volume_view() == final(self).stamp()
                        &&& final(self).handles() == old(self).handles() + 1
                    },
                    Err(e) => final(self).handles() == old(self).handles() && match old(self).located(
                        first_key(title_number, domain),
                    ) {
                        Err(e1) => e == e1,
                        Ok(_) => (e == DvdError::CorruptVolume && total_size(sizes_of(ps)) > u64::MAX) || (e
                            == DvdError::IoError && old(self).handles() == u64::MAX),
                    },
                }
            },
    {
        if self.closed {
            return Err(DvdError::PreconditionViolation);
        }
        let parts = match self.locate_parts(title_number, domain) {
            Ok(v) => v,
            Err(e) => return Err(e),
        };
        let sizes = part_sizes(&parts);
        if checked_total(&sizes).is_none() {
            return Err(DvdError::CorruptVolume);
        }
        if self.open_handles == u64::MAX {
            return Err(DvdError::IoError);
        }
        self.open_handles = self.open_handles + 1;
        Ok(DvdFile { parts, sizes, offset: 0, volume: self.volume_stamp() })
    }

    /// Hands a file back: it no longer counts as open. A file opened on a
    /// volume with another stamp is refused with `PreconditionViolation`.
    pub fn close_file(&mut self, file: DvdFile) -> (r: Result<(), DvdError>)
        requires
            old(self).wf(),
        ensures
            final(self).wf(),
            final(self).same_volume(*old(self)),
            final(self).level() == old(self).level(),
            final(self).is_closed() == old(self).is_closed(),
            final(self).walk_total() == old(self).walk_total(),
            r.is_err() <==> file.volume_view() != old(self).stamp(),
            r.is_err() ==> r == Err::<(), DvdError>(DvdError::PreconditionViolation) && final(self).handles()
                == old(self).handles(),
            r.is_ok() ==> final(self).handles() == if old(self).handles() > 0 {
                old(self).handles() - 1
            } else {
                0
            },
    {
        if file.volume != self.volume_stamp() {
            return Err(DvdError::PreconditionViolation);
        }
        if self.open_handles > 0 {
            self.open_handles = self.open_handles - 1;
        }
        Ok(())
    }

    fn is_readable(&self, l: FileLocation) -> (r: bool)
        ensures
            r == self.readable(l),
    {
        match l {
            FileLocation::Blocks { start, size } => {
                let n = self.image.len() as u64;
                size <= n && start as u64 * 2048 <= n - size
            },
            FileLocation::Extents { ads, count, step, part_start, size } => extents_readable_exec(
                &self.image,
                ads,
                count,
                step,
                part_start,
                size,
            ),
            FileLocation::Host { index, size } => index < self.files.len() && size <= self.files[index].data.len() as u64,
        }
    }

    fn fetch(&self, l: FileLocation, start: u64, len: u64) -> (r: Vec<u8>)
        requires
            self.readable(l),
            start + len <= l.size_spec(),
        ensures
            r@ == self.content(l).subrange(start as int, start + len),
    {
        match l {
            FileLocation::Blocks { start: b, size } => {
                let _n: usize = self.image.len();
                let off: u64 = b as u64 * 2048 + start;
                let r = crate::bytes::copy_range(&self.image, off as usize, len as usize);
                assert(r@ =~= self.content(l).subrange(start as int, start + len));
                r
            },
            FileLocation::Extents { ads, count, step, part_start, size } => read_extents(
                &self.image,
                ads,
                count,
                step,
                part_start,
                size,
                start,
                len,
            ),
            FileLocation::Host { index, size } => {
                let _n: usize = self.files[index].data.len();
                let r = crate::bytes::copy_range(&self.files[index].data, start as usize, len as usize);
                assert(r@ =~= self.content(l).subrange(start as int, start + len));
                r
            },
        }
    }

    /// Reads `block_count` blocks from block `block_offset` of an open file,
    /// crossing from one part to the next without gap or overlap: the result
    /// is that range of the parts' contents concatenated. Fails with
    /// `IoError` when the range passes the end of the file or a part lies
    /// outside the volume, and with `PreconditionViolation` once the volume is
    /// closed or when the file was opened on a volume with another stamp.
    /// The file's position moves to the end of the range read.
    pub fn read(&self, file: &mut DvdFile, block_offset: u64, block_count: u64) -> (r: Result<Vec<u8>, DvdError>)
        requires
            self.wf(),
            old(file).wf(),
        ensures
            final(file).wf(),
            final(file).parts_view() == old(file).parts_view(),
            self.is_closed() || old(file).volume_view() != self.stamp() ==> r == Err::<Vec<u8>, DvdError>(
                DvdError::PreconditionViolation,
            ),
            !self.is_closed() && old(file).volume_view() == self.stamp() ==> {
                let ps = old(file).parts_view();
                let lo = block_offset * 2048;
                let hi = (block_offset + block_count) * 2048;
                match r {
                    Ok(b) => {
                        &&& hi <= total_size(sizes_of(ps))
                        &&& forall|i: int| 0 <= i < ps.len() ==> self.readable(#[trigger] ps[i])
                        &&& b@ == concat_parts(self.contents(ps)).subrange(lo, hi)
                        &&& final(file).offset_view() == block_offset + block_count
                    },
                    Err(e) => e == DvdError::IoError && (hi > total_size(sizes_of(ps)) || exists|i: int|
                        0 <= i < ps.len() && !self.readable(#[trigger] ps[i])),
                }
            },
    {
        if self.closed || file.volume != self.volume_stamp() {
            return Err(DvdError::PreconditionViolation);
        }
        let ghost parts = file.parts@;
        let mut i: usize = 0;
        while i < file.parts.len()
            invariant
                self.wf(),
                !self.is_closed(),
                *file == *old(file),
                old(file).volume_view() == self.stamp(),
                file.wf(),
                i <= parts.len(),
                parts == file.parts@,
                forall|j: int| 0 <= j < i ==> self.readable(#[trigger] parts[j]),
            decreases parts.len() - i,
        {
            if !self.is_readable(file.parts[i]) {
                return Err(DvdError::IoError);
            }
            i = i + 1;
        }
        let spans = match plan_read(&file.sizes, block_offset, block_count) {
            Ok(s) => s,
            Err(e) => return Err(e),
        };
        let ghost ps = self.contents(parts);
        let ghost sizes = file.sizes@;
        let ghost lo = block_offset * 2048;
        let ghost hi = (block_offset + block_count) * 2048;
        assert(parts_sized(ps, sizes)) by {
            assert forall|k: int| 0 <= k < ps.len() implies #[trigger] ps[k].len() == sizes[k] by {
                assert(self.readable(parts[k]));
                self.lemma_content_len(parts[k]);
            }
        }
        proof {
            lemma_plan_in_bounds(sizes, sizes.len() as int, lo, hi);
        }
        let mut out: Vec<u8> = Vec::new();
        let mut j: usize = 0;
        while j < spans.len()
            invariant
                self.wf(),
                !self.is_closed(),
                *file == *old(file),
                old(file).volume_view() == self.stamp(),
                j <= spans@.len(),
                parts == file.parts@,
                sizes == file.sizes@,
                file.wf(),
                ps == self.contents(parts),
                spans@ == plan(sizes, sizes.len() as int, lo, hi),
                forall|k: int| 0 <= k < parts.len() ==> self.readable(#[trigger] parts[k]),
                forall|k: int|
                    0 <= k < spans@.len() ==> {
                        let s = #[trigger] spans@[k];
                        s.part < sizes.len() && s.start + s.len <= sizes[s.part as int]
                    },
                out@ == span_bytes(ps, spans@.take(j as int)),
            decreases spans@.len() - j,
        {
            let sp = spans[j];
            assert(spans@[j as int] == sp);
            let mut bytes = self.fetch(file.parts[sp.part], sp.start, sp.len);
            out.append(&mut bytes);
            assert(spans@.take(j as int + 1).drop_last() =~= spans@.take(j as int));
            j = j + 1;
        }
        proof {
            lemma_plan_bytes(ps, sizes, sizes.len() as int, lo, hi);
            assert(spans@.take(spans@.len() as int) =~= spans@);
            assert(ps.take(ps.len() as int) =~= ps);
        }
        file.offset = block_offset + block_count;
        Ok(out)
    }

    /// The information file of `title`: `VIDEO_TS.IFO` for 0, `VTS_tt_0.IFO` otherwise.
    pub open spec fn info_key(title: int) -> FileKey {
        FileKey { title: title as usize, domain: DvdDomain::InfoFile, part: 0 }
    }

    /// The information files of titles 0 to `n` that resolve, in title order.
    pub open spec fn ifo_locs(self, n: int) -> Seq<FileLocation>
        decreases n + 1,
    {
        if n < 0 {
            seq![]
        } else {
            self.ifo_locs(n - 1) + match self.located(Self::info_key(n)) {
                Ok(l) => seq![l],
                Err(_) => seq![],
            }
        }
    }

    /// What the disc identifier digests: `VIDEO_TS.IFO`, then each
    /// `VTS_tt_0.IFO` that resolves, in ascending title order.
    pub open spec fn disc_bytes(self) -> Seq<u8> {
        concat_parts(self.contents(self.ifo_locs(MAX_TITLE as int)))
    }

    /// Every information file that resolves lies within the volume.
    pub open spec fn ifos_readable(self) -> bool {
        forall|t: int|
            0 <= t <= MAX_TITLE ==> (#[trigger] self.located(Self::info_key(t)) matches Ok(l) ==> self.readable(l))
    }

    /// The disc identifier: the MD5 digest of `disc_bytes`, as 32 lower-case
    /// hexadecimal digits. Fails as `VIDEO_TS.IFO` fails to resolve, and with
    /// `IoError` when an information file lies outside the volume.
    pub fn disc_id(&mut self) -> (r: Result<String, DvdError>)
        requires
            old(self).wf(),
        ensures
            final(self).wf(),
            final(self).same_volume(*old(self)),
            final(self).level() == old(self).level(),
            final(self).handles() == old(self).handles(),
            final(self).is_closed() == old(self).is_closed(),
            old(self).is_closed() ==> r == Err::<String, DvdError>(DvdError::PreconditionViolation),
            !old(self).is_closed() ==> match old(self).located(Self::info_key(0)) {
                Err(e) => r == Err::<String, DvdError>(e),
                Ok(_) => if old(self).ifos_readable() {
                    r.is_ok() && r.unwrap()@ == hex_text(md5_of(old(self).disc_bytes())) && md5_of(
                        old(self).disc_bytes(),
                    ).len() == 16
                } else {
                    r == Err::<String, DvdError>(DvdError::IoError)
                },
            },
            r.is_ok() ==> r.unwrap()@.len() == 32,
    {
        if self.closed {
            return Err(DvdError::PreconditionViolation);
        }
        let ghost s0 = *self;
        let mut buf: Vec<u8> = Vec::new();
        let mut t: usize = 0;
        while t <= MAX_TITLE
            invariant
                s0 == *old(self),
                self.wf(),
                self.same_volume(s0),
                self.level() == s0.level(),
                self.handles() == s0.handles(),
                !self.is_closed(),
                !s0.is_closed(),
                t <= MAX_TITLE + 1,
                t > 0 ==> s0.located(Self::info_key(0)).is_ok(),
                forall|u: int|
                    0 <= u < t ==> (#[trigger] s0.located(Self::info_key(u)) matches Ok(l) ==> s0.readable(l)),
                buf@ == concat_parts(s0.contents(s0.ifo_locs(t - 1))),
            decreases MAX_TITLE + 1 - t,
        {
            let key = FileKey { title: t, domain: DvdDomain::InfoFile, part: 0 };
            assert(key == Self::info_key(t as int));
            assert(self.located(key) == s0.located(key));
            match self.resolve(key) {
                Ok(l) => {
                    if !self.is_readable(l) {
                        return Err(DvdError::IoError);
                    }
                    let mut bytes = self.fetch(l, 0, l.size());
                    proof {
                        s0.lemma_content_len(l);
                    }
                    let ghost before = s0.ifo_locs(t - 1);
                    assert(s0.ifo_locs(t as int) == before + seq![l]);
                    assert(s0.contents(before + seq![l]) =~= s0.contents(before).push(s0.content(l)));
                    assert(s0.contents(before).push(s0.content(l)).drop_last() =~= s0.contents(before));
                    assert(bytes@ =~= s0.content(l));
                    buf.append(&mut bytes);
                },
                Err(e) => {
                    if t == 0 {
                        return Err(e);
                    }
                    assert(s0.ifo_locs(t as int) =~= s0.ifo_locs(t - 1));
                },
            }
            t = t + 1;
        }
        let digest = md5_digest(&buf);
        proof {
            lemma_hex_text_len(digest@);
        }
        Ok(hex_string(&digest))
    }

    /// The UDF Primary Volume Descriptor's bytes, when the volume is read through UDF.
    pub open spec fn udf_pvd(self) -> Option<Seq<u8>> {
        match self.resolver_view() {
            Resolver::Udf(v) => if has_block(self.image_view(), v.pvd_block as int) {
                Some(self.image_view().subrange(at(v.pvd_block as int), at(v.pvd_block as int) + 2048))
            } else {
                None
            },
            _ => None,
        }
    }

    /// The ISO9660 Primary Volume Descriptor's bytes, when the image has one.
    pub open spec fn iso_pvd(self) -> Option<Seq<u8>> {
        if self.resolver_view() != Resolver::Directory && has_iso_pvd(self.image_view()) {
            Some(self.image_view().subrange(pvd_offset(), pvd_offset() + 2048))
        } else {
            None
        }
    }

    fn udf_pvd_offset(&self) -> (r: Result<usize, DvdError>)
        ensures
            match r {
                Ok(o) => o + 2048 <= self.image_view().len() && self.udf_pvd() == Some(
                    self.image_view().subrange(o as int, o + 2048),
                ) && !self.is_closed(),
                Err(e) => if self.is_closed() {
                    e == DvdError::PreconditionViolation
                } else {
                    e == DvdError::IoError && self.udf_pvd().is_none()
                },
            },
    {
        if self.closed {
            return Err(DvdError::PreconditionViolation);
        }
        match self.resolver {
            Resolver::Udf(v) => {
                let n: usize = self.image.len();
                if v.pvd_block < (n / 2048) as u64 {
                    assert(has_block(self.image@, v.pvd_block as int)) by (nonlinear_arith)
                        requires
                            v.pvd_block < n / 2048,
                            n == self.image@.len(),
                    ;
                    Ok((v.pvd_block * 2048) as usize)
                } else {
                    assert(!has_block(self.image@, v.pvd_block as int)) by (nonlinear_arith)
                        requires
                            v.pvd_block >= n / 2048,
                            n == self.image@.len(),
                    ;
                    Err(DvdError::IoError)
                }
            },
            _ => Err(DvdError::IoError),
        }
    }

    /// The UDF volume identifier, decoded to Latin-1 bytes. Fails with
    /// `IoError` on a volume not read through UDF.
    pub fn udf_get_volume_identifier(&self) -> (r: Result<Vec<u8>, DvdError>)
        ensures
            self.is_closed() ==> r == Err::<Vec<u8>, DvdError>(DvdError::PreconditionViolation),
            !self.is_closed() ==> match self.udf_pvd() {
                Some(p) => r.is_ok() && r.unwrap()@ == decode_dstring(p.subrange(24, 56)),
                None => r == Err::<Vec<u8>, DvdError>(DvdError::IoError),
            },
    {
        let o = match self.udf_pvd_offset() {
            Ok(o) => o,
            Err(e) => return Err(e),
        };
        let _n: usize = self.image.len();
        let r = read_dstring(&self.image, o + UDF_VOLUME_ID);
        assert(self.image@.subrange(o as int, o + 2048).subrange(24, 56) =~= self.image@.subrange(
            o + 24,
            o + 56,
        ));
        Ok(r)
    }

    /// The 128 bytes of the UDF volume set identifier, as stored. Fails with
    /// `IoError` on a volume not read through UDF.
    pub fn udf_get_volume_set_identifier(&self) -> (r: Result<Vec<u8>, DvdError>)
        ensures
            self.is_closed() ==> r == Err::<Vec<u8>, DvdError>(DvdError::PreconditionViolation),
            !self.is_closed() ==> match self.udf_pvd() {
                Some(p) => r.is_ok() && r.unwrap()@ == p.subrange(72, 200),
                None => r == Err::<Vec<u8>, DvdError>(DvdError::IoError),
            },
    {
        let o = match self.udf_pvd_offset() {
            Ok(o) => o,
            Err(e) => return Err(e),
        };
        let _n: usize = self.image.len();
        let r = copy_range(&self.image, o + UDF_VOLUME_SET_ID, 128);
        assert(r@ =~= self.image@.subrange(o as int, o + 2048).subrange(72, 200));
        Ok(r)
    }

    /// The UDF volume identifier and volume set identifier, each cut to at
    /// most the given number of bytes. Fails with `IoError` on a volume not
    /// read through UDF.
    pub fn udf_volume_info(&self, volid_size: usize, volsetid_size: usize) -> (r: Result<(Vec<u8>, Vec<u8>), DvdError>)
        ensures
            self.is_closed() ==> r == Err::<(Vec<u8>, Vec<u8>), DvdError>(DvdError::PreconditionViolation),
            !self.is_closed() ==> match self.udf_pvd() {
                Some(p) => r.is_ok() && r.unwrap().0@ == clipped(decode_dstring(p.subrange(24, 56)), volid_size as int)
                    && r.unwrap().1@ == clipped(p.subrange(72, 200), volsetid_size as int),
                None => r == Err::<(Vec<u8>, Vec<u8>), DvdError>(DvdError::IoError),
            },
    {
        let id = match self.udf_get_volume_identifier() {
            Ok(v) => v,
            Err(e) => return Err(e),
        };
        let set = match self.udf_get_volume_set_identifier() {
            Ok(v) => v,
            Err(e) => return Err(e),
        };
        Ok((clip(id, volid_size), clip(set, volsetid_size)))
    }

    /// The ISO9660 volume identifier (up to its first space) and volume set
    /// identifier, each cut to at most the given number of bytes. For discs
    /// mastered without UDF; fails with `IoError` where the image has no
    /// ISO9660 descriptor and on a directory.
    pub fn iso_volume_info(&self, volid_size: usize, volsetid_size: usize) -> (r: Result<(Vec<u8>, Vec<u8>), DvdError>)
        ensures
            self.is_closed() ==> r == Err::<(Vec<u8>, Vec<u8>), DvdError>(DvdError::PreconditionViolation),
            !self.is_closed() ==> match self.iso_pvd() {
                Some(p) => r.is_ok() && r.unwrap().0@ == clipped(iso_identifier(p.subrange(40, 72)), volid_size as int)
                    && r.unwrap().1@ == clipped(p.subrange(190, 318), volsetid_size as int),
                None => r == Err::<(Vec<u8>, Vec<u8>), DvdError>(DvdError::IoError),
            },
    {
        if self.closed {
            return Err(DvdError::PreconditionViolation);
        }
        if self.resolver == Resolver::Directory || iso_root_entry(&self.image).is_none() {
            return Err(DvdError::IoError);
        }
        let o: usize = 16 * 2048;
        let id = read_iso_identifier(&self.image, o + ISO_VOLUME_ID, 32);
        let set = copy_range(&self.image, o + ISO_VOLUME_SET_ID, 128);
        assert(self.image@.subrange(o as int, o + 2048).subrange(40, 72) =~= self.image@.subrange(
            o + 40,
            o + 72,
        ));
        assert(set@ =~= self.image@.subrange(o as int, o + 2048).subrange(190, 318));
        Ok((clip(id, volid_size), clip(set, volsetid_size)))
    }

    fn find_cached_path(&self, path: &Vec<u8>) -> (r: Option<DirEntry>)
        requires
            self.wf(),
        ensures
            match r {
                Some(e) => self.cached_path(path@) && self.path_found(path@) == Some(e) && e.start != 0,
                None => !self.cached_path(path@),
            },
    {
        let mut i: usize = 0;
        while i < self.path_cache.len()
            invariant
                self.wf(),
                i <= self.path_cache@.len(),
                forall|j: int| 0 <= j < i ==> (#[trigger] self.path_cache@[j]).path@ != path@,
            decreases self.path_cache@.len() - i,
        {
            if bytes_equal(&self.path_cache[i].path, path) {
                assert(self.path_cache@[i as int].path@ == path@);
                return Some(self.path_cache[i].entry);
            }
            i = i + 1;
        }
        None
    }

    /// Looks an absolute path (`/VIDEO_TS/VTS_01_1.IFO`) up in the UDF file
    /// system: the block where the file begins and its size in bytes. Fails
    /// with `NotFound` when the path does not resolve or the volume is not
    /// read through UDF; block 0 is never a file's start, so an entry there
    /// gives `NotFound` too. At cache level 1 a path already found is answered
    /// from the cache, without a walk, and a path found is kept; at level 0
    /// every call on a UDF volume walks the metadata.
    pub fn udf_find_file(&mut self, path: &Vec<u8>) -> (r: Result<(u32, u64), DvdError>)
        requires
            old(self).wf(),
        ensures
            final(self).wf(),
            final(self).same_volume(*old(self)),
            final(self).level() == old(self).level(),
            final(self).handles() == old(self).handles(),
            final(self).is_closed() == old(self).is_closed(),
            old(self).is_closed() ==> r == Err::<(u32, u64), DvdError>(DvdError::PreconditionViolation),
            !old(self).is_closed() ==> match old(self).path_found(path@) {
                Some(e) => if e.start != 0 {
                    r == Ok::<(u32, u64), DvdError>((e.start, e.size))
                } else {
                    r == Err::<(u32, u64), DvdError>(DvdError::NotFound)
                },
                None => r == Err::<(u32, u64), DvdError>(DvdError::NotFound),
            },
            r matches Ok((b, _)) ==> b != 0,
            old(self).level() == 1 && old(self).cached_path(path@) ==> final(self).walk_total() == old(
                self,
            ).walk_total(),
            !old(self).reads_udf() ==> final(self).walk_total() == old(self).walk_total(),
            !old(self).is_closed() && old(self).reads_udf() && !(old(self).level() == 1
                && old(self).cached_path(path@)) && old(self).walk_total() < u64::MAX
                ==> final(self).walk_total() == old(self).walk_total() + 1,
            old(self).level() == 1 && r.is_ok() ==> final(self).cached_path(path@),
    {
        if self.closed {
            return Err(DvdError::PreconditionViolation);
        }
        let v = match self.resolver {
            Resolver::Udf(v) => v,
            _ => return Err(DvdError::NotFound),
        };
        if self.cache_level == 1 {
            match self.find_cached_path(path) {
                Some(e) => return Ok((e.start, e.size)),
                None => {},
            }
        }
        let found = udf_resolve_path(&self.image, v, path);
        assert(found == self.path_found(path@));
        if self.walks < u64::MAX {
            self.walks = self.walks + 1;
        }
        let e = match found {
            Some(e) => e,
            None => return Err(DvdError::NotFound),
        };
        if e.start == 0 {
            return Err(DvdError::NotFound);
        }
        if self.cache_level == 1 {
            let ghost before = self.path_cache@;
            self.path_cache.push(PathEntry { path: path.clone(), entry: e });
            assert(self.path_cache@[before.len() as int].path@ == path@);
            assert forall|i: int| 0 <= i < self.path_cache@.len() implies self.path_found(
                (#[trigger] self.path_cache@[i]).path@,
            ) == Some(self.path_cache@[i].entry) && self.path_cache@[i].entry.start != 0 by {
                if i < before.len() {
                    assert(self.path_cache@[i] == before[i]);
                }
            }
        }
        Ok((e.start, e.size))
    }

    /// The bytes of the information file of `title` (`VIDEO_TS.IFO` for 0),
    /// for a parser of its structures. Fails as the file fails to resolve,
    /// and with `IoError` when it lies outside the volume.
    pub fn ifo_open(&mut self, title: usize) -> (r: Result<Vec<u8>, DvdError>)
        requires
            old(self).wf(),
        ensures
            final(self).wf(),
            final(self).same_volume(*old(self)),
            final(self).level() == old(self).level(),
            final(self).handles() == old(self).handles(),
            final(self).is_closed() == old(self).is_closed(),
            old(self).is_closed() ==> r == Err::<Vec<u8>, DvdError>(DvdError::PreconditionViolation),
            !old(self).is_closed() ==> match old(self).located(Self::info_key(title as int)) {
                Err(e) => r == Err::<Vec<u8>, DvdError>(e),
                Ok(l) => if old(self).readable(l) {
                    r.is_ok() && r.unwrap()@ == old(self).content(l)
                } else {
                    r == Err::<Vec<u8>, DvdError>(DvdError::IoError)
                },
            },
    {
        let key = FileKey { title, domain: DvdDomain::InfoFile, part: 0 };
        let l = match self.resolve(key) {
            Ok(l) => l,
            Err(e) => return Err(e),
        };
        if !self.is_readable(l) {
            return Err(DvdError::IoError);
        }
        let r = self.fetch(l, 0, l.size());
        proof {
            self.lemma_content_len(l);
        }
        assert(r@ =~= self.content(l));
        Ok(r)
    }

    /// The bytes of the video manager's information file, `VIDEO_TS.IFO`.
    pub fn ifo_open_vmgi(&mut self) -> (r: Result<Vec<u8>, DvdError>)
        requires
            old(self).wf(),
        ensures
            final(self).wf(),
            final(self).same_volume(*old(self)),
            final(self).is_closed() == old(self).is_closed(),
            old(self).is_closed() ==> r == Err::<Vec<u8>, DvdError>(DvdError::PreconditionViolation),
            !old(self).is_closed() ==> match old(self).located(Self::info_key(0)) {
                Err(e) => r == Err::<Vec<u8>, DvdError>(e),
                Ok(l) => if old(self).readable(l) {
                    r.is_ok() && r.unwrap()@ == old(self).content(l)
                } else {
                    r == Err::<Vec<u8>, DvdError>(DvdError::IoError)
                },
            },
    {
        self.ifo_open(0)
    }

    /// The bytes of the information file of title set `title`,
    /// `VTS_tt_0.IFO`; title 0 is not a title set and gives `NotFound`.
    pub fn ifo_open_vtsi(&mut self, title: usize) -> (r: Result<Vec<u8>, DvdError>)
        requires
            old(self).wf(),
        ensures
            final(self).wf(),
            final(self).same_volume(*old(self)),
            final(self).is_closed() == old(self).is_closed(),
            old(self).is_closed() ==> r == Err::<Vec<u8>, DvdError>(DvdError::PreconditionViolation),
            !old(self).is_closed() && title == 0 ==> r == Err::<Vec<u8>, DvdError>(DvdError::NotFound),
            !old(self).is_closed() && title > 0 ==> match old(self).located(Self::info_key(title as int)) {
                Err(e) => r == Err::<Vec<u8>, DvdError>(e),
                Ok(l) => if old(self).readable(l) {
                    r.is_ok() && r.unwrap()@ == old(self).content(l)
                } else {
                    r == Err::<Vec<u8>, DvdError>(DvdError::IoError)
                },
            },
    {
        if self.closed {
            return Err(DvdError::PreconditionViolation);
        }
        if title == 0 {
            return Err(DvdError::NotFound);
        }
        self.ifo_open(title)
    }

    /// Closes the volume and lets go of its bytes. Fails with
    /// `PreconditionViolation` while files are open or once it is closed.
    pub fn close(&mut self) -> (r: Result<(), DvdError>)
        requires
            old(self).wf(),
        ensures
            final(self).wf(),
            final(self).handles() == old(self).handles(),
            r.is_ok() <==> !old(self).is_closed() && old(self).handles() == 0,
            r.is_err() ==> r == Err::<(), DvdError>(DvdError::PreconditionViolation) && *final(self) == *old(self),
            final(self).is_closed() == (old(self).is_closed() || r.is_ok()),
            r.is_ok() ==> final(self).image_view().len() == 0 && final(self).files_view().len() == 0,
    {
        if self.closed || self.open_handles > 0 {
            return Err(DvdError::PreconditionViolation);
        }
        self.closed = true;
        self.image = Vec::new();
        self.files = Vec::new();
        self.cache = Vec::new();
        self.path_cache = Vec::new();
        Ok(())
    }
}

/// An image whose UDF descriptors or UDF root directory do not read, but
/// with an ISO9660 file system, is opened with the ISO9660 resolver, and
/// every file then resolves as the ISO9660 walk finds it.
pub proof fn lemma_iso_fallback(img: Seq<u8>, d: DvdReader, key: FileKey)
    requires
        udf_usable(img).is_none(),
        iso_root(img).is_some(),
        d.image_view() == img,
        d.resolver_view() == (match udf_usable(img) {
            Some(v) => Resolver::Udf(v),
            None => Resolver::Iso,
        }),
        valid_request(key.title as int, key.domain, key.part as int),
    ensures
        d.resolver_view() == Resolver::Iso,
        d.located(key) == iso_lookup(img, file_name(key.title as int, key.domain, key.part as int)),
{
}

proof fn lemma_iso_located_size(d: DvdReader, key: FileKey)
    requires
        d.resolver_view() == Resolver::Iso,
    ensures
        d.located(key) matches Ok(l) ==> l.size_spec() <= u32::MAX,
{
    if valid_request(key.title as int, key.domain, key.part as int) {
        lemma_iso_size_bound(d.image_view(), file_name(key.title as int, key.domain, key.part as int));
    }
}

proof fn lemma_iso_vob_sizes(d: DvdReader, title: usize, p: int)
    requires
        d.resolver_view() == Resolver::Iso,
    ensures
        forall|k: int| 0 <= k < d.vob_parts(title, p).len() ==> (#[trigger] d.vob_parts(title, p)[k]).size_spec()
            <= u32::MAX,
    decreases MAX_PARTS + 1 - p,
{
    if !(p < 1 || p > MAX_PARTS) {
        let key = FileKey { title, domain: DvdDomain::TitleVobs, part: p as usize };
        lemma_iso_located_size(d, key);
        lemma_iso_vob_sizes(d, title, p + 1);
        if let Ok(l) = d.located(key) {
            let rest = d.vob_parts(title, p + 1);
            assert(d.vob_parts(title, p) == seq![l] + rest);
            assert forall|k: int| 0 <= k < d.vob_parts(title, p).len() implies (#[trigger] d.vob_parts(
                title,
                p,
            )[k]).size_spec() <= u32::MAX by {
                if k > 0 {
                    assert(d.vob_parts(title, p)[k] == rest[k - 1]);
                }
            }
        }
    }
}

proof fn lemma_part_base_bound(sizes: Seq<u64>, i: int)
    requires
        0 <= i <= sizes.len(),
        forall|k: int| 0 <= k < sizes.len() ==> #[trigger] sizes[k] <= u32::MAX,
    ensures
        part_base(sizes, i) <= i * (u32::MAX as int),
    decreases i,
{
    if i > 0 {
        lemma_part_base_bound(sizes, i - 1);
    }
}

/// On a volume read through ISO9660 every size is a 32-bit value, so the
/// parts of any file add up within 64 bits: there `file_stat` succeeds
/// whenever the file's first part resolves.
pub proof fn lemma_iso_stat_fits(d: DvdReader, title: usize, domain: DvdDomain)
    requires
        d.resolver_view() == Resolver::Iso,
    ensures
        total_size(sizes_of(d.title_parts(title, domain))) <= u64::MAX,
{
    let ps = d.title_parts(title, domain);
    let sz = sizes_of(ps);
    d.lemma_vob_parts_len(title, 1);
    lemma_iso_vob_sizes(d, title, 1);
    lemma_iso_located_size(d, first_key(title, domain));
    assert forall|k: int| 0 <= k < sz.len() implies #[trigger] sz[k] <= u32::MAX by {
        assert(sz[k] == ps[k].size_spec());
    }
    lemma_part_base_bound(sz, sz.len() as int);
}

/// Two readers of the same volume identify it alike: the bytes that the
/// disc identifier digests, and so the identifier, are the same.
pub proof fn lemma_disc_id_deterministic(a: DvdReader, b: DvdReader)
    requires
        a.same_volume(b),
    ensures
        a.disc_bytes() == b.disc_bytes(),
        hex_text(md5_of(a.disc_bytes())) == hex_text(md5_of(b.disc_bytes())),
{
    lemma_same_ifo_locs(a, b, MAX_TITLE as int);
    assert(a.contents(a.ifo_locs(MAX_TITLE as int)) =~= b.contents(b.ifo_locs(MAX_TITLE as int)));
}

proof fn lemma_same_ifo_locs(a: DvdReader, b: DvdReader, n: int)
    requires
        a.same_volume(b),
    ensures
        a.ifo_locs(n) == b.ifo_locs(n),
    decreases n + 1,
{
    if n >= 0 {
        lemma_same_ifo_locs(a, b, n - 1);
    }
}

/// The UDF volume of the image, when its descriptors read and its root File
/// Entry is a directory.
pub open spec fn udf_usable(img: Seq<u8>) -> Option<UdfVolume> {
    match udf_volume(img) {
        Some(v) => match file_entry(img, v, v.root_icb as int) {
            Some(root) if root.is_dir => Some(v),
            _ => None,
        },
        None => None,
    }
}

/// The first part asked for: 1 for title VOBs, 0 for every other domain.
pub open spec fn first_key(title: usize, domain: DvdDomain) -> FileKey {
    FileKey { title, domain, part: if domain == DvdDomain::TitleVobs { 1 } else { 0 } }
}

/// The sizes of the files at the given locations.
pub open spec fn sizes_of(ls: Seq<FileLocation>) -> Seq<u64> {
    ls.map_values(|l: FileLocation| l.size_spec())
}

fn part_sizes(parts: &Vec<FileLocation>) -> (r: Vec<u64>)
    ensures
        r@ == sizes_of(parts@),
{
    let mut r: Vec<u64> = Vec::new();
    let mut i: usize = 0;
    while i < parts.len()
        invariant
            i <= parts@.len(),
            r@ == sizes_of(parts@.take(i as int)),
        decreases parts@.len() - i,
    {
        r.push(parts[i].size());
        i = i + 1;
        assert(r@ =~= sizes_of(parts@.take(i as int)));
    }
    assert(parts@.take(parts@.len() as int) =~= parts@);
    r
}

/// What `file_stat` reports: total size, number of parts, size of each part.
pub struct FileStat {
    pub size: u64,
    pub nr_parts: usize,
    pub parts_size: Vec<u64>,
}

/// What a file handle records of the volume it was opened on: the length of
/// the image, the number of host files and the resolver. Closing a volume
/// lets go of its bytes, which changes its stamp.
#[derive(Clone, Copy, Debug, PartialEq, Eq, Structural)]
pub struct VolumeStamp {
    pub image_len: usize,
    pub files_len: usize,
    pub resolver: Resolver,
}

/// An open file of a volume: its parts, the position reached by reading, and
/// the stamp of its volume.
pub struct DvdFile {
    parts: Vec<FileLocation>,
    sizes: Vec<u64>,
    offset: u64,
    volume: VolumeStamp,
}

impl DvdFile {
    pub closed spec fn parts_view(self) -> Seq<FileLocation> {
        self.parts@
    }

    /// The stamp of the volume the file was opened on.
    pub closed spec fn volume_view(self) -> VolumeStamp {
        self.volume
    }

    /// The block after the last one read.
    pub closed spec fn offset_view(self) -> u64 {
        self.offset
    }

    pub closed spec fn wf(self) -> bool {
        &&& self.sizes@ == sizes_of(self.parts@)
        &&& total_size(self.sizes@) <= u64::MAX
        &&& self.parts@.len() <= MAX_PARTS
    }

    /// Size of the file in bytes: the sum of its part sizes.
    pub fn size(&self) -> (r: u64)
        requires
            self.wf(),
        ensures
            r as int == total_size(sizes_of(self.parts_view())),
    {
        crate::multipart::total_of(&self.sizes)
    }

    /// Number of parts of the file.
    pub fn nr_parts(&self) -> (r: usize)
        ensures
            r == self.parts_view().len(),
    {
        self.parts.len()
    }

    /// The block after the last one read.
    pub fn position(&self) -> (r: u64)
        ensures
            r == self.offset_view(),
    {
        self.offset
    }
}

} // verus!
