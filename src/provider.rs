//! Chunks read from a world packed in a zip archive, with each region file
//! decompressed at most once.
use crate::address::{lemma_region_offset, offset_of, region_of, RegionAndOffset};
use crate::archive::{entry_names, open_archive, read_entry, EntryReadError};
use crate::cache::RegionCache;
use crate::locator::{is_region_folder, entry_name, LocatorError, RegionLayout, RegionLocator};
use std::io::Read;
use std::io::Seek;
use vstd::prelude::*;

verus! {

/// Why a chunk could not be loaded.
#[derive(Debug)]
pub enum ChunkLoadError {
    /// The archive holds no file for this region: none of its chunks exist.
    RegionNotFound { region_x: i32, region_z: i32 },
    /// Reading or decompressing the region file failed.
    Io(std::io::Error),
    /// The region file was read, but the chunk could not be read out of it.
    Chunk(ChunkReadError),
}

/// Why a chunk could not be read out of the bytes of its region file.
#[derive(Debug)]
pub enum ChunkReadError {
    /// The region file holds nothing at this place.
    ChunkNotFound { region_chunk_x: u8, region_chunk_z: u8 },
    /// The region file or the chunk in it is malformed.
    InvalidData(String),
}

/// What a chunk load gives when the region reader returned `c`.
pub open spec fn chunk_result(c: Result<nbt::CompoundTag, ChunkReadError>) -> Result<
    nbt::CompoundTag,
    ChunkLoadError,
> {
    match c {
        Ok(t) => Ok(t),
        Err(e) => Err(ChunkLoadError::Chunk(e)),
    }
}

/// Why a chunk could not be saved.
#[derive(Clone, Copy, Debug, PartialEq, Eq)]
pub enum ChunkSaveError {
    /// Worlds read from an archive cannot be written.
    UnsupportedOperation,
}

/// Why a provider could not be made over an archive.
#[derive(Debug)]
pub enum ProviderError {
    /// The archive could not be read as a zip archive.
    Archive(zip::result::ZipError),
    /// No entry of the archive is a folder named `region`.
    NoRegionFolderFound,
    /// More than one entry is a folder named `region`.
    AmbiguousRegionFolder,
}

/// The region that holds chunk (`chunk_x`, `chunk_z`).
pub open spec fn region_key(chunk_x: int, chunk_z: int) -> (int, int) {
    (region_of(chunk_x), region_of(chunk_z))
}

/// The provider error for a failed region folder discovery.
pub fn locator_error(e: LocatorError) -> (r: ProviderError)
    ensures
        e is NoRegionFolderFound ==> r is NoRegionFolderFound,
        e is AmbiguousRegionFolder ==> r is AmbiguousRegionFolder,
{
    match e {
        LocatorError::NoRegionFolderFound => ProviderError::NoRegionFolderFound,
        LocatorError::AmbiguousRegionFolder => ProviderError::AmbiguousRegionFolder,
    }
}

/// Chunks of a world packed in a zip archive. Region files are decompressed
/// whole, once, when a chunk of theirs is first loaded, and kept until the
/// provider is dropped.
#[verifier::reject_recursive_types(R)]
pub struct ZipChunkProvider<R> {
    zip_archive: zip::ZipArchive<R>,
    locator: RegionLocator,
    cache: RegionCache,
}

impl<R> ZipChunkProvider<R> {
    /// The prefix under which region files lie in the archive.
    pub closed spec fn prefix_view(&self) -> Seq<char> {
        self.locator@
    }

    /// The decompressed region files held, by region coordinate.
    pub closed spec fn cache_view(&self) -> Map<(int, int), Seq<u8>> {
        self.cache@
    }
}

/// `e` says that the archive holds no file for the region of chunk
/// (`chunk_x`, `chunk_z`), and names that region.
pub open spec fn is_region_not_found(e: ChunkLoadError, chunk_x: int, chunk_z: int) -> bool {
    e matches ChunkLoadError::RegionNotFound { region_x, region_z } && region_x as int == region_of(
        chunk_x,
    ) && region_z as int == region_of(chunk_z)
}

/// What loading the region of chunk (`chunk_x`, `chunk_z`) does to a
/// provider, from `before` to `after`: a region already held changes
/// nothing (the archive is not read), and one not held is either added
/// with its bytes or, on failure, not added at all.
pub open spec fn load_region_post<R>(
    before: ZipChunkProvider<R>,
    after: ZipChunkProvider<R>,
    chunk_x: int,
    chunk_z: int,
) -> bool {
    let k = region_key(chunk_x, chunk_z);
    &&& after.prefix_view() == before.prefix_view()
    &&& before.cache_view().contains_key(k) ==> after == before
    &&& !before.cache_view().contains_key(k) ==> {
        ||| after.cache_view() == before.cache_view()
        ||| exists|b: Seq<u8>| after.cache_view() == before.cache_view().insert(k, b)
    }
}

/// Once a region has been loaded, loading any chunk of that region again
/// changes nothing: the archive is not read a second time, and the bytes
/// decompressed by the first load are the ones used.
pub proof fn lemma_region_loaded_once<R>(
    p0: ZipChunkProvider<R>,
    p1: ZipChunkProvider<R>,
    p2: ZipChunkProvider<R>,
    chunk_x1: int,
    chunk_z1: int,
    chunk_x2: int,
    chunk_z2: int,
)
    requires
        load_region_post(p0, p1, chunk_x1, chunk_z1),
        p1.cache_view().contains_key(region_key(chunk_x1, chunk_z1)),
        load_region_post(p1, p2, chunk_x2, chunk_z2),
        region_key(chunk_x1, chunk_z1) == region_key(chunk_x2, chunk_z2),
    ensures
        p2 == p1,
        p2.cache_view()[region_key(chunk_x2, chunk_z2)] == p1.cache_view()[region_key(
            chunk_x1,
            chunk_z1,
        )],
{
}

impl<R: Read + Seek> ZipChunkProvider<R> {
    /// A provider over the zip archive read from `reader`, with the region
    /// folder discovered among its entries.
    pub fn new(reader: R) -> (r: Result<Self, ProviderError>)
        ensures
            r matches Ok(p) ==> p.cache_view().is_empty() && is_region_folder(
                p.prefix_view(),
            ),
    {
        Self::with_layout(reader, RegionLayout::AutoDiscover)
    }

    /// A provider over the zip archive read from `reader`, with region files
    /// found as `layout` says.
    pub fn with_layout(reader: R, layout: RegionLayout) -> (r: Result<Self, ProviderError>)
        ensures
            r matches Ok(p) ==> p.cache_view().is_empty(),
            r matches Ok(p) ==> (layout matches RegionLayout::FixedPrefix(s) ==> p.prefix_view()
                == s@),
            r matches Ok(p) ==> (layout is AutoDiscover ==> is_region_folder(p.prefix_view())),
            layout is FixedPrefix ==> (r is Ok || (r matches Err(ProviderError::Archive(_)))),
    {
        let zip_archive = match open_archive(reader) {
            Ok(a) => a,
            Err(e) => {
                return Err(ProviderError::Archive(e));
            },
        };
        let locator = match layout {
            RegionLayout::FixedPrefix(p) => RegionLocator::with_prefix(p),
            RegionLayout::AutoDiscover => {
                let names = entry_names(&zip_archive);
                match RegionLocator::discover(&names) {
                    Ok(l) => l,
                    Err(e) => {
                        return Err(locator_error(e));
                    },
                }
            },
        };
        Ok(Self::from_archive(zip_archive, locator))
    }

    /// A provider over `zip_archive` that takes region files from where
    /// `locator` says, with nothing decompressed yet.
    pub fn from_archive(zip_archive: zip::ZipArchive<R>, locator: RegionLocator) -> (r: Self)
        ensures
            r.cache_view().is_empty(),
            r.prefix_view() == locator@,
    {
        ZipChunkProvider { zip_archive, locator, cache: RegionCache::new() }
    }

    /// The name of the archive entry that holds region
    /// (`region_x`, `region_z`).
    pub fn region_path(&self, region_x: i32, region_z: i32) -> (r: String)
        ensures
            r@ == entry_name(self.prefix_view(), region_x as int, region_z as int),
    {
        self.locator.region_entry_name(region_x, region_z)
    }

    /// The decompressed bytes held for region (`region_x`, `region_z`), if any.
    pub fn cached_region(&self, region_x: i32, region_z: i32) -> (r: Option<&Vec<u8>>)
        ensures
            r matches Some(b) ==> self.cache_view().contains_key((region_x as int, region_z as int))
                && b@ == self.cache_view()[(region_x as int, region_z as int)],
            r is None ==> !self.cache_view().contains_key((region_x as int, region_z as int)),
    {
        self.cache.get(region_x, region_z)
    }

    /// Takes in what reading the entry of region (`region_x`, `region_z`)
    /// gave: its bytes are kept; a missing entry is `RegionNotFound` for
    /// that region; a failed read is passed on. On failure nothing is kept.
    pub fn absorb_region(
        &mut self,
        region_x: i32,
        region_z: i32,
        read: Result<Vec<u8>, EntryReadError>,
    ) -> (r: Result<(), ChunkLoadError>)
        ensures
            final(self).prefix_view() == old(self).prefix_view(),
            read matches Ok(b) ==> r is Ok && final(self).cache_view() == old(
                self,
            ).cache_view().insert((region_x as int, region_z as int), b@),
            read matches Err(EntryReadError::NotFound) ==> r == Err::<(), ChunkLoadError>(
                ChunkLoadError::RegionNotFound { region_x, region_z },
            ) && *final(self) == *old(self),
            read matches Err(EntryReadError::Io(e)) ==> r == Err::<(), ChunkLoadError>(
                ChunkLoadError::Io(e),
            ) && *final(self) == *old(self),
    {
        match read {
            Ok(bytes) => {
                self.cache.insert(region_x, region_z, bytes);
                Ok(())
            },
            Err(EntryReadError::NotFound) => Err(ChunkLoadError::RegionNotFound { region_x, region_z }),
            Err(EntryReadError::Io(e)) => Err(ChunkLoadError::Io(e)),
        }
    }

    /// Makes sure the region file that holds chunk (`chunk_x`, `chunk_z`) is
    /// held decompressed, reading it from the archive only if it is not yet,
    /// and gives the chunk's region and its place there.
    pub fn load_region(&mut self, chunk_x: i32, chunk_z: i32) -> (r: Result<
        RegionAndOffset,
        ChunkLoadError,
    >)
        ensures
            load_region_post(*old(self), *final(self), chunk_x as int, chunk_z as int),
            r is Ok <==> final(self).cache_view().contains_key(
                region_key(chunk_x as int, chunk_z as int),
            ),
            old(self).cache_view().contains_key(region_key(chunk_x as int, chunk_z as int))
                ==> r is Ok,
            r matches Ok(a) ==> {
                &&& a.region_x as int == region_of(chunk_x as int)
                &&& a.region_z as int == region_of(chunk_z as int)
                &&& a.region_chunk_x as int == offset_of(chunk_x as int)
                &&& a.region_chunk_z as int == offset_of(chunk_z as int)
            },
            r matches Err(e) ==> (is_region_not_found(e, chunk_x as int, chunk_z as int) || (e is Io)),
    {
        let a = RegionAndOffset::from_chunk(chunk_x, chunk_z);
        if self.cache.contains(a.region_x, a.region_z) {
            return Ok(a);
        }
        let name = self.locator.region_entry_name(a.region_x, a.region_z);
        let read = read_entry(&mut self.zip_archive, name.as_str());
        match self.absorb_region(a.region_x, a.region_z, read) {
            Ok(()) => Ok(a),
            Err(e) => Err(e),
        }
    }

    /// Loads chunk (`chunk_x`, `chunk_z`): its region file is decompressed
    /// if it is not held yet, and `read_chunk` reads the chunk out of the
    /// held bytes at the chunk's place in the region. What the reader
    /// returns is passed on; `RegionNotFound` comes only for a region that
    /// was not held.
    pub fn load_chunk<F>(&mut self, read_chunk: F, chunk_x: i32, chunk_z: i32) -> (r: Result<
        nbt::CompoundTag,
        ChunkLoadError,
    >) where F: Fn(&[u8], u8, u8) -> Result<nbt::CompoundTag, ChunkReadError>
        requires
            forall|b: &[u8], x: u8, z: u8| read_chunk.requires((b, x, z)),
        ensures
            load_region_post(*old(self), *final(self), chunk_x as int, chunk_z as int),
            final(self).cache_view().contains_key(region_key(chunk_x as int, chunk_z as int))
                ==> exists|b: &[u8], c: Result<nbt::CompoundTag, ChunkReadError>|
                b@ == final(self).cache_view()[region_key(chunk_x as int, chunk_z as int)]
                    && read_chunk.ensures(
                    (b, offset_of(chunk_x as int) as u8, offset_of(chunk_z as int) as u8),
                    c,
                ) && r == chunk_result(c),
            !final(self).cache_view().contains_key(region_key(chunk_x as int, chunk_z as int))
                ==> (r matches Err(e) && (is_region_not_found(e, chunk_x as int, chunk_z as int)
                || (e is Io))),
            (r matches Err(ChunkLoadError::RegionNotFound { .. })) ==> !old(
                self,
            ).cache_view().contains_key(region_key(chunk_x as int, chunk_z as int)),
    {
        let a = match self.load_region(chunk_x, chunk_z) {
            Ok(a) => a,
            Err(e) => {
                return Err(e);
            },
        };
        let buf = self.cache.get(a.region_x, a.region_z).unwrap();
        let bytes = buf.as_slice();
        let c = read_chunk(bytes, a.region_chunk_x, a.region_chunk_z);
        proof {
            lemma_region_offset(chunk_x as int);
            lemma_region_offset(chunk_z as int);
            assert(a.region_chunk_x == offset_of(chunk_x as int) as u8);
            assert(a.region_chunk_z == offset_of(chunk_z as int) as u8);
        }
        let r = match c {
            Ok(t) => Ok(t),
            Err(e) => Err(ChunkLoadError::Chunk(e)),
        };
        assert(r == chunk_result(c));
        r
    }

    /// Saving is refused: an archive cannot be written back, and nothing of
    /// the provider changes.
    pub fn save_chunk(
        &mut self,
        _chunk_x: i32,
        _chunk_z: i32,
        _chunk_compound_tag: nbt::CompoundTag,
    ) -> (r: Result<(), ChunkSaveError>)
        ensures
            r == Err::<(), ChunkSaveError>(ChunkSaveError::UnsupportedOperation),
            *final(self) == *old(self),
    {
        Err(ChunkSaveError::UnsupportedOperation)
    }
}

} // verus!
