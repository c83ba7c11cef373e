//! Reading chunks of a world that is packed into a zip archive: where the
//! region files lie in the archive, which region holds a chunk, and a cache of
//! region files decompressed once.

pub mod address;
pub mod locator;
pub mod cache;
pub mod archive;
pub mod provider;

pub use address::RegionAndOffset;
pub use archive::EntryReadError;
pub use locator::{LocatorError, RegionLayout, RegionLocator};
pub use provider::{ChunkLoadError, ChunkReadError, ChunkSaveError, ProviderError, ZipChunkProvider};
