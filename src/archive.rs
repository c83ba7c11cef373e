//! The zip archive, the outside types that pass through the library, and
//! the calls into the zip crate.
use std::io::Read;
use std::io::Seek;
use vstd::prelude::*;

verus! {

#[verifier::external_type_specification]
#[verifier::external_body]
#[verifier::reject_recursive_types(R)]
pub struct ExZipArchive<R>(zip::ZipArchive<R>);

#[verifier::external_type_specification]
#[verifier::external_body]
pub struct ExZipError(zip::result::ZipError);

#[verifier::external_type_specification]
#[verifier::external_body]
pub struct ExIoError(std::io::Error);

#[verifier::external_type_specification]
#[verifier::external_body]
pub struct ExCompoundTag(nbt::CompoundTag);

/// Why an entry of the archive could not be read.
#[derive(Debug)]
pub enum EntryReadError {
    /// The archive has no entry of that name.
    NotFound,
    /// The entry is there, but reading or decompressing it failed.
    Io(std::io::Error),
}

/// Relies on zip::ZipArchive::new, which reads the central directory of the
/// archive from `reader`.
#[verifier::external_body]
pub(crate) fn open_archive<R: Read + Seek>(reader: R) -> (r: Result<
    zip::ZipArchive<R>,
    zip::result::ZipError,
>) {
    zip::ZipArchive::new(reader)
}

/// Relies on zip::ZipArchive::file_names: the name of every entry of the
/// archive, files and folders, in no fixed order.
#[verifier::external_body]
pub(crate) fn entry_names<R: Read + Seek>(archive: &zip::ZipArchive<R>) -> (r: Vec<String>) {
    archive.file_names().map(|n| n.to_owned()).collect()
}

/// Relies on zip::ZipArchive::by_name_decrypt, which fails with
/// `ZipError::FileNotFound` when no entry is called `name`, and on reading
/// the `ZipFile` it hands out to its end. `by_name` is not used: it unwraps
/// an inner result that a malformed entry makes an error. An empty password
/// is offered, which an unencrypted entry ignores; an encrypted entry or one
/// whose password check fails is an error. The entry's declared size
/// (`ZipFile::size`) is only a hint for `Vec::try_reserve`, whose failure
/// leaves the buffer to grow as it is read.
#[verifier::external_body]
pub(crate) fn read_entry<R: Read + Seek>(archive: &mut zip::ZipArchive<R>, name: &str) -> (r: Result<
    Vec<u8>,
    EntryReadError,
>) {
    let mut file = match archive.by_name_decrypt(name, b"") {
        Ok(Ok(file)) => file,
        Ok(Err(e)) => return Err(EntryReadError::Io(std::io::Error::new(std::io::ErrorKind::InvalidData, e))),
        Err(zip::result::ZipError::FileNotFound) => return Err(EntryReadError::NotFound),
        Err(e) => return Err(EntryReadError::Io(std::io::Error::from(e))),
    };
    let mut buf = Vec::new();
    let _ = buf.try_reserve(file.size() as usize);
    match file.read_to_end(&mut buf) {
        Ok(_) => Ok(buf),
        Err(e) => Err(EntryReadError::Io(e)),
    }
}

} // verus!
