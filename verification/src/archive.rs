//! Reading one entry out of a ZIP archive held in memory.

use vstd::prelude::*;

verus! {

/// How reading an entry out of an archive ended.
pub enum EntryRead {
    /// The bytes are not a ZIP archive.
    NotArchive,
    /// The archive has no entry of that name that can be opened.
    Missing,
    /// The entry is there and its contents could not be read out.
    Unreadable,
    /// The entry's contents.
    Data(Vec<u8>),
}

/// The outcome of a read as plain values.
pub enum ReadModel {
    NotArchive,
    Missing,
    Unreadable,
    Data(Seq<u8>),
}

/// Whether `zip::ZipArchive::new` accepts the bytes as an archive.
pub uninterp spec fn is_zip_archive(archive: Seq<u8>) -> bool;

/// Whether `zip::ZipArchive::by_name` opens an entry called `name` in the
/// archive.
pub uninterp spec fn zip_has_entry(archive: Seq<u8>, name: Seq<char>) -> bool;

/// What reading the opened entry to its end gives: its contents, or `None`
/// where the read fails.
pub uninterp spec fn zip_entry_bytes(archive: Seq<u8>, name: Seq<char>) -> Option<Seq<u8>>;

/// The outcome of reading the entry `name` out of `archive`.
pub open spec fn archive_read(archive: Seq<u8>, name: Seq<char>) -> ReadModel {
    if !is_zip_archive(archive) {
        ReadModel::NotArchive
    } else if !zip_has_entry(archive, name) {
        ReadModel::Missing
    } else {
        match zip_entry_bytes(archive, name) {
            Some(data) => ReadModel::Data(data),
            None => ReadModel::Unreadable,
        }
    }
}

impl EntryRead {
    /// The outcome as plain values.
    pub open spec fn view(&self) -> ReadModel {
        match self {
            EntryRead::NotArchive => ReadModel::NotArchive,
            EntryRead::Missing => ReadModel::Missing,
            EntryRead::Unreadable => ReadModel::Unreadable,
            EntryRead::Data(data) => ReadModel::Data(data@),
        }
    }
}

/// `zip::ZipArchive::new` on the bytes, `by_name` on the archive and
/// `read_to_end` on the entry: which of the three fails, or the entry's
/// contents. Each depends on the archive's bytes and the name alone.
#[verifier::external_body]
pub(crate) fn read_archive_entry(archive: &[u8], name: &str) -> (r: EntryRead)
    ensures
        r@ == (if !is_zip_archive(archive@) {
            ReadModel::NotArchive
        } else if !zip_has_entry(archive@, name@) {
            ReadModel::Missing
        } else {
            match zip_entry_bytes(archive@, name@) {
                Some(data) => ReadModel::Data(data),
                None => ReadModel::Unreadable,
            }
        }),
{
    let mut zip = match zip::ZipArchive::new(std::io::Cursor::new(archive)) {
        Ok(zip) => zip,
        Err(_) => return EntryRead::NotArchive,
    };
    let mut file = match zip.by_name(name) {
        Ok(file) => file,
        Err(_) => return EntryRead::Missing,
    };
    let mut data = Vec::new();
    match std::io::Read::read_to_end(&mut file, &mut data) {
        Ok(_) => EntryRead::Data(data),
        Err(_) => EntryRead::Unreadable,
    }
}

} // verus!
