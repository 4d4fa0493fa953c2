//! Reading a zip archive that is held in memory.
//!
//! The archive reader is the `zip` crate's. What this module states of it
//! is believed, not proved.

use std::io::Cursor;
use std::io::Read;
use vstd::prelude::*;
use zip::result::ZipError;
use zip::ZipArchive;

verus! {

/// Declares `zip::ZipArchive`, the archive reader, as an opaque type.
#[verifier::external_type_specification]
#[verifier::external_body]
#[verifier::reject_recursive_types(R)]
pub struct ExZipArchive<R>(ZipArchive<R>);

/// Declares `std::io::Cursor`, through which the reader reads bytes held in
/// memory, as an opaque type.
#[verifier::external_type_specification]
#[verifier::external_body]
#[verifier::reject_recursive_types(T)]
pub struct ExCursor<T>(Cursor<T>);

/// Declares `zip::result::ZipError`, the reader's error, as an opaque type.
#[verifier::external_type_specification]
#[verifier::external_body]
pub struct ExZipError(ZipError);

/// One entry of an archive, as its directory describes it.
#[derive(Debug)]
pub struct ArchiveEntry {
    /// The entry's name as the archive gives it.
    pub name: String,
    /// The name as a relative path, where the archive reader accepts it as
    /// one that stays inside the directory it is resolved in.
    pub enclosed: Option<String>,
    /// Declared size of the entry's data, in bytes.
    pub size: u64,
    /// Unix permission bits, where the entry carries them.
    pub unix_mode: Option<u32>,
}

/// The mathematical value of an [`ArchiveEntry`].
pub struct EntryView {
    pub name: Seq<char>,
    pub enclosed: Option<Seq<char>>,
    pub size: u64,
    pub unix_mode: Option<u32>,
}

impl View for ArchiveEntry {
    type V = EntryView;

    open spec fn view(&self) -> EntryView {
        EntryView {
            name: self.name@,
            enclosed: match self.enclosed {
                Some(rel) => Some(rel@),
                None => None,
            },
            size: self.size,
            unix_mode: self.unix_mode,
        }
    }
}

/// The entries of an archive in the order of its directory: for each its
/// name, that name as a path where the reader's `enclosed_name` accepts it,
/// its declared size and its permission bits.
pub uninterp spec fn archive_entries(archive: ZipArchive<Cursor<Vec<u8>>>) -> Seq<
    (Seq<char>, Option<Seq<char>>, u64, Option<u32>),
>;

/// The data of the entries of an archive, in the order of its directory.
pub uninterp spec fn archive_data(archive: ZipArchive<Cursor<Vec<u8>>>) -> Seq<Seq<u8>>;

/// For each entry of an archive, in the order of its directory, whether
/// the reader opens it.
pub uninterp spec fn archive_opens(archive: ZipArchive<Cursor<Vec<u8>>>) -> Seq<bool>;

/// For each entry of an archive, in the order of its directory, whether
/// the reader, once it has opened the entry, reads its data to the end.
pub uninterp spec fn archive_reads(archive: ZipArchive<Cursor<Vec<u8>>>) -> Seq<bool>;

/// An entry as the archive's directory lists it.
pub open spec fn listed(e: EntryView) -> (Seq<char>, Option<Seq<char>>, u64, Option<u32>) {
    (e.name, e.enclosed, e.size, e.unix_mode)
}

/// The entries that the archive reader finds in `bytes`, listed as
/// `archive_entries` lists them, or nothing where it takes the bytes for no
/// archive.
pub uninterp spec fn parsed_listing(bytes: Seq<u8>) -> Option<
    Seq<(Seq<char>, Option<Seq<char>>, u64, Option<u32>)>,
>;

/// Calls `zip::ZipArchive::new` on the bytes of an archive. Claims only
/// that the outcome is a function of the bytes: whether they are read as an
/// archive, and with which entries.
#[verifier::external_body]
pub(crate) fn open_archive(bytes: Vec<u8>) -> (r: Result<ZipArchive<Cursor<Vec<u8>>>, ZipError>)
    ensures
        match r {
            Ok(archive) => parsed_listing(bytes@) == Some(archive_entries(archive)),
            Err(_) => parsed_listing(bytes@) is None,
        },
{
    ZipArchive::new(Cursor::new(bytes))
}

/// Calls `zip::ZipArchive::len`: the number of entries of the archive.
#[verifier::external_body]
pub(crate) fn archive_len(archive: &ZipArchive<Cursor<Vec<u8>>>) -> (n: usize)
    ensures
        n == archive_entries(*archive).len(),
{
    archive.len()
}

/// Calls `zip::ZipArchive::by_index` and copies what the entry's `name`,
/// `enclosed_name`, `size` and `unix_mode` return. Claims that the call
/// leaves the archive as it is, that it succeeds exactly for an index
/// inside the directory whose entry the reader opens, and that an entry
/// that was read is the one listed at `index`.
#[verifier::external_body]
pub(crate) fn read_entry(archive: &mut ZipArchive<Cursor<Vec<u8>>>, index: usize) -> (r: Result<
    ArchiveEntry,
    ZipError,
>)
    ensures
        archive_entries(*final(archive)) == archive_entries(*old(archive)),
        archive_data(*final(archive)) == archive_data(*old(archive)),
        archive_opens(*final(archive)) == archive_opens(*old(archive)),
        archive_reads(*final(archive)) == archive_reads(*old(archive)),
        r is Ok <==> index < archive_entries(*old(archive)).len() && archive_opens(
            *old(archive),
        )[index as int],
        r matches Ok(entry) ==> listed(entry@) == archive_entries(*old(archive))[index as int],
{
    let file = archive.by_index(index)?;
    Ok(
        ArchiveEntry {
            name: String::from(file.name()),
            enclosed: match file.enclosed_name() {
                Some(path) => path.into_os_string().into_string().ok(),
                None => None,
            },
            size: file.size(),
            unix_mode: file.unix_mode(),
        },
    )
}

/// Calls `zip::ZipArchive::by_index` and reads the entry's data to its end
/// with `std::io::Read::read_to_end`. Claims that the call leaves the
/// archive as it is, that it succeeds exactly for an index inside the
/// directory whose entry the reader opens and reads to the end, and that
/// data that was read is that of the entry at `index`.
#[verifier::external_body]
pub(crate) fn read_entry_data(archive: &mut ZipArchive<Cursor<Vec<u8>>>, index: usize) -> (r:
    Result<Vec<u8>, ZipError>)
    ensures
        archive_entries(*final(archive)) == archive_entries(*old(archive)),
        archive_data(*final(archive)) == archive_data(*old(archive)),
        archive_opens(*final(archive)) == archive_opens(*old(archive)),
        archive_reads(*final(archive)) == archive_reads(*old(archive)),
        r is Ok <==> index < archive_entries(*old(archive)).len() && archive_opens(
            *old(archive),
        )[index as int] && archive_reads(*old(archive))[index as int],
        r matches Ok(data) ==> index < archive_data(*old(archive)).len() && data@ == archive_data(
            *old(archive),
        )[index as int],
{
    let mut file = archive.by_index(index)?;
    let mut data = Vec::new();
    file.read_to_end(&mut data)?;
    Ok(data)
}

} // verus!
