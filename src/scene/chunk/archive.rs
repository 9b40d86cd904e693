use std::io::Read;
use vstd::prelude::*;

verus! {

#[verifier::external_type_specification]
#[verifier::external_body]
#[verifier::reject_recursive_types(R)]
pub struct ExZipArchive<R>(zip::ZipArchive<R>);

#[verifier::external_type_specification]
#[verifier::external_body]
pub struct ExZipError(zip::result::ZipError);

#[verifier::external_type_specification]
#[verifier::external_body]
#[verifier::reject_recursive_types(T)]
pub struct ExCursor<T>(std::io::Cursor<T>);

/// A zip archive read from memory.
pub type ChunkArchive = zip::ZipArchive<std::io::Cursor<Vec<u8>>>;

/// The number of distinct entry names in the archive's central directory
/// (entries that repeat a name count once).
pub uninterp spec fn archive_entry_count(archive: ChunkArchive) -> nat;

/// The entries of the archive that read back whole: name to uncompressed bytes.
pub uninterp spec fn archive_entries(archive: ChunkArchive) -> Map<Seq<char>, Seq<u8>>;

/// What opening these bytes as a zip archive gives: its readable entries and
/// its entry count, or `None` when the bytes hold no zip archive.
pub uninterp spec fn zip_contents(bytes: Seq<u8>) -> Option<(Map<Seq<char>, Seq<u8>>, nat)>;

/// Relies on zip::ZipArchive::new to read the central directory of an
/// archive held in memory; what it finds depends on the bytes alone.
#[verifier::external_body]
pub(crate) fn open_archive(bytes: Vec<u8>) -> (r: Result<ChunkArchive, zip::result::ZipError>)
    ensures
        r is Ok <==> zip_contents(bytes@) is Some,
        r matches Ok(a) ==> zip_contents(bytes@) == Some(
            (archive_entries(a), archive_entry_count(a)),
        ),
{
    zip::ZipArchive::new(std::io::Cursor::new(bytes))
}

/// Relies on zip::ZipArchive::len: the number of entries in the central directory.
#[verifier::external_body]
pub(crate) fn entry_count(archive: &ChunkArchive) -> (r: usize)
    ensures
        r == archive_entry_count(*archive),
{
    archive.len()
}

/// Relies on zip::ZipArchive::by_name and on reading the returned entry to its
/// end: the entry's uncompressed bytes, checked against its CRC. Each entry is
/// read from the offset that the central directory records, so what was read
/// before does not change what is read now.
#[verifier::external_body]
pub(crate) fn read_entry(archive: &mut ChunkArchive, name: &Vec<char>) -> (r: Result<
    Vec<u8>,
    zip::result::ZipError,
>)
    ensures
        archive_entries(*final(archive)) == archive_entries(*old(archive)),
        archive_entry_count(*final(archive)) == archive_entry_count(*old(archive)),
        r is Ok <==> archive_entries(*old(archive)).contains_key(name@),
        r matches Ok(bytes) ==> bytes@ == archive_entries(*old(archive))[name@],
{
    let name: String = name.iter().collect();
    let mut bytes = Vec::new();
    archive.by_name(&name)?.read_to_end(&mut bytes)?;
    Ok(bytes)
}

} // verus!
