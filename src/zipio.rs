use vstd::prelude::*;

use std::io::Cursor;
use std::io::Read;
use std::io::Write;
use zip::read::ZipArchive;
use zip::result::ZipError;
use zip::write::{FileOptions, ZipWriter};
use zip::CompressionMethod;

verus! {

/// An archive under construction, in memory. Verus refuses a declaration of
/// the writer type itself, whose parameter is bound by std's I/O traits.
#[verifier::external_body]
pub struct ArchiveWriter {
    inner: ZipWriter<Cursor<Vec<u8>>>,
}

/// An archive opened for reading, from memory.
pub type ArchiveReader = ZipArchive<Cursor<Vec<u8>>>;

#[verifier::external_type_specification]
#[verifier::external_body]
#[verifier::reject_recursive_types(T)]
pub struct ExCursor<T>(Cursor<T>);

#[verifier::external_type_specification]
#[verifier::external_body]
pub struct ExIoError(std::io::Error);

#[verifier::external_type_specification]
#[verifier::external_body]
pub struct ExZipError(ZipError);

#[verifier::external_type_specification]
#[verifier::external_body]
#[verifier::reject_recursive_types(R)]
pub struct ExZipArchive<R>(ZipArchive<R>);

/// The entries that a writer holds so far, in the order they were started:
/// each a name and the uncompressed bytes written under it.
pub uninterp spec fn zip_staged(w: ArchiveWriter) -> Seq<(Seq<char>, Seq<u8>)>;

/// The writer is not closed, and once an entry is started it still writes to it.
pub uninterp spec fn zip_live(w: ArchiveWriter) -> bool;

/// The bytes of the finished archive that holds the given entries, each
/// deflated. Without zip's `time` feature every entry is dated 1980-01-01,
/// so the entries alone determine the bytes.
pub uninterp spec fn zip_image(entries: Seq<(Seq<char>, Seq<u8>)>) -> Seq<u8>;

/// The entry names of an opened archive, in the order of its central directory.
pub uninterp spec fn zip_names(a: ArchiveReader) -> Seq<Seq<char>>;

/// The bytes that an opened archive was read from.
pub uninterp spec fn zip_source(a: ArchiveReader) -> Seq<u8>;

/// The entry names that reading the central directory of the bytes gives,
/// in its order, or nothing where the bytes hold no readable directory.
pub uninterp spec fn zip_listing(bytes: Seq<u8>) -> Option<Seq<Seq<char>>>;

/// Every local entry header that the central directory of the bytes points
/// at can be read.
pub uninterp spec fn zip_sound(bytes: Seq<u8>) -> bool;

/// The text of the named entry of the archive in the bytes, where there is
/// such an entry and its data reads as UTF-8 text.
pub uninterp spec fn zip_entry_text(bytes: Seq<u8>, name: Seq<char>) -> Option<Seq<char>>;

/// Entry data of this size stays well under the four-gigabyte limit of an
/// entry without zip64 extensions, compressed or not.
pub open spec fn fits_entry(data: Seq<u8>) -> bool {
    data.len() < 0x8000_0000
}

/// A name whose UTF-8 bytes fit the 16-bit name length of an entry header.
pub open spec fn fits_name(name: Seq<char>) -> bool {
    vstd::utf8::encode_utf8(name).len() < 0x1_0000
}

/// The last entry started, if any, still fits.
pub open spec fn last_fits(entries: Seq<(Seq<char>, Seq<u8>)>) -> bool {
    entries.len() == 0 || fits_entry(entries.last().1)
}

pub open spec fn staged_names(entries: Seq<(Seq<char>, Seq<u8>)>) -> Seq<Seq<char>> {
    entries.map_values(|e: (Seq<char>, Seq<u8>)| e.0)
}

/// Relies on zip::ZipWriter::new: a new writer over an empty buffer holds no
/// entry and is open.
#[verifier::external_body]
pub(crate) fn new_archive_writer() -> (r: ArchiveWriter)
    ensures
        zip_staged(r) == Seq::<(Seq<char>, Seq<u8>)>::empty(),
        zip_live(r),
{
    ArchiveWriter { inner: ZipWriter::new(Cursor::new(Vec::new())) }
}

/// Relies on zip::ZipWriter::start_file, with deflate compression: on
/// success a new, empty entry with the given name follows the entries already
/// started. On an open writer it fails only where the entry before it grew
/// past the size limit.
#[verifier::external_body]
pub(crate) fn start_entry(w: &mut ArchiveWriter, name: &String) -> (r: Result<(), ZipError>)
    ensures
        zip_live(*old(w)) && last_fits(zip_staged(*old(w))) ==> r is Ok,
        r is Ok ==> zip_staged(*final(w)) == zip_staged(*old(w)).push((name@, Seq::<u8>::empty())),
        r is Ok ==> zip_live(*final(w)),
{
    let options = FileOptions::default().compression_method(CompressionMethod::Deflated);
    w.inner.start_file(name.as_str(), options)
}

/// Relies on std::io::Write::write_all for zip::ZipWriter: on success the
/// bytes are appended to the entry last started. An empty slice is accepted
/// even before any entry is started, and changes nothing. Writing to a
/// started entry of an open writer fails only past the size limit.
#[verifier::external_body]
pub(crate) fn write_entry_bytes(w: &mut ArchiveWriter, data: &[u8]) -> (r: Result<(), std::io::Error>)
    ensures
        zip_live(*old(w)) && zip_staged(*old(w)).len() > 0
            && fits_entry(zip_staged(*old(w)).last().1 + data@) ==> r is Ok,
        r is Ok ==> zip_live(*old(w)) ==> zip_live(*final(w)),
        r is Ok ==> ({
            let old_entries = zip_staged(*old(w));
            let last = old_entries.len() - 1;
            ||| data@.len() == 0 && zip_staged(*final(w)) == old_entries
            ||| old_entries.len() > 0 && zip_staged(*final(w)) == old_entries.update(
                last,
                (old_entries[last].0, old_entries[last].1 + data@),
            )
        }),
{
    w.inner.write_all(data)
}

/// Relies on zip::ZipWriter::finish and std::io::Cursor::into_inner: on
/// success the buffer holds the archive of the entries written. On an open
/// writer it fails only where the last entry grew past the size limit. The
/// archive it writes reads back: every local header is readable, and where
/// each name fits its header the directory lists the names written, in order.
#[verifier::external_body]
pub(crate) fn finish_archive(w: ArchiveWriter) -> (r: Result<Vec<u8>, ZipError>)
    ensures
        zip_live(w) && last_fits(zip_staged(w)) ==> r is Ok,
        r matches Ok(bytes) ==> bytes@ == zip_image(zip_staged(w)),
        r matches Ok(bytes) ==> zip_sound(bytes@),
        r matches Ok(bytes) ==> (forall|i: int| 0 <= i < zip_staged(w).len() ==> fits_name(#[trigger] zip_staged(w)[i].0))
            ==> zip_listing(bytes@) == Some(staged_names(zip_staged(w))),
{
    let mut w = w.inner;
    match w.finish() {
        Ok(cursor) => Ok(cursor.into_inner()),
        Err(e) => Err(e),
    }
}

/// Relies on zip::ZipArchive::new: reads the central directory of the bytes,
/// failing exactly where they hold none that can be read.
#[verifier::external_body]
pub(crate) fn open_archive(bytes: &Vec<u8>) -> (r: Result<ArchiveReader, ZipError>)
    ensures
        r is Ok <==> zip_listing(bytes@) is Some,
        r matches Ok(a) ==> zip_listing(bytes@) == Some(zip_names(a)) && zip_source(a) == bytes@,
{
    ZipArchive::new(Cursor::new(bytes.clone()))
}

/// Relies on zip::ZipArchive::len: the number of entries.
#[verifier::external_body]
pub(crate) fn archive_len(a: &ArchiveReader) -> (r: usize)
    ensures
        r == zip_names(*a).len(),
{
    a.len()
}

/// Relies on zip::ZipArchive::by_index_raw and zip::read::ZipFile::name: the
/// UTF-8 bytes of the name of the entry at `index`. It reads the entry's
/// local header, without decompressing or decrypting its data.
#[verifier::external_body]
pub(crate) fn entry_name_bytes(a: &mut ArchiveReader, index: usize) -> (r: Result<Vec<u8>, ZipError>)
    requires
        index < zip_names(*old(a)).len(),
    ensures
        zip_names(*final(a)) == zip_names(*old(a)),
        zip_source(*final(a)) == zip_source(*old(a)),
        zip_sound(zip_source(*old(a))) ==> r is Ok,
        r matches Ok(b) ==> b@ == vstd::utf8::encode_utf8(zip_names(*old(a))[index as int]),
{
    match a.by_index_raw(index) {
        Ok(f) => Ok(f.name().as_bytes().to_vec()),
        Err(e) => Err(e),
    }
}

/// Relies on zip::ZipArchive::by_name_decrypt, with an empty password that
/// an unencrypted entry ignores, and std::io::Read::read_to_string: the text
/// of the named entry, or nothing where there is no such entry or it cannot
/// be read as UTF-8 text.
#[verifier::external_body]
pub(crate) fn read_entry_text(a: &mut ArchiveReader, name: &str) -> (r: Option<String>)
    ensures
        zip_names(*final(a)) == zip_names(*old(a)),
        zip_source(*final(a)) == zip_source(*old(a)),
        r matches Some(t) ==> zip_entry_text(zip_source(*old(a)), name@) == Some(t@),
        r is None ==> zip_entry_text(zip_source(*old(a)), name@) is None,
{
    let mut f = match a.by_name_decrypt(name, b"") {
        Ok(Ok(f)) => f,
        _ => return None,
    };
    let mut text = String::new();
    match f.read_to_string(&mut text) {
        Ok(_) => Some(text),
        Err(_) => None,
    }
}

} // verus!
