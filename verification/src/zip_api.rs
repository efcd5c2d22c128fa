//! The trusted surface over the archive container crate: type declarations
//! and thin wrappers around the calls the archive backend makes, each with
//! the contract the crate's source shows.
//!
//! The contents of an open archive are named by [`archive_entries`]: for each
//! entry, in central-directory order, its name and its decompressed bytes —
//! the first `size` bytes its stream yields, where `size` is the decompressed
//! length the central directory records. Reading an entry or its metadata
//! moves only the underlying reader; the entry set of an archive value never
//! changes, as the crate keeps it in shared, immutable metadata.

use vstd::prelude::*;

use std::io::Cursor;

verus! {

/// `std::io::Cursor`, declared so an in-memory byte source can stand as the
/// archive's reader type. The value is opaque to this crate.
#[verifier::external_type_specification]
#[verifier::external_body]
#[verifier::reject_recursive_types(T)]
pub struct ExCursor<T>(Cursor<T>);

/// `zip::ZipArchive`, the open archive container. The value is opaque; what
/// it holds is spoken of through [`archive_entries`].
#[verifier::external_type_specification]
#[verifier::external_body]
#[verifier::reject_recursive_types(R)]
pub struct ExZipArchive<R>(zip::ZipArchive<R>);

/// `zip::result::ZipError`, the archive crate's failure type, carried
/// losslessly inside [`crate::FsError`].
#[verifier::external_type_specification]
#[verifier::external_body]
pub struct ExZipError(zip::result::ZipError);

/// What an open archive holds: one pair per entry, in central-directory
/// order — the entry's name, and its decompressed bytes (the first `size`
/// bytes its stream yields, `size` being the central directory's recorded
/// decompressed length; empty for a directory-like entry).
pub uninterp spec fn archive_entries(a: zip::ZipArchive<Cursor<Vec<u8>>>) -> Seq<
    (Seq<char>, Seq<u8>),
>;

/// Whether these bytes parse as an archive container: whether opening them
/// yields an archive rather than an error. Opening reads only the bytes, so
/// the outcome is a function of them alone.
pub uninterp spec fn parses_as_archive(bytes: Seq<u8>) -> bool;

/// Whether the archive's entry at `i` decodes: its local header parses, its
/// compression and encryption are supported, and its stream yields its full
/// recorded decompressed size without error. Decoding consults only the
/// archive's metadata and its underlying bytes, neither of which a read
/// moves, so the outcome rides with the entry set, not the reader position.
pub uninterp spec fn entry_decodes(a: zip::ZipArchive<Cursor<Vec<u8>>>, i: int) -> bool;

/// Relies on `zip::ZipArchive::new`: parses the container's central
/// directory from an in-memory byte source, succeeding exactly when the
/// bytes parse as a container; a malformed container is reported, not read.
#[verifier::external_body]
pub(crate) fn open_archive(bytes: Vec<u8>) -> (r: Result<
    zip::ZipArchive<Cursor<Vec<u8>>>,
    zip::result::ZipError,
>)
    ensures
        (r is Ok) <==> parses_as_archive(bytes@),
{
    zip::ZipArchive::new(Cursor::new(bytes))
}

/// Relies on `zip::ZipArchive::len`: how many entries the central directory
/// holds.
#[verifier::external_body]
pub(crate) fn archive_len(a: &zip::ZipArchive<Cursor<Vec<u8>>>) -> (n: usize)
    ensures
        n == archive_entries(*a).len(),
{
    a.len()
}

/// Relies on `zip::ZipArchive::name_for_index`: the entry's name from the
/// central directory, present exactly for indices below the entry count.
/// Only metadata is touched.
#[verifier::external_body]
pub(crate) fn entry_name(a: &zip::ZipArchive<Cursor<Vec<u8>>>, i: usize) -> (r: Option<String>)
    ensures
        (r is Some) <==> (i as int) < archive_entries(*a).len(),
        r matches Some(nm) ==> nm@ == archive_entries(*a)[i as int].0,
{
    a.name_for_index(i).map(|s| s.to_string())
}

/// Relies on `zip::ZipArchive::by_index_raw` and the entry's `size`
/// accessor: the entry's decompressed length as the central directory
/// records it, without decompressing. An index past the entry count is
/// reported; a decodable entry in range succeeds. Reading metadata leaves
/// the entry set, and what decodes, unchanged.
#[verifier::external_body]
pub(crate) fn entry_size(a: &mut zip::ZipArchive<Cursor<Vec<u8>>>, i: usize) -> (r: Result<
    u64,
    zip::result::ZipError,
>)
    ensures
        archive_entries(*final(a)) == archive_entries(*old(a)),
        forall|j: int| #[trigger] entry_decodes(*final(a), j) == entry_decodes(*old(a), j),
        r matches Ok(n) ==> (i as int) < archive_entries(*old(a)).len() && n as int
            == archive_entries(*old(a))[i as int].1.len(),
        (i as int) >= archive_entries(*old(a)).len() ==> r is Err,
        (i as int) < archive_entries(*old(a)).len() && entry_decodes(*old(a), i as int) ==> r is Ok,
{
    Ok(a.by_index_raw(i)?.size())
}

/// Relies on `zip::ZipArchive::by_index` and `std::io::Read`: opens the
/// entry's forward-only decompression stream from its start, skips `offset`
/// bytes, and reads exactly `count` more — the slice
/// `[offset, offset + count)` of the entry's content when that range lies
/// within it. A stream that ends early, or an entry that cannot be decoded,
/// is reported; a decodable entry succeeds on every in-range slice. Reading
/// leaves the entry set, and what decodes, unchanged.
#[verifier::external_body]
pub(crate) fn entry_read_at(
    a: &mut zip::ZipArchive<Cursor<Vec<u8>>>,
    i: usize,
    offset: u64,
    count: usize,
) -> (r: Result<Vec<u8>, zip::result::ZipError>)
    ensures
        archive_entries(*final(a)) == archive_entries(*old(a)),
        forall|j: int| #[trigger] entry_decodes(*final(a), j) == entry_decodes(*old(a), j),
        r matches Ok(v) ==> v@.len() == count,
        r matches Ok(v) ==> ((i as int) < archive_entries(*old(a)).len() && offset + count
            <= archive_entries(*old(a))[i as int].1.len() ==> v@ == archive_entries(
            *old(a),
        )[i as int].1.subrange(offset as int, offset + count)),
        (i as int) < archive_entries(*old(a)).len() && entry_decodes(*old(a), i as int) && offset
            + count <= archive_entries(*old(a))[i as int].1.len() ==> r is Ok,
{
    let mut f = a.by_index(i)?;
    let mut skip = std::io::Read::take(std::io::Read::by_ref(&mut f), offset);
    let skipped = std::io::copy(&mut skip, &mut std::io::sink()).map_err(
        zip::result::ZipError::Io,
    )?;
    if skipped < offset {
        return Err(
            zip::result::ZipError::Io(std::io::Error::from(std::io::ErrorKind::UnexpectedEof)),
        );
    }
    let mut buf = vec![0u8; count];
    std::io::Read::read_exact(&mut f, &mut buf).map_err(zip::result::ZipError::Io)?;
    Ok(buf)
}

} // verus!
