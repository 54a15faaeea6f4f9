//! The edge to the `zip` crate.
//!
//! Nothing in this file is proved. Each item states what the crate's source
//! shows of one of its functions, over a model of what a writer or an opened
//! archive holds; the rest of the library is verified against these
//! statements.
//!
//! The writer and the reader work on buffers in memory, so whether a call
//! goes through depends on what the writer or archive holds and on the
//! call's arguments, and on nothing else. Every entry is given the crate's
//! default time stamp, 1980-01-01, so that the bytes of an archive depend on
//! its entries alone and not on the time of the call.

use std::io::Read;
use std::io::Write;
use vstd::prelude::*;
use crate::error::ArchiveFault;

verus! {

/// How a file's bytes are packed into the archive.
#[derive(Clone, Copy, Debug, PartialEq, Eq, Structural)]
pub enum Compression {
    Stored,
    Deflated,
}

/// `std::io::Cursor`, the in-memory reader an archive is opened on.
#[verifier::external_type_specification]
#[verifier::external_body]
#[verifier::reject_recursive_types(T)]
pub struct ExCursor<T>(std::io::Cursor<T>);

/// `zip::ZipArchive`, an archive opened for random access.
#[verifier::external_type_specification]
#[verifier::external_body]
#[verifier::reject_recursive_types(R)]
pub struct ExZipArchive<R>(zip::ZipArchive<R>);

/// `zip::result::ZipError`, the crate's error.
#[verifier::external_type_specification]
#[verifier::external_body]
pub struct ExZipError(zip::result::ZipError);

/// A `zip::ZipWriter` over an in-memory buffer: an archive under construction.
#[verifier::external_body]
pub struct ZipSink {
    inner: zip::ZipWriter<std::io::Cursor<Vec<u8>>>,
}

/// The entries a sink holds, oldest first: each with its name, its Unix mode,
/// whether its bytes are deflated, and the bytes written to it so far.
pub uninterp spec fn sink_entries(sink: ZipSink) -> Seq<(Seq<char>, u32, bool, Seq<u8>)>;

/// Whether a writer that holds `before` starts a file of the given name,
/// method and permissions. It does not where it cannot close the entry
/// before (one packed to more than 0xFFFF_FFFF bytes) or was closed by an
/// earlier failure.
pub uninterp spec fn file_started(before: Seq<(Seq<char>, u32, bool, Seq<u8>)>, name: Seq<char>, deflated: bool, permissions: u32) -> bool;

/// Whether a writer that holds `before`, its newest entry without bytes yet,
/// takes `data` for that entry. It does not take more than 0xFFFF_FFFF
/// bytes, nor any bytes for a directory.
pub uninterp spec fn bytes_taken(before: Seq<(Seq<char>, u32, bool, Seq<u8>)>, data: Seq<u8>) -> bool;

/// Whether a writer that holds `before` adds a directory of the given name
/// and permissions. It does not where it cannot close the entry before or
/// was closed by an earlier failure.
pub uninterp spec fn directory_added(before: Seq<(Seq<char>, u32, bool, Seq<u8>)>, name: Seq<char>, permissions: u32) -> bool;

/// The bytes of the finished archive that holds the given entries, or `None`
/// where a writer that holds them does not finish.
pub uninterp spec fn archive_image(entries: Seq<(Seq<char>, u32, bool, Seq<u8>)>) -> Option<Seq<u8>>;

/// What an opened archive holds, in index order: each member's name, the Unix
/// mode it records if any, and the bytes that reading it gives, or `None`
/// where it cannot be read.
pub uninterp spec fn archive_entries(archive: zip::ZipArchive<std::io::Cursor<Vec<u8>>>) -> Seq<(Seq<char>, Option<u32>, Option<Seq<u8>>)>;

/// The members found when the given bytes are opened as an archive, or `None`
/// where they are refused.
pub uninterp spec fn parsed_archive(bytes: Seq<u8>) -> Option<Seq<(Seq<char>, Option<u32>, Option<Seq<u8>>)>>;

/// The mode recorded for a file added with the given permissions.
pub open spec fn file_mode(permissions: u32) -> u32 {
    (permissions & 0o777) | 0o100000
}

/// The mode recorded for a directory added with the given permissions.
pub open spec fn directory_mode(permissions: u32) -> u32 {
    (permissions & 0o777) | 0o40000
}

/// The name a directory is recorded under: the given one, closed by a
/// separator unless it already ends in `/` or `\`.
pub open spec fn directory_name(name: Seq<char>) -> Seq<char> {
    if name.len() > 0 && (name.last() == '/' || name.last() == '\\') {
        name
    } else {
        name.push('/')
    }
}

/// The entries with `data` as the bytes of the newest one.
pub open spec fn filled(entries: Seq<(Seq<char>, u32, bool, Seq<u8>)>, data: Seq<u8>) -> Seq<
    (Seq<char>, u32, bool, Seq<u8>),
> {
    entries.update(
        entries.len() - 1,
        (entries.last().0, entries.last().1, entries.last().2, data),
    )
}

/// The index of the last member that carries `name`, if any does.
pub open spec fn last_named(
    entries: Seq<(Seq<char>, Option<u32>, Option<Seq<u8>>)>,
    name: Seq<char>,
) -> Option<int>
    decreases entries.len(),
{
    if entries.len() == 0 {
        None
    } else if entries.last().0 == name {
        Some(entries.len() - 1)
    } else {
        last_named(entries.drop_last(), name)
    }
}

/// `ZipWriter::new` on an empty buffer: a sink without entries. A writer
/// without entries finishes: it has no entry to close and writes an empty
/// index.
#[verifier::external_body]
pub(crate) fn sink_new() -> (sink: ZipSink)
    ensures
        sink_entries(sink).len() == 0,
        archive_image(sink_entries(sink)) is Some,
{
    ZipSink { inner: zip::ZipWriter::new(std::io::Cursor::new(Vec::new())) }
}

/// `ZipWriter::start_file`, with the method, the crate's default time stamp
/// and `unix_permissions` set on default options. Whether it succeeds depends on what the writer holds
/// and on the arguments. Where it does, one entry is added: a file under the
/// name as given, with no bytes yet.
#[verifier::external_body]
pub(crate) fn sink_start_file(
    sink: &mut ZipSink,
    name: &str,
    method: Compression,
    permissions: u32,
) -> (r: Result<(), zip::result::ZipError>)
    ensures
        r is Ok <==> file_started(
            sink_entries(*old(sink)),
            name@,
            method == Compression::Deflated,
            permissions,
        ),
        r is Ok ==> sink_entries(*final(sink)) == sink_entries(*old(sink)).push(
            (name@, file_mode(permissions), method == Compression::Deflated, Seq::<u8>::empty()),
        ),
{
    let method = match method {
        Compression::Stored => zip::CompressionMethod::Stored,
        Compression::Deflated => zip::CompressionMethod::Deflated,
    };
    let options = zip::write::FileOptions::default()
        .compression_method(method)
        .last_modified_time(zip::DateTime::default())
        .unix_permissions(permissions);
    sink.inner.start_file(name, options)
}

/// `Write::write_all` on the writer. It is called once per entry, on an
/// entry that has no bytes yet. Whether it succeeds depends on what the
/// writer holds and on the bytes. Where it does, the bytes are the content
/// of the newest entry (for a directory that is so only with no bytes).
#[verifier::external_body]
pub(crate) fn sink_write_all(sink: &mut ZipSink, data: &Vec<u8>) -> (r: Result<
    (),
    zip::result::ZipError,
>)
    requires
        sink_entries(*old(sink)).len() > 0,
        sink_entries(*old(sink)).last().3.len() == 0,
    ensures
        r is Ok <==> bytes_taken(sink_entries(*old(sink)), data@),
        r is Ok ==> sink_entries(*final(sink)) == filled(sink_entries(*old(sink)), data@),
{
    sink.inner.write_all(data).map_err(zip::result::ZipError::Io)
}

/// `ZipWriter::add_directory`, with the crate's default time stamp and
/// `unix_permissions` set on default options. Whether it succeeds depends on what the writer holds and on the
/// arguments. Where it does, one entry is added: a stored, empty entry under
/// the name closed by a separator.
#[verifier::external_body]
pub(crate) fn sink_add_directory(sink: &mut ZipSink, name: &str, permissions: u32) -> (r: Result<
    (),
    zip::result::ZipError,
>)
    ensures
        r is Ok <==> directory_added(sink_entries(*old(sink)), name@, permissions),
        r is Ok ==> sink_entries(*final(sink)) == sink_entries(*old(sink)).push(
            (directory_name(name@), directory_mode(permissions), false, Seq::<u8>::empty()),
        ),
{
    let options = zip::write::FileOptions::default()
        .last_modified_time(zip::DateTime::default())
        .unix_permissions(permissions);
    sink.inner.add_directory(name, options)
}

/// `ZipWriter::finish`: closes the last entry, writes the index and hands the
/// buffer out. Whether it succeeds, and the bytes where it does, depend on
/// the entries alone.
#[verifier::external_body]
pub(crate) fn sink_finish(sink: ZipSink) -> (r: Result<Vec<u8>, zip::result::ZipError>)
    ensures
        match r {
            Ok(bytes) => archive_image(sink_entries(sink)) == Some(bytes@),
            Err(_) => archive_image(sink_entries(sink)) is None,
        },
{
    let mut sink = sink;
    sink.inner.finish().map(|cursor| cursor.into_inner())
}

/// `ZipArchive::new` on a cursor over the bytes: parses the index.
#[verifier::external_body]
pub(crate) fn archive_open(bytes: Vec<u8>) -> (r: Result<
    zip::ZipArchive<std::io::Cursor<Vec<u8>>>,
    zip::result::ZipError,
>)
    ensures
        match r {
            Ok(archive) => parsed_archive(bytes@) == Some(archive_entries(archive)),
            Err(_) => parsed_archive(bytes@) is None,
        },
{
    zip::ZipArchive::new(std::io::Cursor::new(bytes))
}

/// `ZipArchive::len`: the number of members.
#[verifier::external_body]
pub(crate) fn archive_len(archive: &zip::ZipArchive<std::io::Cursor<Vec<u8>>>) -> (n: usize)
    ensures
        n == archive_entries(*archive).len(),
{
    archive.len()
}

/// `ZipArchive::by_index_decrypt` with an empty password, then the member's
/// `name`, `unix_mode` and `read_to_end`. The archive is left as it was. What
/// comes back is the member at that index, and the call fails exactly where
/// that member cannot be read. (`by_index` itself unwraps the password check
/// and so cannot be called on every archive.)
#[verifier::external_body]
pub(crate) fn archive_read(
    archive: &mut zip::ZipArchive<std::io::Cursor<Vec<u8>>>,
    index: usize,
) -> (r: Result<(String, Option<u32>, Vec<u8>), zip::result::ZipError>)
    ensures
        archive_entries(*final(archive)) == archive_entries(*old(archive)),
        match r {
            Ok(member) => index < archive_entries(*old(archive)).len() && archive_entries(
                *old(archive),
            )[index as int] == (member.0@, member.1, Some(member.2@)),
            Err(_) => index < archive_entries(*old(archive)).len() ==> archive_entries(
                *old(archive),
            )[index as int].2 is None,
        },
{
    let mut file = match archive.by_index_decrypt(index, &[]) {
        Ok(Ok(file)) => file,
        Ok(Err(_)) => return Err(zip::result::ZipError::UnsupportedArchive(zip::result::ZipError::PASSWORD_REQUIRED)),
        Err(e) => return Err(e),
    };
    let mut data = Vec::new();
    file.read_to_end(&mut data)?;
    Ok((file.name().to_owned(), file.unix_mode(), data))
}

/// `ZipArchive::by_name_decrypt` with an empty password, then `read_to_end`.
/// `None` exactly where no member carries the name; otherwise what reading
/// the last member that does gives: its bytes, or a failure where it cannot
/// be read.
#[verifier::external_body]
pub(crate) fn archive_read_named(
    archive: &mut zip::ZipArchive<std::io::Cursor<Vec<u8>>>,
    name: &str,
) -> (r: Option<Result<Vec<u8>, zip::result::ZipError>>)
    ensures
        archive_entries(*final(archive)) == archive_entries(*old(archive)),
        match r {
            None => last_named(archive_entries(*old(archive)), name@) is None,
            Some(Ok(data)) => last_named(archive_entries(*old(archive)), name@) matches Some(i)
                && archive_entries(*old(archive))[i].2 == Some(data@),
            Some(Err(_)) => last_named(archive_entries(*old(archive)), name@) matches Some(i)
                && archive_entries(*old(archive))[i].2 is None,
        },
{
    let mut file = match archive.by_name_decrypt(name, &[]) {
        Ok(Ok(file)) => file,
        Ok(Err(_)) => return Some(Err(zip::result::ZipError::UnsupportedArchive(zip::result::ZipError::PASSWORD_REQUIRED))),
        Err(zip::result::ZipError::FileNotFound) => return None,
        Err(e) => return Some(Err(e)),
    };
    let mut data = Vec::new();
    match file.read_to_end(&mut data) {
        Ok(_) => Some(Ok(data)),
        Err(e) => Some(Err(zip::result::ZipError::Io(e))),
    }
}

/// Tells the variants of `ZipError` apart.
#[verifier::external_body]
pub(crate) fn fault_of(error: &zip::result::ZipError) -> (fault: ArchiveFault)
    ensures
        fault != ArchiveFault::UnsafeName,
{
    match error {
        zip::result::ZipError::Io(_) => ArchiveFault::Io,
        zip::result::ZipError::InvalidArchive(_) => ArchiveFault::Invalid,
        zip::result::ZipError::UnsupportedArchive(_) => ArchiveFault::Unsupported,
        zip::result::ZipError::FileNotFound => ArchiveFault::NotFound,
    }
}

} // verus!
