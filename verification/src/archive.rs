//! Building a zip archive in memory with the `zip` crate.

use vstd::prelude::*;
use std::io::{Cursor, Write};
use zip::result::ZipError;
use zip::write::SimpleFileOptions;
use zip::ZipWriter;
use crate::error::{AppError, Failure, answers};

verus! {

#[verifier::external_type_specification]
#[verifier::external_body]
pub struct ExZipError(ZipError);

#[verifier::external_type_specification]
#[verifier::external_body]
pub struct ExIoError(std::io::Error);

/// How the entries of an archive are stored.
#[derive(Clone, Copy, Debug, PartialEq, Eq, Structural)]
pub enum Compression {
    /// Stored as is.
    Stored,
    /// Compressed with Deflate.
    Deflated,
}

/// An archive being built in memory, one entry after another: a `ZipWriter`
/// over a `Cursor<Vec<u8>>`, with the options that every entry is started with.
#[verifier::external_body]
pub struct ArchiveBuilder {
    writer: ZipWriter<Cursor<Vec<u8>>>,
    options: SimpleFileOptions,
}

/// The entries written so far into an archive: each entry's name and the
/// bytes written into it, in the order in which they were started.
pub uninterp spec fn archive_entries(b: ArchiveBuilder) -> Seq<(Seq<char>, Seq<u8>)>;

/// The compression method that every entry of the archive is started with.
pub uninterp spec fn archive_method(b: ArchiveBuilder) -> Compression;

/// Whether an entry of the archive is open for writing.
pub uninterp spec fn archive_open(b: ArchiveBuilder) -> bool;

/// What reading a zip archive's bytes with `zip::ZipArchive` gives: for each
/// entry, by index, its name, its decompressed contents and its compression method.
pub uninterp spec fn zip_read_entries(bytes: Seq<u8>) -> Seq<(Seq<char>, Seq<u8>, Compression)>;

/// The entries `entries`, each stored with `method`.
pub open spec fn stored_with(entries: Seq<(Seq<char>, Seq<u8>)>, method: Compression) -> Seq<
    (Seq<char>, Seq<u8>, Compression),
> {
    entries.map_values(|e: (Seq<char>, Seq<u8>)| (e.0, e.1, method))
}

/// The names of a list of entries.
pub open spec fn entry_names_of(entries: Seq<(Seq<char>, Seq<u8>)>) -> Seq<Seq<char>> {
    entries.map_values(|e: (Seq<char>, Seq<u8>)| e.0)
}

/// The names of an archive's entries, in order.
pub open spec fn entry_names(b: ArchiveBuilder) -> Seq<Seq<char>> {
    entry_names_of(archive_entries(b))
}

/// The number of content bytes in a list of entries.
pub open spec fn total_size(entries: Seq<(Seq<char>, Seq<u8>)>) -> nat
    decreases entries.len(),
{
    if entries.len() == 0 {
        0
    } else {
        total_size(entries.drop_last()) + entries.last().1.len()
    }
}

/// Entries well inside what a zip archive without ZIP64 extensions holds:
/// fewer than 65535 entries, names of at most 1024 characters and at most
/// 2^30 bytes of contents in all. On such entries no size limit of the
/// writer is reached.
pub open spec fn within_plain_limits(entries: Seq<(Seq<char>, Seq<u8>)>) -> bool {
    &&& entries.len() < 65535
    &&& forall|i: int| 0 <= i < entries.len() ==> (#[trigger] entries[i]).0.len() <= 1024
    &&& total_size(entries) <= 0x4000_0000
}

impl ArchiveBuilder {
    /// Trusted: `ZipWriter::new` over an empty `Cursor`, which holds no entry
    /// and has none open, with `SimpleFileOptions::default()` set by
    /// `compression_method` to the method that `method` names.
    #[verifier::external_body]
    fn in_memory(method: Compression) -> (r: Self)
        ensures
            archive_entries(r) == Seq::<(Seq<char>, Seq<u8>)>::empty(),
            archive_method(r) == method,
            !archive_open(r),
    {
        let m = match method {
            Compression::Stored => zip::CompressionMethod::Stored,
            Compression::Deflated => zip::CompressionMethod::Deflated,
        };
        ArchiveBuilder {
            writer: ZipWriter::new(Cursor::new(Vec::new())),
            options: SimpleFileOptions::default().compression_method(m),
        }
    }

    /// Trusted: `ZipWriter::start_file`, which on success appends an empty,
    /// open entry called `name`. It refuses a name already in the archive
    /// (`insert_file_data`); the other refusals are size limits (an entry over
    /// 4 GiB without the large-file option) and errors of the in-memory
    /// `Cursor`, which does not fail, so within the plain limits a new name is
    /// always accepted. A name of more than 65535 bytes would panic
    /// (`local_block`), hence the bound on its length.
    #[verifier::external_body]
    fn start_file(&mut self, name: &str) -> (r: Result<(), ZipError>)
        requires
            name@.len() <= 16383,
        ensures
            archive_method(*final(self)) == archive_method(*old(self)),
            r is Ok ==> archive_entries(*final(self)) == archive_entries(*old(self)).push(
                (name@, Seq::<u8>::empty()),
            ) && archive_open(*final(self)),
            !entry_names(*old(self)).contains(name@) && within_plain_limits(
                archive_entries(*old(self)).push((name@, Seq::<u8>::empty())),
            ) ==> r is Ok,
    {
        self.writer.start_file(name, self.options)
    }

    /// Trusted: `Write::write_all` on the `ZipWriter`, called while an entry
    /// is open: on success all of `data` has been written into that last entry,
    /// which stays open. It refuses only when the entry grows past 4 GiB.
    #[verifier::external_body]
    fn write_all(&mut self, data: &[u8]) -> (r: Result<(), std::io::Error>)
        requires
            archive_entries(*old(self)).len() > 0,
            archive_open(*old(self)),
        ensures
            archive_method(*final(self)) == archive_method(*old(self)),
            r is Ok ==> archive_entries(*final(self)) == archive_entries(*old(self)).update(
                archive_entries(*old(self)).len() - 1,
                (
                    archive_entries(*old(self)).last().0,
                    archive_entries(*old(self)).last().1 + data@,
                ),
            ) && archive_open(*final(self)),
            within_plain_limits(
                archive_entries(*old(self)).update(
                    archive_entries(*old(self)).len() - 1,
                    (
                        archive_entries(*old(self)).last().0,
                        archive_entries(*old(self)).last().1 + data@,
                    ),
                ),
            ) ==> r is Ok,
    {
        self.writer.write_all(data)
    }

    /// Trusted: `ZipWriter::finish`, then `Cursor::into_inner` to get the
    /// archive's bytes. On success, reading those bytes back with
    /// `zip::ZipArchive` gives the entries that were written, in order, each
    /// with the archive's compression method (the writer keeps its files in
    /// insertion order and writes them so into the central directory). Within
    /// the plain limits finishing does not fail: it only writes the last entry's
    /// sizes and the central directory into the in-memory `Cursor`. The bytes
    /// themselves are not named: they hold each entry's modification time.
    #[verifier::external_body]
    fn finish_bytes(self) -> (r: Result<Vec<u8>, ZipError>)
        ensures
            r matches Ok(bytes) ==> zip_read_entries(bytes@) == stored_with(
                archive_entries(self),
                archive_method(self),
            ),
            within_plain_limits(archive_entries(self)) ==> r is Ok,
    {
        self.writer.finish().map(|c| c.into_inner())
    }
}

/// Whether `e` answers an error of the archive library, whatever its text.
pub open spec fn archive_failure(e: AppError) -> bool {
    exists|d: String| answers(e, Failure::Internal(d))
}

/// Adding an entry does not shrink the contents, and the limits hold of a prefix.
pub proof fn lemma_limits_of_push(entries: Seq<(Seq<char>, Seq<u8>)>, e: (Seq<char>, Seq<u8>))
    ensures
        total_size(entries.push(e)) == total_size(entries) + e.1.len(),
        within_plain_limits(entries.push(e)) ==> within_plain_limits(entries),
{
    assert(entries.push(e).drop_last() =~= entries);
    if within_plain_limits(entries.push(e)) {
        assert forall|i: int| 0 <= i < entries.len() implies (#[trigger] entries[i]).0.len()
            <= 1024 by {
            assert(entries.push(e)[i] == entries[i]);
        }
    }
}

/// The limits hold of every prefix of entries within them.
pub proof fn lemma_limits_of_prefix(entries: Seq<(Seq<char>, Seq<u8>)>, k: int)
    requires
        within_plain_limits(entries),
        0 <= k <= entries.len(),
    ensures
        within_plain_limits(entries.subrange(0, k)),
    decreases entries.len(),
{
    if k < entries.len() {
        let shorter = entries.drop_last();
        assert(shorter.push(entries.last()) =~= entries);
        lemma_limits_of_push(shorter, entries.last());
        assert(shorter.subrange(0, k) =~= entries.subrange(0, k));
        lemma_limits_of_prefix(shorter, k);
    } else {
        assert(entries.subrange(0, k) =~= entries);
    }
}

impl ArchiveBuilder {
    /// An empty archive whose entries will be stored with `method`.
    pub fn new(method: Compression) -> (r: Self)
        ensures
            archive_entries(r) == Seq::<(Seq<char>, Seq<u8>)>::empty(),
            archive_method(r) == method,
    {
        Self::in_memory(method)
    }

    /// Adds an entry called `name` holding `data`. A name not yet in the
    /// archive is accepted as long as the archive stays within the plain
    /// limits; an error of the archive library is answered with its own text
    /// and status 500.
    pub fn add_entry(&mut self, name: &str, data: &[u8]) -> (r: Result<(), AppError>)
        requires
            name@.len() <= 16383,
        ensures
            archive_method(*final(self)) == archive_method(*old(self)),
            r is Ok ==> archive_entries(*final(self)) == archive_entries(*old(self)).push(
                (name@, data@),
            ),
            !entry_names(*old(self)).contains(name@) && within_plain_limits(
                archive_entries(*old(self)).push((name@, data@)),
            ) ==> r is Ok,
            r matches Err(e) ==> archive_failure(e),
    {
        let ghost before = archive_entries(*self);
        proof {
            let pushed = before.push((name@, data@));
            let empty = before.push((name@, Seq::<u8>::empty()));
            lemma_limits_of_push(before, (name@, data@));
            lemma_limits_of_push(before, (name@, Seq::<u8>::empty()));
            if within_plain_limits(pushed) {
                assert forall|i: int| 0 <= i < empty.len() implies (#[trigger] empty[i]).0.len()
                    <= 1024 by {
                    assert(pushed[i].0 == empty[i].0);
                }
            }
        }
        match self.start_file(name) {
            Ok(()) => {},
            Err(e) => {
                let d = e.to_string();
                let err = Failure::Internal(d).into_app_error();
                assert(answers(err, Failure::Internal(d)));
                return Err(err);
            },
        }
        proof {
            let cur = archive_entries(*self);
            assert(cur.update(cur.len() - 1, (cur.last().0, cur.last().1 + data@)) =~= before.push(
                (name@, data@),
            ));
        }
        match self.write_all(data) {
            Ok(()) => {
                assert(archive_entries(*self) =~= before.push((name@, data@)));
                Ok(())
            },
            Err(e) => {
                let d = e.to_string();
                let err = Failure::Internal(d).into_app_error();
                assert(answers(err, Failure::Internal(d)));
                Err(err)
            },
        }
    }

    /// Finishes the archive and gives its bytes, from which the entries
    /// written so far read back, in order, with the archive's compression
    /// method. Within the plain limits it succeeds.
    pub fn finish(self) -> (r: Result<Vec<u8>, AppError>)
        ensures
            r matches Ok(bytes) ==> zip_read_entries(bytes@) == stored_with(
                archive_entries(self),
                archive_method(self),
            ),
            within_plain_limits(archive_entries(self)) ==> r is Ok,
            r matches Err(e) ==> archive_failure(e),
    {
        match self.finish_bytes() {
            Ok(bytes) => Ok(bytes),
            Err(e) => {
                let d = e.to_string();
                let err = Failure::Internal(d).into_app_error();
                assert(answers(err, Failure::Internal(d)));
                Err(err)
            },
        }
    }
}

} // verus!
