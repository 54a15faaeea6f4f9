//! Building an archive from a directory tree.
//!
//! Writing is sequential and append-only: entries go into the archive in
//! traversal order, then the index is written and the bytes are handed out.

use vstd::prelude::*;
use crate::error::BackupError;
use crate::path::relative_name;
use crate::tree::all_under;
use crate::tree::item_under;
use crate::tree::items_view;
use crate::tree::record_of;
use crate::tree::skipped_count;
use crate::tree::tree_records;
use crate::tree::EntryKind;
use crate::tree::ItemView;
use crate::tree::Record;
use crate::tree::RootProbe;
use crate::tree::WalkItem;
use crate::zipio::archive_image;
use crate::zipio::bytes_taken;
use crate::zipio::directory_added;
use crate::zipio::directory_mode;
use crate::zipio::directory_name;
use crate::zipio::fault_of;
use crate::zipio::file_mode;
use crate::zipio::filled;
use crate::zipio::file_started;
use crate::zipio::sink_add_directory;
use crate::zipio::sink_entries;
use crate::zipio::sink_finish;
use crate::zipio::sink_new;
use crate::zipio::sink_start_file;
use crate::zipio::sink_write_all;
use crate::zipio::Compression;
use crate::zipio::ZipSink;

verus! {

/// The permission bits every entry is recorded with, whatever the source had.
pub const UNIX_PERMISSIONS: u32 = 0o755;

/// The archive entry a record is written as: name, mode, whether deflated, bytes.
pub open spec fn written(record: Record, method: Compression) -> (Seq<char>, u32, bool, Seq<u8>) {
    if record.directory {
        (
            directory_name(record.name),
            directory_mode(UNIX_PERMISSIONS),
            false,
            Seq::<u8>::empty(),
        )
    } else {
        (record.name, file_mode(UNIX_PERMISSIONS), method == Compression::Deflated, record.data)
    }
}

/// The archive entries a run of records is written as.
pub open spec fn written_all(records: Seq<Record>, method: Compression) -> Seq<
    (Seq<char>, u32, bool, Seq<u8>),
> {
    Seq::new(records.len(), |i: int| written(records[i], method))
}

/// Why a traversal cannot be packed.
pub enum PackFault {
    /// A step names something that is not under the root.
    NotUnder,
    /// The container layer does not take an entry.
    Refused,
}

/// Whether a writer that holds `before` takes `record`: a directory is
/// added; a file is started and then takes its bytes.
pub open spec fn taken(
    before: Seq<(Seq<char>, u32, bool, Seq<u8>)>,
    record: Record,
    method: Compression,
) -> bool {
    if record.directory {
        directory_added(before, record.name, UNIX_PERMISSIONS)
    } else {
        &&& file_started(
            before,
            record.name,
            method == Compression::Deflated,
            UNIX_PERMISSIONS,
        )
        &&& bytes_taken(
            before.push(
                (
                    record.name,
                    file_mode(UNIX_PERMISSIONS),
                    method == Compression::Deflated,
                    Seq::<u8>::empty(),
                ),
            ),
            record.data,
        )
    }
}

/// What one traversal step does to a writer that holds `before`: a step
/// that is not under the root stops the packing; a step without a record
/// changes nothing; a record is written behind the others where the
/// container layer takes it, and stops the packing where it does not.
pub open spec fn step(
    root: Seq<char>,
    before: Seq<(Seq<char>, u32, bool, Seq<u8>)>,
    item: ItemView,
    method: Compression,
) -> Result<Seq<(Seq<char>, u32, bool, Seq<u8>)>, PackFault> {
    if !item_under(root, item) {
        Err(PackFault::NotUnder)
    } else {
        match record_of(root, item) {
            None => Ok(before),
            Some(record) => if taken(before, record, method) {
                Ok(before.push(written(record, method)))
            } else {
                Err(PackFault::Refused)
            },
        }
    }
}

/// What a traversal puts into a fresh writer, step by step: all its entries,
/// or the reason of the first step that stops it.
pub open spec fn packed(root: Seq<char>, items: Seq<ItemView>, method: Compression) -> Result<
    Seq<(Seq<char>, u32, bool, Seq<u8>)>,
    PackFault,
>
    decreases items.len(),
{
    if items.len() == 0 {
        Ok(Seq::empty())
    } else {
        match packed(root, items.drop_last(), method) {
            Ok(before) => step(root, before, items.last(), method),
            Err(fault) => Err(fault),
        }
    }
}

/// Whether `r` is the right answer to packing the tree below `src`: bytes
/// and the number of skipped steps, or the failure.
///
/// A source that is not a directory gives `NotADirectory`. Otherwise the
/// first step that is not under the source gives `PathError`, the first
/// entry that the container layer does not take gives `ArchiveError`, and so
/// does an archive that it does not finish. In every other case the answer
/// is the finished archive of all entries.
pub open spec fn packing_answer(
    src: Seq<char>,
    probe: RootProbe,
    items: Seq<ItemView>,
    method: Compression,
    r: Result<(Seq<u8>, nat), BackupError>,
) -> bool {
    if probe != RootProbe::Directory {
        r == Err::<(Seq<u8>, nat), BackupError>(BackupError::NotADirectory)
    } else {
        match packed(src, items, method) {
            Err(PackFault::NotUnder) => r == Err::<(Seq<u8>, nat), BackupError>(
                BackupError::PathError,
            ),
            Err(PackFault::Refused) => r matches Err(e) && e is ArchiveError,
            Ok(entries) => match archive_image(entries) {
                None => r matches Err(e) && e is ArchiveError,
                Some(bytes) => r == Ok::<(Seq<u8>, nat), BackupError>(
                    (bytes, skipped_count(items)),
                ),
            },
        }
    }
}

/// An archive under construction for the tree below one root.
pub struct ArchiveWriter {
    root: String,
    method: Compression,
    sink: ZipSink,
}

/// A finished archive and what the traversal left out of it.
#[derive(Clone, Debug, PartialEq, Eq)]
pub struct Archived {
    /// The archive, index included.
    pub bytes: Vec<u8>,
    /// How many traversal steps were skipped as unreadable.
    pub skipped: usize,
}

impl ArchiveWriter {
    /// The root that entry paths are taken relative to.
    pub closed spec fn root(&self) -> Seq<char> {
        self.root@
    }

    /// The method files are packed with.
    pub closed spec fn method(&self) -> Compression {
        self.method
    }

    /// The entries written so far: name, mode, whether deflated, bytes.
    pub closed spec fn entries(&self) -> Seq<(Seq<char>, u32, bool, Seq<u8>)> {
        sink_entries(self.sink)
    }

    /// Starts an empty archive for the tree below `root`.
    ///
    /// `probe` says what was found at `root`; anything but a directory is
    /// refused with `NotADirectory`, before anything is written.
    pub fn new(root: &str, probe: RootProbe, method: Compression) -> (r: Result<
        ArchiveWriter,
        BackupError,
    >)
        ensures
            match r {
                Ok(w) => probe == RootProbe::Directory && w.root() == root@ && w.method() == method
                    && w.entries().len() == 0 && archive_image(w.entries()) is Some,
                Err(e) => probe != RootProbe::Directory && e == BackupError::NotADirectory,
            },
    {
        match probe {
            RootProbe::Directory => {
                let root = root.to_owned();
                Ok(ArchiveWriter { root, method, sink: sink_new() })
            },
            _ => Err(BackupError::NotADirectory),
        }
    }

    /// Takes one traversal step into the archive.
    ///
    /// A skipped step and the root directory add nothing. A file adds a data
    /// record with its bytes, any other entry a directory record, each under
    /// the entry's relative name and with the fixed permissions. An entry that
    /// is not under the root is refused with `PathError` and nothing is
    /// written; an entry that the container layer does not take comes back
    /// as `ArchiveError`.
    pub fn add(&mut self, item: &WalkItem) -> (r: Result<(), BackupError>)
        ensures
            final(self).root() == old(self).root(),
            final(self).method() == old(self).method(),
            match step(old(self).root(), old(self).entries(), item@, old(self).method()) {
                Ok(after) => r is Ok && final(self).entries() == after,
                Err(PackFault::NotUnder) => r == Err::<(), BackupError>(BackupError::PathError)
                    && final(self).entries() == old(self).entries(),
                Err(PackFault::Refused) => r matches Err(e) && e is ArchiveError,
            },
    {
        let entry = match item {
            WalkItem::Skipped(_) => {
                return Ok(());
            },
            WalkItem::Entry(entry) => entry,
        };
        let name = match relative_name(self.root.as_str(), entry.path.as_str()) {
            Ok(name) => name,
            Err(e) => {
                return Err(e);
            },
        };
        let ghost before = self.entries();
        match entry.kind {
            EntryKind::File => {
                match sink_start_file(&mut self.sink, name.as_str(), self.method, UNIX_PERMISSIONS) {
                    Ok(_) => {},
                    Err(e) => {
                        return Err(BackupError::ArchiveError(fault_of(&e)));
                    },
                }
                let ghost started = self.entries();
                match sink_write_all(&mut self.sink, &entry.data) {
                    Ok(_) => {},
                    Err(e) => {
                        return Err(BackupError::ArchiveError(fault_of(&e)));
                    },
                }
                proof {
                    assert(filled(started, entry.data@) == before.push(
                        written(record_of(self.root(), item@)->0, self.method()),
                    ));
                }
                Ok(())
            },
            EntryKind::Directory => {
                if name.as_str().unicode_len() == 0 {
                    return Ok(());
                }
                match sink_add_directory(&mut self.sink, name.as_str(), UNIX_PERMISSIONS) {
                    Ok(_) => Ok(()),
                    Err(e) => Err(BackupError::ArchiveError(fault_of(&e))),
                }
            },
        }
    }

    /// Writes the index and hands out the archive's bytes.
    pub fn finish(self) -> (r: Result<Vec<u8>, BackupError>)
        ensures
            match archive_image(self.entries()) {
                Some(image) => r matches Ok(bytes) && bytes@ == image,
                None => r matches Err(e) && e is ArchiveError,
            },
    {
        match sink_finish(self.sink) {
            Ok(bytes) => Ok(bytes),
            Err(e) => Err(BackupError::ArchiveError(fault_of(&e))),
        }
    }
}

/// The view of what a packing came to.
pub open spec fn archived_view(r: Result<Archived, BackupError>) -> Result<
    (Seq<u8>, nat),
    BackupError,
> {
    match r {
        Ok(archived) => Ok((archived.bytes@, archived.skipped as nat)),
        Err(e) => Err(e),
    }
}

/// A traversal that is packed whole has every step under the root, and what
/// it puts into the writer are the entries of its records, in order.
pub proof fn lemma_packed_entries(root: Seq<char>, items: Seq<ItemView>, method: Compression)
    ensures
        packed(root, items, method) matches Ok(entries) ==> all_under(root, items) && entries
            == written_all(tree_records(root, items), method),
        packed(root, items, method) == Err::<Seq<(Seq<char>, u32, bool, Seq<u8>)>, PackFault>(
            PackFault::NotUnder,
        ) ==> !all_under(root, items),
    decreases items.len(),
{
    if items.len() > 0 {
        let init = items.drop_last();
        lemma_packed_entries(root, init, method);
        assert(items.last() == items[items.len() - 1]);
        match packed(root, init, method) {
            Ok(before) => {
                if packed(root, items, method) is Ok {
                    assert forall|i: int| 0 <= i < items.len() implies item_under(
                        root,
                        #[trigger] items[i],
                    ) by {
                        if i < init.len() {
                            assert(items[i] == init[i]);
                        }
                    }
                    assert(packed(root, items, method)->Ok_0 == written_all(
                        tree_records(root, items),
                        method,
                    ));
                }
            },
            Err(fault) => {
                if fault == PackFault::NotUnder {
                    let i = choose|i: int| 0 <= i < init.len() && !item_under(root, #[trigger] init[i]);
                    assert(items[i] == init[i]);
                }
            },
        }
    }
}

/// Packs the tree below `src` into one archive.
///
/// `probe` says what was found at `src` and `items` is the traversal of what
/// lies below it, in the order it was made. Unreadable steps are left out and
/// counted. Fails with `NotADirectory` exactly when `src` is not a directory,
/// and then before anything is written. Otherwise the steps are taken in
/// order: the first that is not under `src` gives `PathError`, the first that
/// the container layer does not take gives `ArchiveError`. Where every step
/// is taken and the archive is finished, the result is the archive.
pub fn zip_dir(src: &str, probe: RootProbe, items: &Vec<WalkItem>, method: Compression) -> (r:
    Result<Archived, BackupError>)
    ensures
        packing_answer(src@, probe, items_view(items@), method, archived_view(r)),
        probe == RootProbe::Directory && packed(src@, items_view(items@), method) == Ok::<
            Seq<(Seq<char>, u32, bool, Seq<u8>)>,
            PackFault,
        >(Seq::empty()) ==> r is Ok,
{
    let mut writer = match ArchiveWriter::new(src, probe, method) {
        Ok(writer) => writer,
        Err(e) => {
            return Err(e);
        },
    };
    let ghost views = items_view(items@);
    let mut skipped: usize = 0;
    let mut i: usize = 0;
    proof {
        assert(views.take(0).len() == 0);
        assert(writer.entries() == Seq::<(Seq<char>, u32, bool, Seq<u8>)>::empty());
    }
    while i < items.len()
        invariant
            i <= items.len(),
            archive_image(Seq::<(Seq<char>, u32, bool, Seq<u8>)>::empty()) is Some,
            probe == RootProbe::Directory,
            views == items_view(items@),
            writer.root() == src@,
            writer.method() == method,
            packed(src@, views.take(i as int), method) == Ok::<
                Seq<(Seq<char>, u32, bool, Seq<u8>)>,
                PackFault,
            >(writer.entries()),
            skipped == skipped_count(views.take(i as int)),
            skipped <= i,
        decreases items.len() - i,
    {
        proof {
            assert(views.take(i + 1).drop_last() == views.take(i as int));
            assert(views.take(i + 1).last() == items@[i as int]@);
            lemma_packing_stops(src@, views, method, i + 1);
        }
        match writer.add(&items[i]) {
            Ok(_) => {},
            Err(e) => {
                return Err(e);
            },
        }
        match &items[i] {
            WalkItem::Skipped(_) => {
                skipped += 1;
            },
            WalkItem::Entry(_) => {},
        }
        i += 1;
    }
    proof {
        assert(views.take(items.len() as int) == views);
    }
    match writer.finish() {
        Ok(bytes) => Ok(Archived { bytes, skipped }),
        Err(e) => Err(e),
    }
}

/// A packing that is stopped after some steps is stopped for the same reason
/// after all of them.
pub proof fn lemma_packing_stops(
    root: Seq<char>,
    items: Seq<ItemView>,
    method: Compression,
    k: int,
)
    requires
        0 <= k <= items.len(),
    ensures
        packed(root, items.take(k), method) matches Err(fault) ==> packed(root, items, method)
            == Err::<Seq<(Seq<char>, u32, bool, Seq<u8>)>, PackFault>(fault),
    decreases items.len() - k,
{
    if k < items.len() {
        assert(items.take(k + 1).drop_last() == items.take(k));
        lemma_packing_stops(root, items, method, k + 1);
    } else {
        assert(items.take(k) == items);
    }
}

} // verus!
