//! What holds of a tree, the archive written for it, and what is unpacked
//! from that archive.
//!
//! The container layer is not modelled beyond what it is handed and what it
//! hands out. Where a statement here needs it to give back what it was
//! given, that is said as a condition, `reads_back`.

use vstd::prelude::*;
use crate::error::BackupError;
use crate::orchestrator::restore_outcome;
use crate::path::components;
use crate::path::is_absolute;
use crate::path::is_safe_name;
use crate::path::joined;
use crate::path::relative_to;
use crate::path_laws::lemma_placed_directory_name_is_kept;
use crate::path_laws::lemma_placed_name_is_kept;
use crate::path_laws::lemma_plain_relative_name_is_safe;
use crate::path_laws::lemma_relative_name_clean;
use crate::path_laws::lemma_safe_with_separator;
use crate::reader::names_directory;
use crate::reader::planned;
use crate::reader::ActionView;
use crate::reader::PlanFault;
use crate::tree::record_of;
use crate::tree::tree_records;
use crate::tree::EntryKind;
use crate::tree::EntryView;
use crate::tree::ItemView;
use crate::tree::Record;
use crate::tree::RootProbe;
use crate::tree::item_under;
use crate::writer::lemma_packed_entries;
use crate::writer::packed;
use crate::writer::packing_answer;
use crate::writer::PackFault;
use crate::writer::written;
use crate::writer::written_all;
use crate::writer::UNIX_PERMISSIONS;
use crate::zipio::archive_image;
use crate::zipio::directory_mode;
use crate::zipio::directory_name;
use crate::zipio::file_mode;
use crate::zipio::last_named;
use crate::zipio::parsed_archive;
use crate::zipio::Compression;

verus! {

/// The member an archive entry reads back as: same name, the mode it was
/// given, same bytes.
pub open spec fn read_back(entry: (Seq<char>, u32, bool, Seq<u8>)) -> (
    Seq<char>,
    Option<u32>,
    Option<Seq<u8>>,
) {
    (entry.0, Some(entry.1), Some(entry.3))
}

/// The members a run of archive entries reads back as.
pub open spec fn read_back_all(entries: Seq<(Seq<char>, u32, bool, Seq<u8>)>) -> Seq<
    (Seq<char>, Option<u32>, Option<Seq<u8>>),
> {
    Seq::new(entries.len(), |i: int| read_back(entries[i]))
}

/// Whether `archive` opens and holds just `entries`, each readable.
pub open spec fn reads_back(entries: Seq<(Seq<char>, u32, bool, Seq<u8>)>, archive: Seq<u8>) -> bool {
    parsed_archive(archive) == Some(read_back_all(entries))
}

/// Whether every record can be unpacked as what it was: each name is safe,
/// and no directory's name ends in a backslash.
pub open spec fn unpackable(records: Seq<Record>) -> bool {
    forall|i: int|
        0 <= i < records.len() ==> {
            &&& is_safe_name((#[trigger] records[i]).name)
            &&& records[i].directory ==> records[i].name.last() != '\\'
        }
}

/// Whether no two records are written under the same name.
pub open spec fn distinct_names(records: Seq<Record>, method: Compression) -> bool {
    forall|i: int, j: int|
        0 <= i < records.len() && 0 <= j < records.len() && i != j ==> written(
            #[trigger] records[i],
            method,
        ).0 != written(#[trigger] records[j], method).0
}

/// Whether an entry's path unpacks as it is: it holds no NUL and no `..`
/// piece, and where it is a directory its name does not end in a backslash.
pub open spec fn plain_entry(root: Seq<char>, entry: EntryView) -> bool {
    &&& forall|k: int| 0 <= k < entry.path.len() ==> entry.path[k] != '\0'
    &&& forall|k: int|
        0 <= k < components(entry.path).len() ==> #[trigger] components(entry.path)[k] != seq![
            '.',
            '.',
        ]
    &&& entry.kind == EntryKind::Directory ==> (relative_to(root, entry.path) matches Some(name)
        ==> name.len() == 0 || name.last() != '\\')
}

/// Whether every entry of a traversal unpacks as it is.
pub open spec fn plain_tree(root: Seq<char>, items: Seq<ItemView>) -> bool {
    forall|i: int|
        0 <= i < items.len() ==> (#[trigger] items[i] matches ItemView::Entry(e) ==> plain_entry(
            root,
            e,
        ))
}

/// The path a record is unpacked at below `dest`.
pub open spec fn unpacked_path(dest: Seq<char>, record: Record) -> Seq<char> {
    if record.directory {
        joined(dest, record.name.push('/'))
    } else {
        joined(dest, record.name)
    }
}

/// What unpacking a record below `dest` should do: write the file's bytes at
/// its relative name, or create the directory at its relative name, with the
/// fixed permissions either way.
pub open spec fn unpacked(dest: Seq<char>, record: Record) -> ActionView {
    if record.directory {
        ActionView::CreateDir {
            path: unpacked_path(dest, record),
            mode: Some(directory_mode(UNIX_PERMISSIONS)),
        }
    } else {
        ActionView::WriteFile {
            path: unpacked_path(dest, record),
            data: record.data,
            mode: Some(file_mode(UNIX_PERMISSIONS)),
            parents: true,
        }
    }
}

/// What unpacking a run of records below `dest` should do.
pub open spec fn unpacked_all(dest: Seq<char>, records: Seq<Record>) -> Seq<ActionView> {
    Seq::new(records.len(), |i: int| unpacked(dest, records[i]))
}

/// The root of a tree has the empty relative name and is not recorded as a
/// directory.
pub proof fn lemma_root_not_recorded(root: Seq<char>, data: Seq<u8>)
    ensures
        relative_to(root, root) == Some(Seq::<char>::empty()),
        record_of(
            root,
            ItemView::Entry(EntryView { path: root, kind: EntryKind::Directory, data }),
        ) is None,
{
    assert(components(root).take(components(root).len() as int) == components(root));
    assert(components(root).skip(components(root).len() as int) == Seq::<Seq<char>>::empty());
}

/// No record of a tree stands for the root directory: every directory record
/// has a name, no record's name starts or ends with a separator, and a
/// directory record holds no bytes.
pub proof fn lemma_records_named(root: Seq<char>, items: Seq<ItemView>)
    ensures
        forall|i: int|
            0 <= i < tree_records(root, items).len() ==> {
                let record = #[trigger] tree_records(root, items)[i];
                &&& record.directory ==> record.name.len() > 0 && record.data.len() == 0
                &&& !is_absolute(record.name)
                &&& !names_directory(record.name)
            },
    decreases items.len(),
{
    if items.len() > 0 {
        let init = tree_records(root, items.drop_last());
        lemma_records_named(root, items.drop_last());
        if let ItemView::Entry(e) = items.last() {
            lemma_relative_name_clean(root, e.path);
        }
        assert forall|i: int| 0 <= i < tree_records(root, items).len() implies {
            let record = #[trigger] tree_records(root, items)[i];
            &&& record.directory ==> record.name.len() > 0 && record.data.len() == 0
            &&& !is_absolute(record.name)
            &&& !names_directory(record.name)
        } by {
            if i < init.len() {
                assert(tree_records(root, items)[i] == init[i]);
            }
        }
    }
}

/// The records of a plain tree can all be unpacked as what they were.
pub proof fn lemma_plain_tree_unpacks(root: Seq<char>, items: Seq<ItemView>)
    requires
        plain_tree(root, items),
    ensures
        unpackable(tree_records(root, items)),
    decreases items.len(),
{
    if items.len() > 0 {
        let init = items.drop_last();
        assert(plain_tree(root, init)) by {
            assert forall|i: int| 0 <= i < init.len() implies (#[trigger] init[i] matches ItemView::Entry(
                e,
            ) ==> plain_entry(root, e)) by {
                assert(init[i] == items[i]);
            }
        }
        lemma_plain_tree_unpacks(root, init);
        assert(items.last() == items[items.len() - 1]);
        if let ItemView::Entry(e) = items.last() {
            lemma_plain_relative_name_is_safe(root, e.path);
        }
        let records = tree_records(root, items);
        assert forall|i: int| 0 <= i < records.len() implies {
            &&& is_safe_name((#[trigger] records[i]).name)
            &&& records[i].directory ==> records[i].name.last() != '\\'
        } by {
            if i < tree_records(root, init).len() {
                assert(records[i] == tree_records(root, init)[i]);
            }
        }
    }
}

/// Unpacking keeps the hierarchy: each record of a tree is unpacked at a
/// path whose name below `dest` is the name its entry had below the root.
pub proof fn lemma_unpacked_paths_keep_names(root: Seq<char>, items: Seq<ItemView>, dest: Seq<char>)
    ensures
        forall|i: int|
            0 <= i < tree_records(root, items).len() ==> relative_to(
                dest,
                unpacked_path(dest, #[trigger] tree_records(root, items)[i]),
            ) == Some(tree_records(root, items)[i].name),
    decreases items.len(),
{
    if items.len() > 0 {
        let init = tree_records(root, items.drop_last());
        lemma_unpacked_paths_keep_names(root, items.drop_last(), dest);
        if let ItemView::Entry(e) = items.last() {
            lemma_placed_name_is_kept(root, e.path, dest);
            lemma_placed_directory_name_is_kept(root, e.path, dest);
        }
        let records = tree_records(root, items);
        assert forall|i: int| 0 <= i < records.len() implies relative_to(
            dest,
            unpacked_path(dest, #[trigger] records[i]),
        ) == Some(records[i].name) by {
            if i < init.len() {
                assert(records[i] == init[i]);
            }
        }
    }
}

/// A traversal whose steps are all under the root and give no record (an
/// empty directory, with or without its own entry and skipped steps) puts
/// nothing into the writer, so packing it is never stopped.
pub proof fn lemma_empty_tree_is_packed(root: Seq<char>, items: Seq<ItemView>, method: Compression)
    requires
        forall|i: int|
            0 <= i < items.len() ==> item_under(root, #[trigger] items[i]) && record_of(
                root,
                items[i],
            ) is None,
    ensures
        packed(root, items, method) == Ok::<Seq<(Seq<char>, u32, bool, Seq<u8>)>, PackFault>(
            Seq::empty(),
        ),
    decreases items.len(),
{
    if items.len() > 0 {
        let init = items.drop_last();
        assert forall|i: int| 0 <= i < init.len() implies item_under(root, #[trigger] init[i])
            && record_of(root, init[i]) is None by {
            assert(init[i] == items[i]);
        }
        lemma_empty_tree_is_packed(root, init, method);
        assert(items.last() == items[items.len() - 1]);
    }
}

/// Records with safe, well-formed names, written and read back, are planned
/// as what each record asks for.
pub proof fn lemma_planned_read_back(dest: Seq<char>, records: Seq<Record>, method: Compression)
    requires
        unpackable(records),
        forall|i: int|
            0 <= i < records.len() ==> {
                &&& (#[trigger] records[i]).directory ==> records[i].name.len() > 0
                &&& !names_directory(records[i].name)
            },
    ensures
        planned(dest, read_back_all(written_all(records, method))) == Ok::<
            Seq<ActionView>,
            PlanFault,
        >(unpacked_all(dest, records)),
    decreases records.len(),
{
    let members = read_back_all(written_all(records, method));
    if records.len() == 0 {
        assert(unpacked_all(dest, records) == Seq::<ActionView>::empty());
    } else {
        let init = records.drop_last();
        let record = records.last();
        assert(record == records[records.len() - 1]);
        assert(unpackable(init)) by {
            assert forall|i: int| 0 <= i < init.len() implies {
                &&& is_safe_name((#[trigger] init[i]).name)
                &&& init[i].directory ==> init[i].name.last() != '\\'
            } by {
                assert(init[i] == records[i]);
            }
        }
        assert forall|i: int| 0 <= i < init.len() implies {
            &&& (#[trigger] init[i]).directory ==> init[i].name.len() > 0
            &&& !names_directory(init[i].name)
        } by {
            assert(init[i] == records[i]);
        }
        lemma_planned_read_back(dest, init, method);
        assert(members.drop_last() == read_back_all(written_all(init, method)));
        assert(members.last() == read_back(written(record, method)));
        if record.directory {
            assert(directory_name(record.name) == record.name.push('/'));
            lemma_safe_with_separator(record.name);
            assert(record.name.push('/').last() == '/');
        }
        assert(unpacked_all(dest, init).push(unpacked(dest, record)) == unpacked_all(
            dest,
            records,
        ));
    }
}

/// Where a tree is packed into `archive`, the archive is the image of the
/// entries of the tree's records. Where that archive also reads back as
/// written, unpacking all of it below `dest` succeeds, and the plan does for
/// each record of the tree, in order, what that record asks for: files come
/// back under their relative names with their bytes, directories under
/// theirs, and every mode is the fixed one.
pub proof fn lemma_round_trip(
    root: Seq<char>,
    items: Seq<ItemView>,
    method: Compression,
    dest: Seq<char>,
    archive: Seq<u8>,
    skipped: nat,
    r: Result<Seq<ActionView>, BackupError>,
)
    requires
        unpackable(tree_records(root, items)),
    ensures
        packing_answer(root, RootProbe::Directory, items, method, Ok((archive, skipped)))
            ==> archive_image(written_all(tree_records(root, items), method)) == Some(archive),
        ({
            let records = tree_records(root, items);
            &&& packing_answer(
                root,
                RootProbe::Directory,
                items,
                method,
                Ok((archive, skipped)),
            )
            &&& reads_back(written_all(records, method), archive)
            &&& restore_outcome(archive, dest, None, r)
        }) ==> r == Ok::<Seq<ActionView>, BackupError>(
            unpacked_all(dest, tree_records(root, items)),
        ),
{
    lemma_packed_entries(root, items, method);
    lemma_records_named(root, items);
    lemma_planned_read_back(dest, tree_records(root, items), method);
}

/// Among members with distinct names, the last one of a name is the one.
pub proof fn lemma_last_named_is_the_one(
    members: Seq<(Seq<char>, Option<u32>, Option<Seq<u8>>)>,
    k: int,
)
    requires
        0 <= k < members.len(),
        forall|i: int, j: int|
            0 <= i < members.len() && 0 <= j < members.len() && i != j ==> (#[trigger] members[i]).0
                != (#[trigger] members[j]).0,
    ensures
        last_named(members, members[k].0) == Some(k),
    decreases members.len(),
{
    if k < members.len() - 1 {
        let init = members.drop_last();
        assert(members.last() == members[members.len() - 1]);
        assert forall|i: int, j: int|
            0 <= i < init.len() && 0 <= j < init.len() && i != j implies (#[trigger] init[i]).0 != (
            #[trigger] init[j]).0 by {
            assert(init[i] == members[i]);
            assert(init[j] == members[j]);
        }
        assert(init[k] == members[k]);
        lemma_last_named_is_the_one(init, k);
    }
}

/// Records with pairwise distinct relative names are written under pairwise
/// distinct names: names are unique within the archive of a tree whose
/// entries have distinct relative names.
pub proof fn lemma_distinct_written_names(
    root: Seq<char>,
    items: Seq<ItemView>,
    method: Compression,
)
    requires
        forall|i: int, j: int|
            0 <= i < tree_records(root, items).len() && 0 <= j < tree_records(root, items).len()
                && i != j ==> (#[trigger] tree_records(root, items)[i]).name != (
            #[trigger] tree_records(root, items)[j]).name,
    ensures
        distinct_names(tree_records(root, items), method),
{
    let records = tree_records(root, items);
    lemma_records_named(root, items);
    assert forall|i: int, j: int|
        0 <= i < records.len() && 0 <= j < records.len() && i != j implies written(
        #[trigger] records[i],
        method,
    ).0 != written(#[trigger] records[j], method).0 by {
        let a = records[i].name;
        let b = records[j].name;
        assert(a != b);
        if records[i].directory && directory_name(a) != a {
            assert(a.push('/').last() == '/');
            assert(a.push('/').drop_last() == a);
        }
        if records[j].directory && directory_name(b) != b {
            assert(b.push('/').last() == '/');
            assert(b.push('/').drop_last() == b);
        }
    }
}

/// Where a tree is packed into `archive`, that archive reads back as written
/// and no two records share a name, unpacking the member named like a file
/// of the tree succeeds, and what it writes are that file's bytes.
pub proof fn lemma_single_member(
    root: Seq<char>,
    items: Seq<ItemView>,
    method: Compression,
    path: Seq<char>,
    archive: Seq<u8>,
    k: int,
    r: Result<Seq<ActionView>, BackupError>,
)
    requires
        0 <= k < tree_records(root, items).len(),
        !tree_records(root, items)[k].directory,
        distinct_names(tree_records(root, items), method),
    ensures
        ({
            let records = tree_records(root, items);
            &&& reads_back(written_all(records, method), archive)
            &&& restore_outcome(archive, path, Some(records[k].name), r)
        }) ==> r == Ok::<Seq<ActionView>, BackupError>(
            seq![
                ActionView::WriteFile {
                    path: joined(path, tree_records(root, items)[k].name),
                    data: tree_records(root, items)[k].data,
                    mode: None,
                    parents: false,
                },
            ],
        ),
{
    let records = tree_records(root, items);
    let entries = written_all(records, method);
    let members = read_back_all(entries);
    assert(members[k].0 == records[k].name);
    assert(members[k].2 == Some(records[k].data));
    assert forall|i: int, j: int|
        0 <= i < members.len() && 0 <= j < members.len() && i != j implies (#[trigger] members[i]).0
        != (#[trigger] members[j]).0 by {
        assert(written(records[i], method).0 == members[i].0);
        assert(written(records[j], method).0 == members[j].0);
    }
    lemma_last_named_is_the_one(members, k);
}

} // verus!
