//! A directory tree as plain values, and what it contributes to an archive.

use vstd::prelude::*;
use crate::path::relative_to;

verus! {

/// What kind of filesystem object an entry is.
#[derive(Clone, Copy, Debug, PartialEq, Eq, Structural)]
pub enum EntryKind {
    /// A regular file; its bytes go into the archive.
    File,
    /// Anything else; recorded as a directory.
    Directory,
}

/// What a look at the backup source found.
#[derive(Clone, Copy, Debug, PartialEq, Eq, Structural)]
pub enum RootProbe {
    Directory,
    NotADirectory,
    Missing,
}

/// One entry found under the root.
#[derive(Clone, Debug, PartialEq, Eq)]
pub struct TreeEntry {
    /// The entry's path, starting with the root's.
    pub path: String,
    pub kind: EntryKind,
    /// The content of a file; unused for a directory.
    pub data: Vec<u8>,
}

/// One step of the traversal: an entry, or a note that one could not be read.
#[derive(Clone, Debug, PartialEq, Eq)]
pub enum WalkItem {
    Entry(TreeEntry),
    /// The entry was unreadable and is left out; the text says why.
    Skipped(String),
}

/// A tree entry as a mathematical value.
pub struct EntryView {
    pub path: Seq<char>,
    pub kind: EntryKind,
    pub data: Seq<u8>,
}

/// A traversal step as a mathematical value.
pub enum ItemView {
    Entry(EntryView),
    Skipped(Seq<char>),
}

impl View for TreeEntry {
    type V = EntryView;

    open spec fn view(&self) -> EntryView {
        EntryView { path: self.path@, kind: self.kind, data: self.data@ }
    }
}

impl View for WalkItem {
    type V = ItemView;

    open spec fn view(&self) -> ItemView {
        match self {
            WalkItem::Entry(e) => ItemView::Entry(e@),
            WalkItem::Skipped(reason) => ItemView::Skipped(reason@),
        }
    }
}

/// The views of a run of traversal steps.
pub open spec fn items_view(items: Seq<WalkItem>) -> Seq<ItemView> {
    Seq::new(items.len(), |i: int| items[i]@)
}

/// One record of an archive, as the tree gives it: a relative name, whether
/// it marks a directory, and a file's content.
pub struct Record {
    pub name: Seq<char>,
    pub directory: bool,
    pub data: Seq<u8>,
}

/// Whether a traversal step names something under `root` (a skipped step does).
pub open spec fn item_under(root: Seq<char>, item: ItemView) -> bool {
    item matches ItemView::Entry(e) ==> relative_to(root, e.path) is Some
}

/// Whether every step names something under `root`.
pub open spec fn all_under(root: Seq<char>, items: Seq<ItemView>) -> bool {
    forall|i: int| 0 <= i < items.len() ==> item_under(root, #[trigger] items[i])
}

/// The record a traversal step contributes, if any.
///
/// A file gives a data record under its relative name. A directory gives a
/// directory record, except the root itself, whose relative name is empty.
/// A skipped step gives nothing.
pub open spec fn record_of(root: Seq<char>, item: ItemView) -> Option<Record> {
    match item {
        ItemView::Skipped(_) => None,
        ItemView::Entry(e) => match relative_to(root, e.path) {
            None => None,
            Some(name) => match e.kind {
                EntryKind::File => Some(Record { name, directory: false, data: e.data }),
                EntryKind::Directory => if name.len() == 0 {
                    None
                } else {
                    Some(Record { name, directory: true, data: Seq::empty() })
                },
            },
        },
    }
}

/// The records a traversal contributes, in traversal order.
pub open spec fn tree_records(root: Seq<char>, items: Seq<ItemView>) -> Seq<Record>
    decreases items.len(),
{
    if items.len() == 0 {
        Seq::empty()
    } else {
        let init = tree_records(root, items.drop_last());
        match record_of(root, items.last()) {
            Some(record) => init.push(record),
            None => init,
        }
    }
}

/// How many steps of a traversal were skipped.
pub open spec fn skipped_count(items: Seq<ItemView>) -> nat
    decreases items.len(),
{
    if items.len() == 0 {
        0
    } else {
        skipped_count(items.drop_last()) + if items.last() is Skipped {
            1nat
        } else {
            0nat
        }
    }
}

} // verus!
