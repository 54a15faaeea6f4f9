//! Reading an archive back: the whole tree, or one member by name.
//!
//! An opened archive gives random access to its members. Unpacking is
//! planned here and carried out by the caller: the result is the list of
//! directories to create and files to write, in member order.

use vstd::prelude::*;
use crate::error::ArchiveFault;
use crate::error::BackupError;
use crate::path::chars_of;
use crate::path::is_safe;
use crate::path::is_safe_name;
use crate::path::join_path;
use crate::path::joined;
use crate::zipio::archive_entries;
use crate::zipio::archive_len;
use crate::zipio::archive_open;
use crate::zipio::archive_read;
use crate::zipio::archive_read_named;
use crate::zipio::fault_of;
use crate::zipio::last_named;
use crate::zipio::parsed_archive;

verus! {

/// One thing to do on disk when unpacking.
#[derive(Clone, Debug, PartialEq, Eq)]
pub enum DiskAction {
    /// Create the directory and any missing parents, then set the mode if one is given.
    CreateDir { path: String, mode: Option<u32> },
    /// Create or truncate the file and write the bytes, after creating any
    /// missing parents where `parents` is set; then set the mode if one is given.
    WriteFile { path: String, data: Vec<u8>, mode: Option<u32>, parents: bool },
}

/// A disk action as a mathematical value.
pub enum ActionView {
    CreateDir { path: Seq<char>, mode: Option<u32> },
    WriteFile { path: Seq<char>, data: Seq<u8>, mode: Option<u32>, parents: bool },
}

impl View for DiskAction {
    type V = ActionView;

    open spec fn view(&self) -> ActionView {
        match self {
            DiskAction::CreateDir { path, mode } => ActionView::CreateDir {
                path: path@,
                mode: *mode,
            },
            DiskAction::WriteFile { path, data, mode, parents } => ActionView::WriteFile {
                path: path@,
                data: data@,
                mode: *mode,
                parents: *parents,
            },
        }
    }
}

/// The views of a run of disk actions.
pub open spec fn actions_view(actions: Seq<DiskAction>) -> Seq<ActionView> {
    Seq::new(actions.len(), |i: int| actions[i]@)
}

/// Whether a member's name marks a directory.
pub open spec fn names_directory(name: Seq<char>) -> bool {
    name.len() > 0 && name.last() == '/'
}

/// What unpacking one member below `dest` does: a member whose name ends in
/// a separator is a directory to create, any other a file to write with its
/// parents made as needed, each at its name placed below `dest` and with the
/// mode the member records.
pub open spec fn action_for(dest: Seq<char>, name: Seq<char>, mode: Option<u32>, data: Seq<u8>) -> ActionView {
    if names_directory(name) {
        ActionView::CreateDir { path: joined(dest, name), mode }
    } else {
        ActionView::WriteFile { path: joined(dest, name), data, mode, parents: true }
    }
}

/// Why a plan for all members cannot be made.
pub enum PlanFault {
    /// A member cannot be read.
    Unreadable,
    /// A member's name is not safe to unpack.
    UnsafeName,
}

/// What planning one more member adds to a plan: the member's action, or the
/// reason why there is none. Reading comes first, then the name is looked at.
pub open spec fn plan_step(
    dest: Seq<char>,
    plan: Seq<ActionView>,
    member: (Seq<char>, Option<u32>, Option<Seq<u8>>),
) -> Result<Seq<ActionView>, PlanFault> {
    match member.2 {
        None => Err(PlanFault::Unreadable),
        Some(data) => if is_safe_name(member.0) {
            Ok(plan.push(action_for(dest, member.0, member.1, data)))
        } else {
            Err(PlanFault::UnsafeName)
        },
    }
}

/// The plan for unpacking all members below `dest`, one action per member in
/// member order, or the reason of the first member that has none.
pub open spec fn planned(
    dest: Seq<char>,
    members: Seq<(Seq<char>, Option<u32>, Option<Seq<u8>>)>,
) -> Result<Seq<ActionView>, PlanFault>
    decreases members.len(),
{
    if members.len() == 0 {
        Ok(Seq::empty())
    } else {
        match planned(dest, members.drop_last()) {
            Ok(plan) => plan_step(dest, plan, members.last()),
            Err(fault) => Err(fault),
        }
    }
}

/// Whether `r` is the right answer to unpacking all `members` below `dest`:
/// the plan where every member reads and has a safe name; `UnsafeName` where
/// the first member that has no action has an unsafe name; another
/// `ArchiveError` where it cannot be read.
pub open spec fn all_answer(
    dest: Seq<char>,
    members: Seq<(Seq<char>, Option<u32>, Option<Seq<u8>>)>,
    r: Result<Seq<ActionView>, BackupError>,
) -> bool {
    match planned(dest, members) {
        Ok(plan) => r == Ok::<Seq<ActionView>, BackupError>(plan),
        Err(PlanFault::UnsafeName) => r == Err::<Seq<ActionView>, BackupError>(
            BackupError::ArchiveError(ArchiveFault::UnsafeName),
        ),
        Err(PlanFault::Unreadable) => r matches Err(BackupError::ArchiveError(fault)) && fault
            != ArchiveFault::UnsafeName,
    }
}

/// Whether `r` is the right answer to unpacking the member called `name` to
/// `path`: `MemberNotFound` where no member carries the name; else the one
/// action that writes the bytes of the last member that does, leaving the
/// mode alone and making no directories; or an `ArchiveError` where that
/// member cannot be read.
pub open spec fn one_answer(
    path: Seq<char>,
    members: Seq<(Seq<char>, Option<u32>, Option<Seq<u8>>)>,
    name: Seq<char>,
    r: Result<ActionView, BackupError>,
) -> bool {
    match last_named(members, name) {
        None => r == Err::<ActionView, BackupError>(BackupError::MemberNotFound),
        Some(i) => match members[i].2 {
            Some(data) => r == Ok::<ActionView, BackupError>(
                ActionView::WriteFile { path, data, mode: None, parents: false },
            ),
            None => r matches Err(BackupError::ArchiveError(fault)) && fault
                != ArchiveFault::UnsafeName,
        },
    }
}

/// The view of what planning all members came to.
pub open spec fn plan_view(r: Result<Vec<DiskAction>, BackupError>) -> Result<
    Seq<ActionView>,
    BackupError,
> {
    match r {
        Ok(plan) => Ok(actions_view(plan@)),
        Err(e) => Err(e),
    }
}

/// The view of what planning one member came to.
pub open spec fn action_view(r: Result<DiskAction, BackupError>) -> Result<ActionView, BackupError> {
    match r {
        Ok(action) => Ok(action@),
        Err(e) => Err(e),
    }
}

/// Plans the unpacking of one member below `dest`, from what reading it gave.
///
/// A name that is not safe is refused with `ArchiveError(UnsafeName)`. A
/// name that ends in a separator gives a directory to create, any other a
/// file to write with its parents made as needed.
pub fn plan_member(dest: &str, name: &str, mode: Option<u32>, data: Vec<u8>) -> (r: Result<
    DiskAction,
    BackupError,
>)
    ensures
        match r {
            Ok(action) => is_safe_name(name@) && action@ == action_for(dest@, name@, mode, data@),
            Err(e) => !is_safe_name(name@) && e == BackupError::ArchiveError(
                ArchiveFault::UnsafeName,
            ),
        },
{
    if !is_safe(name) {
        return Err(BackupError::ArchiveError(ArchiveFault::UnsafeName));
    }
    let path = join_path(dest, name);
    let chars = chars_of(name);
    if chars.len() > 0 && chars[chars.len() - 1] == '/' {
        Ok(DiskAction::CreateDir { path, mode })
    } else {
        Ok(DiskAction::WriteFile { path, data, mode, parents: true })
    }
}

/// An archive opened for random access.
pub struct ArchiveReader {
    archive: zip::ZipArchive<std::io::Cursor<Vec<u8>>>,
}

impl View for ArchiveReader {
    type V = Seq<(Seq<char>, Option<u32>, Option<Seq<u8>>)>;

    /// The members in index order: name, recorded mode, and the bytes where
    /// the member can be read.
    closed spec fn view(&self) -> Seq<(Seq<char>, Option<u32>, Option<Seq<u8>>)> {
        archive_entries(self.archive)
    }
}

impl ArchiveReader {
    /// Opens the bytes as an archive by parsing its index.
    pub fn open(bytes: Vec<u8>) -> (r: Result<ArchiveReader, BackupError>)
        ensures
            match r {
                Ok(reader) => parsed_archive(bytes@) == Some(reader@),
                Err(e) => parsed_archive(bytes@) is None && (e matches BackupError::ArchiveError(
                    fault,
                ) && fault != ArchiveFault::UnsafeName),
            },
    {
        match archive_open(bytes) {
            Ok(archive) => Ok(ArchiveReader { archive }),
            Err(e) => Err(BackupError::ArchiveError(fault_of(&e))),
        }
    }

    /// The number of members.
    pub fn len(&self) -> (n: usize)
        ensures
            n == self@.len(),
    {
        archive_len(&self.archive)
    }

    /// Plans the unpacking of every member below `dest`.
    ///
    /// The plan has one action per member, in member order, and keeps each
    /// member's name as its path below `dest`. The members are taken in
    /// order: the first that cannot be read makes the whole plan fail with an
    /// `ArchiveError`, the first whose name is not safe with
    /// `ArchiveError(UnsafeName)`.
    pub fn extract_all(&mut self, dest: &str) -> (r: Result<Vec<DiskAction>, BackupError>)
        ensures
            final(self)@ == old(self)@,
            all_answer(dest@, old(self)@, plan_view(r)),
    {
        let n = archive_len(&self.archive);
        let mut plan: Vec<DiskAction> = Vec::new();
        let mut i: usize = 0;
        proof {
            assert(self@.take(0).len() == 0);
            assert(actions_view(plan@) == Seq::<ActionView>::empty());
        }
        while i < n
            invariant
                self@ == old(self)@,
                n == self@.len(),
                i <= n,
                planned(dest@, self@.take(i as int)) == Ok::<Seq<ActionView>, PlanFault>(
                    actions_view(plan@),
                ),
            decreases n - i,
        {
            proof {
                assert(self@.take(i + 1).drop_last() == self@.take(i as int));
                assert(self@.take(i + 1).last() == self@[i as int]);
                lemma_planning_stops(dest@, self@, i + 1);
            }
            let ghost before = actions_view(plan@);
            let (name, mode, data) = match archive_read(&mut self.archive, i) {
                Ok(member) => member,
                Err(e) => {
                    return Err(BackupError::ArchiveError(fault_of(&e)));
                },
            };
            let action = match plan_member(dest, name.as_str(), mode, data) {
                Ok(action) => action,
                Err(e) => {
                    return Err(e);
                },
            };
            plan.push(action);
            assert(actions_view(plan@) == before.push(action@));
            i += 1;
        }
        proof {
            assert(self@.take(n as int) == self@);
        }
        Ok(plan)
    }

    /// Plans the unpacking of the member called `member` to the file `dest_path`.
    ///
    /// Fails with `MemberNotFound` exactly when no member carries the name,
    /// and then nothing is to be written. Where several members carry it, the
    /// last one is taken; where that one cannot be read, the failure is an
    /// `ArchiveError`.
    pub fn extract_one(&mut self, member: &str, dest_path: &str) -> (r: Result<
        DiskAction,
        BackupError,
    >)
        ensures
            final(self)@ == old(self)@,
            one_answer(dest_path@, old(self)@, member@, action_view(r)),
    {
        match archive_read_named(&mut self.archive, member) {
            None => Err(BackupError::MemberNotFound),
            Some(Err(e)) => Err(BackupError::ArchiveError(fault_of(&e))),
            Some(Ok(data)) => Ok(
                DiskAction::WriteFile { path: dest_path.to_owned(), data, mode: None, parents: false },
            ),
        }
    }
}

/// A plan that is stopped after some members is stopped for the same reason
/// after all of them.
pub proof fn lemma_planning_stops(
    dest: Seq<char>,
    members: Seq<(Seq<char>, Option<u32>, Option<Seq<u8>>)>,
    k: int,
)
    requires
        0 <= k <= members.len(),
    ensures
        planned(dest, members.take(k)) matches Err(fault) ==> planned(dest, members) == Err::<
            Seq<ActionView>,
            PlanFault,
        >(fault),
    decreases members.len() - k,
{
    if k < members.len() {
        assert(members.take(k + 1).drop_last() == members.take(k));
        lemma_planning_stops(dest, members, k + 1);
    } else {
        assert(members.take(k) == members);
    }
}

} // verus!
