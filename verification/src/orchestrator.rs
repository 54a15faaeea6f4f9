//! The two operations, backup and restore, as decisions.
//!
//! Each is driven by its caller: the caller reports what just happened, is
//! told what to do next, does it, and reports again, until the operation is
//! finished or has failed. No stage is retried; the first failure ends the
//! operation with that failure.

use vstd::prelude::*;
use crate::error::ArchiveFault;
use crate::error::BackupError;
use crate::path::join_path;
use crate::path::joined;
use crate::reader::actions_view;
use crate::reader::all_answer;
use crate::reader::plan_view;
use crate::reader::ActionView;
use crate::reader::ArchiveReader;
use crate::reader::DiskAction;
use crate::store::create_bucket_if_not_exists;
use crate::store::download_object;
use crate::store::upload_object;
use crate::store::BucketAction;
use crate::store::BucketEvent;
use crate::store::Fetched;
use crate::store::ProbeOutcome;
use crate::tree::items_view;
use crate::tree::RootProbe;
use crate::tree::WalkItem;
use crate::writer::packed;
use crate::writer::packing_answer;
use crate::writer::PackFault;
use crate::writer::zip_dir;
use crate::writer::Archived;
use crate::zipio::last_named;
use crate::zipio::parsed_archive;
use crate::zipio::Compression;

verus! {

/// What has just happened in a backup.
#[derive(Debug)]
pub enum BackupEvent {
    /// Nothing yet.
    Start,
    /// The bucket was looked at.
    Probed(ProbeOutcome),
    /// A creation of the bucket was tried; `true` where it succeeded.
    Created(bool),
    /// The source was looked at and what lies below it was traversed.
    TreeRead { probe: RootProbe, items: Vec<WalkItem> },
    /// The archive was sent; `true` where the store took it.
    Uploaded(bool),
}

/// What to do next in a backup.
#[derive(Debug, PartialEq, Eq)]
pub enum BackupAction {
    /// Look whether the bucket is there.
    ProbeBucket,
    /// Try to create the bucket.
    CreateBucket,
    /// Look at the source and traverse what lies below it.
    ReadTree,
    /// Send these bytes to the store under the key.
    Upload(Archived),
    /// The backup is done.
    Finished,
    /// The backup has failed with this error.
    Failed(BackupError),
}

/// What has just happened in a restore.
#[derive(Debug)]
pub enum RestoreEvent {
    /// Nothing yet.
    Start,
    /// The object was asked for.
    Fetched(Fetched),
    /// The planned actions were carried out on disk; `true` where all went through.
    Written(bool),
}

/// What to do next in a restore.
#[derive(Debug, PartialEq, Eq)]
pub enum RestoreAction {
    /// Fetch the object under the key.
    Download,
    /// Carry out these actions on disk, in order.
    Write(Vec<DiskAction>),
    /// The restore is done.
    Finished,
    /// The restore has failed with this error.
    Failed(BackupError),
}

/// The view of an optional member name.
pub open spec fn name_view(member: Option<&str>) -> Option<Seq<char>> {
    match member {
        Some(name) => Some(name@),
        None => None,
    }
}

/// Whether `r` is the right answer to unpacking `archive` below `path`.
///
/// Bytes that do not open as an archive give an `ArchiveError`. Without a
/// member name the answer is the one for all members. With a member name it
/// is `MemberNotFound` where no member carries the name; else the plan of one
/// action that writes the bytes of the last member that does to its name
/// placed below `path`, leaving the mode alone and making no directories; or
/// an `ArchiveError` where that member cannot be read.
pub open spec fn restore_outcome(
    archive: Seq<u8>,
    path: Seq<char>,
    member: Option<Seq<char>>,
    r: Result<Seq<ActionView>, BackupError>,
) -> bool {
    match parsed_archive(archive) {
        None => r matches Err(BackupError::ArchiveError(fault)) && fault
            != ArchiveFault::UnsafeName,
        Some(members) => match member {
            None => all_answer(path, members, r),
            Some(name) => match last_named(members, name) {
                None => r == Err::<Seq<ActionView>, BackupError>(BackupError::MemberNotFound),
                Some(i) => match members[i].2 {
                    Some(data) => r == Ok::<Seq<ActionView>, BackupError>(
                        seq![
                            ActionView::WriteFile {
                                path: joined(path, name),
                                data,
                                mode: None,
                                parents: false,
                            },
                        ],
                    ),
                    None => r matches Err(BackupError::ArchiveError(fault)) && fault
                        != ArchiveFault::UnsafeName,
                },
            },
        },
    }
}

/// Plans the unpacking of a fetched archive below `path`: every member where
/// `member` is `None`, else the one member of that name, written to its name
/// placed below `path`.
pub fn restore_plan(archive: Vec<u8>, path: &str, member: Option<&str>) -> (r: Result<
    Vec<DiskAction>,
    BackupError,
>)
    ensures
        restore_outcome(archive@, path@, name_view(member), plan_view(r)),
{
    let mut reader = match ArchiveReader::open(archive) {
        Ok(reader) => reader,
        Err(e) => {
            return Err(e);
        },
    };
    match member {
        None => reader.extract_all(path),
        Some(name) => {
            let target = join_path(path, name);
            match reader.extract_one(name, target.as_str()) {
                Ok(action) => {
                    let ghost act = action@;
                    let mut plan: Vec<DiskAction> = Vec::new();
                    plan.push(action);
                    assert(actions_view(plan@) == seq![act]);
                    Ok(plan)
                },
                Err(e) => Err(e),
            }
        },
    }
}

/// Decides the next step of a backup of the tree below `path`.
///
/// The bucket is made sure of first, then the tree is packed with the
/// deflate method, then the archive is sent. A tree that is packed is sent
/// as its archive; one that is not ends the backup with the failure of the
/// packing. A source that is not a directory ends it with `NotADirectory`,
/// and nothing is sent.
pub fn backup(path: &str, event: BackupEvent) -> (action: BackupAction)
    ensures
        match event {
            BackupEvent::Start => action is ProbeBucket,
            BackupEvent::Probed(outcome) => if outcome == ProbeOutcome::Exists {
                action is ReadTree
            } else {
                action is CreateBucket
            },
            BackupEvent::Created(ok) => if ok {
                action is ReadTree
            } else {
                action matches BackupAction::Failed(e) && e == BackupError::BucketFailed
            },
            BackupEvent::TreeRead { probe, items } => match action {
                BackupAction::Upload(archived) => packing_answer(
                    path@,
                    probe,
                    items_view(items@),
                    Compression::Deflated,
                    Ok((archived.bytes@, archived.skipped as nat)),
                ),
                BackupAction::Failed(e) => packing_answer(
                    path@,
                    probe,
                    items_view(items@),
                    Compression::Deflated,
                    Err(e),
                ),
                _ => false,
            },
            BackupEvent::Uploaded(ok) => if ok {
                action is Finished
            } else {
                action matches BackupAction::Failed(e) && e == BackupError::PutFailed
            },
        },
        action is Upload ==> (event matches BackupEvent::TreeRead { probe, .. } && probe
            == RootProbe::Directory),
        event matches BackupEvent::TreeRead { probe, items } ==> (probe == RootProbe::Directory
            && packed(path@, items_view(items@), Compression::Deflated) == Ok::<
            Seq<(Seq<char>, u32, bool, Seq<u8>)>,
            PackFault,
        >(Seq::empty()) ==> action is Upload),
{
    match event {
        BackupEvent::Start => after_bucket(create_bucket_if_not_exists(BucketEvent::Start)),
        BackupEvent::Probed(outcome) => after_bucket(
            create_bucket_if_not_exists(BucketEvent::Probed(outcome)),
        ),
        BackupEvent::Created(ok) => after_bucket(
            create_bucket_if_not_exists(BucketEvent::Created(ok)),
        ),
        BackupEvent::TreeRead { probe, items } => {
            match zip_dir(path, probe, &items, Compression::Deflated) {
                Ok(archived) => BackupAction::Upload(archived),
                Err(e) => BackupAction::Failed(e),
            }
        },
        BackupEvent::Uploaded(acknowledged) => match upload_object(acknowledged) {
            Ok(_) => BackupAction::Finished,
            Err(e) => BackupAction::Failed(e),
        },
    }
}

/// The step of a backup that follows a decision about the bucket: once the
/// bucket is there, the tree is read.
fn after_bucket(decision: BucketAction) -> (action: BackupAction)
    ensures
        match decision {
            BucketAction::Probe => action is ProbeBucket,
            BucketAction::Create => action is CreateBucket,
            BucketAction::Ready => action is ReadTree,
            BucketAction::Fail(e) => action matches BackupAction::Failed(f) && f == e,
        },
{
    match decision {
        BucketAction::Probe => BackupAction::ProbeBucket,
        BucketAction::Create => BackupAction::CreateBucket,
        BucketAction::Ready => BackupAction::ReadTree,
        BucketAction::Fail(e) => BackupAction::Failed(e),
    }
}

/// Decides the next step of a restore below `path`, of the whole archive or
/// of the one member named.
///
/// The object is fetched first; a failed fetch ends the restore with
/// `GetFailed`, which tells a missing key apart. The fetched bytes are then
/// planned as `restore_plan` says, and a plan that cannot be carried out ends
/// the restore with `ArchiveError(Io)`.
pub fn restore(path: &str, member: Option<&str>, event: RestoreEvent) -> (action: RestoreAction)
    ensures
        match event {
            RestoreEvent::Start => action is Download,
            RestoreEvent::Fetched(Fetched::Body(archive)) => match action {
                RestoreAction::Write(plan) => restore_outcome(
                    archive@,
                    path@,
                    name_view(member),
                    Ok(actions_view(plan@)),
                ),
                RestoreAction::Failed(e) => restore_outcome(
                    archive@,
                    path@,
                    name_view(member),
                    Err(e),
                ),
                _ => false,
            },
            RestoreEvent::Fetched(Fetched::NotFound) => action matches RestoreAction::Failed(e)
                && e == (BackupError::GetFailed { not_found: true }),
            RestoreEvent::Fetched(Fetched::Failed) => action matches RestoreAction::Failed(e) && e
                == (BackupError::GetFailed { not_found: false }),
            RestoreEvent::Written(ok) => if ok {
                action is Finished
            } else {
                action matches RestoreAction::Failed(e) && e == BackupError::ArchiveError(
                    ArchiveFault::Io,
                )
            },
        },
{
    match event {
        RestoreEvent::Start => RestoreAction::Download,
        RestoreEvent::Fetched(fetched) => {
            let archive = match download_object(fetched) {
                Ok(archive) => archive,
                Err(e) => {
                    return RestoreAction::Failed(e);
                },
            };
            match restore_plan(archive, path, member) {
                Ok(plan) => RestoreAction::Write(plan),
                Err(e) => RestoreAction::Failed(e),
            }
        },
        RestoreEvent::Written(true) => RestoreAction::Finished,
        RestoreEvent::Written(false) => RestoreAction::Failed(
            BackupError::ArchiveError(ArchiveFault::Io),
        ),
    }
}

} // verus!
