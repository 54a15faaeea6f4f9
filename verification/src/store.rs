//! Decisions at the object store: making sure a bucket exists, and what a
//! fetch or a store of an object came to.
//!
//! The store itself is reached by the caller. What it answered comes in as a
//! plain value, and what to ask next goes out as one.

use vstd::prelude::*;
use crate::error::BackupError;

verus! {

/// What a look at a bucket found.
#[derive(Clone, Copy, Debug, PartialEq, Eq, Structural)]
pub enum ProbeOutcome {
    /// The bucket is there.
    Exists,
    /// The store says there is no such bucket.
    NotFound,
    /// The look itself failed, so nothing is known.
    ProbeError,
}

/// What has just happened while making sure a bucket exists.
#[derive(Clone, Copy, Debug, PartialEq, Eq, Structural)]
pub enum BucketEvent {
    /// Nothing yet.
    Start,
    /// The bucket was looked at.
    Probed(ProbeOutcome),
    /// A creation was tried; `true` where it succeeded.
    Created(bool),
}

/// What to do next while making sure a bucket exists.
#[derive(Clone, Copy, Debug, PartialEq, Eq, Structural)]
pub enum BucketAction {
    /// Look whether the bucket is there.
    Probe,
    /// Try to create the bucket.
    Create,
    /// The bucket is there; nothing is left to do.
    Ready,
    /// Give up with this error.
    Fail(BackupError),
}

/// What a fetch of an object came to.
#[derive(Debug)]
pub enum Fetched {
    /// The object's bytes.
    Body(Vec<u8>),
    /// The store has no object under the key.
    NotFound,
    /// The fetch failed for another reason.
    Failed,
}

/// The next step towards an existing bucket.
///
/// A bucket found there needs nothing more. Any other answer to the look, be
/// it a plain "not found" or a failure of the look itself, leads to one
/// creation attempt, and a failed creation is final.
pub open spec fn bucket_step(event: BucketEvent) -> BucketAction {
    match event {
        BucketEvent::Start => BucketAction::Probe,
        BucketEvent::Probed(ProbeOutcome::Exists) => BucketAction::Ready,
        BucketEvent::Probed(_) => BucketAction::Create,
        BucketEvent::Created(true) => BucketAction::Ready,
        BucketEvent::Created(false) => BucketAction::Fail(BackupError::BucketFailed),
    }
}

/// Decides the next step towards an existing bucket from what just happened.
pub fn create_bucket_if_not_exists(event: BucketEvent) -> (action: BucketAction)
    ensures
        action == bucket_step(event),
{
    match event {
        BucketEvent::Start => BucketAction::Probe,
        BucketEvent::Probed(ProbeOutcome::Exists) => BucketAction::Ready,
        BucketEvent::Probed(_) => BucketAction::Create,
        BucketEvent::Created(true) => BucketAction::Ready,
        BucketEvent::Created(false) => BucketAction::Fail(BackupError::BucketFailed),
    }
}

/// What a fetch of an object gives the restore: the object's bytes, or
/// `GetFailed`, which tells a missing key apart from any other failure.
pub fn download_object(fetched: Fetched) -> (r: Result<Vec<u8>, BackupError>)
    ensures
        match fetched {
            Fetched::Body(bytes) => r == Ok::<Vec<u8>, BackupError>(bytes),
            Fetched::NotFound => r == Err::<Vec<u8>, BackupError>(
                BackupError::GetFailed { not_found: true },
            ),
            Fetched::Failed => r == Err::<Vec<u8>, BackupError>(
                BackupError::GetFailed { not_found: false },
            ),
        },
{
    match fetched {
        Fetched::Body(bytes) => Ok(bytes),
        Fetched::NotFound => Err(BackupError::GetFailed { not_found: true }),
        Fetched::Failed => Err(BackupError::GetFailed { not_found: false }),
    }
}

/// What sending an object gives the backup: nothing more to do where the
/// store acknowledged the write, `PutFailed` where it did not.
pub fn upload_object(acknowledged: bool) -> (r: Result<(), BackupError>)
    ensures
        r == if acknowledged {
            Ok::<(), BackupError>(())
        } else {
            Err::<(), BackupError>(BackupError::PutFailed)
        },
{
    if acknowledged {
        Ok(())
    } else {
        Err(BackupError::PutFailed)
    }
}

/// How a store that answers truthfully reacts to an action on `bucket`: the
/// buckets it holds afterwards and the event it reports. `create_ok` says
/// whether a creation would go through.
pub open spec fn answer(
    buckets: Set<Seq<char>>,
    bucket: Seq<char>,
    action: BucketAction,
    create_ok: bool,
) -> (Set<Seq<char>>, BucketEvent) {
    match action {
        BucketAction::Probe => (
            buckets,
            BucketEvent::Probed(
                if buckets.contains(bucket) {
                    ProbeOutcome::Exists
                } else {
                    ProbeOutcome::NotFound
                },
            ),
        ),
        BucketAction::Create => if create_ok {
            (buckets.insert(bucket), BucketEvent::Created(true))
        } else {
            (buckets, BucketEvent::Created(false))
        },
        _ => (buckets, BucketEvent::Start),
    }
}

/// Where making sure of a bucket ended.
pub struct EnsureRun {
    /// The buckets the store holds afterwards.
    pub buckets: Set<Seq<char>>,
    /// The last action decided: `Ready` or `Fail` once the run is over.
    pub last: BucketAction,
    /// How many creations were tried.
    pub creates: nat,
}

/// Plays the decisions against a truthful store, starting from `event`, for
/// at most `steps` questions to the store.
pub open spec fn ensure_run(
    buckets: Set<Seq<char>>,
    bucket: Seq<char>,
    create_ok: bool,
    event: BucketEvent,
    steps: nat,
) -> EnsureRun
    decreases steps,
{
    let action = bucket_step(event);
    if steps == 0 || action is Ready || action is Fail {
        EnsureRun { buckets, last: action, creates: 0 }
    } else {
        let (after, reported) = answer(buckets, bucket, action, create_ok);
        let rest = ensure_run(after, bucket, create_ok, reported, (steps - 1) as nat);
        EnsureRun {
            buckets: rest.buckets,
            last: rest.last,
            creates: rest.creates + if action is Create {
                1nat
            } else {
                0nat
            },
        }
    }
}

/// Making sure of a bucket never takes more than two questions to the store.
pub proof fn lemma_ensure_run_ends(buckets: Set<Seq<char>>, bucket: Seq<char>, create_ok: bool)
    ensures
        ({
            let run = ensure_run(buckets, bucket, create_ok, BucketEvent::Start, 2);
            &&& run.last is Ready || run.last is Fail
            &&& run.last is Ready <==> buckets.contains(bucket) || create_ok
            &&& run.last is Ready ==> run.buckets.contains(bucket)
            &&& run.creates == if buckets.contains(bucket) {
                0nat
            } else {
                1nat
            }
        }),
{
    reveal_with_fuel(ensure_run, 3);
}

/// Making sure of a bucket is idempotent: after one run has ended well, a
/// second run against the same store ends well too, tries no creation and
/// leaves the store as it found it.
pub proof fn lemma_ensure_bucket_idempotent(
    buckets: Set<Seq<char>>,
    bucket: Seq<char>,
    first_create_ok: bool,
    second_create_ok: bool,
)
    ensures
        ({
            let first = ensure_run(buckets, bucket, first_create_ok, BucketEvent::Start, 2);
            let second = ensure_run(
                first.buckets,
                bucket,
                second_create_ok,
                BucketEvent::Start,
                2,
            );
            first.last is Ready ==> second.last is Ready && second.creates == 0 && second.buckets
                == first.buckets
        }),
{
    reveal_with_fuel(ensure_run, 3);
}

} // verus!
