//! Bulk archival: moving every object under a prefix to a colder tier, now.
//!
//! A job walks the listing of the prefix page by page and, for each object,
//! asks for a copy of the object onto itself with the new tier. The job itself
//! calls nothing: `next_action` says what to ask of the backend, and `step`
//! takes the answer. Between the two the caller does the asking.
//!
//! ```text
//! Listing -> Copying -> ... -> Listing (the page was cut short) -> ... -> Completed
//! Listing | Copying -> Failed
//! ```
//!
//! Objects are taken in the order of the listing. The first object that cannot
//! be copied ends the job: what was copied stays copied, what was not reached
//! is left alone, and nothing is tried again.

use crate::error::ValidationError;
use crate::storage_class::{archive_class_named, parse_archive_class, uppercased, StorageClass};
use crate::store::BucketId;
use vstd::prelude::*;
use vstd::string::*;

verus! {

/// The most objects asked for in one page of the listing.
pub const PAGE_SIZE: i32 = 1000;

/// What a copy does with the metadata of the object.
#[derive(Clone, Copy, Debug, PartialEq, Eq, Structural)]
pub enum MetadataDirective {
    /// The copy keeps the metadata of the source.
    Copy,
    /// The copy takes the metadata given with the request.
    Replace,
}

/// The account of a job that went through the whole listing.
#[derive(Clone, Copy, Debug, PartialEq, Eq, Structural)]
pub struct ArchiveSummary {
    pub objects_processed: u64,
    pub target_class: StorageClass,
}

/// What ended a job early. `cause` is the backend's own account, unchanged.
#[derive(Clone, Debug, PartialEq, Eq)]
pub enum ArchiveError {
    /// A page of the listing could not be read.
    Listing { bucket: String, prefix: String, cause: String },
    /// The object `key` could not be copied.
    Object { bucket: String, key: String, cause: String },
}

/// The mathematical content of an `ArchiveError`.
pub enum ArchiveErrorView {
    Listing { bucket: Seq<char>, prefix: Seq<char>, cause: Seq<char> },
    Object { bucket: Seq<char>, key: Seq<char>, cause: Seq<char> },
}

impl View for ArchiveError {
    type V = ArchiveErrorView;

    open spec fn view(&self) -> ArchiveErrorView {
        match self {
            ArchiveError::Listing { bucket, prefix, cause } => ArchiveErrorView::Listing {
                bucket: bucket@,
                prefix: prefix@,
                cause: cause@,
            },
            ArchiveError::Object { bucket, key, cause } => ArchiveErrorView::Object {
                bucket: bucket@,
                key: key@,
                cause: cause@,
            },
        }
    }
}

impl ArchiveError {
    fn duplicate(&self) -> (copy: ArchiveError)
        ensures
            copy@ == self@,
    {
        match self {
            ArchiveError::Listing { bucket, prefix, cause } => ArchiveError::Listing {
                bucket: bucket.clone(),
                prefix: prefix.clone(),
                cause: cause.clone(),
            },
            ArchiveError::Object { bucket, key, cause } => ArchiveError::Object {
                bucket: bucket.clone(),
                key: key.clone(),
                cause: cause.clone(),
            },
        }
    }
}

/// Where a job stands.
#[derive(Clone, Debug, PartialEq, Eq)]
pub enum JobPhase {
    /// A page of the listing is to be read.
    Listing,
    /// An object of the page in hand is to be copied.
    Copying,
    /// The listing is through and every object was copied.
    Completed,
    /// The job was given up.
    Failed(ArchiveError),
}

/// The mathematical content of a `JobPhase`.
pub enum PhaseView {
    Listing,
    Copying,
    Completed,
    Failed(ArchiveErrorView),
}

impl View for JobPhase {
    type V = PhaseView;

    open spec fn view(&self) -> PhaseView {
        match self {
            JobPhase::Listing => PhaseView::Listing,
            JobPhase::Copying => PhaseView::Copying,
            JobPhase::Completed => PhaseView::Completed,
            JobPhase::Failed(e) => PhaseView::Failed(e@),
        }
    }
}

/// What the job asks of the backend.
#[derive(Clone, Debug, PartialEq, Eq)]
pub enum ArchiveAction {
    /// Read the page of the listing that starts at `cursor`, or the first page
    /// where there is no cursor.
    ListPage { bucket: String, prefix: String, max_keys: i32, cursor: Option<String> },
    /// Copy the object onto itself, into `storage_class`.
    CopyObject {
        bucket: String,
        key: String,
        copy_source: String,
        storage_class: StorageClass,
        metadata_directive: MetadataDirective,
    },
    /// Nothing: the job is over.
    Stop,
}

/// The mathematical content of an `ArchiveAction`.
pub enum ActionView {
    ListPage { bucket: Seq<char>, prefix: Seq<char>, max_keys: i32, cursor: Option<Seq<char>> },
    CopyObject {
        bucket: Seq<char>,
        key: Seq<char>,
        copy_source: Seq<char>,
        storage_class: StorageClass,
        metadata_directive: MetadataDirective,
    },
    Stop,
}

impl View for ArchiveAction {
    type V = ActionView;

    open spec fn view(&self) -> ActionView {
        match self {
            ArchiveAction::ListPage { bucket, prefix, max_keys, cursor } => ActionView::ListPage {
                bucket: bucket@,
                prefix: prefix@,
                max_keys: *max_keys,
                cursor: cursor.deep_view(),
            },
            ArchiveAction::CopyObject {
                bucket,
                key,
                copy_source,
                storage_class,
                metadata_directive,
            } => ActionView::CopyObject {
                bucket: bucket@,
                key: key@,
                copy_source: copy_source@,
                storage_class: *storage_class,
                metadata_directive: *metadata_directive,
            },
            ArchiveAction::Stop => ActionView::Stop,
        }
    }
}

/// What the backend answered.
#[derive(Clone, Debug, PartialEq, Eq)]
pub enum ArchiveEvent {
    /// A page of the listing: the key of each object on it, in the order of
    /// the listing, whether the listing goes on after it, and from where.
    PageListed { objects: Vec<Option<String>>, is_truncated: Option<bool>, next_cursor: Option<String> },
    /// The page could not be read.
    ListFailed { cause: String },
    /// The object was copied.
    CopySucceeded,
    /// The object could not be copied.
    CopyFailed { cause: String },
}

/// The mathematical content of an `ArchiveEvent`.
pub enum EventView {
    PageListed {
        objects: Seq<Option<Seq<char>>>,
        is_truncated: Option<bool>,
        next_cursor: Option<Seq<char>>,
    },
    ListFailed { cause: Seq<char> },
    CopySucceeded,
    CopyFailed { cause: Seq<char> },
}

impl View for ArchiveEvent {
    type V = EventView;

    open spec fn view(&self) -> EventView {
        match self {
            ArchiveEvent::PageListed { objects, is_truncated, next_cursor } => EventView::PageListed {
                objects: objects.deep_view(),
                is_truncated: *is_truncated,
                next_cursor: next_cursor.deep_view(),
            },
            ArchiveEvent::ListFailed { cause } => EventView::ListFailed { cause: cause@ },
            ArchiveEvent::CopySucceeded => EventView::CopySucceeded,
            ArchiveEvent::CopyFailed { cause } => EventView::CopyFailed { cause: cause@ },
        }
    }
}

/// The state of a job as a mathematical value.
#[verifier::ext_equal]
pub struct JobView {
    pub bucket: Seq<char>,
    pub prefix: Seq<char>,
    pub target_class: StorageClass,
    /// Where the next page of the listing starts.
    pub cursor: Option<Seq<char>>,
    /// How many objects were copied.
    pub processed: nat,
    /// The objects that could not be copied, each with the cause.
    pub failures: Seq<(Seq<char>, Seq<char>)>,
    pub phase: PhaseView,
    /// The keys of the page in hand that were not copied yet, next first.
    pub pending: Seq<Seq<char>>,
    /// Whether the listing goes on after the page in hand.
    pub truncated: bool,
}

/// The keys on a page, in its order. An object listed without a key cannot be
/// copied and is passed over.
pub open spec fn listed_keys(objects: Seq<Option<Seq<char>>>) -> Seq<Seq<char>>
    decreases objects.len(),
{
    if objects.len() == 0 {
        Seq::empty()
    } else {
        match objects.last() {
            Some(key) => listed_keys(objects.drop_last()).push(key),
            None => listed_keys(objects.drop_last()),
        }
    }
}

/// The source of a copy of the object onto itself.
pub open spec fn copy_source_of(bucket: Seq<char>, key: Seq<char>) -> Seq<char> {
    bucket + "/"@ + key
}

/// Where a job stands once the page in hand is dealt with: the backend alone
/// says whether the listing goes on.
pub open spec fn phase_after_page(truncated: bool) -> PhaseView {
    if truncated {
        PhaseView::Listing
    } else {
        PhaseView::Completed
    }
}

/// The job at its start: nothing listed, nothing copied.
pub open spec fn initial_job(bucket: Seq<char>, prefix: Seq<char>, target_class: StorageClass) -> JobView {
    JobView {
        bucket,
        prefix,
        target_class,
        cursor: None,
        processed: 0,
        failures: Seq::empty(),
        phase: PhaseView::Listing,
        pending: Seq::empty(),
        truncated: false,
    }
}

/// The job after the answer `event`. An answer to a question the job did not
/// ask changes nothing.
pub open spec fn step_of(job: JobView, event: EventView) -> JobView {
    match (job.phase, event) {
        (PhaseView::Listing, EventView::PageListed { objects, is_truncated, next_cursor }) => {
            let keys = listed_keys(objects);
            let more = is_truncated == Some(true);
            JobView {
                cursor: if more {
                    next_cursor
                } else {
                    job.cursor
                },
                pending: keys,
                truncated: more,
                phase: if keys.len() > 0 {
                    PhaseView::Copying
                } else {
                    phase_after_page(more)
                },
                ..job
            }
        },
        (PhaseView::Listing, EventView::ListFailed { cause }) => JobView {
            phase: PhaseView::Failed(
                ArchiveErrorView::Listing { bucket: job.bucket, prefix: job.prefix, cause },
            ),
            ..job
        },
        (PhaseView::Copying, EventView::CopySucceeded) => {
            let rest = job.pending.drop_first();
            JobView {
                processed: job.processed + 1,
                pending: rest,
                phase: if rest.len() > 0 {
                    PhaseView::Copying
                } else {
                    phase_after_page(job.truncated)
                },
                ..job
            }
        },
        (PhaseView::Copying, EventView::CopyFailed { cause }) => JobView {
            failures: job.failures.push((job.pending[0], cause)),
            phase: PhaseView::Failed(
                ArchiveErrorView::Object { bucket: job.bucket, key: job.pending[0], cause },
            ),
            ..job
        },
        _ => job,
    }
}

/// What the job asks of the backend next.
pub open spec fn action_of(job: JobView) -> ActionView {
    match job.phase {
        PhaseView::Listing => ActionView::ListPage {
            bucket: job.bucket,
            prefix: job.prefix,
            max_keys: PAGE_SIZE,
            cursor: job.cursor,
        },
        PhaseView::Copying => ActionView::CopyObject {
            bucket: job.bucket,
            key: job.pending[0],
            copy_source: copy_source_of(job.bucket, job.pending[0]),
            storage_class: job.target_class,
            metadata_directive: MetadataDirective::Copy,
        },
        PhaseView::Completed => ActionView::Stop,
        PhaseView::Failed(_) => ActionView::Stop,
    }
}

/// How the job ended, once it has.
pub open spec fn outcome_of(job: JobView) -> Option<Result<ArchiveSummary, ArchiveErrorView>> {
    match job.phase {
        PhaseView::Completed => Some(
            Ok(
                ArchiveSummary {
                    objects_processed: job.processed as u64,
                    target_class: job.target_class,
                },
            ),
        ),
        PhaseView::Failed(e) => Some(Err(e)),
        _ => None,
    }
}

impl JobView {
    /// What holds of every job: the phase agrees with what is pending and with
    /// what failed.
    pub open spec fn wf(self) -> bool {
        match self.phase {
            PhaseView::Listing => self.pending.len() == 0 && self.failures.len() == 0,
            PhaseView::Copying => self.pending.len() > 0 && self.failures.len() == 0,
            PhaseView::Completed => self.pending.len() == 0 && self.failures.len() == 0
                && !self.truncated,
            PhaseView::Failed(ArchiveErrorView::Listing { bucket, prefix, cause }) => {
                &&& self.pending.len() == 0
                &&& self.failures.len() == 0
                &&& bucket == self.bucket
                &&& prefix == self.prefix
            },
            PhaseView::Failed(ArchiveErrorView::Object { bucket, key, cause }) => {
                &&& self.pending.len() > 0
                &&& self.pending[0] == key
                &&& self.failures == seq![(key, cause)]
                &&& bucket == self.bucket
            },
        }
    }

    /// The job is over.
    pub open spec fn finished(self) -> bool {
        self.phase is Completed || self.phase is Failed
    }
}

/// One bulk archival, from its first listing to its end.
#[derive(Debug)]
pub struct ArchiveJob {
    bucket: String,
    prefix: String,
    target_class: StorageClass,
    cursor: Option<String>,
    processed: u64,
    failures: Vec<(String, String)>,
    phase: JobPhase,
    keys: Vec<String>,
    position: usize,
    truncated: bool,
}

impl View for ArchiveJob {
    type V = JobView;

    closed spec fn view(&self) -> JobView {
        JobView {
            bucket: self.bucket@,
            prefix: self.prefix@,
            target_class: self.target_class,
            cursor: self.cursor.deep_view(),
            processed: self.processed as nat,
            failures: self.failures.deep_view(),
            phase: self.phase@,
            pending: self.keys.deep_view().skip(self.position as int),
            truncated: self.truncated,
        }
    }
}

/// Moves the keys of the listed objects into a vector, in their order.
fn keys_of(objects: Vec<Option<String>>) -> (keys: Vec<String>)
    ensures
        keys.deep_view() == listed_keys(objects.deep_view()),
{
    let ghost all = objects.deep_view();
    let mut keys: Vec<String> = Vec::new();
    assert(keys.deep_view() =~= Seq::<Seq<char>>::empty());
    for object in it: objects
        invariant
            it.seq().len() == all.len(),
            forall|k: int| 0 <= k < all.len() ==> (#[trigger] it.seq()[k]).deep_view() == all[k],
            keys.deep_view() == listed_keys(all.take(it.index() as int)),
    {
        let ghost seen = it.index() as int;
        let ghost before = keys.deep_view();
        proof {
            assert(all.take(seen + 1).drop_last() =~= all.take(seen));
            assert(all.take(seen + 1).last() == all[seen]);
            assert(object.deep_view() == all[seen]);
        }
        if let Some(key) = object {
            keys.push(key);
            assert(keys.deep_view() =~= before.push(key@));
        }
    }
    assert(all.take(all.len() as int) =~= all);
    keys
}

fn duplicate_cursor(cursor: &Option<String>) -> (copy: Option<String>)
    ensures
        copy.deep_view() == cursor.deep_view(),
{
    match cursor {
        Some(c) => Some(c.clone()),
        None => None,
    }
}

impl ArchiveJob {
    #[verifier::type_invariant]
    spec fn sound(self) -> bool {
        &&& self.position <= self.keys.len()
        &&& self@.wf()
    }

    /// A job that moves the objects under `prefix` in `bucket` to
    /// `target_class`. Objects can be archived to the three cold tiers only.
    pub fn new(bucket: &BucketId, prefix: String, target_class: StorageClass) -> (job: Result<
        ArchiveJob,
        ValidationError,
    >)
        ensures
            match job {
                Ok(j) => target_class != StorageClass::StandardIa && j@ == initial_job(
                    bucket@,
                    prefix@,
                    target_class,
                ),
                Err(e) => target_class == StorageClass::StandardIa && e
                    == ValidationError::InvalidTargetClass,
            },
    {
        match target_class {
            StorageClass::StandardIa => Err(ValidationError::InvalidTargetClass),
            _ => {
                let job = ArchiveJob {
                    bucket: bucket.as_str().to_owned(),
                    prefix,
                    target_class,
                    cursor: None,
                    processed: 0,
                    failures: Vec::new(),
                    phase: JobPhase::Listing,
                    keys: Vec::new(),
                    position: 0,
                    truncated: false,
                };
                assert(job@ =~= initial_job(bucket@, prefix@, target_class));
                Ok(job)
            },
        }
    }

    /// A job for the tier named `target_class`. The name is judged before
    /// anything is asked of the backend: where it is turned down there is no
    /// job, and so no question to ask.
    pub fn start(bucket: &BucketId, prefix: String, target_class: &str) -> (job: Result<
        ArchiveJob,
        ValidationError,
    >)
        ensures
            match job {
                Ok(j) => archive_class_named(uppercased(target_class@)) == Some(j@.target_class)
                    && j@ == initial_job(bucket@, prefix@, j@.target_class),
                Err(e) => archive_class_named(uppercased(target_class@)) is None && e
                    == ValidationError::InvalidTargetClass,
            },
    {
        match parse_archive_class(target_class) {
            Ok(class) => ArchiveJob::new(bucket, prefix, class),
            Err(e) => Err(e),
        }
    }

    pub fn processed(&self) -> (n: u64)
        ensures
            n == self@.processed,
    {
        self.processed
    }

    pub fn target_class(&self) -> (class: StorageClass)
        ensures
            class == self@.target_class,
    {
        self.target_class
    }

    pub fn phase(&self) -> (phase: &JobPhase)
        ensures
            phase@ == self@.phase,
    {
        &self.phase
    }

    pub fn cursor(&self) -> (cursor: &Option<String>)
        ensures
            cursor.deep_view() == self@.cursor,
    {
        &self.cursor
    }

    pub fn failures(&self) -> (failures: &Vec<(String, String)>)
        ensures
            failures.deep_view() == self@.failures,
    {
        &self.failures
    }

    pub fn is_finished(&self) -> (over: bool)
        ensures
            over == self@.finished(),
    {
        match &self.phase {
            JobPhase::Completed => true,
            JobPhase::Failed(_) => true,
            _ => false,
        }
    }

    /// What to ask of the backend next.
    pub fn next_action(&self) -> (action: ArchiveAction)
        ensures
            action@ == action_of(self@),
    {
        proof {
            use_type_invariant(self);
        }
        match &self.phase {
            JobPhase::Listing => ArchiveAction::ListPage {
                bucket: self.bucket.clone(),
                prefix: self.prefix.clone(),
                max_keys: PAGE_SIZE,
                cursor: duplicate_cursor(&self.cursor),
            },
            JobPhase::Copying => {
                let key = self.keys[self.position].clone();
                let mut copy_source = self.bucket.clone();
                copy_source.append("/");
                copy_source.append(key.as_str());
                ArchiveAction::CopyObject {
                    bucket: self.bucket.clone(),
                    key,
                    copy_source,
                    storage_class: self.target_class,
                    metadata_directive: MetadataDirective::Copy,
                }
            },
            JobPhase::Completed => ArchiveAction::Stop,
            JobPhase::Failed(_) => ArchiveAction::Stop,
        }
    }

    /// How the job ended, or nothing while it goes on.
    pub fn outcome(&self) -> (result: Option<Result<ArchiveSummary, ArchiveError>>)
        ensures
            match result {
                Some(Ok(summary)) => outcome_of(self@) == Some(
                    Ok::<ArchiveSummary, ArchiveErrorView>(summary),
                ),
                Some(Err(e)) => outcome_of(self@) == Some(
                    Err::<ArchiveSummary, ArchiveErrorView>(e@),
                ),
                None => outcome_of(self@) is None,
            },
    {
        match &self.phase {
            JobPhase::Completed => Some(
                Ok(
                    ArchiveSummary {
                        objects_processed: self.processed,
                        target_class: self.target_class,
                    },
                ),
            ),
            JobPhase::Failed(e) => Some(Err(e.duplicate())),
            _ => None,
        }
    }

    /// Takes the backend's answer to the last `next_action`.
    ///
    /// The count of copied objects must have room for one more when a copy
    /// is reported done.
    pub fn step(self, event: ArchiveEvent) -> (next: ArchiveJob)
        requires
            self@.phase is Copying && event is CopySucceeded ==> self@.processed < u64::MAX,
        ensures
            next@ == step_of(self@, event@),
            next@.wf(),
    {
        proof {
            use_type_invariant(&self);
        }
        let ghost before = self@;
        let ArchiveJob {
            bucket,
            prefix,
            target_class,
            cursor,
            processed,
            mut failures,
            phase,
            keys,
            position,
            truncated,
        } = self;
        match (phase, event) {
            (JobPhase::Listing, ArchiveEvent::PageListed { objects, is_truncated, next_cursor }) => {
                let keys = keys_of(objects);
                let more = match is_truncated {
                    Some(true) => true,
                    _ => false,
                };
                let cursor = if more {
                    next_cursor
                } else {
                    cursor
                };
                let phase = if keys.len() > 0 {
                    JobPhase::Copying
                } else if more {
                    JobPhase::Listing
                } else {
                    JobPhase::Completed
                };
                assert(keys.deep_view().skip(0) =~= keys.deep_view());
                ArchiveJob {
                    bucket,
                    prefix,
                    target_class,
                    cursor,
                    processed,
                    failures,
                    phase,
                    keys,
                    position: 0,
                    truncated: more,
                }
            },
            (JobPhase::Listing, ArchiveEvent::ListFailed { cause }) => {
                let error = ArchiveError::Listing {
                    bucket: bucket.clone(),
                    prefix: prefix.clone(),
                    cause,
                };
                ArchiveJob {
                    bucket,
                    prefix,
                    target_class,
                    cursor,
                    processed,
                    failures,
                    phase: JobPhase::Failed(error),
                    keys,
                    position,
                    truncated,
                }
            },
            (JobPhase::Copying, ArchiveEvent::CopySucceeded) => {
                let position = position + 1;
                let phase = if position < keys.len() {
                    JobPhase::Copying
                } else if truncated {
                    JobPhase::Listing
                } else {
                    JobPhase::Completed
                };
                assert(keys.deep_view().skip(position as int) =~= before.pending.drop_first());
                ArchiveJob {
                    bucket,
                    prefix,
                    target_class,
                    cursor,
                    processed: processed + 1,
                    failures,
                    phase,
                    keys,
                    position,
                    truncated,
                }
            },
            (JobPhase::Copying, ArchiveEvent::CopyFailed { cause }) => {
                let key = keys[position].clone();
                let ghost failed_before = failures.deep_view();
                failures.push((key.clone(), cause.clone()));
                assert(failures.deep_view() =~= failed_before.push((key@, cause@)));
                assert(failures.deep_view() =~= seq![(key@, cause@)]);
                assert(before.pending[0] == key@);
                let error = ArchiveError::Object { bucket: bucket.clone(), key, cause };
                ArchiveJob {
                    bucket,
                    prefix,
                    target_class,
                    cursor,
                    processed,
                    failures,
                    phase: JobPhase::Failed(error),
                    keys,
                    position,
                    truncated,
                }
            },
            (phase, _) => ArchiveJob {
                bucket,
                prefix,
                target_class,
                cursor,
                processed,
                failures,
                phase,
                keys,
                position,
                truncated,
            },
        }
    }
}

} // verus!
