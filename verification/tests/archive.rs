use s3_lifecycle::archive::{
    ArchiveAction, ArchiveError, ArchiveEvent, ArchiveJob, ArchiveSummary, JobPhase,
    MetadataDirective, PAGE_SIZE,
};
use s3_lifecycle::error::ValidationError;
use s3_lifecycle::storage_class::StorageClass;
use s3_lifecycle::store::BucketId;

/// A bucket that lists its keys in pages and notes every call made on it.
struct Shelf {
    keys: Vec<String>,
    page_size: usize,
    fails_on: Option<String>,
    list_calls: usize,
    copy_calls: usize,
    copied: Vec<String>,
    cursors_seen: Vec<Option<String>>,
}

fn shelf_with(count: usize) -> Shelf {
    Shelf {
        keys: (0..count).map(|i| format!("data/{:05}", i)).collect(),
        page_size: 1000,
        fails_on: None,
        list_calls: 0,
        copy_calls: 0,
        copied: Vec::new(),
        cursors_seen: Vec::new(),
    }
}

fn answer(shelf: &mut Shelf, action: &ArchiveAction) -> ArchiveEvent {
    match action {
        ArchiveAction::ListPage { cursor, .. } => {
            shelf.list_calls += 1;
            shelf.cursors_seen.push(cursor.clone());
            let from: usize = match cursor {
                Some(c) => c.parse().unwrap(),
                None => 0,
            };
            let upto = (from + shelf.page_size).min(shelf.keys.len());
            let more = upto < shelf.keys.len();
            ArchiveEvent::PageListed {
                objects: shelf.keys[from..upto].iter().map(|k| Some(k.clone())).collect(),
                is_truncated: Some(more),
                next_cursor: if more { Some(upto.to_string()) } else { None },
            }
        }
        ArchiveAction::CopyObject { key, .. } => {
            shelf.copy_calls += 1;
            if shelf.fails_on.as_ref() == Some(key) {
                ArchiveEvent::CopyFailed { cause: "InternalError".to_string() }
            } else {
                shelf.copied.push(key.clone());
                ArchiveEvent::CopySucceeded
            }
        }
        ArchiveAction::Stop => unreachable!(),
    }
}

fn run_on(shelf: &mut Shelf, mut job: ArchiveJob) -> ArchiveJob {
    loop {
        let action = job.next_action();
        if action == ArchiveAction::Stop {
            return job;
        }
        let event = answer(shelf, &action);
        job = job.step(event);
    }
}

fn bucket() -> BucketId {
    BucketId::new("vault".to_string()).unwrap()
}

fn job_to(class: &str) -> ArchiveJob {
    ArchiveJob::start(&bucket(), "data/".to_string(), class).unwrap()
}

fn page(keys: &[&str], more: bool, next: Option<&str>) -> ArchiveEvent {
    ArchiveEvent::PageListed {
        objects: keys.iter().map(|k| Some(k.to_string())).collect(),
        is_truncated: Some(more),
        next_cursor: next.map(|c| c.to_string()),
    }
}

#[test]
fn every_page_is_listed_and_every_object_copied() {
    let mut shelf = shelf_with(2500);
    let job = run_on(&mut shelf, job_to("GLACIER"));
    assert_eq!(shelf.list_calls, 3);
    assert_eq!(shelf.copy_calls, 2500);
    assert_eq!(shelf.copied, shelf.keys);
    assert_eq!(
        shelf.cursors_seen,
        vec![None, Some("1000".to_string()), Some("2000".to_string())]
    );
    assert_eq!(
        job.outcome(),
        Some(Ok(ArchiveSummary { objects_processed: 2500, target_class: StorageClass::Glacier }))
    );
    assert_eq!(job.processed(), 2500);
    assert_eq!(job.phase(), &JobPhase::Completed);
    assert!(job.is_finished());
    assert!(job.failures().is_empty());
}

#[test]
fn a_full_last_page_needs_no_further_listing() {
    let mut shelf = shelf_with(2000);
    let job = run_on(&mut shelf, job_to("DEEP_ARCHIVE"));
    assert_eq!(shelf.list_calls, 2);
    assert_eq!(shelf.copy_calls, 2000);
    assert_eq!(
        job.outcome(),
        Some(Ok(ArchiveSummary {
            objects_processed: 2000,
            target_class: StorageClass::DeepArchive
        }))
    );
}

#[test]
fn an_empty_prefix_is_listed_once_and_nothing_is_copied() {
    let mut shelf = shelf_with(0);
    let job = run_on(&mut shelf, job_to("GLACIER_IR"));
    assert_eq!(shelf.list_calls, 1);
    assert_eq!(shelf.copy_calls, 0);
    assert_eq!(
        job.outcome(),
        Some(Ok(ArchiveSummary { objects_processed: 0, target_class: StorageClass::GlacierIr }))
    );
}

#[test]
fn the_first_failed_copy_ends_the_job() {
    let mut shelf = shelf_with(10);
    shelf.fails_on = Some("data/00003".to_string());
    let job = run_on(&mut shelf, job_to("GLACIER"));
    assert_eq!(shelf.list_calls, 1);
    assert_eq!(shelf.copy_calls, 4);
    assert_eq!(shelf.copied, vec!["data/00000", "data/00001", "data/00002"]);
    assert_eq!(job.processed(), 3);
    assert_eq!(
        job.outcome(),
        Some(Err(ArchiveError::Object {
            bucket: "vault".to_string(),
            key: "data/00003".to_string(),
            cause: "InternalError".to_string(),
        }))
    );
    assert_eq!(
        job.failures(),
        &vec![("data/00003".to_string(), "InternalError".to_string())]
    );
    assert!(job.is_finished());
    assert_eq!(job.next_action(), ArchiveAction::Stop);
}

#[test]
fn a_failure_on_a_later_page_leaves_the_rest_unlisted() {
    let mut shelf = shelf_with(2500);
    shelf.fails_on = Some("data/01200".to_string());
    let job = run_on(&mut shelf, job_to("GLACIER"));
    assert_eq!(shelf.list_calls, 2);
    assert_eq!(shelf.copy_calls, 1201);
    assert_eq!(shelf.copied.len(), 1200);
    assert_eq!(job.processed(), 1200);
    assert!(matches!(job.outcome(), Some(Err(ArchiveError::Object { .. }))));
}

#[test]
fn a_finished_job_takes_no_further_answers() {
    let mut shelf = shelf_with(10);
    shelf.fails_on = Some("data/00003".to_string());
    let job = run_on(&mut shelf, job_to("GLACIER"));
    let ended = job.outcome();
    let job = job.step(ArchiveEvent::CopySucceeded);
    let job = job.step(page(&["late"], true, Some("c")));
    let job = job.step(ArchiveEvent::CopyFailed { cause: "again".to_string() });
    let job = job.step(ArchiveEvent::ListFailed { cause: "again".to_string() });
    assert_eq!(job.outcome(), ended);
    assert_eq!(job.processed(), 3);
    assert_eq!(job.failures().len(), 1);
    assert_eq!(job.next_action(), ArchiveAction::Stop);

    let done = run_on(&mut shelf_with(2), job_to("GLACIER"));
    let done = done.step(ArchiveEvent::CopySucceeded).step(page(&["late"], false, None));
    assert_eq!(done.processed(), 2);
    assert_eq!(done.phase(), &JobPhase::Completed);
    assert_eq!(done.next_action(), ArchiveAction::Stop);
}

#[test]
fn an_unknown_tier_is_turned_down_before_anything_is_asked() {
    let shelf = shelf_with(3);
    let job = ArchiveJob::start(&bucket(), "data/".to_string(), "FOO");
    assert_eq!(job.err(), Some(ValidationError::InvalidTargetClass));
    assert_eq!(shelf.list_calls, 0);
    assert_eq!(shelf.copy_calls, 0);
}

#[test]
fn the_warm_tier_is_turned_down() {
    assert_eq!(
        ArchiveJob::start(&bucket(), String::new(), "STANDARD_IA").err(),
        Some(ValidationError::InvalidTargetClass)
    );
    assert_eq!(
        ArchiveJob::new(&bucket(), String::new(), StorageClass::StandardIa).err(),
        Some(ValidationError::InvalidTargetClass)
    );
}

#[test]
fn the_tier_is_read_in_any_case() {
    assert_eq!(job_to("glacier").target_class(), StorageClass::Glacier);
    assert_eq!(job_to("Deep_Archive").target_class(), StorageClass::DeepArchive);
    assert_eq!(
        ArchiveJob::new(&bucket(), String::new(), StorageClass::GlacierIr).unwrap().target_class(),
        StorageClass::GlacierIr
    );
}

#[test]
fn a_new_job_asks_for_the_first_page() {
    let job = job_to("GLACIER");
    assert_eq!(PAGE_SIZE, 1000);
    assert_eq!(
        job.next_action(),
        ArchiveAction::ListPage {
            bucket: "vault".to_string(),
            prefix: "data/".to_string(),
            max_keys: 1000,
            cursor: None,
        }
    );
    assert_eq!(job.phase(), &JobPhase::Listing);
    assert_eq!(job.processed(), 0);
    assert_eq!(job.cursor(), &None);
    assert_eq!(job.outcome(), None);
    assert!(!job.is_finished());
}

#[test]
fn a_copy_goes_onto_the_object_itself_and_keeps_its_metadata() {
    let job = job_to("DEEP_ARCHIVE").step(page(&["data/a b.txt"], false, None));
    assert_eq!(
        job.next_action(),
        ArchiveAction::CopyObject {
            bucket: "vault".to_string(),
            key: "data/a b.txt".to_string(),
            copy_source: "vault/data/a b.txt".to_string(),
            storage_class: StorageClass::DeepArchive,
            metadata_directive: MetadataDirective::Copy,
        }
    );
    assert_eq!(job.phase(), &JobPhase::Copying);
}

#[test]
fn objects_are_copied_in_the_order_listed() {
    let mut job = job_to("GLACIER").step(page(&["b", "a", "c"], false, None));
    let mut asked = Vec::new();
    while let ArchiveAction::CopyObject { key, .. } = job.next_action() {
        asked.push(key);
        job = job.step(ArchiveEvent::CopySucceeded);
    }
    assert_eq!(asked, vec!["b", "a", "c"]);
    assert_eq!(job.processed(), 3);
}

#[test]
fn the_cursor_of_a_truncated_page_opens_the_next_listing() {
    let job = job_to("GLACIER").step(page(&["k"], true, Some("token-1")));
    assert_eq!(job.cursor(), &Some("token-1".to_string()));
    let job = job.step(ArchiveEvent::CopySucceeded);
    assert_eq!(
        job.next_action(),
        ArchiveAction::ListPage {
            bucket: "vault".to_string(),
            prefix: "data/".to_string(),
            max_keys: 1000,
            cursor: Some("token-1".to_string()),
        }
    );
}

#[test]
fn a_truncated_page_without_objects_is_followed_by_a_listing() {
    let job = job_to("GLACIER").step(page(&[], true, Some("t")));
    assert_eq!(job.phase(), &JobPhase::Listing);
    let job = job.step(page(&[], false, None));
    assert_eq!(job.phase(), &JobPhase::Completed);
    assert_eq!(job.cursor(), &Some("t".to_string()));
}

#[test]
fn only_a_page_marked_truncated_is_followed_by_a_listing() {
    let unmarked = job_to("GLACIER").step(ArchiveEvent::PageListed {
        objects: Vec::new(),
        is_truncated: None,
        next_cursor: Some("stale".to_string()),
    });
    assert_eq!(unmarked.phase(), &JobPhase::Completed);
    assert_eq!(unmarked.cursor(), &None);
    let marked_false = job_to("GLACIER").step(ArchiveEvent::PageListed {
        objects: Vec::new(),
        is_truncated: Some(false),
        next_cursor: Some("stale".to_string()),
    });
    assert_eq!(marked_false.phase(), &JobPhase::Completed);
}

#[test]
fn a_truncated_page_without_cursor_starts_over() {
    let job = job_to("GLACIER").step(ArchiveEvent::PageListed {
        objects: Vec::new(),
        is_truncated: Some(true),
        next_cursor: None,
    });
    assert_eq!(job.phase(), &JobPhase::Listing);
    assert_eq!(job.cursor(), &None);
}

#[test]
fn objects_without_a_key_are_passed_over() {
    let job = job_to("GLACIER").step(ArchiveEvent::PageListed {
        objects: vec![None, Some("a".to_string()), None, Some("b".to_string()), None],
        is_truncated: Some(false),
        next_cursor: None,
    });
    let mut shelf = shelf_with(0);
    let job = run_on(&mut shelf, job);
    assert_eq!(shelf.copied, vec!["a", "b"]);
    assert_eq!(job.processed(), 2);

    let none = job_to("GLACIER").step(ArchiveEvent::PageListed {
        objects: vec![None, None],
        is_truncated: Some(false),
        next_cursor: None,
    });
    assert_eq!(none.phase(), &JobPhase::Completed);
    assert_eq!(none.processed(), 0);
}

#[test]
fn a_failed_listing_ends_the_job() {
    let job = job_to("GLACIER").step(ArchiveEvent::ListFailed { cause: "AccessDenied".to_string() });
    let error = ArchiveError::Listing {
        bucket: "vault".to_string(),
        prefix: "data/".to_string(),
        cause: "AccessDenied".to_string(),
    };
    assert_eq!(job.phase(), &JobPhase::Failed(error.clone()));
    assert_eq!(job.outcome(), Some(Err(error)));
    assert_eq!(job.next_action(), ArchiveAction::Stop);
    assert!(job.failures().is_empty());
}

#[test]
fn a_failed_listing_after_some_pages_keeps_the_count() {
    let job = job_to("GLACIER")
        .step(page(&["a", "b"], true, Some("t")))
        .step(ArchiveEvent::CopySucceeded)
        .step(ArchiveEvent::CopySucceeded)
        .step(ArchiveEvent::ListFailed { cause: "SlowDown".to_string() });
    assert_eq!(job.processed(), 2);
    assert!(matches!(job.outcome(), Some(Err(ArchiveError::Listing { .. }))));
}

#[test]
fn answers_to_questions_not_asked_change_nothing() {
    let job = job_to("GLACIER");
    let job = job.step(ArchiveEvent::CopySucceeded);
    let job = job.step(ArchiveEvent::CopyFailed { cause: "x".to_string() });
    assert_eq!(job.phase(), &JobPhase::Listing);
    assert_eq!(job.processed(), 0);
    assert!(job.failures().is_empty());

    let job = job.step(page(&["a", "b"], false, None));
    let job = job.step(page(&["c"], true, Some("t")));
    let job = job.step(ArchiveEvent::ListFailed { cause: "x".to_string() });
    assert_eq!(job.phase(), &JobPhase::Copying);
    assert_eq!(job.cursor(), &None);
    assert!(matches!(job.next_action(), ArchiveAction::CopyObject { key, .. } if key == "a"));
}
