//! Whole runs of an archive job: what it asks and where it ends when the
//! backend's answers are known in advance.
//!
//! Nothing here is executable. The functions describe a run as a sequence of
//! answers fed to `step_of`, and the lemmas state what holds of every such run:
//! a listing is followed to its last page, each listed object is copied once
//! and in order, and the first failed copy is the last thing the job asks for.

use crate::archive::{
    action_of, copy_source_of, listed_keys, phase_after_page, step_of, ActionView,
    ArchiveErrorView, EventView, JobView, MetadataDirective, PhaseView, PAGE_SIZE,
};
use crate::storage_class::StorageClass;
use vstd::prelude::*;

verus! {

/// The job after the answers `events`, taken one after the other.
pub open spec fn run(job: JobView, events: Seq<EventView>) -> JobView
    decreases events.len(),
{
    if events.len() == 0 {
        job
    } else {
        run(step_of(job, events[0]), events.drop_first())
    }
}

/// What the job asked for before each of the answers `events`.
pub open spec fn asked(job: JobView, events: Seq<EventView>) -> Seq<ActionView>
    decreases events.len(),
{
    if events.len() == 0 {
        Seq::empty()
    } else {
        seq![action_of(job)] + asked(step_of(job, events[0]), events.drop_first())
    }
}

/// One page of a listing, as the backend hands it out.
pub struct PageView {
    pub objects: Seq<Option<Seq<char>>>,
    pub is_truncated: Option<bool>,
    pub next_cursor: Option<Seq<char>>,
}

impl PageView {
    /// The answer that carries this page.
    pub open spec fn event(self) -> EventView {
        EventView::PageListed {
            objects: self.objects,
            is_truncated: self.is_truncated,
            next_cursor: self.next_cursor,
        }
    }

    /// The keys on this page.
    pub open spec fn keys(self) -> Seq<Seq<char>> {
        listed_keys(self.objects)
    }

    /// The backend says that the listing goes on after this page.
    pub open spec fn goes_on(self) -> bool {
        self.is_truncated == Some(true)
    }
}

/// A listing from its first page to its last: every page but the last is
/// marked as cut short, and the last is not.
pub open spec fn is_listing(pages: Seq<PageView>) -> bool {
    &&& pages.len() > 0
    &&& forall|i: int| 0 <= i < pages.len() - 1 ==> (#[trigger] pages[i]).goes_on()
    &&& !pages.last().goes_on()
}

/// How many keys the pages hold together.
pub open spec fn total_keys(pages: Seq<PageView>) -> nat
    decreases pages.len(),
{
    if pages.len() == 0 {
        0
    } else {
        pages[0].keys().len() + total_keys(pages.drop_first())
    }
}

/// `n` copies reported done.
pub open spec fn successes(n: nat) -> Seq<EventView> {
    Seq::new(n, |i: int| EventView::CopySucceeded)
}

/// The answers of a backend that hands out `page` and then copies each of its
/// objects.
pub open spec fn page_answers(page: PageView) -> Seq<EventView> {
    seq![page.event()] + successes(page.keys().len())
}

/// The answers of a backend that hands out `pages` in turn and copies every
/// object.
pub open spec fn answers(pages: Seq<PageView>) -> Seq<EventView>
    decreases pages.len(),
{
    if pages.len() == 0 {
        Seq::empty()
    } else {
        page_answers(pages[0]) + answers(pages.drop_first())
    }
}

/// The request for a copy of `key` onto itself.
pub open spec fn copy_of(bucket: Seq<char>, target_class: StorageClass, key: Seq<char>) -> ActionView {
    ActionView::CopyObject {
        bucket,
        key,
        copy_source: copy_source_of(bucket, key),
        storage_class: target_class,
        metadata_directive: MetadataDirective::Copy,
    }
}

/// The requests for a copy of each of `keys`, in their order.
pub open spec fn copies(bucket: Seq<char>, target_class: StorageClass, keys: Seq<Seq<char>>) -> Seq<
    ActionView,
> {
    Seq::new(keys.len(), |i: int| copy_of(bucket, target_class, keys[i]))
}

/// The request for the page at `cursor`.
pub open spec fn listing_of(bucket: Seq<char>, prefix: Seq<char>, cursor: Option<Seq<char>>) -> ActionView {
    ActionView::ListPage { bucket, prefix, max_keys: PAGE_SIZE, cursor }
}

/// The requests that go with `pages`: for each page the listing that brings
/// it, opened by the cursor of the page before, and a copy of each of its keys.
pub open spec fn requests(
    bucket: Seq<char>,
    prefix: Seq<char>,
    target_class: StorageClass,
    cursor: Option<Seq<char>>,
    pages: Seq<PageView>,
) -> Seq<ActionView>
    decreases pages.len(),
{
    if pages.len() == 0 {
        Seq::empty()
    } else {
        seq![listing_of(bucket, prefix, cursor)] + copies(bucket, target_class, pages[0].keys())
            + requests(bucket, prefix, target_class, pages[0].next_cursor, pages.drop_first())
    }
}

/// How many of `actions` ask for a page of the listing.
pub open spec fn listings_in(actions: Seq<ActionView>) -> nat {
    actions.filter(|a: ActionView| a is ListPage).len()
}

/// How many of `actions` ask for a copy.
pub open spec fn copies_in(actions: Seq<ActionView>) -> nat {
    actions.filter(|a: ActionView| a is CopyObject).len()
}

/// A run over one answer is one step.
pub proof fn lemma_run_one(job: JobView, event: EventView)
    ensures
        run(job, seq![event]) == step_of(job, event),
        asked(job, seq![event]) == seq![action_of(job)],
{
    let one = seq![event];
    assert(one.drop_first() =~= Seq::<EventView>::empty());
    assert(run(step_of(job, event), one.drop_first()) == step_of(job, event));
    assert(asked(step_of(job, event), one.drop_first()) =~= Seq::<ActionView>::empty());
    assert(asked(job, one) =~= seq![action_of(job)]);
}

/// A run over two stretches of answers is the run over the second from where
/// the first ended, and it asks what the two stretches ask.
pub proof fn lemma_run_in_two(job: JobView, first: Seq<EventView>, second: Seq<EventView>)
    ensures
        run(job, first + second) == run(run(job, first), second),
        asked(job, first + second) == asked(job, first) + asked(run(job, first), second),
    decreases first.len(),
{
    if first.len() == 0 {
        assert(first + second =~= second);
        assert(asked(job, first) + asked(run(job, first), second) =~= asked(job, second));
    } else {
        let next = step_of(job, first[0]);
        assert((first + second)[0] == first[0]);
        assert((first + second).drop_first() =~= first.drop_first() + second);
        lemma_run_in_two(next, first.drop_first(), second);
        assert(asked(job, first + second) =~= asked(job, first) + asked(run(job, first), second));
    }
}

/// While copies succeed the job works through the page in hand: each success
/// counts one object and brings up the next key, and after the last key the
/// backend's mark on the page decides between another listing and the end.
pub proof fn lemma_copies_done(job: JobView, n: nat)
    requires
        job.wf(),
        job.phase is Copying,
        n <= job.pending.len(),
    ensures
        run(job, successes(n)) == (JobView {
            processed: job.processed + n,
            pending: job.pending.skip(n as int),
            phase: if n < job.pending.len() {
                PhaseView::Copying
            } else {
                phase_after_page(job.truncated)
            },
            ..job
        }),
        run(job, successes(n)).wf(),
        asked(job, successes(n)) == copies(job.bucket, job.target_class, job.pending.take(n as int)),
    decreases n,
{
    let events = successes(n);
    if n == 0 {
        assert(job.pending.skip(0) =~= job.pending);
        assert(asked(job, events) =~= copies(job.bucket, job.target_class, job.pending.take(0)));
    } else {
        let next = step_of(job, events[0]);
        assert(events.drop_first() =~= successes((n - 1) as nat));
        assert(next.pending =~= job.pending.skip(1));
        if n == 1 {
            assert(run(next, successes(0)) == next);
            assert(asked(next, successes(0)) =~= Seq::<ActionView>::empty());
        } else {
            lemma_copies_done(next, (n - 1) as nat);
            assert(next.pending.skip(n - 1) =~= job.pending.skip(n as int));
        }
        let rest = asked(next, successes((n - 1) as nat));
        assert(rest == copies(job.bucket, job.target_class, next.pending.take(n - 1)));
        assert(seq![action_of(job)] + rest =~= copies(
            job.bucket,
            job.target_class,
            job.pending.take(n as int),
        )) by {
            let whole = copies(job.bucket, job.target_class, job.pending.take(n as int));
            let joined = seq![action_of(job)] + rest;
            assert(joined.len() == whole.len());
            assert forall|i: int| 0 <= i < whole.len() implies joined[i] == whole[i] by {
                if i > 0 {
                    assert(next.pending.take(n - 1)[i - 1] == job.pending.take(n as int)[i]);
                }
            }
        }
    }
}

/// A listing job that is handed a page and then a success for each of its
/// keys has copied the page, and stands before the next listing or at the end
/// as the page's mark says.
pub proof fn lemma_page_done(job: JobView, page: PageView)
    requires
        job.wf(),
        job.phase is Listing,
    ensures
        run(job, page_answers(page)) == (JobView {
            cursor: if page.goes_on() {
                page.next_cursor
            } else {
                job.cursor
            },
            processed: job.processed + page.keys().len(),
            pending: Seq::empty(),
            truncated: page.goes_on(),
            phase: phase_after_page(page.goes_on()),
            ..job
        }),
        run(job, page_answers(page)).wf(),
        asked(job, page_answers(page)) == seq![listing_of(job.bucket, job.prefix, job.cursor)]
            + copies(job.bucket, job.target_class, page.keys()),
{
    let keys = page.keys();
    let first = seq![page.event()];
    let listed = step_of(job, page.event());
    lemma_run_one(job, page.event());
    lemma_run_in_two(job, first, successes(keys.len()));
    if keys.len() > 0 {
        lemma_copies_done(listed, keys.len());
        assert(keys.skip(keys.len() as int) =~= Seq::<Seq<char>>::empty());
        assert(keys.take(keys.len() as int) =~= keys);
    } else {
        assert(listed.pending =~= Seq::<Seq<char>>::empty());
        assert(asked(listed, successes(0)) =~= copies(job.bucket, job.target_class, keys));
    }
}

/// A listing is followed to its end, whatever its length: the job asks for
/// each page in turn, opened by the cursor that came with the page before,
/// copies each listed object once and in the order listed, and completes
/// after the last page with every copy counted.
pub proof fn lemma_listing_is_exhausted(job: JobView, pages: Seq<PageView>)
    requires
        job.wf(),
        job.phase is Listing,
        is_listing(pages),
    ensures
        run(job, answers(pages)).phase is Completed,
        run(job, answers(pages)).processed == job.processed + total_keys(pages),
        run(job, answers(pages)).failures.len() == 0,
        asked(job, answers(pages)) == requests(
            job.bucket,
            job.prefix,
            job.target_class,
            job.cursor,
            pages,
        ),
    decreases pages.len(),
{
    let page = pages[0];
    let later = pages.drop_first();
    let after = run(job, page_answers(page));
    lemma_page_done(job, page);
    lemma_run_in_two(job, page_answers(page), answers(later));
    if later.len() == 0 {
        assert(page == pages.last());
        assert(answers(later) =~= Seq::<EventView>::empty());
        assert(asked(after, answers(later)) =~= Seq::<ActionView>::empty());
        assert(requests(job.bucket, job.prefix, job.target_class, page.next_cursor, later)
            =~= Seq::<ActionView>::empty());
        assert(total_keys(later) == 0);
    } else {
        assert(page.goes_on());
        assert(is_listing(later)) by {
            assert forall|i: int| 0 <= i < later.len() - 1 implies (#[trigger] later[i]).goes_on() by {
                assert(pages[i + 1].goes_on());
            }
            assert(later.last() == pages.last());
        }
        lemma_listing_is_exhausted(after, later);
    }
}

/// The requests that go with `pages` hold one listing for each page and one
/// copy for each key.
pub proof fn lemma_requests_counted(
    bucket: Seq<char>,
    prefix: Seq<char>,
    target_class: StorageClass,
    cursor: Option<Seq<char>>,
    pages: Seq<PageView>,
)
    ensures
        listings_in(requests(bucket, prefix, target_class, cursor, pages)) == pages.len(),
        copies_in(requests(bucket, prefix, target_class, cursor, pages)) == total_keys(pages),
    decreases pages.len(),
{
    let is_list = |a: ActionView| a is ListPage;
    let is_copy = |a: ActionView| a is CopyObject;
    if pages.len() == 0 {
        reveal(Seq::filter);
    } else {
        let head = seq![listing_of(bucket, prefix, cursor)];
        let body = copies(bucket, target_class, pages[0].keys());
        let tail = requests(bucket, prefix, target_class, pages[0].next_cursor, pages.drop_first());
        lemma_requests_counted(bucket, prefix, target_class, pages[0].next_cursor, pages.drop_first());
        Seq::filter_distributes_over_add(head + body, tail, is_list);
        Seq::filter_distributes_over_add(head, body, is_list);
        Seq::filter_distributes_over_add(head + body, tail, is_copy);
        Seq::filter_distributes_over_add(head, body, is_copy);
        lemma_one_listing(head[0]);
        lemma_copies_counted(bucket, target_class, pages[0].keys());
    }
}

/// A single request for a page counts as one listing and no copy.
proof fn lemma_one_listing(action: ActionView)
    requires
        action is ListPage,
    ensures
        listings_in(seq![action]) == 1,
        copies_in(seq![action]) == 0,
{
    let is_list = |a: ActionView| a is ListPage;
    let is_copy = |a: ActionView| a is CopyObject;
    let none = Seq::<ActionView>::empty();
    assert(seq![action] =~= none.push(action));
    none.lemma_filter_push(action, is_list);
    none.lemma_filter_push(action, is_copy);
    assert(none.filter(is_list).len() == 0 && none.filter(is_copy).len() == 0) by {
        reveal(Seq::filter);
    }
}

/// The requests for copies of `keys` count as that many copies and no listing.
proof fn lemma_copies_counted(bucket: Seq<char>, target_class: StorageClass, keys: Seq<Seq<char>>)
    ensures
        listings_in(copies(bucket, target_class, keys)) == 0,
        copies_in(copies(bucket, target_class, keys)) == keys.len(),
    decreases keys.len(),
{
    let is_list = |a: ActionView| a is ListPage;
    let is_copy = |a: ActionView| a is CopyObject;
    let all = copies(bucket, target_class, keys);
    if keys.len() == 0 {
        reveal(Seq::filter);
    } else {
        let front = copies(bucket, target_class, keys.drop_last());
        let last = copy_of(bucket, target_class, keys.last());
        lemma_copies_counted(bucket, target_class, keys.drop_last());
        assert(all =~= front.push(last));
        front.lemma_filter_push(last, is_list);
        front.lemma_filter_push(last, is_copy);
    }
}

/// The first copy that fails ends the job. If `done` objects of the page in
/// hand were copied and the next was not, the job has failed with that
/// object's key and the backend's cause, has counted `done` objects, and has
/// asked for `done + 1` copies and nothing else.
pub proof fn lemma_first_failure_ends_job(job: JobView, done: nat, cause: Seq<char>)
    requires
        job.wf(),
        job.phase is Copying,
        done < job.pending.len(),
    ensures
        ({
            let events = successes(done).push(EventView::CopyFailed { cause });
            let end = run(job, events);
            &&& end.phase == PhaseView::Failed(
                ArchiveErrorView::Object { bucket: job.bucket, key: job.pending[done as int], cause },
            )
            &&& end.processed == job.processed + done
            &&& end.failures == seq![(job.pending[done as int], cause)]
            &&& end.pending == job.pending.skip(done as int)
            &&& end.wf()
            &&& asked(job, events) == copies(
                job.bucket,
                job.target_class,
                job.pending.take(done as int + 1),
            )
        }),
{
    let failure = seq![EventView::CopyFailed { cause }];
    let events = successes(done).push(EventView::CopyFailed { cause });
    assert(events =~= successes(done) + failure);
    lemma_copies_done(job, done);
    lemma_run_in_two(job, successes(done), failure);
    let reached = run(job, successes(done));
    lemma_run_one(reached, EventView::CopyFailed { cause });
    assert(reached.pending[0] == job.pending[done as int]);
    assert(reached.failures.push((reached.pending[0], cause)) =~= seq![
        (job.pending[done as int], cause),
    ]);
    assert(asked(job, successes(done)) + asked(reached, failure) =~= copies(
        job.bucket,
        job.target_class,
        job.pending.take(done as int + 1),
    ));
}

/// A finished job stays as it is and asks for nothing, whatever it is told.
pub proof fn lemma_finished_is_final(job: JobView, events: Seq<EventView>)
    requires
        job.finished(),
    ensures
        run(job, events) == job,
        forall|i: int| 0 <= i < events.len() ==> #[trigger] asked(job, events)[i] == ActionView::Stop,
        asked(job, events).len() == events.len(),
    decreases events.len(),
{
    if events.len() > 0 {
        lemma_finished_is_final(job, events.drop_first());
    }
}

/// Whatever the answers, a well-formed job stays well formed.
pub proof fn lemma_step_keeps_wf(job: JobView, event: EventView)
    requires
        job.wf(),
    ensures
        step_of(job, event).wf(),
{
    let next = step_of(job, event);
    match (job.phase, event) {
        (PhaseView::Copying, EventView::CopyFailed { cause }) => {
            assert(job.failures.push((job.pending[0], cause)) =~= seq![(job.pending[0], cause)]);
        },
        _ => {},
    }
}

/// The cursor that opens the listing after `pages`, where `cursor` opened the
/// first of them.
pub open spec fn cursor_after(cursor: Option<Seq<char>>, pages: Seq<PageView>) -> Option<Seq<char>>
    decreases pages.len(),
{
    if pages.len() == 0 {
        cursor
    } else {
        cursor_after(pages[0].next_cursor, pages.drop_first())
    }
}

/// As long as the pages are marked as cut short the job goes on listing: after
/// any number of them it has copied and counted all their objects and asks
/// for the page that the last cursor opens.
pub proof fn lemma_pages_done(job: JobView, pages: Seq<PageView>)
    requires
        job.wf(),
        job.phase is Listing,
        forall|i: int| 0 <= i < pages.len() ==> (#[trigger] pages[i]).goes_on(),
    ensures
        run(job, answers(pages)) == (JobView {
            cursor: cursor_after(job.cursor, pages),
            processed: job.processed + total_keys(pages),
            truncated: if pages.len() == 0 {
                job.truncated
            } else {
                true
            },
            ..job
        }),
        run(job, answers(pages)).wf(),
        asked(job, answers(pages)) == requests(
            job.bucket,
            job.prefix,
            job.target_class,
            job.cursor,
            pages,
        ),
    decreases pages.len(),
{
    if pages.len() == 0 {
        assert(asked(job, answers(pages)) =~= Seq::<ActionView>::empty());
    } else {
        let page = pages[0];
        let later = pages.drop_first();
        let after = run(job, page_answers(page));
        lemma_page_done(job, page);
        lemma_run_in_two(job, page_answers(page), answers(later));
        assert forall|i: int| 0 <= i < later.len() implies (#[trigger] later[i]).goes_on() by {
            assert(pages[i + 1].goes_on());
        }
        lemma_pages_done(after, later);
        assert(job.pending =~= Seq::<Seq<char>>::empty());
    }
}

/// A failed copy on a later page ends the job as it does on the first. The
/// pages before it were copied whole, the objects before it on its own page
/// were copied, and the job asked for nothing after the copy that failed:
/// what it had not reached was left alone.
pub proof fn lemma_failure_leaves_the_rest(
    job: JobView,
    before: Seq<PageView>,
    page: PageView,
    done: nat,
    cause: Seq<char>,
)
    requires
        job.wf(),
        job.phase is Listing,
        forall|i: int| 0 <= i < before.len() ==> (#[trigger] before[i]).goes_on(),
        done < page.keys().len(),
    ensures
        ({
            let events = answers(before) + (seq![page.event()] + successes(done).push(
                EventView::CopyFailed { cause },
            ));
            let end = run(job, events);
            &&& end.phase == PhaseView::Failed(
                ArchiveErrorView::Object { bucket: job.bucket, key: page.keys()[done as int], cause },
            )
            &&& end.processed == job.processed + total_keys(before) + done
            &&& end.failures == seq![(page.keys()[done as int], cause)]
            &&& asked(job, events) == requests(
                job.bucket,
                job.prefix,
                job.target_class,
                job.cursor,
                before,
            ) + (seq![
                listing_of(job.bucket, job.prefix, cursor_after(job.cursor, before)),
            ] + copies(job.bucket, job.target_class, page.keys().take(done as int + 1)))
        }),
{
    let last = seq![page.event()] + successes(done).push(EventView::CopyFailed { cause });
    let at_page = run(job, answers(before));
    lemma_pages_done(job, before);
    lemma_run_in_two(job, answers(before), last);
    let listed = step_of(at_page, page.event());
    lemma_run_one(at_page, page.event());
    lemma_run_in_two(at_page, seq![page.event()], successes(done).push(EventView::CopyFailed { cause }));
    lemma_step_keeps_wf(at_page, page.event());
    lemma_first_failure_ends_job(listed, done, cause);
}

/// Following a listing to its end takes one listing call for each page and
/// one copy for each object, no more and no fewer.
pub proof fn lemma_calls_counted(job: JobView, pages: Seq<PageView>)
    requires
        job.wf(),
        job.phase is Listing,
        is_listing(pages),
    ensures
        listings_in(asked(job, answers(pages))) == pages.len(),
        copies_in(asked(job, answers(pages))) == total_keys(pages),
{
    lemma_listing_is_exhausted(job, pages);
    lemma_requests_counted(job.bucket, job.prefix, job.target_class, job.cursor, pages);
}

} // verus!
