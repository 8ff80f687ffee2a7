//! Which files are uploaded, under which keys, in which order, and what a
//! failure does.

use crate::laws::gathering::{
    gathered, lemma_gathered_nothing, lemma_gathered_update, lemma_total_update, total,
};
use crate::storage::joined_key;
use crate::text::{replaced, trim_of};
use crate::upload::{
    after_failure, after_take, behind_directory, directory_ahead, file_key, files_ahead,
    handed_out, job_count_of, DirEntry, EntryKind, QueueView,
};
use vstd::multiset::*;
use vstd::prelude::*;

verus! {

/// A key lies below its prefix, where that is more than slashes.
pub proof fn law_keys_lie_below_their_prefix(prefix: Seq<char>, relative: Seq<char>)
    requires
        trim_of(prefix, '/').len() > 0,
    ensures
        (trim_of(prefix, '/') + "/"@).is_prefix_of(joined_key(prefix, relative)),
{
    let base = trim_of(prefix, '/') + "/"@;
    assert(joined_key(prefix, relative).subrange(0, base.len() as int) =~= base);
}

/// Two files of a release share a key only if they are the same file, where
/// their paths hold no backslash.
pub proof fn law_file_keys_tell_files_apart(release_key: Seq<char>, a: Seq<char>, b: Seq<char>)
    requires
        !a.contains('\\'),
        !b.contains('\\'),
        file_key(release_key, a) == file_key(release_key, b),
    ensures
        a == b,
{
    assert(replaced(a, '\\', '/') =~= a);
    assert(replaced(b, '\\', '/') =~= b);
    let base = trim_of(release_key, '/') + "/"@;
    if trim_of(release_key, '/').len() > 0 {
        assert(file_key(release_key, a).skip(base.len() as int) =~= a);
        assert(file_key(release_key, b).skip(base.len() as int) =~= b);
    }
}

/// Something that a worker does to the queue.
pub enum QueueEvent {
    /// It asks for a file.
    Take,
    /// It reports a failure.
    Fail(Seq<char>),
}

/// The queue after some events.
pub open spec fn queue_after<T>(queue: QueueView<T>, events: Seq<QueueEvent>) -> QueueView<T>
    decreases events.len(),
{
    if events.len() == 0 {
        queue
    } else {
        let before = queue_after(queue, events.drop_last());
        match events.last() {
            QueueEvent::Take => after_take(before),
            QueueEvent::Fail(message) => after_failure(before, message),
        }
    }
}

/// The files that were handed out during some events, in order.
pub open spec fn taken<T>(queue: QueueView<T>, events: Seq<QueueEvent>) -> Seq<T>
    decreases events.len(),
{
    if events.len() == 0 {
        seq![]
    } else {
        let before = queue_after(queue, events.drop_last());
        let earlier = taken(queue, events.drop_last());
        match events.last() {
            QueueEvent::Take => match handed_out(before) {
                Some(file) => earlier.push(file),
                None => earlier,
            },
            QueueEvent::Fail(_) => earlier,
        }
    }
}

/// However the workers interleave, each file is handed out at most once, and
/// in the order of the queue: what was handed out, followed by what is left,
/// is the queue.
pub proof fn law_files_are_handed_out_once_in_order<T>(
    queue: QueueView<T>,
    events: Seq<QueueEvent>,
)
    ensures
        taken(queue, events) + queue_after(queue, events).pending == queue.pending,
    decreases events.len(),
{
    if events.len() == 0 {
        assert(taken(queue, events) + queue.pending =~= queue.pending);
    } else {
        law_files_are_handed_out_once_in_order(queue, events.drop_last());
        let before = queue_after(queue, events.drop_last());
        if events.last() is Take && handed_out(before) is Some {
            assert(taken(queue, events) + queue_after(queue, events).pending =~= taken(
                queue,
                events.drop_last(),
            ) + before.pending);
        }
    }
}

/// After a failure no file is handed out any more, and the failure stays the
/// one that is reported.
pub proof fn law_nothing_after_a_failure<T>(queue: QueueView<T>, events: Seq<QueueEvent>)
    requires
        queue.first_error is Some,
    ensures
        taken(queue, events) == Seq::<T>::empty(),
        queue_after(queue, events) == queue,
    decreases events.len(),
{
    if events.len() > 0 {
        law_nothing_after_a_failure(queue, events.drop_last());
    }
}

/// The message of the first failure among some events.
pub open spec fn first_failure(events: Seq<QueueEvent>) -> Option<Seq<char>>
    decreases events.len(),
{
    if events.len() == 0 {
        None
    } else {
        match events[0] {
            QueueEvent::Fail(message) => Some(message),
            QueueEvent::Take => first_failure(events.drop_first()),
        }
    }
}

proof fn lemma_first_failure_push(events: Seq<QueueEvent>, last: QueueEvent)
    ensures
        first_failure(events.push(last)) == match first_failure(events) {
            Some(message) => Some(message),
            None => match last {
                QueueEvent::Fail(message) => Some(message),
                QueueEvent::Take => None,
            },
        },
    decreases events.len(),
{
    if events.len() == 0 {
        assert(events.push(last).drop_first() =~= Seq::<QueueEvent>::empty());
        assert(first_failure(Seq::<QueueEvent>::empty()) is None);
    } else {
        lemma_first_failure_push(events.drop_first(), last);
        assert(events.push(last).drop_first() =~= events.drop_first().push(last));
    }
}

/// The failure that an upload reports is the first one; without a failure it
/// reports none.
pub proof fn law_first_failure_is_reported<T>(queue: QueueView<T>, events: Seq<QueueEvent>)
    requires
        queue.first_error is None,
    ensures
        queue_after(queue, events).first_error == first_failure(events),
    decreases events.len(),
{
    if events.len() > 0 {
        law_first_failure_is_reported(queue, events.drop_last());
        lemma_first_failure_push(events.drop_last(), events.last());
        assert(events.drop_last().push(events.last()) =~= events);
    }
}

/// There is at least one worker, and no more than asked for or than there are
/// files, where these are more than none.
pub proof fn law_job_count(upload_jobs: nat, files: nat)
    ensures
        1 <= job_count_of(upload_jobs, files),
        upload_jobs >= 1 ==> job_count_of(upload_jobs, files) <= upload_jobs,
        files >= 1 ==> job_count_of(upload_jobs, files) <= files,
        upload_jobs >= 1 && files >= 1 ==> job_count_of(upload_jobs, files) == upload_jobs
            || job_count_of(upload_jobs, files) == files,
{
}

/// What a worker of an upload is at.
pub enum UploadWorker<T> {
    /// It asks for a file next.
    Idle,
    /// It uploads a file.
    Busy(T),
    /// It has nothing more to do.
    Stopped,
}

/// An upload under way.
pub struct Upload<T> {
    pub queue: QueueView<T>,
    pub workers: Seq<UploadWorker<T>>,
    /// The files that were uploaded.
    pub uploaded: Multiset<T>,
    /// The files whose upload failed.
    pub failed: Multiset<T>,
}

/// An upload at its start, with a number of workers.
pub open spec fn new_upload<T>(files: Seq<T>, jobs: nat) -> Upload<T> {
    Upload {
        queue: QueueView { pending: files, first_error: None },
        workers: Seq::new(jobs, |i: int| UploadWorker::Idle),
        uploaded: Multiset::empty(),
        failed: Multiset::empty(),
    }
}

/// The upload after worker `w` did the next thing. `outcome` says of each file
/// with what message its upload fails, if it does. A worker stops once it is
/// handed no file, or after a failure.
pub open spec fn upload_step<T>(
    upload: Upload<T>,
    w: int,
    outcome: spec_fn(T) -> Option<Seq<char>>,
) -> Upload<T> {
    if !(0 <= w < upload.workers.len()) {
        upload
    } else {
        match upload.workers[w] {
            UploadWorker::Idle => Upload {
                queue: after_take(upload.queue),
                workers: upload.workers.update(
                    w,
                    match handed_out(upload.queue) {
                        Some(file) => UploadWorker::Busy(file),
                        None => UploadWorker::Stopped,
                    },
                ),
                ..upload
            },
            UploadWorker::Busy(file) => match outcome(file) {
                None => Upload {
                    workers: upload.workers.update(w, UploadWorker::Idle),
                    uploaded: upload.uploaded.insert(file),
                    ..upload
                },
                Some(message) => Upload {
                    queue: after_failure(upload.queue, message),
                    workers: upload.workers.update(w, UploadWorker::Stopped),
                    failed: upload.failed.insert(file),
                    ..upload
                },
            },
            UploadWorker::Stopped => upload,
        }
    }
}

/// The upload after the workers took their turns in some order.
pub open spec fn upload_after<T>(
    upload: Upload<T>,
    turns: Seq<int>,
    outcome: spec_fn(T) -> Option<Seq<char>>,
) -> Upload<T>
    decreases turns.len(),
{
    if turns.len() == 0 {
        upload
    } else {
        upload_step(upload_after(upload, turns.drop_last(), outcome), turns.last(), outcome)
    }
}

/// Every worker has stopped.
pub open spec fn upload_is_over<T>(upload: Upload<T>) -> bool {
    forall|w: int| 0 <= w < upload.workers.len() ==> (#[trigger] upload.workers[w]) is Stopped
}

/// The file that a worker is at.
pub open spec fn in_hand<T>(worker: UploadWorker<T>) -> Multiset<T> {
    match worker {
        UploadWorker::Busy(file) => Multiset::singleton(file),
        _ => Multiset::empty(),
    }
}

/// Every file is in exactly one place: in the queue, in the hands of a worker,
/// uploaded, or failed. The reported failure is that of a file that failed.
/// Workers stop only after a failure or at the end of the queue.
spec fn is_sound_upload<T>(
    upload: Upload<T>,
    files: Seq<T>,
    outcome: spec_fn(T) -> Option<Seq<char>>,
) -> bool {
    &&& files.to_multiset() == upload.queue.pending.to_multiset().add(upload.uploaded).add(
        upload.failed,
    ).add(gathered(upload.workers, |worker: UploadWorker<T>| in_hand(worker)))
    &&& upload.queue.first_error is None ==> upload.failed == Multiset::<T>::empty()
    &&& upload.queue.first_error matches Some(message) ==> exists|file: T| #[trigger]
        upload.failed.count(file) > 0 && outcome(file) == Some(message)
    &&& forall|file: T| #[trigger] upload.failed.count(file) > 0 ==> outcome(file) is Some
    &&& forall|file: T| #[trigger] upload.uploaded.count(file) > 0 ==> outcome(file) is None
    &&& forall|w: int|
        0 <= w < upload.workers.len() && (#[trigger] upload.workers[w]) is Stopped
            ==> upload.queue.first_error is Some || upload.queue.pending.len() == 0
}

proof fn lemma_sound_step<T>(
    upload: Upload<T>,
    w: int,
    files: Seq<T>,
    outcome: spec_fn(T) -> Option<Seq<char>>,
)
    requires
        is_sound_upload(upload, files, outcome),
    ensures
        is_sound_upload(upload_step(upload, w, outcome), files, outcome),
{
    broadcast use group_multiset_axioms;

    let held = |worker: UploadWorker<T>| in_hand(worker);
    let next = upload_step(upload, w, outcome);
    if 0 <= w < upload.workers.len() && !(upload.workers[w] is Stopped) {
        lemma_gathered_update(upload.workers, held, w, next.workers[w]);
        let before = gathered(upload.workers, held);
        let after = gathered(next.workers, held);
        assert(after.add(held(upload.workers[w])) == before.add(held(next.workers[w])));
        let pending = upload.queue.pending;
        match upload.workers[w] {
            UploadWorker::Idle => {
                if handed_out(upload.queue) is Some {
                    assert(pending.drop_first() =~= pending.remove(0));
                    pending.to_multiset_ensures();
                    assert(pending.contains(pending[0]));
                }
            },
            UploadWorker::Busy(file) => {
                if let Some(message) = outcome(file) {
                    assert(next.failed.count(file) > 0);
                    if let Some(first) = upload.queue.first_error {
                        let earlier = choose|file: T| #[trigger]
                            upload.failed.count(file) > 0 && outcome(file) == Some(first);
                        assert(next.failed.count(earlier) > 0);
                    }
                }
                assert forall|other: T| #[trigger] next.failed.count(other) > 0 implies outcome(
                    other,
                ) is Some by {
                    if other != file {
                        assert(upload.failed.count(other) > 0);
                    }
                }
                assert forall|other: T| #[trigger] next.uploaded.count(other) > 0 implies outcome(
                    other,
                ) is None by {
                    if other != file {
                        assert(upload.uploaded.count(other) > 0);
                    }
                }
            },
            UploadWorker::Stopped => {},
        }
        assert forall|file: T| #[trigger]
            files.to_multiset().count(file) == next.queue.pending.to_multiset().add(
                next.uploaded,
            ).add(next.failed).add(after).count(file) by {
            assert(after.add(held(upload.workers[w])).count(file) == before.add(
                held(next.workers[w]),
            ).count(file));
        }
        assert(files.to_multiset() =~= next.queue.pending.to_multiset().add(next.uploaded).add(
            next.failed,
        ).add(after));
    }
}

proof fn lemma_sound_upload<T>(
    files: Seq<T>,
    jobs: nat,
    turns: Seq<int>,
    outcome: spec_fn(T) -> Option<Seq<char>>,
)
    ensures
        is_sound_upload(upload_after(new_upload(files, jobs), turns, outcome), files, outcome),
        upload_after(new_upload(files, jobs), turns, outcome).workers.len() == jobs,
    decreases turns.len(),
{
    broadcast use group_multiset_axioms;

    if turns.len() == 0 {
        let upload = new_upload(files, jobs);
        let held = |worker: UploadWorker<T>| in_hand(worker);
        lemma_gathered_nothing(upload.workers, held);
        assert(files.to_multiset() =~= files.to_multiset().add(upload.uploaded).add(
            upload.failed,
        ).add(gathered(upload.workers, held)));
    } else {
        lemma_sound_upload(files, jobs, turns.drop_last(), outcome);
        let before = upload_after(new_upload(files, jobs), turns.drop_last(), outcome);
        lemma_sound_step(before, turns.last(), files, outcome);
    }
}

/// Whatever turns its workers take, an upload that is over has succeeded if and
/// only if the upload of each file succeeds by itself. Each file was then
/// uploaded once. Else the failure that is reported is that of some file.
pub proof fn law_upload_succeeds_if_each_file_does<T>(
    files: Seq<T>,
    jobs: nat,
    turns: Seq<int>,
    outcome: spec_fn(T) -> Option<Seq<char>>,
)
    requires
        jobs >= 1,
        upload_is_over(upload_after(new_upload(files, jobs), turns, outcome)),
    ensures
        ({
            let upload = upload_after(new_upload(files, jobs), turns, outcome);
            &&& upload.queue.first_error is None <==> (forall|i: int|
                0 <= i < files.len() ==> outcome(#[trigger] files[i]) is None)
            &&& upload.queue.first_error is None ==> upload.uploaded == files.to_multiset()
            &&& upload.queue.first_error matches Some(message) ==> exists|i: int|
                0 <= i < files.len() && outcome(#[trigger] files[i]) == Some(message)
        }),
{
    broadcast use group_multiset_axioms;

    let upload = upload_after(new_upload(files, jobs), turns, outcome);
    let held = |worker: UploadWorker<T>| in_hand(worker);
    lemma_sound_upload(files, jobs, turns, outcome);
    lemma_gathered_nothing(upload.workers, held);
    files.to_multiset_ensures();
    assert(upload.workers[0] is Stopped);
    match upload.queue.first_error {
        None => {
            upload.queue.pending.to_multiset_ensures();
            assert(upload.queue.pending.to_multiset() =~= Multiset::empty());
            assert(files.to_multiset() =~= upload.uploaded);
            assert forall|i: int| 0 <= i < files.len() implies outcome(
                #[trigger] files[i],
            ) is None by {
                assert(files.contains(files[i]));
                assert(upload.uploaded.count(files[i]) > 0);
            }
        },
        Some(message) => {
            let file = choose|file: T| #[trigger]
                upload.failed.count(file) > 0 && outcome(file) == Some(message);
            assert(files.to_multiset().count(file) > 0);
            let i = choose|i: int| 0 <= i < files.len() && files[i] == file;
            assert(outcome(files[i]) == Some(message));
        },
    }
}

/// The number of upload jobs that is set makes no difference to what an upload
/// comes to: with any two, both succeed or both fail, and where they succeed,
/// both have uploaded the same files. None set is as good as one.
pub proof fn law_upload_jobs_do_not_matter<T>(
    files: Seq<T>,
    outcome: spec_fn(T) -> Option<Seq<char>>,
    a_jobs: nat,
    a_turns: Seq<int>,
    b_jobs: nat,
    b_turns: Seq<int>,
)
    requires
        upload_is_over(
            upload_after(new_upload(files, job_count_of(a_jobs, files.len())), a_turns, outcome),
        ),
        upload_is_over(
            upload_after(new_upload(files, job_count_of(b_jobs, files.len())), b_turns, outcome),
        ),
    ensures
        ({
            let a = upload_after(
                new_upload(files, job_count_of(a_jobs, files.len())),
                a_turns,
                outcome,
            );
            let b = upload_after(
                new_upload(files, job_count_of(b_jobs, files.len())),
                b_turns,
                outcome,
            );
            &&& a.queue.first_error is None <==> b.queue.first_error is None
            &&& a.queue.first_error is None ==> a.uploaded == b.uploaded
        }),
        job_count_of(0, files.len()) == job_count_of(1, files.len()),
{
    law_upload_succeeds_if_each_file_does(
        files,
        job_count_of(a_jobs, files.len()),
        a_turns,
        outcome,
    );
    law_upload_succeeds_if_each_file_does(
        files,
        job_count_of(b_jobs, files.len()),
        b_turns,
        outcome,
    );
}

/// How many turns a worker may take at most before it asks for another file.
pub open spec fn worker_turns<T>(worker: UploadWorker<T>) -> nat {
    match worker {
        UploadWorker::Idle => 1,
        UploadWorker::Busy(_) => 2,
        UploadWorker::Stopped => 0,
    }
}

/// The turns that an upload has left at most.
pub open spec fn upload_turns<T>(upload: Upload<T>) -> nat {
    2 * upload.queue.pending.len() + total(
        upload.workers,
        |worker: UploadWorker<T>| worker_turns(worker),
    )
}

/// Every turn of a worker that has not stopped brings an upload nearer to its
/// end.
pub proof fn law_uploads_end<T>(
    upload: Upload<T>,
    w: int,
    outcome: spec_fn(T) -> Option<Seq<char>>,
)
    requires
        0 <= w < upload.workers.len(),
        !(upload.workers[w] is Stopped),
    ensures
        upload_turns(upload_step(upload, w, outcome)) < upload_turns(upload),
{
    let next = upload_step(upload, w, outcome);
    let turns = |worker: UploadWorker<T>| worker_turns(worker);
    lemma_total_update(upload.workers, turns, w, next.workers[w]);
}

/// A folder with all that is in it: an entry, and, for a directory, the trees
/// of its listing.
pub struct Tree<P> {
    pub entry: DirEntry<P>,
    pub children: Seq<Tree<P>>,
}

/// The files of a tree with their keys, depth first.
pub open spec fn tree_files<P>(tree: Tree<P>, release_key: Seq<char>) -> Seq<(P, Seq<char>)>
    decreases tree,
{
    match tree.entry.kind {
        EntryKind::Directory => forest_files(tree.children, release_key),
        EntryKind::File => seq![(tree.entry.path, file_key(release_key, tree.entry.relative@))],
        EntryKind::Other => seq![],
    }
}

/// The files of some trees, one tree after the other.
pub open spec fn forest_files<P>(trees: Seq<Tree<P>>, release_key: Seq<char>) -> Seq<
    (P, Seq<char>),
>
    decreases trees,
{
    if trees.len() == 0 {
        seq![]
    } else {
        tree_files(trees[0], release_key) + forest_files(trees.drop_first(), release_key)
    }
}

/// The entries of some trees.
pub open spec fn entries<P>(trees: Seq<Tree<P>>) -> Seq<DirEntry<P>> {
    trees.map_values(|tree: Tree<P>| tree.entry)
}

/// The files of the trees that a walk has yet to visit, the next one last.
pub open spec fn stack_files<P>(stack: Seq<Tree<P>>, release_key: Seq<char>) -> Seq<(P, Seq<char>)>
    decreases stack.len(),
{
    if stack.len() == 0 {
        seq![]
    } else {
        tree_files(stack.last(), release_key) + stack_files(stack.drop_last(), release_key)
    }
}

/// The tree of the next directory that comes up.
pub open spec fn tree_ahead<P>(stack: Seq<Tree<P>>) -> Tree<P>
    decreases stack.len(),
{
    if stack.len() <= 1 || stack.last().entry.kind == EntryKind::Directory {
        stack.last()
    } else {
        tree_ahead(stack.drop_last())
    }
}

/// The trees that are left once the next directory has come up.
pub open spec fn trees_behind<P>(stack: Seq<Tree<P>>) -> Seq<Tree<P>>
    decreases stack.len(),
{
    if stack.len() == 0 {
        seq![]
    } else if stack.last().entry.kind == EntryKind::Directory {
        stack.drop_last()
    } else {
        trees_behind(stack.drop_last())
    }
}

/// What the walk has yet to visit after it read the next directory.
pub open spec fn stack_after<P>(stack: Seq<Tree<P>>) -> Seq<Tree<P>> {
    trees_behind(stack) + tree_ahead(stack).children.reverse()
}

/// The number of directories in a tree.
pub open spec fn tree_directories<P>(tree: Tree<P>) -> nat
    decreases tree,
{
    match tree.entry.kind {
        EntryKind::Directory => 1 + forest_directories(tree.children),
        _ => 0,
    }
}

/// The number of directories in some trees.
pub open spec fn forest_directories<P>(trees: Seq<Tree<P>>) -> nat
    decreases trees,
{
    if trees.len() == 0 {
        0
    } else {
        tree_directories(trees[0]) + forest_directories(trees.drop_first())
    }
}

/// The number of directories that a walk has yet to visit.
pub open spec fn stack_directories<P>(stack: Seq<Tree<P>>) -> nat
    decreases stack.len(),
{
    if stack.len() == 0 {
        0
    } else {
        tree_directories(stack.last()) + stack_directories(stack.drop_last())
    }
}

/// A walk takes up the entries of the trees that it has yet to visit.
proof fn lemma_entries_ahead<P>(stack: Seq<Tree<P>>, release_key: Seq<char>)
    ensures
        directory_ahead(entries(stack)) is None ==> files_ahead(entries(stack), release_key)
            == stack_files(stack, release_key) && stack_directories(stack) == 0,
        directory_ahead(entries(stack)) is Some ==> {
            &&& tree_ahead(stack).entry.kind == EntryKind::Directory
            &&& directory_ahead(entries(stack)) == Some(tree_ahead(stack).entry.path)
            &&& entries(trees_behind(stack)) == behind_directory(entries(stack))
            &&& stack_files(stack, release_key) == files_ahead(entries(stack), release_key) + (
            forest_files(tree_ahead(stack).children, release_key) + stack_files(
                trees_behind(stack),
                release_key,
            ))
            &&& stack_directories(stack) == 1 + forest_directories(tree_ahead(stack).children)
                + stack_directories(trees_behind(stack))
        },
    decreases stack.len(),
{
    if stack.len() > 0 {
        let rest = stack.drop_last();
        assert(entries(stack).drop_last() =~= entries(rest));
        assert(entries(stack).last() == stack.last().entry);
        if stack.last().entry.kind == EntryKind::Directory {
            assert(Seq::<(P, Seq<char>)>::empty() + stack_files(stack, release_key) =~= stack_files(
                stack,
                release_key,
            ));
        } else {
            lemma_entries_ahead(rest, release_key);
            assert(files_ahead(entries(stack), release_key) =~= tree_files(
                stack.last(),
                release_key,
            ) + files_ahead(entries(rest), release_key));
            if directory_ahead(entries(stack)) is Some {
                assert(rest.len() > 0);
                assert(stack_files(stack, release_key) =~= files_ahead(
                    entries(stack),
                    release_key,
                ) + (forest_files(tree_ahead(stack).children, release_key) + stack_files(
                    trees_behind(stack),
                    release_key,
                )));
            }
        }
    }
}

/// Putting a listing on top of what is yet to be visited.
proof fn lemma_stack_with_listing<P>(
    stack: Seq<Tree<P>>,
    listing: Seq<Tree<P>>,
    release_key: Seq<char>,
)
    ensures
        stack_files(stack + listing.reverse(), release_key) == forest_files(listing, release_key)
            + stack_files(stack, release_key),
        stack_directories(stack + listing.reverse()) == forest_directories(listing)
            + stack_directories(stack),
    decreases listing.len(),
{
    let whole = stack + listing.reverse();
    if listing.len() == 0 {
        assert(whole =~= stack);
        assert(forest_files(listing, release_key) + stack_files(stack, release_key) =~= stack_files(
            stack,
            release_key,
        ));
    } else {
        lemma_stack_with_listing(stack, listing.drop_first(), release_key);
        assert(whole.drop_last() =~= stack + listing.drop_first().reverse());
        assert(whole.last() == listing[0]);
        assert(stack_files(whole, release_key) =~= forest_files(listing, release_key)
            + stack_files(stack, release_key));
    }
}

/// What a walk collects that reads one directory after the other until none is
/// left.
pub open spec fn walk_files<P>(stack: Seq<Tree<P>>, release_key: Seq<char>) -> Seq<(P, Seq<char>)>
    decreases stack_directories(stack),
    via walk_comes_to_an_end::<P>
{
    if directory_ahead(entries(stack)) is None {
        files_ahead(entries(stack), release_key)
    } else {
        files_ahead(entries(stack), release_key) + walk_files(stack_after(stack), release_key)
    }
}

#[via_fn]
proof fn walk_comes_to_an_end<P>(stack: Seq<Tree<P>>, release_key: Seq<char>) {
    lemma_entries_ahead(stack, release_key);
    lemma_stack_with_listing(trees_behind(stack), tree_ahead(stack).children, release_key);
}

proof fn lemma_walk_files<P>(stack: Seq<Tree<P>>, release_key: Seq<char>)
    ensures
        walk_files(stack, release_key) == stack_files(stack, release_key),
    decreases stack_directories(stack),
{
    lemma_entries_ahead(stack, release_key);
    if directory_ahead(entries(stack)) is Some {
        lemma_stack_with_listing(trees_behind(stack), tree_ahead(stack).children, release_key);
        lemma_walk_files(stack_after(stack), release_key);
    }
}

/// Reading the next directory of a walk and taking in its listing leaves the
/// entries of exactly the trees that are yet to be visited.
pub proof fn law_walk_follows_the_tree<P>(stack: Seq<Tree<P>>)
    requires
        directory_ahead(entries(stack)) is Some,
    ensures
        directory_ahead(entries(stack)) == Some(tree_ahead(stack).entry.path),
        behind_directory(entries(stack)) + entries(tree_ahead(stack).children).reverse()
            == entries(stack_after(stack)),
{
    lemma_entries_ahead(stack, seq![]);
    assert(behind_directory(entries(stack)) + entries(tree_ahead(stack).children).reverse()
        =~= entries(stack_after(stack)));
}

/// A walk collects every file of a release's folder once, depth first, in the
/// order in which the directories list them.
pub proof fn law_walk_collects_every_file<P>(root: Tree<P>, release_key: Seq<char>)
    ensures
        walk_files(seq![root], release_key) == tree_files(root, release_key),
{
    lemma_walk_files(seq![root], release_key);
    assert(seq![root].drop_last() =~= Seq::<Tree<P>>::empty());
    assert(stack_files(Seq::<Tree<P>>::empty(), release_key) =~= Seq::<(P, Seq<char>)>::empty());
    assert(stack_files(seq![root], release_key) =~= tree_files(root, release_key));
}

} // verus!
