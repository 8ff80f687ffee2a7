//! How the walk and the queue of an upload go, call by call.

use crate::upload::{
    behind_directory, directory_ahead, file_key, files_ahead, job_count, keyed, DirEntry,
    FileCollector, UploadQueue,
};
use vstd::prelude::*;

verus! {

/// There are as many upload workers as are set, but no more than files, and at
/// least one.
pub proof fn law_upload_workers_are_as_set(upload_jobs: usize, files: usize, jobs: usize)
    requires
        call_ensures(job_count, (upload_jobs, files), jobs),
    ensures
        upload_jobs <= 1 || files <= 1 ==> jobs == 1,
        1 <= upload_jobs <= files ==> jobs == upload_jobs,
        1 <= files <= upload_jobs ==> jobs == files,
{
}

/// A queue hands its files out in order, and none after a failure.
pub proof fn law_queues_hand_out_the_first_file<T>(
    queue: &mut UploadQueue<T>,
    file: Option<T>,
)
    requires
        call_ensures(UploadQueue::<T>::take_next, (queue,), file),
    ensures
        final(queue)@.first_error == old(queue)@.first_error,
        file is Some <==> old(queue)@.first_error is None && old(queue)@.pending.len() > 0,
        file matches Some(f) ==> old(queue)@.pending == seq![f] + final(queue)@.pending,
        file is None ==> final(queue)@.pending == old(queue)@.pending,
{
    if let Some(f) = file {
        assert(old(queue)@.pending =~= seq![f] + final(queue)@.pending);
    }
}

/// A new queue holds its files, and no failure.
pub proof fn law_queues_start_with_their_files<T>(files: Vec<T>, queue: UploadQueue<T>)
    requires
        call_ensures(UploadQueue::<T>::new, (files,), queue),
    ensures
        queue@.pending == files@,
        queue@.first_error is None,
{
}

/// The first failure is kept, and the files stay.
pub proof fn law_queues_keep_the_first_failure<T>(queue: &mut UploadQueue<T>, message: String)
    requires
        call_ensures(UploadQueue::<T>::record_failure, (queue, message), ()),
    ensures
        final(queue)@.pending == old(queue)@.pending,
        old(queue)@.first_error is Some ==> final(queue)@.first_error == old(queue)@.first_error,
        old(queue)@.first_error is None ==> final(queue)@.first_error == Some(message@),
{
}

/// An upload comes to the failure that its queue kept, or succeeds.
pub proof fn law_queues_come_to_their_failure<T>(queue: UploadQueue<T>, result: Result<(), String>)
    requires
        call_ensures(UploadQueue::<T>::finish, (queue,), result),
    ensures
        result is Ok <==> queue@.first_error is None,
        result matches Err(e) ==> queue@.first_error == Some(e@),
{
}

/// A walk starts at the root of the release.
pub proof fn law_walks_start_at_the_root<P>(
    root: P,
    release_key: &str,
    collector: FileCollector<P>,
)
    requires
        call_ensures(FileCollector::<P>::new, (root, release_key), collector),
    ensures
        directory_ahead(collector.pending@) == Some(root),
        behind_directory(collector.pending@).len() == 0,
        collector.files@.len() == 0,
        collector.release_key@ == release_key@,
{
    assert(collector.pending@.last() == collector.pending@[0]);
}

/// A walk takes the entries of a listing up in the order of the listing, before
/// all that was left, and loses none.
pub proof fn law_walks_take_listings_up_in_order<P>(
    collector: &mut FileCollector<P>,
    listing: Vec<DirEntry<P>>,
)
    requires
        call_ensures(FileCollector::<P>::add_listing, (collector, listing), ()),
    ensures
        final(collector).pending@.len() == old(collector).pending@.len() + listing@.len(),
        final(collector).pending@.take(old(collector).pending@.len() as int)
            == old(collector).pending@,
        forall|i: int|
            0 <= i < listing@.len() ==> #[trigger] listing@[i]
                == final(collector).pending@[final(collector).pending@.len() - 1 - i],
        final(collector).files@ == old(collector).files@,
        final(collector).release_key@ == old(collector).release_key@,
{
    let left = old(collector).pending@;
    assert(final(collector).pending@.take(left.len() as int) =~= left);
}

/// A walk goes on to the next directory and collects the files before it, each
/// under its key, behind those that it has.
pub proof fn law_walks_collect_files_up_to_a_directory<P>(
    collector: &mut FileCollector<P>,
    directory: Option<P>,
)
    requires
        call_ensures(FileCollector::<P>::next_directory, (collector,), directory),
    ensures
        directory == directory_ahead(old(collector).pending@),
        final(collector).pending@ == behind_directory(old(collector).pending@),
        final(collector).release_key@ == old(collector).release_key@,
        final(collector).files@.len() == old(collector).files@.len() + files_ahead(
            old(collector).pending@,
            old(collector).release_key@,
        ).len(),
        forall|i: int|
            0 <= i < old(collector).files@.len() ==> {
                &&& (#[trigger] final(collector).files@[i]).0 == old(collector).files@[i].0
                &&& final(collector).files@[i].1@ == old(collector).files@[i].1@
            },
        forall|i: int|
            old(collector).files@.len() <= i < final(collector).files@.len() ==> {
                let file = files_ahead(
                    old(collector).pending@,
                    old(collector).release_key@,
                )[i - old(collector).files@.len()];
                &&& (#[trigger] final(collector).files@[i]).0 == file.0
                &&& final(collector).files@[i].1@ == file.1
            },
{
    let before = old(collector).files@;
    let after = final(collector).files@;
    let ahead = files_ahead(old(collector).pending@, old(collector).release_key@);
    let all = keyed(before) + ahead;
    assert(keyed(after) == all);
    assert(keyed(after).len() == after.len());
    assert forall|i: int| 0 <= i < before.len() implies {
        &&& (#[trigger] after[i]).0 == before[i].0
        &&& after[i].1@ == before[i].1@
    } by {
        assert(keyed(after)[i] == all[i]);
        assert(all[i] == keyed(before)[i]);
    }
    assert forall|i: int| before.len() <= i < after.len() implies {
        let file = ahead[i - before.len()];
        &&& (#[trigger] after[i]).0 == file.0
        &&& after[i].1@ == file.1
    } by {
        assert(keyed(after)[i] == all[i]);
    }
}

/// What comes up first, of what a walk has left: a directory is the next one, a
/// file is collected first, and any other entry is passed over.
pub proof fn law_walks_go_by_the_kind_of_entry<P>(
    pending: Seq<DirEntry<P>>,
    entry: DirEntry<P>,
    release_key: Seq<char>,
    key: Seq<char>,
)
    requires
        key == file_key(release_key, entry.relative@),
    ensures
        entry.kind is Directory ==> {
            &&& directory_ahead(pending.push(entry)) == Some(entry.path)
            &&& behind_directory(pending.push(entry)) == pending
            &&& files_ahead(pending.push(entry), release_key).len() == 0
        },
        !(entry.kind is Directory) ==> {
            &&& directory_ahead(pending.push(entry)) == directory_ahead(pending)
            &&& behind_directory(pending.push(entry)) == behind_directory(pending)
        },
        entry.kind is File ==> files_ahead(pending.push(entry), release_key) == seq![
            (entry.path, key),
        ] + files_ahead(pending, release_key),
        entry.kind is Other ==> files_ahead(pending.push(entry), release_key) == files_ahead(
            pending,
            release_key,
        ),
        directory_ahead(Seq::<DirEntry<P>>::empty()) is None,
        files_ahead(Seq::<DirEntry<P>>::empty(), release_key).len() == 0,
        behind_directory(Seq::<DirEntry<P>>::empty()).len() == 0,
{
    assert(pending.push(entry).drop_last() =~= pending);
    assert(pending.push(entry).last() == entry);
}

} // verus!
