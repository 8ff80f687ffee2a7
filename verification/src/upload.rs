//! Uploading a release: which files, under which keys, by how many workers.

use crate::storage::{join_key, joined_key};
use crate::text::{optional_text, replaced};
use std::collections::VecDeque;
use vstd::prelude::*;
use vstd::string::*;

verus! {

/// What a directory entry is.
#[derive(Clone, Copy, Debug, PartialEq, Eq, Structural)]
pub enum EntryKind {
    Directory,
    File,
    Other,
}

/// An entry of a directory that is walked.
pub struct DirEntry<P> {
    pub path: P,
    /// The path relative to the root of the walk.
    pub relative: String,
    pub kind: EntryKind,
}

/// A walk through a release's folder that collects its files, each with the
/// key that it is uploaded under. Reading directories is left to the caller.
pub struct FileCollector<P> {
    /// Entries still to be visited, the next one last.
    pub pending: Vec<DirEntry<P>>,
    /// The files found so far.
    pub files: Vec<(P, String)>,
    /// The key of the release.
    pub release_key: String,
}

/// The key that a file of a release is uploaded under.
pub open spec fn file_key(release_key: Seq<char>, relative: Seq<char>) -> Seq<char> {
    joined_key(release_key, replaced(relative, '\\', '/'))
}

/// The files found, with the texts of their keys.
pub open spec fn keyed<P>(files: Seq<(P, String)>) -> Seq<(P, Seq<char>)> {
    files.map_values(|file: (P, String)| (file.0, file.1@))
}

/// The files that come up before the next directory does.
pub open spec fn files_ahead<P>(pending: Seq<DirEntry<P>>, release_key: Seq<char>) -> Seq<
    (P, Seq<char>),
>
    decreases pending.len(),
{
    if pending.len() == 0 {
        seq![]
    } else {
        let next = pending.last();
        match next.kind {
            EntryKind::Directory => seq![],
            EntryKind::File => seq![(next.path, file_key(release_key, next.relative@))]
                + files_ahead(pending.drop_last(), release_key),
            EntryKind::Other => files_ahead(pending.drop_last(), release_key),
        }
    }
}

/// The next directory that comes up.
pub open spec fn directory_ahead<P>(pending: Seq<DirEntry<P>>) -> Option<P>
    decreases pending.len(),
{
    if pending.len() == 0 {
        None
    } else if pending.last().kind == EntryKind::Directory {
        Some(pending.last().path)
    } else {
        directory_ahead(pending.drop_last())
    }
}

/// What is left once the next directory has come up.
pub open spec fn behind_directory<P>(pending: Seq<DirEntry<P>>) -> Seq<DirEntry<P>>
    decreases pending.len(),
{
    if pending.len() == 0 {
        seq![]
    } else if pending.last().kind == EntryKind::Directory {
        pending.drop_last()
    } else {
        behind_directory(pending.drop_last())
    }
}

impl<P> FileCollector<P> {
    /// A walk that starts at a release's folder.
    pub fn new(root: P, release_key: &str) -> (collector: Self)
        ensures
            collector.pending@.len() == 1,
            collector.pending@[0].path == root,
            collector.pending@[0].relative@ == Seq::<char>::empty(),
            collector.pending@[0].kind == EntryKind::Directory,
            collector.files@ == Seq::<(P, String)>::empty(),
            collector.release_key@ == release_key@,
    {
        let mut pending: Vec<DirEntry<P>> = Vec::new();
        pending.push(
            DirEntry { path: root, relative: String::new(), kind: EntryKind::Directory },
        );
        FileCollector { pending, files: Vec::new(), release_key: String::from_str(release_key) }
    }

    /// The next directory to be read, once the files before it are collected;
    /// none at the end of the walk.
    pub fn next_directory(&mut self) -> (directory: Option<P>)
        ensures
            directory == directory_ahead(old(self).pending@),
            final(self).pending@ == behind_directory(old(self).pending@),
            keyed(final(self).files@) == keyed(old(self).files@) + files_ahead(
                old(self).pending@,
                old(self).release_key@,
            ),
            final(self).release_key == old(self).release_key,
    {
        let ghost pending = self.pending@;
        let ghost files = self.files@;
        loop
            invariant_except_break
                directory_ahead(pending) == directory_ahead(self.pending@),
                behind_directory(pending) == behind_directory(self.pending@),
                keyed(files) + files_ahead(pending, self.release_key@) == keyed(self.files@)
                    + files_ahead(self.pending@, self.release_key@),
            invariant
                self.release_key == old(self).release_key,
                pending == old(self).pending@,
                files == old(self).files@,
            ensures
                directory_ahead(pending) is None,
                behind_directory(pending) == self.pending@,
                keyed(files) + files_ahead(pending, self.release_key@) == keyed(self.files@),
            decreases self.pending@.len(),
        {
            let ghost before = self.pending@;
            let ghost found = self.files@;
            match self.pending.pop() {
                None => {
                    assert(keyed(self.files@) + Seq::<(P, Seq<char>)>::empty() =~= keyed(
                        self.files@,
                    ));
                    break;
                },
                Some(entry) => {
                    assert(before.drop_last() == self.pending@);
                    match entry.kind {
                        EntryKind::Directory => {
                            assert(keyed(self.files@) + Seq::<(P, Seq<char>)>::empty() =~= keyed(
                                self.files@,
                            ));
                            return Some(entry.path);
                        },
                        EntryKind::File => {
                            let key = join_key(self.release_key.as_str(), entry.relative.as_str());
                            let ghost file = (entry.path, key@);
                            self.files.push((entry.path, key));
                            assert(keyed(self.files@) =~= keyed(found).push(file));
                            assert(keyed(found) + files_ahead(before, self.release_key@)
                                =~= keyed(self.files@) + files_ahead(
                                self.pending@,
                                self.release_key@,
                            ));
                        },
                        EntryKind::Other => {},
                    }
                },
            }
        }
        None
    }

    /// Takes in what a directory holds; its entries are visited next, in the
    /// order in which they were listed.
    pub fn add_listing(&mut self, listing: Vec<DirEntry<P>>)
        ensures
            final(self).pending@ == old(self).pending@ + listing@.reverse(),
            final(self).files == old(self).files,
            final(self).release_key == old(self).release_key,
    {
        let mut listing = listing;
        let ghost listed = listing@;
        assert(listed.take(listed.len() as int) =~= listed);
        while listing.len() > 0
            invariant
                listing@.len() <= listed.len(),
                listing@ == listed.take(listing@.len() as int),
                self.pending@ == old(self).pending@ + listed.skip(
                    listing@.len() as int,
                ).reverse(),
                self.files == old(self).files,
                self.release_key == old(self).release_key,
            decreases listing@.len(),
        {
            let ghost n = listing@.len() as int;
            if let Some(entry) = listing.pop() {
                self.pending.push(entry);
                assert(listed.skip(n - 1).reverse() =~= listed.skip(n).reverse().push(
                    listed[n - 1],
                ));
                assert(listing@ =~= listed.take(n - 1));
            }
        }
        assert(listed.skip(0) =~= listed);
    }
}

/// How many workers upload `files` files: as many as set, but at least one and
/// no more than there are files.
pub open spec fn job_count_of(upload_jobs: nat, files: nat) -> nat {
    if upload_jobs <= 1 || files <= 1 {
        1
    } else if upload_jobs <= files {
        upload_jobs
    } else {
        files
    }
}

/// How many workers upload `files` files.
pub fn job_count(upload_jobs: usize, files: usize) -> (jobs: usize)
    ensures
        jobs == job_count_of(upload_jobs as nat, files as nat),
{
    let at_most = if files < 1 {
        1
    } else {
        files
    };
    let wanted = if upload_jobs < 1 {
        1
    } else {
        upload_jobs
    };
    if wanted < at_most {
        wanted
    } else {
        at_most
    }
}

/// The files that workers have yet to upload, and the first failure among
/// them.
pub struct UploadQueue<T> {
    pending: VecDeque<T>,
    first_error: Option<String>,
}

/// The model of [`UploadQueue`].
pub struct QueueView<T> {
    pub pending: Seq<T>,
    pub first_error: Option<Seq<char>>,
}

impl<T> View for UploadQueue<T> {
    type V = QueueView<T>;

    closed spec fn view(&self) -> QueueView<T> {
        QueueView { pending: self.pending@, first_error: optional_text(self.first_error) }
    }
}

/// What a worker gets that asks for work: nothing after a failure, else the
/// next file.
pub open spec fn handed_out<T>(queue: QueueView<T>) -> Option<T> {
    if queue.first_error is Some || queue.pending.len() == 0 {
        None
    } else {
        Some(queue.pending[0])
    }
}

/// The queue after a worker asked for work.
pub open spec fn after_take<T>(queue: QueueView<T>) -> QueueView<T> {
    if handed_out(queue) is Some {
        QueueView { pending: queue.pending.drop_first(), ..queue }
    } else {
        queue
    }
}

/// The queue after a worker failed.
pub open spec fn after_failure<T>(queue: QueueView<T>, message: Seq<char>) -> QueueView<T> {
    if queue.first_error is Some {
        queue
    } else {
        QueueView { first_error: Some(message), ..queue }
    }
}

impl<T> UploadQueue<T> {
    /// A queue of files, none of which has failed.
    pub fn new(files: Vec<T>) -> (queue: Self)
        ensures
            queue@.pending == files@,
            queue@.first_error is None,
    {
        let mut pending: VecDeque<T> = VecDeque::new();
        let ghost all = files@;
        for file in it: files
            invariant
                it.seq() == all,
                pending@ == all.take(it.index() as int),
        {
            pending.push_back(file);
            assert(all.take(it.index() + 1) =~= all.take(it.index() as int).push(file));
        }
        assert(all.take(all.len() as int) =~= all);
        UploadQueue { pending, first_error: None }
    }

    /// Hands the next file to a worker; after a failure, none.
    pub fn take_next(&mut self) -> (file: Option<T>)
        ensures
            file == handed_out(old(self)@),
            final(self)@ == after_take(old(self)@),
    {
        if self.first_error.is_some() {
            return None;
        }
        let file = self.pending.pop_front();
        assert(self@.pending =~= after_take(old(self)@).pending);
        file
    }

    /// Takes note of a failure; the first one is kept.
    pub fn record_failure(&mut self, message: String)
        ensures
            final(self)@ == after_failure(old(self)@, message@),
    {
        if self.first_error.is_none() {
            self.first_error = Some(message);
        }
    }

    /// What the upload as a whole came to.
    pub fn finish(self) -> (result: Result<(), String>)
        ensures
            match self@.first_error {
                None => result is Ok,
                Some(message) => result matches Err(e) && e@ == message,
            },
    {
        match self.first_error {
            None => Ok(()),
            Some(message) => Err(message),
        }
    }
}

} // verus!
