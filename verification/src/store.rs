//! Transactions on a cached document.
//!
//! A cache is one document per name, shared by every process that uses the
//! tool. Reading and writing the file and holding its lock belong to the
//! caller; what is decided here is which document a section works on, and
//! whether its result is to be written.

use vstd::prelude::*;
use crate::clock::Timestamp;

verus! {

/// A document that a cache can hold.
pub trait CacheObject: Sized {
    /// When the document was last changed.
    spec fn updated_at(&self) -> Timestamp;

    /// Whether `other` holds what this document holds, whatever the two
    /// say of when they were last changed.
    spec fn same_content(&self, other: &Self) -> bool;

    /// Whether the document holds nothing.
    spec fn holds_nothing(&self) -> bool;

    /// The document that holds nothing and was never changed.
    fn new_empty() -> (r: Self)
        ensures
            r.holds_nothing(),
            r.updated_at().nanos == 0,
    ;

    /// Marks the document as changed at `now`.
    fn stamp(&mut self, now: Timestamp)
        ensures
            final(self).updated_at() == now,
            old(self).same_content(final(self)),
    ;

    /// When the document was last changed.
    fn last_updated(&self) -> (r: Timestamp)
        ensures
            r == self.updated_at(),
    ;
}

/// The time that a change made at `now` gives a document that was last
/// changed at `before`: `now` where that is later, else the instant right
/// after `before`, so that every change moves the time on. Only the last
/// instant that there is cannot be moved on.
pub open spec fn change_time(before: Timestamp, now: Timestamp) -> Timestamp {
    if now.nanos > before.nanos {
        now
    } else if before.nanos < i128::MAX {
        Timestamp { nanos: (before.nanos + 1) as i128 }
    } else {
        before
    }
}

/// Computes `change_time`.
pub fn time_of_change(before: Timestamp, now: Timestamp) -> (r: Timestamp)
    ensures
        r == change_time(before, now),
{
    if now.nanos > before.nanos {
        now
    } else if before.nanos < i128::MAX {
        Timestamp { nanos: before.nanos + 1 }
    } else {
        before
    }
}

/// What is to be done with the result of an exclusive section.
#[derive(Debug)]
pub enum Commit<T> {
    /// The document changed: it is to be written, and every later reader
    /// is to see it.
    Persist(T),
    /// Nothing changed: nothing is written.
    Discard,
}

/// The document that a section works on, given what loading gave: the one
/// that was loaded, or the empty document where loading failed.
pub open spec fn starting_document<T: CacheObject>(loaded: Option<T>, start: T) -> bool {
    match loaded {
        Some(document) => start == document,
        None => start.holds_nothing() && start.updated_at().nanos == 0,
    }
}

/// The document for a reader: the one that was loaded, or the empty
/// document where the file could not be locked, read or understood.
pub fn shared<T: CacheObject>(loaded: Option<T>) -> (r: T)
    ensures
        starting_document(loaded, r),
{
    match loaded {
        Some(document) => document,
        None => T::new_empty(),
    }
}

/// Whether `commit` is what an exclusive section gives when `mutate`,
/// handed `start`, hands back `result` and says `changed`. A changed
/// document is persisted with what `result` holds, and its time of change
/// is `now`, or the instant after that of `start` where `now` is not
/// later.
pub open spec fn commits<T: CacheObject>(
    start: T,
    result: T,
    changed: bool,
    now: Timestamp,
    commit: Commit<T>,
) -> bool {
    match commit {
        Commit::Persist(document) => changed && document.updated_at() == change_time(
            start.updated_at(),
            now,
        ) && result.same_content(&document),
        Commit::Discard => !changed,
    }
}

/// Runs an exclusive section: `mutate` is handed the loaded document (the
/// empty one where loading failed) and hands it back with a word on
/// whether it changed. A changed document is marked as changed, at `now`
/// or right after its last change where `now` is not later, and is to be
/// persisted; an unchanged one is dropped, and nothing is to be written.
pub fn exclusive<T: CacheObject, F: FnOnce(T) -> (T, bool)>(
    loaded: Option<T>,
    now: Timestamp,
    mutate: F,
) -> (commit: Commit<T>)
    requires
        forall|start: T| call_requires(mutate, (start,)),
    ensures
        exists|start: T, result: T, changed: bool|
            {
                &&& starting_document(loaded, start)
                &&& #[trigger] call_ensures(mutate, (start,), (result, changed))
                &&& commits(start, result, changed, now, commit)
            },
{
    let start = shared(loaded);
    let ghost given = start;
    let before = start.last_updated();
    let (result, changed) = mutate(start);
    let ghost returned = result;
    if changed {
        let mut document = result;
        document.stamp(time_of_change(before, now));
        proof {
            assert(call_ensures(mutate, (given,), (returned, changed)));
            assert(commits(given, returned, changed, now, Commit::Persist(document)));
        }
        Commit::Persist(document)
    } else {
        proof {
            assert(call_ensures(mutate, (given,), (returned, changed)));
            assert(commits(given, returned, changed, now, Commit::<T>::Discard));
        }
        Commit::Discard
    }
}

/// What the cache file holds once `commit` was carried out on a file that
/// held `persisted`.
pub open spec fn persisted_after<T>(persisted: Option<T>, commit: Commit<T>) -> Option<T> {
    match commit {
        Commit::Persist(document) => Some(document),
        Commit::Discard => persisted,
    }
}

/// A section that reports no change leaves the file as it is: the document
/// in it, and with it the time of its last change, stay what they were.
pub proof fn lemma_unchanged_leaves_file<T: CacheObject>(
    persisted: Option<T>,
    start: T,
    result: T,
    now: Timestamp,
    commit: Commit<T>,
)
    requires
        commits(start, result, false, now, commit),
    ensures
        persisted_after(persisted, commit) == persisted,
{
}

/// A section that reports a change on the document of the file moves the
/// time of its last change on, whatever the clock says, and whoever reads
/// the file next, through whatever handle, is given the changed
/// document. (The last instant that there is cannot be moved on.)
pub proof fn lemma_changed_is_visible<T: CacheObject>(
    persisted: Option<T>,
    start: T,
    result: T,
    now: Timestamp,
    commit: Commit<T>,
    seen: T,
)
    requires
        starting_document(persisted, start),
        commits(start, result, true, now, commit),
        starting_document(persisted_after(persisted, commit), seen),
        start.updated_at().nanos < i128::MAX,
    ensures
        seen.updated_at().nanos > start.updated_at().nanos,
        now.nanos > start.updated_at().nanos ==> seen.updated_at() == now,
        result.same_content(&seen),
{
}

/// The snapshot of a cache that a process holds: loaded once, and replaced
/// by each document that the process commits.
#[derive(Debug)]
pub struct CacheHandle<T> {
    pub snapshot: T,
}

impl<T: CacheObject> CacheHandle<T> {
    /// The handle of a process that loaded `loaded`.
    pub fn load(loaded: Option<T>) -> (r: CacheHandle<T>)
        ensures
            starting_document(loaded, r.snapshot),
    {
        CacheHandle { snapshot: shared(loaded) }
    }

    /// The snapshot.
    pub fn get(&self) -> (r: &T)
        ensures
            *r == self.snapshot,
    {
        &self.snapshot
    }

    /// Takes over the outcome of an exclusive section: a persisted
    /// document becomes the snapshot, a discarded section leaves it. Says
    /// whether the snapshot was replaced.
    pub fn refresh(&mut self, commit: Commit<T>) -> (r: bool)
        ensures
            r == (commit is Persist),
            Some(final(self).snapshot) == persisted_after(Some(old(self).snapshot), commit),
    {
        match commit {
            Commit::Persist(document) => {
                self.snapshot = document;
                true
            },
            Commit::Discard => false,
        }
    }
}

} // verus!
