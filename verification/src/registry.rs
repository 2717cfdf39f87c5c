//! The life of a tracked resource: who requires it, when it was last
//! required, and when it may go.

use vstd::prelude::*;
use vstd::string::*;
use crate::clock::{RunClock, Timestamp};
use crate::consumers::ConsumerSet;
use crate::pattern::optional_view;
use crate::text::same_text;
use crate::version::ascending;

verus! {

/// Whether a resource last required at `last_required_at` is stale: nobody
/// asked for it again since the run of `clock` started.
pub open spec fn stale_at(last_required_at: Timestamp, clock: RunClock) -> bool {
    last_required_at.nanos < clock.now.nanos
}

/// Whether a resource may be removed: nobody requires it, and this tool
/// installed it.
pub open spec fn removable_when(required_by: Set<Seq<char>>, owned: bool) -> bool {
    required_by == Set::<Seq<char>>::empty() && owned
}

/// Whether requiring a resource changes its record: the consumer is new to
/// it, or it was last required before the run started.
pub open spec fn require_changes(
    required_by: Set<Seq<char>>,
    last_required_at: Timestamp,
    consumer: Seq<char>,
    clock: RunClock,
) -> bool {
    !required_by.contains(consumer) || stale_at(last_required_at, clock)
}

/// Notes that `consumer` requires the resource during the run of `clock`.
/// The consumer joins `required_by`; where that changes the record, the
/// resource counts as required now. Says whether the record changed.
pub fn require(
    required_by: &mut ConsumerSet,
    last_required_at: &mut Timestamp,
    consumer: &str,
    clock: &RunClock,
) -> (changed: bool)
    ensures
        final(required_by)@ == old(required_by)@.insert(consumer@),
        ascending(final(required_by).order()),
        changed == require_changes(old(required_by)@, *old(last_required_at), consumer@, *clock),
        *final(last_required_at) == if changed {
            clock.now
        } else {
            *old(last_required_at)
        },
        !stale_at(*final(last_required_at), *clock),
{
    let grew = required_by.insert(consumer);
    if grew || clock.predates_run(last_required_at) {
        *last_required_at = clock.now;
        true
    } else {
        false
    }
}

/// Notes that `consumer` no longer requires the resource. Says whether it
/// did until now.
pub fn release(required_by: &mut ConsumerSet, consumer: &str) -> (changed: bool)
    ensures
        final(required_by)@ == old(required_by)@.remove(consumer@),
        ascending(final(required_by).order()),
        changed == old(required_by)@.contains(consumer@),
{
    required_by.remove(consumer)
}

/// Decides `stale_at`.
pub fn is_stale(last_required_at: &Timestamp, clock: &RunClock) -> (r: bool)
    ensures
        r == stale_at(*last_required_at, *clock),
{
    clock.predates_run(last_required_at)
}

/// Decides `removable_when`.
pub fn is_removable(required_by: &ConsumerSet, owned: bool) -> (r: bool)
    ensures
        r == removable_when(required_by@, owned),
{
    owned && required_by.is_empty()
}

/// One call on a resource's record.
pub enum Demand {
    /// The consumer requires the resource.
    Add(Seq<char>),
    /// The consumer no longer requires it.
    Release(Seq<char>),
}

/// What `required_by` holds after `calls`, made in order on a record that
/// started with `start`.
pub open spec fn after_calls(start: Set<Seq<char>>, calls: Seq<Demand>) -> Set<Seq<char>>
    decreases calls.len(),
{
    if calls.len() == 0 {
        start
    } else {
        let before = after_calls(start, calls.drop_last());
        match calls.last() {
            Demand::Add(consumer) => before.insert(consumer),
            Demand::Release(consumer) => before.remove(consumer),
        }
    }
}

/// Whether the most recent of `calls` that names `consumer` is an `Add`.
pub open spec fn last_call_adds(calls: Seq<Demand>, consumer: Seq<char>) -> bool {
    exists|i: int|
        0 <= i < calls.len() && #[trigger] calls[i] == Demand::Add(consumer) && forall|j: int|
            i < j < calls.len() ==> #[trigger] calls[j] != Demand::Release(consumer)
}

/// After any sequence of calls on a fresh record, `required_by` holds
/// exactly the consumers whose most recent call was an `Add`.
pub proof fn lemma_required_by_follows_last_call(calls: Seq<Demand>, consumer: Seq<char>)
    ensures
        after_calls(Set::empty(), calls).contains(consumer) <==> last_call_adds(calls, consumer),
    decreases calls.len(),
{
    if calls.len() > 0 {
        let earlier = calls.drop_last();
        let n = calls.len() - 1;
        lemma_required_by_follows_last_call(earlier, consumer);
        if last_call_adds(earlier, consumer) {
            let i = choose|i: int|
                0 <= i < earlier.len() && #[trigger] earlier[i] == Demand::Add(consumer)
                    && forall|j: int|
                    i < j < earlier.len() ==> #[trigger] earlier[j] != Demand::Release(consumer);
            assert(calls[i] == earlier[i]);
            if calls.last() != Demand::Release(consumer) {
                assert forall|j: int| i < j < calls.len() implies #[trigger] calls[j]
                    != Demand::Release(consumer) by {
                    if j < n {
                        assert(calls[j] == earlier[j]);
                    }
                }
                assert(last_call_adds(calls, consumer));
            }
        }
        if last_call_adds(calls, consumer) {
            let i = choose|i: int|
                0 <= i < calls.len() && #[trigger] calls[i] == Demand::Add(consumer) && forall|
                    j: int,
                |
                    i < j < calls.len() ==> #[trigger] calls[j] != Demand::Release(consumer);
            if i < n {
                assert(calls[n] != Demand::Release(consumer));
                assert(earlier[i] == calls[i]);
                assert forall|j: int| i < j < earlier.len() implies #[trigger] earlier[j]
                    != Demand::Release(consumer) by {
                    assert(earlier[j] == calls[j]);
                }
                assert(last_call_adds(earlier, consumer));
            }
        }
        if calls.last() == Demand::Add(consumer) {
            assert(calls[n] == Demand::Add(consumer));
            assert(last_call_adds(calls, consumer));
        }
    }
}

/// A record that was required during a run is not stale in that run.
pub proof fn lemma_required_is_not_stale(
    required_by: Set<Seq<char>>,
    last_required_at: Timestamp,
    consumer: Seq<char>,
    clock: RunClock,
)
    ensures
        !stale_at(
            if require_changes(required_by, last_required_at, consumer, clock) {
                clock.now
            } else {
                last_required_at
            },
            clock,
        ),
{
}

/// The kind of a tracked resource.
#[derive(Debug, Clone, Copy, PartialEq, Eq, Structural)]
pub enum ResourceKind {
    Formula,
    Cask,
    Tap,
}

/// What names a resource: its kind, its name, and its version where it has
/// one.
pub struct ResourceKey {
    pub kind: ResourceKind,
    pub name: Seq<char>,
    pub version: Option<Seq<char>>,
}

/// The record of one resource: who requires it, when it was last required,
/// and whether this tool installed it or only found it there.
#[derive(Debug)]
pub struct InstalledResource {
    pub kind: ResourceKind,
    pub name: String,
    pub version: Option<String>,
    pub owned: bool,
    pub required_by: ConsumerSet,
    pub last_required_at: Timestamp,
}

impl InstalledResource {
    pub open spec fn key(self) -> ResourceKey {
        ResourceKey { kind: self.kind, name: self.name@, version: optional_view(self.version) }
    }

    /// Whether nobody required the resource since the run of `clock`
    /// started.
    pub open spec fn is_stale(self, clock: RunClock) -> bool {
        stale_at(self.last_required_at, clock)
    }

    /// Whether the resource may be removed.
    pub open spec fn is_removable(self) -> bool {
        removable_when(self.required_by@, self.owned)
    }

    /// Whether the record is bookkeeping that nothing will ever act on:
    /// nobody requires the resource, and it is not this tool's to remove.
    pub open spec fn is_leftover(self) -> bool {
        self.required_by@ == Set::<Seq<char>>::empty() && !self.owned
    }

    /// Whether `after` is this record with `required_by` in place of its
    /// consumers, held in ascending order, and nothing else changed.
    pub open spec fn with_consumers(self, after: InstalledResource, required_by: Set<Seq<char>>) -> bool {
        &&& after.kind == self.kind
        &&& after.name == self.name
        &&& after.version == self.version
        &&& after.owned == self.owned
        &&& after.last_required_at == self.last_required_at
        &&& after.required_by@ == required_by
        &&& ascending(after.required_by.order())
    }

    pub fn stale(&self, clock: &RunClock) -> (r: bool)
        ensures
            r == self.is_stale(*clock),
    {
        is_stale(&self.last_required_at, clock)
    }

    pub fn removable(&self) -> (r: bool)
        ensures
            r == self.is_removable(),
    {
        is_removable(&self.required_by, self.owned)
    }

    /// Whether this is the record of the resource that `kind`, `name` and
    /// `version` name.
    pub fn is_named(&self, kind: ResourceKind, name: &str, version: &Option<String>) -> (r: bool)
        ensures
            r == (self.key() == ResourceKey {
                kind,
                name: name@,
                version: optional_view(*version),
            }),
    {
        let same_version = match (&self.version, version) {
            (Some(own), Some(other)) => same_text(own.as_str(), other.as_str()),
            (None, None) => true,
            _ => false,
        };
        self.kind == kind && same_text(self.name.as_str(), name) && same_version
    }
}

/// The records of the resources of one kind of thing, in the order in which
/// they were first required.
#[derive(Debug)]
pub struct Registry {
    pub records: Vec<InstalledResource>,
}

/// Whether `index` is where the first record with `key` stands among
/// `records`, or `None` and there is no such record.
pub open spec fn first_with_key(
    records: Seq<InstalledResource>,
    key: ResourceKey,
    index: Option<int>,
) -> bool {
    match index {
        Some(i) => 0 <= i < records.len() && records[i].key() == key && forall|j: int|
            0 <= j < i ==> (#[trigger] records[j]).key() != key,
        None => forall|j: int| 0 <= j < records.len() ==> (#[trigger] records[j]).key() != key,
    }
}

/// Whether releasing `consumer` touches `record`: it requires the resource,
/// and where only stale records are released, the record is stale.
pub open spec fn released(
    record: InstalledResource,
    consumer: Seq<char>,
    only_stale: Option<RunClock>,
) -> bool {
    record.required_by@.contains(consumer) && match only_stale {
        Some(clock) => record.is_stale(clock),
        None => true,
    }
}

/// Whether releasing `consumer` touches any of `records`.
pub open spec fn any_released(
    records: Seq<InstalledResource>,
    consumer: Seq<char>,
    only_stale: Option<RunClock>,
) -> bool {
    exists|i: int| 0 <= i < records.len() && released(#[trigger] records[i], consumer, only_stale)
}

impl Registry {
    pub fn new() -> (r: Registry)
        ensures
            r.records@.len() == 0,
    {
        Registry { records: Vec::new() }
    }

    /// Where the first record with the given key stands.
    pub fn find(&self, kind: ResourceKind, name: &str, version: &Option<String>) -> (r: Option<
        usize,
    >)
        ensures
            first_with_key(
                self.records@,
                ResourceKey { kind, name: name@, version: optional_view(*version) },
                match r {
                    Some(i) => Some(i as int),
                    None => None,
                },
            ),
    {
        let mut i: usize = 0;
        while i < self.records.len()
            invariant
                i <= self.records.len(),
                forall|j: int|
                    0 <= j < i ==> (#[trigger] self.records@[j]).key() != (ResourceKey {
                        kind,
                        name: name@,
                        version: optional_view(*version),
                    }),
            decreases self.records.len() - i,
        {
            if self.records[i].is_named(kind, name, version) {
                return Some(i);
            }
            i = i + 1;
        }
        None
    }

    /// What `add` does to the records and whether it reports a change. The
    /// first record with the key gains the consumer, counts as required
    /// now where that changes it, and becomes this tool's where `owned`
    /// says so; without such a record one is appended.
    pub open spec fn after_add(
        before: Seq<InstalledResource>,
        after: Seq<InstalledResource>,
        changed: bool,
        consumer: Seq<char>,
        key: ResourceKey,
        owned: bool,
        clock: RunClock,
    ) -> bool {
        exists|index: Option<int>|
            #![trigger first_with_key(before, key, index)]
            first_with_key(before, key, index) && match index {
                Some(i) => {
                    let touched = require_changes(
                        before[i].required_by@,
                        before[i].last_required_at,
                        consumer,
                        clock,
                    );
                    &&& after.len() == before.len()
                    &&& forall|j: int| 0 <= j < before.len() && j != i ==> after[j] == before[j]
                    &&& after[i].key() == key
                    &&& after[i].owned == (before[i].owned || owned)
                    &&& after[i].required_by@ == before[i].required_by@.insert(consumer)
                    &&& ascending(after[i].required_by.order())
                    &&& after[i].last_required_at == if touched {
                        clock.now
                    } else {
                        before[i].last_required_at
                    }
                    &&& !after[i].is_stale(clock)
                    &&& changed == (touched || (owned && !before[i].owned))
                },
                None => {
                    &&& changed
                    &&& after.len() == before.len() + 1
                    &&& forall|j: int| 0 <= j < before.len() ==> after[j] == before[j]
                    &&& after[before.len() as int].key() == key
                    &&& after[before.len() as int].owned == owned
                    &&& after[before.len() as int].required_by@ == Set::<Seq<char>>::empty().insert(
                        consumer,
                    )
                    &&& after[before.len() as int].required_by.order() == seq![consumer]
                    &&& after[before.len() as int].last_required_at == clock.now
                    &&& !after[before.len() as int].is_stale(clock)
                },
            }
    }

    /// Notes that `consumer` requires the resource that `kind`, `name` and
    /// `version` name, during the run of `clock`; `owned` says that this
    /// tool installed it. Says whether anything changed.
    pub fn add(
        &mut self,
        consumer: &str,
        kind: ResourceKind,
        name: &str,
        version: Option<String>,
        owned: bool,
        clock: &RunClock,
    ) -> (changed: bool)
        ensures
            Self::after_add(
                old(self).records@,
                final(self).records@,
                changed,
                consumer@,
                ResourceKey { kind, name: name@, version: optional_view(version) },
                owned,
                *clock,
            ),
    {
        let ghost before = self.records@;
        let ghost key = ResourceKey { kind, name: name@, version: optional_view(version) };
        let found = self.find(kind, name, &version);
        let changed = match found {
            Some(i) => {
                let mut record = self.records.remove(i);
                let touched = require(
                    &mut record.required_by,
                    &mut record.last_required_at,
                    consumer,
                    clock,
                );
                let gained = owned && !record.owned;
                if gained {
                    record.owned = true;
                }
                self.records.insert(i, record);
                touched || gained
            },
            None => {
                let mut required_by = ConsumerSet::new();
                required_by.insert(consumer);
                self.records.push(
                    InstalledResource {
                        kind,
                        name: String::from_str(name),
                        version,
                        owned,
                        required_by,
                        last_required_at: clock.now,
                    },
                );
                true
            },
        };
        proof {
            let index = match found {
                Some(i) => Some(i as int),
                None => None,
            };
            assert(first_with_key(before, key, index));
        }
        changed
    }

    /// What releasing `consumer` does to the records: each record that it
    /// touches loses the consumer and is otherwise kept as it is.
    pub open spec fn after_release(
        before: Seq<InstalledResource>,
        after: Seq<InstalledResource>,
        consumer: Seq<char>,
        only_stale: Option<RunClock>,
    ) -> bool {
        &&& after.len() == before.len()
        &&& forall|i: int|
            0 <= i < before.len() ==> if released(#[trigger] before[i], consumer, only_stale) {
                before[i].with_consumers(after[i], before[i].required_by@.remove(consumer))
            } else {
                after[i] == before[i]
            }
    }

    /// Takes `consumer` out of every record that holds it; with a clock,
    /// only out of those that are stale in its run. Says whether any record
    /// changed.
    fn release_from(&mut self, consumer: &str, only_stale: Option<RunClock>) -> (changed: bool)
        ensures
            Self::after_release(old(self).records@, final(self).records@, consumer@, only_stale),
            changed == any_released(old(self).records@, consumer@, only_stale),
    {
        let ghost before = self.records@;
        let mut changed = false;
        let mut i: usize = 0;
        while i < self.records.len()
            invariant
                i <= self.records.len(),
                self.records@.len() == before.len(),
                forall|j: int| i <= j < before.len() ==> self.records@[j] == before[j],
                forall|j: int|
                    0 <= j < i ==> if released(#[trigger] before[j], consumer@, only_stale) {
                        before[j].with_consumers(
                            self.records@[j],
                            before[j].required_by@.remove(consumer@),
                        )
                    } else {
                        self.records@[j] == before[j]
                    },
                changed == exists|j: int|
                    0 <= j < i && released(#[trigger] before[j], consumer@, only_stale),
            decreases self.records.len() - i,
        {
            let touches = self.records[i].required_by.contains(consumer) && match &only_stale {
                Some(clock) => self.records[i].stale(clock),
                None => true,
            };
            if touches {
                let ghost current = self.records@;
                let mut record = self.records.remove(i);
                release(&mut record.required_by, consumer);
                self.records.insert(i, record);
                proof {
                    assert(self.records@ == current.update(i as int, record));
                    assert(released(before[i as int], consumer@, only_stale));
                }
                changed = true;
            }
            i = i + 1;
        }
        changed
    }

    /// Takes `consumer` out of every record that holds it. Says whether any
    /// record changed.
    pub fn release(&mut self, consumer: &str) -> (changed: bool)
        ensures
            Self::after_release(old(self).records@, final(self).records@, consumer@, None),
            changed == any_released(old(self).records@, consumer@, None),
    {
        self.release_from(consumer, None)
    }

    /// Takes `consumer` out of every record that holds it and that nobody
    /// required during the run of `clock`. Says whether any record changed.
    pub fn release_stale(&mut self, consumer: &str, clock: &RunClock) -> (changed: bool)
        ensures
            Self::after_release(old(self).records@, final(self).records@, consumer@, Some(*clock)),
            changed == any_released(old(self).records@, consumer@, Some(*clock)),
    {
        self.release_from(consumer, Some(*clock))
    }

    /// The last removable record among the first `below`.
    pub fn next_removable(&self, below: usize) -> (r: Option<usize>)
        ensures
            match r {
                Some(i) => i < below && i < self.records@.len()
                    && self.records@[i as int].is_removable() && forall|j: int|
                    i < j < below && j < self.records@.len() ==> !(
                    #[trigger] self.records@[j]).is_removable(),
                None => forall|j: int|
                    0 <= j < below && j < self.records@.len() ==> !(
                    #[trigger] self.records@[j]).is_removable(),
            },
    {
        let mut i: usize = if below < self.records.len() {
            below
        } else {
            self.records.len()
        };
        while i > 0
            invariant
                i <= below,
                i <= self.records@.len(),
                forall|j: int|
                    i <= j < below && j < self.records@.len() ==> !(
                    #[trigger] self.records@[j]).is_removable(),
            decreases i,
        {
            i = i - 1;
            if self.records[i].removable() {
                return Some(i);
            }
        }
        None
    }

    /// Removes the record at `index` where there is one and it is
    /// removable, and hands it out; no other record is ever removed here.
    pub fn remove(&mut self, index: usize) -> (r: Option<InstalledResource>)
        ensures
            r is Some <==> (index < old(self).records@.len()
                && old(self).records@[index as int].is_removable()),
            r is Some ==> r.unwrap() == old(self).records@[index as int] && final(self).records@
                == old(self).records@.remove(index as int),
            r is None ==> final(self).records@ == old(self).records@,
    {
        if index < self.records.len() && self.records[index].removable() {
            Some(self.records.remove(index))
        } else {
            None
        }
    }

    /// Drops the records that nobody requires and that are not this tool's
    /// to remove. Says whether any record went.
    pub fn prune(&mut self) -> (changed: bool)
        ensures
            final(self).records@ == old(self).records@.filter(
                |record: InstalledResource| !record.is_leftover(),
            ),
            changed == (final(self).records@.len() != old(self).records@.len()),
    {
        let ghost before = self.records@;
        let ghost keep = |record: InstalledResource| !record.is_leftover();
        let mut kept: Vec<InstalledResource> = Vec::new();
        let mut rest: Vec<InstalledResource> = Vec::new();
        std::mem::swap(&mut self.records, &mut rest);
        let total = rest.len();
        proof {
            assert(before.subrange(0, 0).filter(keep) == Seq::<InstalledResource>::empty()) by {
                reveal(Seq::filter);
            }
            assert(rest@ == before.subrange(0, before.len() as int));
        }
        while rest.len() > 0
            invariant
                rest@.len() <= before.len(),
                keep == |record: InstalledResource| !record.is_leftover(),
                rest@ == before.subrange(before.len() - rest@.len(), before.len() as int),
                kept@ == before.subrange(0, before.len() - rest@.len()).filter(keep),
            decreases rest.len(),
        {
            let ghost done = before.len() - rest@.len();
            let record = rest.remove(0);
            proof {
                assert(record == before[done]);
                assert(before.subrange(0, done + 1) == before.subrange(0, done).push(record));
                before.subrange(0, done).lemma_filter_push(record, keep);
                assert(rest@ == before.subrange(done + 1, before.len() as int));
            }
            let leftover = !record.owned && record.required_by.is_empty();
            if !leftover {
                kept.push(record);
            }
        }
        proof {
            assert(before.subrange(0, before.len() as int) == before);
        }
        let changed = kept.len() != total;
        self.records = kept;
        changed
    }
}

/// Filtering a sequence whose every element passes gives it back.
pub proof fn lemma_filter_keeps_all<A>(items: Seq<A>, keep: spec_fn(A) -> bool)
    requires
        forall|i: int| 0 <= i < items.len() ==> keep(#[trigger] items[i]),
    ensures
        items.filter(keep) == items,
    decreases items.len(),
{
    reveal(Seq::filter);
    if items.len() > 0 {
        lemma_filter_keeps_all(items.drop_last(), keep);
        assert(items.drop_last().push(items.last()) == items);
    }
}

/// Filtering twice is filtering once by both tests.
pub proof fn lemma_filter_twice<A>(
    items: Seq<A>,
    first: spec_fn(A) -> bool,
    second: spec_fn(A) -> bool,
    both: spec_fn(A) -> bool,
)
    requires
        forall|a: A| #[trigger] both(a) == (first(a) && second(a)),
    ensures
        items.filter(first).filter(second) == items.filter(both),
    decreases items.len(),
{
    reveal(Seq::filter);
    if items.len() > 0 {
        lemma_filter_twice(items.drop_last(), first, second, both);
        if first(items.last()) {
            items.drop_last().filter(first).lemma_filter_push(items.last(), second);
        }
    }
}

/// How the removal of a resource from the machine ended.
#[derive(Debug)]
pub enum Removal<E> {
    /// The resource was removed.
    Removed,
    /// The resource was left as it is, because it was not there or is
    /// still in use by something else; this tool gives it up all the same.
    Skipped,
    /// The removal failed.
    Failed(E),
}

/// What a sweep did.
#[derive(Debug)]
pub struct SweepReport<E> {
    /// The names of the resources that were removed from the machine, in
    /// the order in which that was done.
    pub handled: Vec<String>,
    /// The records that left the registry because they were handed to the
    /// removal and it did not fail, in the order in which they left.
    pub removed: Vec<InstalledResource>,
    /// The failure that ended the sweep early, if one did.
    pub error: Option<E>,
    /// Whether any record went.
    pub changed: bool,
}

/// The records that a sweep leaves. One that ran to its end leaves those
/// that somebody requires. One that was halted by a failed removal at
/// `halted_at` leaves every record up to that one, and of those behind it
/// the ones that were not removable.
pub open spec fn swept(before: Seq<InstalledResource>, halted_at: Option<int>) -> Seq<
    InstalledResource,
> {
    match halted_at {
        Some(k) => before.subrange(0, k + 1) + before.subrange(k + 1, before.len() as int).filter(
            |record: InstalledResource| !record.is_removable(),
        ),
        None => before.filter(
            |record: InstalledResource| record.required_by@ != Set::<Seq<char>>::empty(),
        ),
    }
}

/// Where a sweep that halted at `halted_at` started to leave records
/// alone: removable records from there on were handed to the removal.
pub open spec fn sweep_floor(halted_at: Option<int>) -> int {
    match halted_at {
        Some(k) => k + 1,
        None => 0,
    }
}

/// Whether the record at `index` is removable and stands at `floor` or
/// behind it.
pub open spec fn cleared(before: Seq<InstalledResource>, floor: int, index: int) -> bool {
    floor <= index < before.len() && 0 <= index && before[index].is_removable()
}

/// Whether `uninstall` may have answered for the record at `index` as
/// `removed` says: that it removed the resource, or that it left it.
pub open spec fn answered_as<E, F: Fn(&InstalledResource) -> Removal<E>>(
    uninstall: F,
    record: InstalledResource,
    removed: bool,
) -> bool {
    if removed {
        call_ensures(uninstall, (&record,), Removal::<E>::Removed)
    } else {
        call_ensures(uninstall, (&record,), Removal::<E>::Skipped)
    }
}

/// The names of the records between `floor` and `upto` that `removed`
/// marks, last record first.
pub open spec fn removed_names(
    before: Seq<InstalledResource>,
    removed: Seq<bool>,
    floor: int,
    upto: int,
) -> Seq<Seq<char>>
    decreases upto - floor,
{
    if floor < 0 || upto <= floor || upto > before.len() || upto > removed.len() {
        Seq::empty()
    } else if removed[floor] {
        removed_names(before, removed, floor + 1, upto).push(before[floor].name@)
    } else {
        removed_names(before, removed, floor + 1, upto)
    }
}

/// The removable records between `floor` and `upto`, last record first.
pub open spec fn cleared_records(before: Seq<InstalledResource>, floor: int, upto: int) -> Seq<
    InstalledResource,
>
    decreases upto - floor,
{
    if floor < 0 || upto <= floor || upto > before.len() {
        Seq::empty()
    } else if before[floor].is_removable() {
        cleared_records(before, floor + 1, upto).push(before[floor])
    } else {
        cleared_records(before, floor + 1, upto)
    }
}

/// Records that are not removable are not among the cleared ones.
pub proof fn lemma_kept_are_not_cleared(
    before: Seq<InstalledResource>,
    floor: int,
    middle: int,
    upto: int,
)
    requires
        0 <= floor <= middle <= upto <= before.len(),
        forall|j: int| floor <= j < middle ==> !before[j].is_removable(),
    ensures
        cleared_records(before, floor, upto) == cleared_records(before, middle, upto),
    decreases middle - floor,
{
    if floor < middle {
        lemma_kept_are_not_cleared(before, floor + 1, middle, upto);
    }
}

/// Whether a sweep of `before` that halted at `halted_at` (or ran to its
/// end) may have left `after` and given `report`, with `removed` saying
/// for each record whether the resource was removed from the machine.
/// Every removable record from the floor on was handed to `uninstall`,
/// which answered that it removed the resource or that it left it; the
/// report names those that were removed, last record first.
pub open spec fn sweep_outcome<E, F: Fn(&InstalledResource) -> Removal<E>>(
    uninstall: F,
    before: Seq<InstalledResource>,
    after: Seq<InstalledResource>,
    report: SweepReport<E>,
    halted_at: Option<int>,
    removed: Seq<bool>,
) -> bool {
    &&& after == swept(before, halted_at)
    &&& match halted_at {
        Some(k) => {
            &&& 0 <= k < before.len()
            &&& before[k].is_removable()
            &&& report.error is Some
            &&& call_ensures(uninstall, (&before[k],), Removal::Failed(report.error.unwrap()))
        },
        None => report.error is None,
    }
    &&& removed.len() == before.len()
    &&& forall|i: int|
        0 <= i < before.len() ==> if cleared(before, sweep_floor(halted_at), i) {
            answered_as(uninstall, before[i], #[trigger] removed[i])
        } else {
            !removed[i]
        }
    &&& crate::text::views(report.handled@) == removed_names(
        before,
        removed,
        sweep_floor(halted_at),
        before.len() as int,
    )
    &&& report.removed@ == cleared_records(before, sweep_floor(halted_at), before.len() as int)
}

/// Records that are not marked add no name.
pub proof fn lemma_unmarked_add_no_name(
    before: Seq<InstalledResource>,
    removed: Seq<bool>,
    floor: int,
    middle: int,
    upto: int,
)
    requires
        0 <= floor <= middle <= upto <= before.len(),
        removed.len() == before.len(),
        forall|j: int| floor <= j < middle ==> !removed[j],
    ensures
        removed_names(before, removed, floor, upto) == removed_names(before, removed, middle, upto),
    decreases middle - floor,
{
    if floor < middle {
        lemma_unmarked_add_no_name(before, removed, floor + 1, middle, upto);
    }
}

/// The names do not depend on the marks before the floor.
pub proof fn lemma_names_from_floor(
    before: Seq<InstalledResource>,
    removed: Seq<bool>,
    other: Seq<bool>,
    floor: int,
    upto: int,
)
    requires
        0 <= floor <= upto <= before.len(),
        removed.len() == before.len(),
        other.len() == before.len(),
        forall|j: int| floor <= j < upto ==> removed[j] == other[j],
    ensures
        removed_names(before, removed, floor, upto) == removed_names(before, other, floor, upto),
    decreases upto - floor,
{
    if floor < upto {
        lemma_names_from_floor(before, removed, other, floor + 1, upto);
    }
}

/// A sweep never removes a record that somebody requires: however it
/// ended, every such record is among those it leaves.
pub proof fn lemma_sweep_keeps_required(
    before: Seq<InstalledResource>,
    halted_at: Option<int>,
    index: int,
)
    requires
        0 <= index < before.len(),
        before[index].required_by@ != Set::<Seq<char>>::empty(),
        halted_at matches Some(k) ==> 0 <= k < before.len(),
    ensures
        swept(before, halted_at).contains(before[index]),
{
    match halted_at {
        Some(k) => {
            let head = before.subrange(0, k + 1);
            let tail = before.subrange(k + 1, before.len() as int);
            let stays = |record: InstalledResource| !record.is_removable();
            if index <= k {
                assert(head[index] == before[index]);
                assert((head + tail.filter(stays))[index] == before[index]);
            } else {
                assert(tail[index - k - 1] == before[index]);
                tail.lemma_filter_contains(stays, index - k - 1);
                let j = choose|j: int|
                    0 <= j < tail.filter(stays).len() && tail.filter(stays)[j] == before[index];
                assert((head + tail.filter(stays))[head.len() + j] == before[index]);
            }
        },
        None => {
            let required = |record: InstalledResource|
                record.required_by@ != Set::<Seq<char>>::empty();
            before.lemma_filter_contains(required, index);
        },
    }
}

/// A sweep that ran to its end leaves no record that nobody requires: every
/// removable record is gone, and so is the bookkeeping that was left over.
pub proof fn lemma_sweep_clears(before: Seq<InstalledResource>, record: InstalledResource)
    requires
        swept(before, None).contains(record),
    ensures
        before.contains(record),
        record.required_by@ != Set::<Seq<char>>::empty(),
        !record.is_removable(),
{
    let required = |record: InstalledResource| record.required_by@ != Set::<Seq<char>>::empty();
    let j = choose|j: int|
        0 <= j < before.filter(required).len() && before.filter(required)[j] == record;
    before.lemma_filter_pred(required, j);
    before.lemma_filter_contains_rev(required, record);
}

/// A sweep that a failed removal halted keeps the record whose removal
/// failed, in its place, for another try.
pub proof fn lemma_sweep_retains_failed(before: Seq<InstalledResource>, halted_at: int)
    requires
        0 <= halted_at < before.len(),
    ensures
        swept(before, Some(halted_at)).len() > halted_at,
        swept(before, Some(halted_at))[halted_at] == before[halted_at],
        forall|j: int| 0 <= j <= halted_at ==> swept(before, Some(halted_at))[j] == before[j],
{
}

impl Registry {
    /// Sweeps the records: from the last record to the first, each
    /// removable record is handed to `uninstall`, and goes where the
    /// removal did not fail. A failed removal ends the sweep: the record
    /// stays, and so does everything before it. After a sweep that was not
    /// halted, the records that nobody requires and that are not this
    /// tool's to remove are dropped too.
    pub fn sweep<E, F: Fn(&InstalledResource) -> Removal<E>>(&mut self, uninstall: F) -> (report:
        SweepReport<E>)
        requires
            forall|record: &InstalledResource| call_requires(uninstall, (record,)),
        ensures
            exists|halted_at: Option<int>, removed: Seq<bool>| #[trigger]
                sweep_outcome(
                    uninstall,
                    old(self).records@,
                    final(self).records@,
                    report,
                    halted_at,
                    removed,
                ),
            report.changed == (final(self).records@.len() != old(self).records@.len()),
    {
        let ghost before = self.records@;
        let ghost stays = |record: InstalledResource| !record.is_removable();
        let ghost mut removed: Seq<bool> = Seq::new(before.len(), |i: int| false);
        let total = self.records.len();
        let mut handled: Vec<String> = Vec::new();
        let mut gone: Vec<InstalledResource> = Vec::new();
        let mut cursor: usize = self.records.len();
        proof {
            assert(gone@ =~= cleared_records(before, cursor as int, before.len() as int));
            assert(before.subrange(cursor as int, before.len() as int).filter(stays) == Seq::<
                InstalledResource,
            >::empty()) by {
                reveal(Seq::filter);
            }
            assert(before.subrange(0, cursor as int) + Seq::<InstalledResource>::empty()
                == before);
            assert(crate::text::views(handled@) =~= removed_names(
                before,
                removed,
                cursor as int,
                before.len() as int,
            ));
        }
        loop
            invariant_except_break
                cursor <= before.len(),
                self.records@ == before.subrange(0, cursor as int) + before.subrange(
                    cursor as int,
                    before.len() as int,
                ).filter(stays),
            invariant
                before == old(self).records@,
                total == before.len(),
                stays == |record: InstalledResource| !record.is_removable(),
                forall|record: &InstalledResource| call_requires(uninstall, (record,)),
                removed.len() == before.len(),
                cursor <= before.len(),
                forall|i: int|
                    0 <= i < before.len() ==> if cleared(before, cursor as int, i) {
                        answered_as(uninstall, before[i], #[trigger] removed[i])
                    } else {
                        !removed[i]
                    },
                crate::text::views(handled@) == removed_names(
                    before,
                    removed,
                    cursor as int,
                    before.len() as int,
                ),
                gone@ == cleared_records(before, cursor as int, before.len() as int),
            ensures
                self.records@ == before.filter(stays),
                forall|i: int|
                    0 <= i < before.len() ==> if cleared(before, 0, i) {
                        answered_as(uninstall, before[i], #[trigger] removed[i])
                    } else {
                        !removed[i]
                    },
                crate::text::views(handled@) == removed_names(
                    before,
                    removed,
                    0,
                    before.len() as int,
                ),
                gone@ == cleared_records(before, 0, before.len() as int),
            decreases cursor,
        {
            let ghost head = before.subrange(0, cursor as int);
            let ghost floor = cursor as int;
            proof {
                assert(self.records@.len() >= cursor);
                assert forall|j: int| 0 <= j < cursor implies self.records@[j] == before[j] by {
                    assert(self.records@[j] == head[j]);
                }
            }
            match self.next_removable(cursor) {
                Some(i) => {
                    let ghost middle = before.subrange(i + 1, cursor as int);
                    proof {
                        assert forall|j: int| 0 <= j < middle.len() implies stays(
                            #[trigger] middle[j],
                        ) by {
                            assert(middle[j] == self.records@[i + 1 + j]);
                        }
                        lemma_filter_keeps_all(middle, stays);
                        assert(before.subrange(i + 1, before.len() as int) == middle
                            + before.subrange(cursor as int, before.len() as int));
                        Seq::filter_distributes_over_add(
                            middle,
                            before.subrange(cursor as int, before.len() as int),
                            stays,
                        );
                        assert(head == before.subrange(0, i + 1) + middle);
                        assert(self.records@ == before.subrange(0, i + 1) + before.subrange(
                            i + 1,
                            before.len() as int,
                        ).filter(stays));
                        assert forall|j: int| i < j < cursor implies !before[j].is_removable() by {
                            assert(stays(middle[j - i - 1]));
                        }
                        lemma_unmarked_add_no_name(
                            before,
                            removed,
                            i + 1,
                            floor,
                            before.len() as int,
                        );
                        lemma_kept_are_not_cleared(before, i + 1, floor, before.len() as int);
                    }
                    let outcome = uninstall(&self.records[i]);
                    proof {
                        assert(call_ensures(uninstall, (&before[i as int],), outcome));
                    }
                    let ghost marks = removed;
                    match outcome {
                        Removal::Failed(error) => {
                            let changed = self.records.len() != total;
                            let report = SweepReport {
                                handled,
                                removed: gone,
                                error: Some(error),
                                changed,
                            };
                            proof {
                                assert(sweep_outcome(
                                    uninstall,
                                    before,
                                    self.records@,
                                    report,
                                    Some(i as int),
                                    removed,
                                ));
                            }
                            return report;
                        },
                        Removal::Removed => {
                            let ghost names = crate::text::views(handled@);
                            handled.push(self.records[i].name.clone());
                            proof {
                                removed = removed.update(i as int, true);
                                assert(crate::text::views(handled@) =~= names.push(
                                    before[i as int].name@,
                                ));
                            }
                        },
                        Removal::Skipped => {},
                    }
                    proof {
                        lemma_names_from_floor(
                            before,
                            marks,
                            removed,
                            i + 1,
                            before.len() as int,
                        );
                        assert(cleared(before, i as int, i as int));
                    }
                    let ghost current = self.records@;
                    let record = self.records.remove(i);
                    gone.push(record);
                    proof {
                        assert(record == before[i as int]);
                        assert(before.subrange(i as int, before.len() as int) == seq![
                            before[i as int],
                        ] + before.subrange(i + 1, before.len() as int));
                        Seq::filter_distributes_over_add(
                            seq![before[i as int]],
                            before.subrange(i + 1, before.len() as int),
                            stays,
                        );
                        assert(seq![before[i as int]].filter(stays) == Seq::<
                            InstalledResource,
                        >::empty()) by {
                            let none = Seq::<InstalledResource>::empty();
                            assert(none.filter(stays) == none) by {
                                reveal(Seq::filter);
                            }
                            assert(seq![before[i as int]] == none.push(before[i as int]));
                            assert(!stays(before[i as int]));
                            none.lemma_filter_push(before[i as int], stays);
                        }
                        assert(Seq::<InstalledResource>::empty() + before.subrange(
                            i + 1,
                            before.len() as int,
                        ).filter(stays) == before.subrange(i + 1, before.len() as int).filter(
                            stays,
                        ));
                        assert(current.remove(i as int) == before.subrange(0, i as int)
                            + before.subrange(i + 1, before.len() as int).filter(stays));
                    }
                    cursor = i;
                },
                None => {
                    proof {
                        assert forall|j: int| 0 <= j < head.len() implies stays(
                            #[trigger] head[j],
                        ) by {
                            assert(head[j] == self.records@[j]);
                        }
                        lemma_filter_keeps_all(head, stays);
                        assert(before == head + before.subrange(
                            cursor as int,
                            before.len() as int,
                        ));
                        Seq::filter_distributes_over_add(
                            head,
                            before.subrange(cursor as int, before.len() as int),
                            stays,
                        );
                        assert forall|j: int| 0 <= j < cursor implies !before[j].is_removable() by {
                            assert(stays(head[j]));
                        }
                        lemma_unmarked_add_no_name(before, removed, 0, floor, before.len() as int);
                        lemma_kept_are_not_cleared(before, 0, floor, before.len() as int);
                    }
                    break ;
                },
            }
        }
        self.prune();
        let changed = self.records.len() != total;
        let report = SweepReport { handled, removed: gone, error: None, changed };
        proof {
            let required = |record: InstalledResource|
                record.required_by@ != Set::<Seq<char>>::empty();
            let kept = |record: InstalledResource| !record.is_leftover();
            lemma_filter_twice(before, stays, kept, required);
            assert(sweep_outcome(uninstall, before, self.records@, report, None, removed));
        }
        report
    }
}

} // verus!
