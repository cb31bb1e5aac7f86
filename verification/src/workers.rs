//! The table of managed workers, kept in ascending order of worker identifiers.
use vstd::prelude::*;
use crate::config::TimeSpan;

verus! {

/// What the pool knows about one managed worker.
#[derive(Debug, Clone, Copy, PartialEq, Eq)]
pub struct WorkerSlot {
    pub process_id: Option<u32>,
    pub started_at: TimeSpan,
    pub state_since: TimeSpan,
    pub idle_since: Option<TimeSpan>,
    pub current_task_id: Option<u64>,
    pub handled_task_count: u64,
    pub last_task_duration: Option<TimeSpan>,
}

/// Whether a worker is free to take a task.
pub open spec fn is_idle(slot: WorkerSlot) -> bool {
    slot.idle_since is Some
}

/// `id` is the smallest identifier of an idle worker.
pub open spec fn is_lowest_idle(workers: Map<u64, WorkerSlot>, id: u64) -> bool {
    &&& workers.contains_key(id)
    &&& is_idle(workers[id])
    &&& forall|other: u64| #[trigger]
        workers.contains_key(other) && is_idle(workers[other]) ==> id <= other
}

/// The idle worker with the smallest identifier.
pub open spec fn lowest_idle(workers: Map<u64, WorkerSlot>) -> Option<u64> {
    if exists|id: u64| is_lowest_idle(workers, id) {
        Some(choose|id: u64| is_lowest_idle(workers, id))
    } else {
        None
    }
}

/// There is a lowest idle worker as soon as one worker is idle.
pub proof fn an_idle_worker_is_found(workers: Map<u64, WorkerSlot>, id: u64)
    requires
        workers.contains_key(id),
        is_idle(workers[id]),
    ensures
        lowest_idle(workers) is Some,
        is_lowest_idle(workers, lowest_idle(workers)->0),
    decreases id,
{
    if !is_lowest_idle(workers, id) {
        let smaller = choose|other: u64|
            #[trigger] workers.contains_key(other) && is_idle(workers[other]) && other < id;
        an_idle_worker_is_found(workers, smaller);
    }
}

/// The identifiers of a table, smallest first.
pub open spec fn lists(ids: Seq<u64>, workers: Map<u64, WorkerSlot>) -> bool {
    &&& forall|i: int, j: int| 0 <= i < j < ids.len() ==> ids[i] < ids[j]
    &&& forall|id: u64| ids.contains(id) <==> #[trigger] workers.contains_key(id)
}

spec fn ascending(s: Seq<(u64, WorkerSlot)>) -> bool {
    forall|i: int, j: int| 0 <= i < j < s.len() ==> s[i].0 < s[j].0
}

spec fn row(s: Seq<(u64, WorkerSlot)>, id: u64, i: int) -> bool {
    0 <= i < s.len() && s[i].0 == id
}

spec fn as_map(s: Seq<(u64, WorkerSlot)>) -> Map<u64, WorkerSlot> {
    Map::new(|id: u64| exists|i: int| row(s, id, i), |id: u64| s[choose|i: int| row(s, id, i)].1)
}

proof fn lemma_row(s: Seq<(u64, WorkerSlot)>, i: int)
    requires
        ascending(s),
        0 <= i < s.len(),
    ensures
        as_map(s).contains_key(s[i].0),
        as_map(s)[s[i].0] == s[i].1,
{
    assert(row(s, s[i].0, i));
    let j = choose|j: int| row(s, s[i].0, j);
    assert(row(s, s[i].0, j));
}

proof fn lemma_key(s: Seq<(u64, WorkerSlot)>, id: u64) -> (i: int)
    requires
        ascending(s),
        as_map(s).contains_key(id),
    ensures
        0 <= i < s.len(),
        s[i].0 == id,
        as_map(s)[id] == s[i].1,
{
    let i = choose|i: int| row(s, id, i);
    assert(row(s, id, i));
    i
}

proof fn lemma_size(s: Seq<(u64, WorkerSlot)>)
    requires
        ascending(s),
    ensures
        as_map(s).dom().finite(),
        as_map(s).len() == s.len(),
{
    let ids = Seq::new(s.len(), |i: int| s[i].0);
    assert(ids.no_duplicates());
    ids.unique_seq_to_set();
    assert forall|id: u64| #[trigger] ids.to_set().contains(id) <==> as_map(s).dom().contains(
        id,
    ) by {
        if ids.contains(id) {
            let i = choose|i: int| 0 <= i < ids.len() && ids[i] == id;
            assert(row(s, id, i));
        }
        if as_map(s).contains_key(id) {
            let i = lemma_key(s, id);
            assert(ids[i] == id);
        }
    }
    assert(ids.to_set() =~= as_map(s).dom());
}

/// The managed workers by identifier.
pub struct WorkerTable {
    entries: Vec<(u64, WorkerSlot)>,
}

impl View for WorkerTable {
    type V = Map<u64, WorkerSlot>;

    closed spec fn view(&self) -> Map<u64, WorkerSlot> {
        as_map(self.entries@)
    }
}

impl WorkerTable {
    /// The entries stand in strictly ascending order.
    pub closed spec fn well_formed(&self) -> bool {
        ascending(self.entries@)
    }

    pub fn new() -> (table: WorkerTable)
        ensures
            table.well_formed(),
            table@ == Map::<u64, WorkerSlot>::empty(),
    {
        let table = WorkerTable { entries: Vec::new() };
        assert(table@ =~= Map::<u64, WorkerSlot>::empty());
        table
    }

    /// How many workers there are.
    pub fn len(&self) -> (n: usize)
        requires
            self.well_formed(),
        ensures
            n == self@.len(),
            self@.dom().finite(),
    {
        proof {
            lemma_size(self.entries@);
        }
        self.entries.len()
    }

    /// Where `id` stands, or would have to stand.
    fn position(&self, id: u64) -> (at: usize)
        requires
            self.well_formed(),
        ensures
            at <= self.entries@.len(),
            forall|i: int| 0 <= i < at ==> (#[trigger] self.entries@[i]).0 < id,
            forall|i: int| at <= i < self.entries@.len() ==> id <= (#[trigger] self.entries@[i]).0,
    {
        let mut at: usize = 0;
        while at < self.entries.len() && self.entries[at].0 < id
            invariant
                self.well_formed(),
                at <= self.entries@.len(),
                forall|i: int| 0 <= i < at ==> (#[trigger] self.entries@[i]).0 < id,
            decreases self.entries.len() - at,
        {
            at = at + 1;
        }
        at
    }

    /// The worker `id`, where it is managed.
    pub fn get(&self, id: u64) -> (slot: Option<WorkerSlot>)
        requires
            self.well_formed(),
        ensures
            slot == (if self@.contains_key(id) {
                Some(self@[id])
            } else {
                None
            }),
    {
        let at: usize = self.position(id);
        proof {
            if self@.contains_key(id) {
                let i = lemma_key(self.entries@, id);
                assert(!(self.entries@[i].0 < id));
                assert(i >= at);
                assert(self.entries@[at as int].0 >= id);
                assert(i == at);
            }
        }
        if at < self.entries.len() && self.entries[at].0 == id {
            proof {
                lemma_row(self.entries@, at as int);
            }
            Some(self.entries[at].1)
        } else {
            None
        }
    }

    /// Puts `slot` in under `id`, in place of what stood there.
    pub fn put(&mut self, id: u64, slot: WorkerSlot)
        requires
            old(self).well_formed(),
        ensures
            final(self).well_formed(),
            final(self)@ == old(self)@.insert(id, slot),
    {
        let at: usize = self.position(id);
        let ghost before = self.entries@;
        if at < self.entries.len() && self.entries[at].0 == id {
            self.entries.set(at, (id, slot));
            assert(ascending(self.entries@));
        } else {
            self.entries.insert(at, (id, slot));
            assert forall|i: int, j: int| 0 <= i < j < self.entries@.len() implies self.entries@[i].0
                < self.entries@[j].0 by {
                let x = if i < at { before[i].0 } else if i == at { id } else { before[i - 1].0 };
                let y = if j < at { before[j].0 } else if j == at { id } else { before[j - 1].0 };
                assert(self.entries@[i].0 == x);
                assert(self.entries@[j].0 == y);
            }
        }
        proof {
            let after = self.entries@;
            assert(after[at as int] == (id, slot));
            assert forall|key: u64| #[trigger] as_map(after).contains_key(key) == as_map(
                before,
            ).insert(id, slot).contains_key(key) by {
                if as_map(after).contains_key(key) && key != id {
                    let i = lemma_key(after, key);
                    let j = if after.len() == before.len() || i < at { i } else { i - 1 };
                    assert(row(before, key, j));
                }
                if as_map(before).contains_key(key) {
                    let j = lemma_key(before, key);
                    let i = if after.len() == before.len() || j < at { j } else { j + 1 };
                    assert(row(after, key, i));
                }
                if key == id {
                    lemma_row(after, at as int);
                }
            }
            assert forall|key: u64| #[trigger] as_map(after).contains_key(key) implies as_map(
                after,
            )[key] == as_map(before).insert(id, slot)[key] by {
                if key == id {
                    lemma_row(after, at as int);
                } else {
                    let i = lemma_key(after, key);
                    let j = if after.len() == before.len() || i < at { i } else { i - 1 };
                    lemma_row(before, j);
                }
            }
            assert(as_map(after) =~= as_map(before).insert(id, slot));
        }
    }

    /// Takes the worker `id` out, where it is managed.
    pub fn remove(&mut self, id: u64) -> (found: bool)
        requires
            old(self).well_formed(),
        ensures
            final(self).well_formed(),
            final(self)@ == old(self)@.remove(id),
            found == old(self)@.contains_key(id),
    {
        let at: usize = self.position(id);
        let ghost before = self.entries@;
        if at < self.entries.len() && self.entries[at].0 == id {
            self.entries.remove(at);
            proof {
                let after = self.entries@;
                lemma_row(before, at as int);
                assert forall|i: int, j: int| 0 <= i < j < after.len() implies after[i].0
                    < after[j].0 by {
                    let x = if i < at { i } else { i + 1 };
                    let y = if j < at { j } else { j + 1 };
                    assert(after[i] == before[x] && after[j] == before[y]);
                }
                assert forall|key: u64| #[trigger] as_map(after).contains_key(key) == as_map(
                    before,
                ).remove(id).contains_key(key) by {
                    if as_map(after).contains_key(key) {
                        let i = lemma_key(after, key);
                        let x = if i < at { i } else { i + 1 };
                        assert(after[i] == before[x]);
                        assert(row(before, key, x));
                        assert(key != id);
                    }
                    if as_map(before).contains_key(key) && key != id {
                        let x = lemma_key(before, key);
                        let i = if x < at { x } else { x - 1 };
                        assert(after[i] == before[x]);
                        assert(row(after, key, i));
                    }
                }
                assert forall|key: u64| #[trigger] as_map(after).contains_key(key) implies as_map(
                    after,
                )[key] == as_map(before).remove(id)[key] by {
                    let i = lemma_key(after, key);
                    let x = if i < at { i } else { i + 1 };
                    assert(after[i] == before[x]);
                    lemma_row(before, x);
                }
                assert(as_map(after) =~= as_map(before).remove(id));
            }
            true
        } else {
            proof {
                if as_map(before).contains_key(id) {
                    let i = lemma_key(before, id);
                    assert(i >= at);
                    assert(before[at as int].0 >= id);
                }
                assert(as_map(before).remove(id) =~= as_map(before));
            }
            false
        }
    }

    /// The idle worker with the smallest identifier.
    pub fn first_idle(&self) -> (found: Option<u64>)
        requires
            self.well_formed(),
        ensures
            found == lowest_idle(self@),
    {
        let ghost s = self.entries@;
        let mut i: usize = 0;
        while i < self.entries.len()
            invariant
                self.well_formed(),
                s == self.entries@,
                i <= s.len(),
                forall|j: int| 0 <= j < i ==> !is_idle((#[trigger] s[j]).1),
            decreases s.len() - i,
        {
            if self.entries[i].1.idle_since.is_some() {
                let id: u64 = self.entries[i].0;
                proof {
                    lemma_row(s, i as int);
                    assert forall|other: u64| #[trigger]
                        self@.contains_key(other) && is_idle(self@[other]) implies id <= other by {
                        let j = lemma_key(s, other);
                        assert(j >= i);
                    }
                    assert(is_lowest_idle(self@, id));
                    an_idle_worker_is_found(self@, id);
                }
                return Some(id);
            }
            i = i + 1;
        }
        proof {
            if exists|id: u64| is_lowest_idle(self@, id) {
                let id = choose|id: u64| is_lowest_idle(self@, id);
                let j = lemma_key(s, id);
                assert(!is_idle(s[j].1));
            }
        }
        None
    }

    /// All identifiers, smallest first.
    pub fn ids(&self) -> (ids: Vec<u64>)
        requires
            self.well_formed(),
        ensures
            lists(ids@, self@),
            ids@.len() == self@.len(),
            self@.dom().finite(),
    {
        let ghost s = self.entries@;
        let mut ids: Vec<u64> = Vec::new();
        let mut i: usize = 0;
        while i < self.entries.len()
            invariant
                self.well_formed(),
                s == self.entries@,
                i <= s.len(),
                ids@.len() == i,
                forall|j: int| 0 <= j < i ==> ids@[j] == (#[trigger] s[j]).0,
            decreases s.len() - i,
        {
            ids.push(self.entries[i].0);
            i = i + 1;
        }
        proof {
            lemma_size(s);
            assert forall|id: u64| ids@.contains(id) <==> #[trigger] self@.contains_key(id) by {
                if ids@.contains(id) {
                    let j = choose|j: int| 0 <= j < ids@.len() && ids@[j] == id;
                    assert(s[j].0 == id);
                    lemma_row(s, j);
                }
                if self@.contains_key(id) {
                    let j = lemma_key(s, id);
                    assert(ids@[j] == id);
                }
            }
            assert forall|a: int, b: int| 0 <= a < b < ids@.len() implies ids@[a] < ids@[b] by {
                assert(s[a].0 < s[b].0);
            }
        }
        ids
    }

    /// Forgets all workers.
    pub fn clear(&mut self)
        ensures
            final(self).well_formed(),
            final(self)@ == Map::<u64, WorkerSlot>::empty(),
    {
        self.entries.clear();
        assert(self@ =~= Map::<u64, WorkerSlot>::empty());
    }
}

} // verus!
