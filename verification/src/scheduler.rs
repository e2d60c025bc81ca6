//! The scheduler's identity sets. An item is *queued* once discovered,
//! *running* once a worker has taken it, and *finished* on completion.
//! Discovery of an identity that is anywhere in those three sets is a no-op,
//! which is what makes the render logic run at most once per identity.
//!
//! Failure policy: the scheduler itself records no errors; the driver keeps
//! the first error a worker reports as the overall result and lets
//! already-started workers run to completion (no cancellation).

use vstd::prelude::*;

use crate::workitem::WorkItem;
use crate::workitem::WorkItemId;

verus! {

/// The scheduler state as mathematics: three sets of item identities.
pub ghost struct SchedulerModel {
    pub queued: Set<WorkItemId>,
    pub running: Set<WorkItemId>,
    pub finished: Set<WorkItemId>,
}

/// One interaction with the scheduler.
pub ghost enum SchedulerOp {
    /// An identity was discovered (seeding or mid-parse discovery).
    Enqueue(WorkItemId),
    /// A worker took a queued identity to execute its render logic.
    Take(WorkItemId),
    /// A worker completed (with success or failure) the identity it took.
    Finish(WorkItemId),
}

impl SchedulerModel {
    /// The three sets never share an identity.
    pub open spec fn inv(self) -> bool {
        &&& self.queued.disjoint(self.running)
        &&& self.queued.disjoint(self.finished)
        &&& self.running.disjoint(self.finished)
    }

    /// The identity has been seen: it is queued, running or finished.
    pub open spec fn seen(self, x: WorkItemId) -> bool {
        self.queued.contains(x) || self.running.contains(x) || self.finished.contains(x)
    }

    /// How one operation changes the state. An `Enqueue` of a seen identity
    /// and a `Take` or `Finish` of an identity not in the set it moves from
    /// change nothing.
    pub open spec fn step(self, op: SchedulerOp) -> SchedulerModel {
        match op {
            SchedulerOp::Enqueue(x) => if self.seen(x) {
                self
            } else {
                SchedulerModel { queued: self.queued.insert(x), ..self }
            },
            SchedulerOp::Take(x) => if self.queued.contains(x) {
                SchedulerModel {
                    queued: self.queued.remove(x),
                    running: self.running.insert(x),
                    ..self
                }
            } else {
                self
            },
            SchedulerOp::Finish(x) => if self.running.contains(x) {
                SchedulerModel {
                    running: self.running.remove(x),
                    finished: self.finished.insert(x),
                    ..self
                }
            } else {
                self
            },
        }
    }

    /// The state after a whole sequence of operations.
    pub open spec fn run(self, ops: Seq<SchedulerOp>) -> SchedulerModel
        decreases ops.len(),
    {
        if ops.len() == 0 {
            self
        } else {
            self.step(ops[0]).run(ops.drop_first())
        }
    }

    /// How many times, along `ops`, a worker takes identity `x` — that is,
    /// how many times its render logic is executed.
    pub open spec fn starts(self, ops: Seq<SchedulerOp>, x: WorkItemId) -> nat
        decreases ops.len(),
    {
        if ops.len() == 0 {
            0
        } else {
            let hit: nat = if ops[0] == SchedulerOp::Take(x) && self.queued.contains(x) {
                1
            } else {
                0
            };
            hit + self.step(ops[0]).starts(ops.drop_first(), x)
        }
    }
}

/// The state after enqueueing a whole list of discovered identities.
pub open spec fn enqueue_all(m: SchedulerModel, items: Seq<WorkItemId>) -> SchedulerModel
    decreases items.len(),
{
    if items.len() == 0 {
        m
    } else {
        enqueue_all(m.step(SchedulerOp::Enqueue(items[0])), items.drop_first())
    }
}

/// Enqueueing a one-item list is one enqueue step.
pub proof fn lemma_enqueue_all_singleton(m: SchedulerModel, x: WorkItemId)
    ensures
        enqueue_all(m, seq![x]) == m.step(SchedulerOp::Enqueue(x)),
{
    let t = seq![x].drop_first();
    assert(t =~= Seq::<WorkItemId>::empty());
    assert(enqueue_all(m.step(SchedulerOp::Enqueue(x)), t) == m.step(SchedulerOp::Enqueue(x)));
    assert(seq![x][0] == x);
    assert(enqueue_all(m, seq![x]) == enqueue_all(m.step(SchedulerOp::Enqueue(x)), t));
}

/// Enqueueing a concatenation is enqueueing the parts in turn.
pub proof fn lemma_enqueue_all_concat(m: SchedulerModel, a: Seq<WorkItemId>, b: Seq<WorkItemId>)
    ensures
        enqueue_all(m, a + b) == enqueue_all(enqueue_all(m, a), b),
    decreases a.len(),
{
    if a.len() == 0 {
        assert(a + b =~= b);
    } else {
        assert((a + b)[0] == a[0]);
        assert((a + b).drop_first() =~= a.drop_first() + b);
        lemma_enqueue_all_concat(m.step(SchedulerOp::Enqueue(a[0])), a.drop_first(), b);
    }
}

/// A step preserves the disjointness invariant.
pub proof fn lemma_step_preserves_inv(m: SchedulerModel, op: SchedulerOp)
    requires
        m.inv(),
    ensures
        m.step(op).inv(),
{
    match op {
        SchedulerOp::Enqueue(x) => {
            assert(m.step(op).inv());
        },
        SchedulerOp::Take(x) => {
            assert(m.step(op).inv());
        },
        SchedulerOp::Finish(x) => {
            assert(m.step(op).inv());
        },
    }
}

/// A whole run preserves the invariant.
pub proof fn lemma_run_preserves_inv(m: SchedulerModel, ops: Seq<SchedulerOp>)
    requires
        m.inv(),
    ensures
        m.run(ops).inv(),
    decreases ops.len(),
{
    if ops.len() > 0 {
        lemma_step_preserves_inv(m, ops[0]);
        lemma_run_preserves_inv(m.step(ops[0]), ops.drop_first());
    }
}

/// Once an identity has been taken (it is running or finished), no step puts
/// it back in the queue: it stays running-or-finished.
pub proof fn lemma_taken_stays_taken(m: SchedulerModel, op: SchedulerOp, x: WorkItemId)
    requires
        m.running.contains(x) || m.finished.contains(x),
    ensures
        m.step(op).running.contains(x) || m.step(op).finished.contains(x),
{
}

/// LAW: for every work-item identity, the render logic executes at most once
/// per run, however often and however concurrently the identity is discovered.
/// Starting from a state whose sets are disjoint, any sequence of scheduler
/// operations takes `x` at most once — and not at all if `x` was already
/// taken.
pub proof fn lemma_render_at_most_once(m: SchedulerModel, ops: Seq<SchedulerOp>, x: WorkItemId)
    requires
        m.inv(),
    ensures
        m.starts(ops, x) <= if m.running.contains(x) || m.finished.contains(x) {
            0nat
        } else {
            1nat
        },
    decreases ops.len(),
{
    if ops.len() == 0 {
    } else {
        let m2 = m.step(ops[0]);
        lemma_step_preserves_inv(m, ops[0]);
        lemma_render_at_most_once(m2, ops.drop_first(), x);
        if m.running.contains(x) || m.finished.contains(x) {
            lemma_taken_stays_taken(m, ops[0], x);
        }
    }
}

/// LAW: discovering an identity that is already anywhere in the scheduler
/// changes nothing — so a reference that appears twice (a font URL named
/// twice by one stylesheet, a page linked from several documents) is
/// enqueued exactly once.
pub proof fn lemma_duplicate_discovery_is_noop(m: SchedulerModel, x: WorkItemId)
    ensures
        m.step(SchedulerOp::Enqueue(x)).step(SchedulerOp::Enqueue(x)) == m.step(
            SchedulerOp::Enqueue(x),
        ),
{
}

/// The set of identities seen only grows: a later state remembers everything
/// an earlier state had seen.
pub proof fn lemma_seen_monotone(m: SchedulerModel, op: SchedulerOp, x: WorkItemId)
    requires
        m.seen(x),
    ensures
        m.step(op).seen(x),
{
}

/// The identity of the `i`th element of `v`.
pub open spec fn id_at(v: Seq<WorkItem>, i: int) -> WorkItemId {
    v[i]@
}

/// Some element of `v` has identity `x`.
pub open spec fn has_id(v: Seq<WorkItem>, x: WorkItemId) -> bool {
    exists|i: int| 0 <= i < v.len() && id_at(v, i) == x
}

/// The identities of the elements of `v`, as a set.
pub open spec fn ids_of(v: Seq<WorkItem>) -> Set<WorkItemId> {
    Set::new(|x: WorkItemId| has_id(v, x))
}

/// No two elements of `v` share an identity.
pub open spec fn distinct_ids(v: Seq<WorkItem>) -> bool {
    forall|i: int, j: int| 0 <= i < j < v.len() ==> id_at(v, i) != id_at(v, j)
}

/// The scheduler: owns the queued / running / finished identity sets.
/// Check-and-insert is a single operation, so discovery can never race a
/// duplicate into the queue.
pub struct Scheduler {
    queued: Vec<WorkItem>,
    running: Vec<WorkItem>,
    finished: Vec<WorkItem>,
}

impl Scheduler {
    /// The mathematical state this scheduler is in.
    pub closed spec fn model(&self) -> SchedulerModel {
        SchedulerModel {
            queued: ids_of(self.queued@),
            running: ids_of(self.running@),
            finished: ids_of(self.finished@),
        }
    }

    /// Well-formed: no duplicate identities within or across the sets.
    pub closed spec fn inv(&self) -> bool {
        &&& distinct_ids(self.queued@)
        &&& distinct_ids(self.running@)
        &&& distinct_ids(self.finished@)
        &&& self.model().inv()
    }

    /// An identity that has been seen at all.
    pub open spec fn seen(&self, x: WorkItemId) -> bool {
        self.model().seen(x)
    }

    /// A fresh scheduler: nothing seen.
    pub fn new() -> (s: Scheduler)
        ensures
            s.inv(),
            forall|x: WorkItemId| !s.seen(x),
            s.model().queued.is_empty(),
            s.model().running.is_empty(),
            s.model().finished.is_empty(),
    {
        let s = Scheduler { queued: Vec::new(), running: Vec::new(), finished: Vec::new() };
        proof {
            assert(forall|x: WorkItemId| !s.seen(x));
            assert(s.model().queued =~= Set::<WorkItemId>::empty());
            assert(s.model().running =~= Set::<WorkItemId>::empty());
            assert(s.model().finished =~= Set::<WorkItemId>::empty());
        }
        s
    }

    /// True exactly when some element of `v` has `item`'s identity.
    fn vec_has(v: &Vec<WorkItem>, item: &WorkItem) -> (r: bool)
        ensures
            r == has_id(v@, item@),
    {
        let mut i: usize = 0;
        while i < v.len()
            invariant
                i <= v@.len(),
                forall|k: int| 0 <= k < i ==> id_at(v@, k) != item@,
            decreases v@.len() - i,
        {
            if v[i] == *item {
                proof {
                    assert(id_at(v@, i as int) == item@);
                }
                return true;
            }
            i = i + 1;
        }
        false
    }

    /// Atomic check-and-insert: enqueues `item` unless its identity was
    /// already queued, running or finished; reports whether it enqueued.
    pub fn enqueue_if_new(&mut self, item: WorkItem) -> (added: bool)
        requires
            old(self).inv(),
        ensures
            final(self).inv(),
            added == !old(self).seen(item@),
            final(self).model() == old(self).model().step(SchedulerOp::Enqueue(item@)),
            final(self).seen(item@),
            !added ==> *final(self) == *old(self),
    {
        let in_queued = Self::vec_has(&self.queued, &item);
        let in_running = Self::vec_has(&self.running, &item);
        let in_finished = Self::vec_has(&self.finished, &item);
        if in_queued || in_running || in_finished {
            proof {
                assert(final(self).model() =~= old(self).model());
            }
            return false;
        }
        let ghost x = item@;
        self.queued.push(item);
        proof {
            assert(ids_of(self.queued@) =~= ids_of(old(self).queued@).insert(x)) by {
                assert forall|y: WorkItemId| ids_of(self.queued@).contains(y) implies ids_of(
                    old(self).queued@,
                ).insert(x).contains(y) by {
                    let i = choose|i: int|
                        0 <= i < self.queued@.len() && id_at(self.queued@, i) == y;
                    if i < old(self).queued@.len() {
                        assert(id_at(old(self).queued@, i) == y);
                    }
                }
                assert forall|y: WorkItemId|
                    ids_of(old(self).queued@).insert(x).contains(y) implies ids_of(
                    self.queued@,
                ).contains(y) by {
                    if y == x {
                        assert(id_at(self.queued@, self.queued@.len() - 1) == y);
                    } else {
                        let i = choose|i: int|
                            0 <= i < old(self).queued@.len() && id_at(old(self).queued@, i) == y;
                        assert(id_at(self.queued@, i) == y);
                    }
                }
            }
            assert(distinct_ids(self.queued@)) by {
                assert forall|i: int, j: int|
                    0 <= i < j < self.queued@.len() implies id_at(self.queued@, i) != id_at(
                    self.queued@,
                    j,
                ) by {
                    if j < self.queued@.len() - 1 {
                        assert(id_at(old(self).queued@, i) != id_at(old(self).queued@, j));
                    } else {
                        assert(id_at(self.queued@, i) == id_at(old(self).queued@, i));
                        assert(!has_id(old(self).queued@, x));
                    }
                }
            }
        }
        true
    }

    /// Takes one queued item for execution, moving it to the running set.
    pub fn take_next(&mut self) -> (r: Option<WorkItem>)
        requires
            old(self).inv(),
        ensures
            final(self).inv(),
            match r {
                Some(item) => old(self).model().queued.contains(item@) && final(self).model()
                    == old(self).model().step(SchedulerOp::Take(item@)),
                None => *final(self) == *old(self) && old(self).model().queued.is_empty(),
            },
    {
        if self.queued.len() == 0 {
            proof {
                assert(self.model().queued =~= Set::<WorkItemId>::empty());
            }
            return None;
        }
        let popped = self.queued.pop();
        match popped {
            None => {
                proof {
                    assert(false);
                }
                None
            },
            Some(item) => {
                let ghost x = item@;
                proof {
                    assert(id_at(old(self).queued@, old(self).queued@.len() - 1) == x);
                    assert(old(self).model().queued.contains(x));
                }
                let copy = item.clone();
                self.running.push(copy);
                proof {
                    assert(self.running@.subrange(0, old(self).running@.len() as int)
                        =~= old(self).running@);
                    lemma_push_ids(old(self).running@, self.running@, x);
                    assert(self.queued@ =~= old(self).queued@.subrange(
                        0,
                        old(self).queued@.len() - 1,
                    ));
                    lemma_pop_ids(old(self).queued@, self.queued@, x);
                    assert(distinct_ids(self.running@)) by {
                        assert forall|i: int, j: int|
                            0 <= i < j < self.running@.len() implies id_at(self.running@, i)
                            != id_at(self.running@, j) by {
                            if j < self.running@.len() - 1 {
                                assert(id_at(old(self).running@, i) != id_at(
                                    old(self).running@,
                                    j,
                                ));
                            } else {
                                assert(id_at(self.running@, i) == id_at(old(self).running@, i));
                                assert(!old(self).model().running.contains(x));
                            }
                        }
                    }
                    assert(distinct_ids(self.queued@)) by {
                        assert forall|i: int, j: int|
                            0 <= i < j < self.queued@.len() implies id_at(self.queued@, i)
                            != id_at(self.queued@, j) by {
                            assert(id_at(old(self).queued@, i) != id_at(old(self).queued@, j));
                        }
                    }
                    assert(final(self).model() == old(self).model().step(SchedulerOp::Take(x)));
                }
                Some(item)
            },
        }
    }

    /// Marks a running item finished. Completion is recorded whether the
    /// worker succeeded or failed.
    pub fn finish(&mut self, item: &WorkItem)
        requires
            old(self).inv(),
            old(self).model().running.contains(item@),
        ensures
            final(self).inv(),
            final(self).model() == old(self).model().step(SchedulerOp::Finish(item@)),
    {
        let ghost x = item@;
        let mut i: usize = 0;
        while i < self.running.len()
            invariant
                *self == *old(self),
                old(self).inv(),
                old(self).model().running.contains(x),
                i <= self.running@.len(),
                forall|k: int| 0 <= k < i ==> id_at(self.running@, k) != x,
                has_id(self.running@, x),
                x == item@,
            decreases self.running@.len() - i,
        {
            if self.running[i] == *item {
                proof {
                    assert(id_at(self.running@, i as int) == x);
                }
                let moved = self.running.remove(i);
                self.finished.push(moved);
                proof {
                    lemma_remove_ids(old(self).running@, self.running@, i as int, x);
                    assert(self.finished@.subrange(0, old(self).finished@.len() as int)
                        =~= old(self).finished@);
                    lemma_push_ids(old(self).finished@, self.finished@, x);
                    assert(distinct_ids(self.finished@)) by {
                        assert forall|a: int, b: int|
                            0 <= a < b < self.finished@.len() implies id_at(self.finished@, a)
                            != id_at(self.finished@, b) by {
                            if b < self.finished@.len() - 1 {
                                assert(id_at(old(self).finished@, a) != id_at(
                                    old(self).finished@,
                                    b,
                                ));
                            } else {
                                assert(id_at(self.finished@, a) == id_at(old(self).finished@, a));
                                assert(!old(self).model().finished.contains(x));
                            }
                        }
                    }
                    assert(final(self).model() == old(self).model().step(
                        SchedulerOp::Finish(x),
                    ));
                }
                return ;
            }
            i = i + 1;
        }
        proof {
            let w = choose|k: int| 0 <= k < self.running@.len() && id_at(self.running@, k) == x;
            assert(false);
        }
    }

    /// Whether anything is still queued.
    pub fn has_queued(&self) -> (r: bool)
        ensures
            r == !self.model().queued.is_empty(),
    {
        let n = self.queued.len();
        proof {
            if self.queued@.len() == 0 {
                assert(self.model().queued =~= Set::<WorkItemId>::empty());
            } else {
                assert(has_id(self.queued@, id_at(self.queued@, 0)));
                assert(self.model().queued.contains(id_at(self.queued@, 0)));
            }
        }
        n > 0
    }
}

/// Pushing an element appends its identity and keeps the others.
proof fn lemma_push_ids(before: Seq<WorkItem>, after: Seq<WorkItem>, x: WorkItemId)
    requires
        after.len() == before.len() + 1,
        after.subrange(0, before.len() as int) == before,
        id_at(after, before.len() as int) == x,
    ensures
        ids_of(after) =~= ids_of(before).insert(x),
{
    assert forall|y: WorkItemId| ids_of(after).contains(y) implies ids_of(before).insert(
        x,
    ).contains(y) by {
        let i = choose|i: int| 0 <= i < after.len() && id_at(after, i) == y;
        if i < before.len() {
            assert(before[i] == after.subrange(0, before.len() as int)[i]);
            assert(id_at(before, i) == y);
        }
    }
    assert forall|y: WorkItemId| ids_of(before).insert(x).contains(y) implies ids_of(
        after,
    ).contains(y) by {
        if y == x {
            assert(id_at(after, before.len() as int) == y);
        } else {
            let i = choose|i: int| 0 <= i < before.len() && id_at(before, i) == y;
            assert(after.subrange(0, before.len() as int)[i] == before[i]);
            assert(id_at(after, i) == y);
        }
    }
}

/// Popping the last element removes exactly its identity, provided
/// identities are distinct.
proof fn lemma_pop_ids(before: Seq<WorkItem>, after: Seq<WorkItem>, x: WorkItemId)
    requires
        before.len() > 0,
        after == before.subrange(0, before.len() - 1),
        id_at(before, before.len() - 1) == x,
        distinct_ids(before),
    ensures
        ids_of(after) =~= ids_of(before).remove(x),
{
    assert forall|y: WorkItemId| ids_of(after).contains(y) implies ids_of(before).remove(
        x,
    ).contains(y) by {
        let i = choose|i: int| 0 <= i < after.len() && id_at(after, i) == y;
        assert(after[i] == before[i]);
        assert(id_at(before, i) == y);
        assert(id_at(before, before.len() - 1) != id_at(before, i));
    }
    assert forall|y: WorkItemId| ids_of(before).remove(x).contains(y) implies ids_of(
        after,
    ).contains(y) by {
        let i = choose|i: int| 0 <= i < before.len() && id_at(before, i) == y;
        assert(i < before.len() - 1);
        assert(after[i] == before[i]);
        assert(id_at(after, i) == y);
    }
}

/// Removing the element at `i` removes exactly its identity, provided
/// identities are distinct.
proof fn lemma_remove_ids(before: Seq<WorkItem>, after: Seq<WorkItem>, i: int, x: WorkItemId)
    requires
        0 <= i < before.len(),
        after == before.remove(i),
        id_at(before, i) == x,
        distinct_ids(before),
    ensures
        ids_of(after) =~= ids_of(before).remove(x),
        distinct_ids(after),
{
    assert forall|y: WorkItemId| ids_of(after).contains(y) implies ids_of(before).remove(
        x,
    ).contains(y) by {
        let k = choose|k: int| 0 <= k < after.len() && id_at(after, k) == y;
        if k < i {
            assert(id_at(before, k) == y);
            assert(id_at(before, i) != id_at(before, k));
        } else {
            assert(id_at(before, k + 1) == y);
            assert(id_at(before, i) != id_at(before, k + 1));
        }
    }
    assert forall|y: WorkItemId| ids_of(before).remove(x).contains(y) implies ids_of(
        after,
    ).contains(y) by {
        let k = choose|k: int| 0 <= k < before.len() && id_at(before, k) == y;
        assert(k != i);
        if k < i {
            assert(id_at(after, k) == y);
        } else {
            assert(id_at(after, k - 1) == y);
        }
    }
    assert forall|a: int, b: int| 0 <= a < b < after.len() implies id_at(after, a) != id_at(
        after,
        b,
    ) by {
        let a0 = if a < i {
            a
        } else {
            a + 1
        };
        let b0 = if b < i {
            b
        } else {
            b + 1
        };
        assert(id_at(after, a) == id_at(before, a0));
        assert(id_at(after, b) == id_at(before, b0));
    }
}

} // verus!
