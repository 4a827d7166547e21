//! The concurrent dispatcher: drives a plan of batches to completion with a
//! bounded pool of in-flight submissions, marks records accepted in the store
//! as confirmations arrive, aggregates failures without stopping unrelated
//! work, and observes cooperative cancellation once per completion.
//!
//! The dispatcher only decides; the host program performs the remote calls.
//! It hands out batches to submit ([`DispatchStep::Refill`] and
//! [`Dispatcher::start`]), is told each outcome ([`Dispatcher::on_completion`])
//! and finally reports ([`Dispatcher::finish`]). The host must flush the store
//! at every refill point, on cancellation, and at the end of the run.

use vstd::prelude::*;

use crate::aggregate::ErrorAggregator;
use crate::cache::{Cache, CacheItem};
use crate::deploy::{
    batch_indices, lemma_batch_indices_elems, lemma_plan_covers_unaccepted,
    lemma_plan_indices_decompose, lemma_unaccepted_contains, plan_indices, plan_view, spec_plan,
    unaccepted_indices,
};
use crate::magic_hat::ConfigLine;

verus! {

/// Outcome of one batch that has been handed out for submission.
#[derive(Debug, Clone, Copy, PartialEq, Eq, Structural)]
pub enum BatchOutcome {
    /// Handed to the host program; no result yet.
    Pending,
    /// Confirmed accepted; its records are marked in the store.
    Accepted,
    /// Rejected; its error message went to the aggregator.
    Failed,
}

/// How many entries of `s` equal `o`.
pub open spec fn count_outcome(s: Seq<BatchOutcome>, o: BatchOutcome) -> int
    decreases s.len(),
{
    if s.len() == 0 {
        0
    } else {
        count_outcome(s.drop_last(), o) + if s.last() == o {
            1int
        } else {
            0int
        }
    }
}

proof fn lemma_count_push(s: Seq<BatchOutcome>, v: BatchOutcome, o: BatchOutcome)
    ensures
        count_outcome(s.push(v), o) == count_outcome(s, o) + if v == o {
            1int
        } else {
            0int
        },
{
    assert(s.push(v).drop_last() =~= s);
    assert(s.push(v).last() == v);
}

proof fn lemma_count_update(s: Seq<BatchOutcome>, i: int, v: BatchOutcome, o: BatchOutcome)
    requires
        0 <= i < s.len(),
    ensures
        count_outcome(s.update(i, v), o) == count_outcome(s, o) - (if s[i] == o {
            1int
        } else {
            0int
        }) + (if v == o {
            1int
        } else {
            0int
        }),
    decreases s.len(),
{
    if i == s.len() - 1 {
        assert(s.update(i, v).drop_last() =~= s.drop_last());
        assert(s.update(i, v).last() == v);
    } else {
        lemma_count_update(s.drop_last(), i, v, o);
        assert(s.update(i, v).drop_last() =~= s.drop_last().update(i, v));
        assert(s.update(i, v).last() == s.last());
    }
}

proof fn lemma_count_none(s: Seq<BatchOutcome>, o: BatchOutcome)
    ensures
        count_outcome(s, o) >= 0,
        (count_outcome(s, o) == 0) <==> (forall|j: int| 0 <= j < s.len() ==> s[j] != o),
    decreases s.len(),
{
    if s.len() > 0 {
        lemma_count_none(s.drop_last(), o);
        if count_outcome(s, o) == 0 {
            assert forall|j: int| 0 <= j < s.len() implies s[j] != o by {
                if j < s.len() - 1 {
                    assert(s.drop_last()[j] == s[j]);
                }
            }
        }
        if forall|j: int| 0 <= j < s.len() ==> s[j] != o {
            assert forall|j: int| 0 <= j < s.drop_last().len() implies s.drop_last()[j] != o by {
                assert(s.drop_last()[j] == s[j]);
            }
        }
    }
}

/// Whether the already-known outcomes confirm record `x` as accepted: some
/// batch carrying `x` has outcome [`BatchOutcome::Accepted`].
pub open spec fn planned_accepted(
    outcomes: Seq<BatchOutcome>,
    plan: Seq<Seq<(u32, ConfigLine)>>,
    x: u32,
) -> bool {
    exists|j: int|
        0 <= j < outcomes.len() && #[trigger] outcomes[j] == BatchOutcome::Accepted
            && batch_indices(plan[j]).contains(x)
}

proof fn lemma_planned_push_non_accepted(
    outcomes: Seq<BatchOutcome>,
    plan: Seq<Seq<(u32, ConfigLine)>>,
    v: BatchOutcome,
    x: u32,
)
    requires
        v != BatchOutcome::Accepted,
    ensures
        planned_accepted(outcomes.push(v), plan, x) == planned_accepted(outcomes, plan, x),
{
    let pushed = outcomes.push(v);
    if planned_accepted(pushed, plan, x) {
        let j = choose|j: int|
            0 <= j < pushed.len() && #[trigger] pushed[j] == BatchOutcome::Accepted
                && batch_indices(plan[j]).contains(x);
        assert(j < outcomes.len());
        assert(outcomes[j] == BatchOutcome::Accepted);
    }
    if planned_accepted(outcomes, plan, x) {
        let j = choose|j: int|
            0 <= j < outcomes.len() && #[trigger] outcomes[j] == BatchOutcome::Accepted
                && batch_indices(plan[j]).contains(x);
        assert(pushed[j] == BatchOutcome::Accepted);
    }
}

proof fn lemma_planned_update(
    outcomes: Seq<BatchOutcome>,
    plan: Seq<Seq<(u32, ConfigLine)>>,
    pos: int,
    v: BatchOutcome,
    x: u32,
)
    requires
        0 <= pos < outcomes.len(),
        outcomes[pos] != BatchOutcome::Accepted,
    ensures
        v == BatchOutcome::Accepted ==> (planned_accepted(outcomes.update(pos, v), plan, x) <==> (
        planned_accepted(outcomes, plan, x) || batch_indices(plan[pos]).contains(x))),
        v != BatchOutcome::Accepted ==> (planned_accepted(outcomes.update(pos, v), plan, x)
            <==> planned_accepted(outcomes, plan, x)),
{
    let upd = outcomes.update(pos, v);
    if planned_accepted(upd, plan, x) {
        let j = choose|j: int|
            0 <= j < upd.len() && #[trigger] upd[j] == BatchOutcome::Accepted && batch_indices(
                plan[j],
            ).contains(x);
        if j != pos {
            assert(outcomes[j] == BatchOutcome::Accepted);
        }
    }
    if planned_accepted(outcomes, plan, x) {
        let j = choose|j: int|
            0 <= j < outcomes.len() && #[trigger] outcomes[j] == BatchOutcome::Accepted
                && batch_indices(plan[j]).contains(x);
        assert(j != pos);
        assert(upd[j] == BatchOutcome::Accepted);
    }
    if v == BatchOutcome::Accepted && batch_indices(plan[pos]).contains(x) {
        assert(upd[pos] == BatchOutcome::Accepted);
    }
}

/// Every index a batch carries names a record of a store with `len` records.
pub open spec fn batch_fits(b: Seq<(u32, ConfigLine)>, len: int) -> bool {
    forall|t: int| 0 <= t < b.len() ==> ((#[trigger] b[t]).0 as int) < len
}

/// Every batch of the plan fits the store.
pub open spec fn plan_fits(plan: Seq<Seq<(u32, ConfigLine)>>, len: int) -> bool {
    forall|j: int| 0 <= j < plan.len() ==> batch_fits(#[trigger] plan[j], len)
}

/// The run kept every record's content, and never lost an acceptance.
pub open spec fn store_preserves(initial: Seq<CacheItem>, items: Seq<CacheItem>) -> bool {
    &&& items.len() == initial.len()
    &&& forall|i: int|
        0 <= i < items.len() ==> (#[trigger] items[i]).name == initial[i].name
            && items[i].metadata_link == initial[i].metadata_link
}

/// A record is accepted in the store exactly when it was accepted before the
/// run, or a confirmed successful submission named its index.
pub open spec fn store_tracks(
    initial: Seq<CacheItem>,
    items: Seq<CacheItem>,
    outcomes: Seq<BatchOutcome>,
    plan: Seq<Seq<(u32, ConfigLine)>>,
) -> bool {
    forall|i: int|
        0 <= i < items.len() ==> ((#[trigger] items[i]).on_chain <==> initial[i].on_chain
            || planned_accepted(outcomes, plan, i as u32))
}

/// What the host program must do next.
#[derive(Debug)]
pub enum DispatchStep {
    /// Flush the store to durable storage, then submit the plan's batches
    /// `first .. first + count` (they are now in flight).
    Refill { first: usize, count: usize },
    /// In-flight submissions remain; await the next completion.
    Wait,
    /// Nothing is in flight and nothing more will be scheduled; flush the
    /// store and ask for the report.
    Done,
}

/// The terminal result of a run.
#[derive(Debug)]
pub enum DeployReport {
    /// Every planned batch was submitted and confirmed accepted.
    Completed,
    /// Failures occurred, or cancellation left batches unscheduled: the
    /// distinct error messages, the total failure count, and how many batches
    /// were never handed out.
    Failed { distinct_errors: Vec<String>, failure_count: usize, remaining: usize },
}

/// The dispatcher's whole state for one run.
pub struct Dispatcher {
    /// The record store, updated as confirmations arrive.
    pub cache: Cache,
    /// The planned batches, in order.
    pub plan: Vec<Vec<(u32, ConfigLine)>>,
    /// Outcome of each batch handed out so far: batches `0 .. outcomes.len()`.
    pub outcomes: Vec<BatchOutcome>,
    /// How many handed-out batches have no result yet.
    pub in_flight: usize,
    /// The pool bound: at most this many batches are ever in flight.
    pub limit: usize,
    /// The failures seen so far.
    pub errors: ErrorAggregator,
    /// Whether cancellation has been observed.
    pub cancelled: bool,
    /// The store's records as they were when the run began.
    pub initial: Ghost<Seq<CacheItem>>,
}

impl Dispatcher {
    /// The store's records as they are now.
    pub open spec fn items(&self) -> Seq<CacheItem> {
        self.cache.items.0@
    }

    /// The dispatcher's invariant.
    pub open spec fn wf(&self) -> bool {
        &&& self.limit >= 1
        &&& self.outcomes@.len() <= self.plan@.len()
        &&& self.in_flight as int == count_outcome(self.outcomes@, BatchOutcome::Pending)
        &&& self.in_flight <= self.limit
        &&& self.errors.messages@.len() as int == count_outcome(
            self.outcomes@,
            BatchOutcome::Failed,
        )
        &&& self.initial@.len() == self.items().len()
        &&& self.items().len() <= 0x1_0000_0000
        &&& plan_fits(plan_view(self.plan), self.items().len() as int)
        &&& store_preserves(self.initial@, self.items())
        &&& store_tracks(self.initial@, self.items(), self.outcomes@, plan_view(self.plan))
    }

    /// A dispatcher over a store and a plan computed from it, with pool bound
    /// `limit`. Nothing is scheduled yet.
    pub fn new(cache: Cache, plan: Vec<Vec<(u32, ConfigLine)>>, limit: usize) -> (d: Dispatcher)
        requires
            limit >= 1,
            cache.items.0@.len() <= 0x1_0000_0000,
            plan_fits(plan_view(plan), cache.items.0@.len() as int),
        ensures
            d.wf(),
            d.cache == cache,
            d.plan == plan,
            d.initial@ == cache.items.0@,
            d.outcomes@.len() == 0,
            d.in_flight == 0,
            d.limit == limit,
            d.errors.messages@.len() == 0,
            !d.cancelled,
    {
        let ghost init = cache.items.0@;
        Dispatcher {
            cache,
            plan,
            outcomes: Vec::new(),
            in_flight: 0,
            limit,
            errors: ErrorAggregator::new(),
            cancelled: false,
            initial: Ghost(init),
        }
    }

    /// Hand out the initial pool: batches `0 .. count`, where `count` is the
    /// plan's length capped at the pool bound.
    pub fn start(&mut self) -> (count: usize)
        requires
            old(self).wf(),
            old(self).outcomes@.len() == 0,
        ensures
            final(self).wf(),
            count as int == if old(self).plan@.len() < old(self).limit as int {
                old(self).plan@.len() as int
            } else {
                old(self).limit as int
            },
            final(self).outcomes@.len() == count,
            final(self).in_flight == count,
            forall|j: int| 0 <= j < count ==> final(self).outcomes@[j] == BatchOutcome::Pending,
            final(self).cache == old(self).cache,
            final(self).plan == old(self).plan,
            final(self).limit == old(self).limit,
            final(self).errors == old(self).errors,
            final(self).cancelled == old(self).cancelled,
            final(self).initial == old(self).initial,
    {
        let take = if self.plan.len() < self.limit {
            self.plan.len()
        } else {
            self.limit
        };
        let mut k: usize = 0;
        while k < take
            invariant
                k <= take,
                old(self).wf(),
                old(self).outcomes@.len() == 0,
                take <= old(self).limit,
                take <= old(self).plan@.len(),
                self.cache == old(self).cache,
                self.plan == old(self).plan,
                self.limit == old(self).limit,
                self.errors == old(self).errors,
                self.cancelled == old(self).cancelled,
                self.initial == old(self).initial,
                self.outcomes@.len() == k,
                self.in_flight == k,
                forall|j: int| 0 <= j < k ==> self.outcomes@[j] == BatchOutcome::Pending,
                count_outcome(self.outcomes@, BatchOutcome::Pending) == k as int,
                count_outcome(self.outcomes@, BatchOutcome::Failed) == 0,
                store_tracks(
                    self.initial@,
                    self.items(),
                    self.outcomes@,
                    plan_view(self.plan),
                ),
            decreases take - k,
        {
            proof {
                lemma_count_push(self.outcomes@, BatchOutcome::Pending, BatchOutcome::Pending);
                lemma_count_push(self.outcomes@, BatchOutcome::Pending, BatchOutcome::Failed);
                assert forall|i: int| 0 <= i < self.items().len() implies ((
                #[trigger] self.items()[i]).on_chain <==> self.initial@[i].on_chain
                    || planned_accepted(
                    self.outcomes@.push(BatchOutcome::Pending),
                    plan_view(self.plan),
                    i as u32,
                )) by {
                    lemma_planned_push_non_accepted(
                        self.outcomes@,
                        plan_view(self.plan),
                        BatchOutcome::Pending,
                        i as u32,
                    );
                }
            }
            self.outcomes.push(BatchOutcome::Pending);
            self.in_flight = self.in_flight + 1;
            k = k + 1;
        }
        take
    }

    /// Apply one completion: on success mark exactly the batch's records
    /// accepted in the store, on failure aggregate the error; observe the
    /// cancellation flag; then either hand out a refill (when more than half
    /// the pool has drained and unscheduled batches remain), keep waiting, or
    /// declare the run over.
    ///
    /// The host passes the position of the batch that completed and, on
    /// success, the indices the target confirmed — per the target's
    /// all-or-nothing batch semantics, exactly the submitted indices.
    pub fn on_completion(
        &mut self,
        pos: usize,
        result: Result<Vec<u32>, String>,
        cancel_requested: bool,
    ) -> (step: DispatchStep)
        requires
            old(self).wf(),
            old(self).in_flight >= 1,
            pos < old(self).outcomes@.len(),
            old(self).outcomes@[pos as int] == BatchOutcome::Pending,
            result matches Ok(indices) ==> indices@ == batch_indices(old(self).plan@[pos as int]@),
        ensures
            final(self).wf(),
            final(self).plan == old(self).plan,
            final(self).limit == old(self).limit,
            final(self).initial == old(self).initial,
            final(self).cache.program == old(self).cache.program,
            // the completed batch's outcome is recorded; others are untouched
            final(self).outcomes@[pos as int] == (if result is Ok {
                BatchOutcome::Accepted
            } else {
                BatchOutcome::Failed
            }),
            forall|j: int|
                0 <= j < old(self).outcomes@.len() && j != pos ==> final(self).outcomes@[j]
                    == old(self).outcomes@[j],
            // a record is marked accepted only on a confirmed success naming it
            final(self).items().len() == old(self).items().len(),
            forall|i: int|
                0 <= i < old(self).items().len() ==> {
                    &&& (#[trigger] final(self).items()[i]).name == old(self).items()[i].name
                    &&& final(self).items()[i].metadata_link == old(self).items()[i].metadata_link
                    &&& (final(self).items()[i].on_chain <==> old(self).items()[i].on_chain || (
                    result matches Ok(indices) && indices@.contains(i as u32)))
                },
            // failures are aggregated, successes add nothing
            result matches Err(m) ==> final(self).errors.messages@
                == old(self).errors.messages@.push(m),
            result is Ok ==> final(self).errors.messages@ == old(self).errors.messages@,
            // cancellation is observed once per completion and never forgotten
            final(self).cancelled == (old(self).cancelled || cancel_requested),
            final(self).cancelled ==> final(self).outcomes@.len() == old(self).outcomes@.len() && !(
            step is Refill),
            // step semantics
            step matches DispatchStep::Refill { first, count } ==> {
                &&& first == old(self).outcomes@.len()
                &&& count >= 1
                &&& first + count <= old(self).plan@.len()
                &&& final(self).outcomes@.len() == first + count
                &&& forall|j: int|
                    first <= j < first + count ==> final(self).outcomes@[j]
                        == BatchOutcome::Pending
                // the pool is refilled up to the bound, or the plan runs out
                &&& (final(self).in_flight == final(self).limit || final(self).outcomes@.len()
                    == final(self).plan@.len())
            },
            // the half-refill policy: new batches are handed out exactly when
            // cancellation has not been observed, unscheduled batches remain,
            // and more than half the pool has drained
            (step is Refill) <==> (!(old(self).cancelled || cancel_requested) && old(
                self,
            ).outcomes@.len() < old(self).plan@.len() && old(self).limit - (old(self).in_flight
                - 1) > old(self).limit / 2),
            step is Wait ==> final(self).outcomes@.len() == old(self).outcomes@.len()
                && final(self).in_flight > 0,
            (step is Done) <==> final(self).in_flight == 0,
            step is Done ==> final(self).outcomes@.len() == old(self).outcomes@.len(),
    {
        let ghost pre = *self;
        match result {
            Ok(indices) => {
                let ghost pre_items = self.cache.items.0@;
                let mut k: usize = 0;
                while k < indices.len()
                    invariant
                        k <= indices@.len(),
                        pre.wf(),
                        (pos as int) < pre.outcomes@.len(),
                        indices@ == batch_indices(pre.plan@[pos as int]@),
                        pre_items == pre.cache.items.0@,
                        self.plan == pre.plan,
                        self.outcomes == pre.outcomes,
                        self.in_flight == pre.in_flight,
                        self.limit == pre.limit,
                        self.errors == pre.errors,
                        self.cancelled == pre.cancelled,
                        self.initial == pre.initial,
                        self.cache.program == pre.cache.program,
                        self.items().len() == pre_items.len(),
                        forall|i: int|
                            0 <= i < pre_items.len() ==> {
                                &&& (#[trigger] self.items()[i]).name == pre_items[i].name
                                &&& self.items()[i].metadata_link == pre_items[i].metadata_link
                                &&& (self.items()[i].on_chain <==> pre_items[i].on_chain || exists|
                                    t: int,
                                |
                                    0 <= t < k && indices@[t] == i as u32)
                            },
                    decreases indices@.len() - k,
                {
                    proof {
                        lemma_batch_indices_elems(pre.plan@[pos as int]@);
                        assert(plan_view(pre.plan)[pos as int] == pre.plan@[pos as int]@);
                        assert(batch_fits(
                            plan_view(pre.plan)[pos as int],
                            pre.items().len() as int,
                        ));
                        assert(indices@[k as int] == pre.plan@[pos as int]@[k as int].0);
                        assert((indices@[k as int] as int) < pre_items.len());
                    }
                    let ghost before = self.cache.items.0@;
                    let idx = indices[k];
                    self.cache.mark_accepted(idx as usize);
                    proof {
                        assert forall|i: int| 0 <= i < pre_items.len() implies {
                            &&& (#[trigger] self.items()[i]).name == pre_items[i].name
                            &&& self.items()[i].metadata_link == pre_items[i].metadata_link
                            &&& (self.items()[i].on_chain <==> pre_items[i].on_chain || exists|
                                t: int,
                            |
                                0 <= t < k + 1 && indices@[t] == i as u32)
                        } by {
                            if i == idx as int {
                                assert(indices@[k as int] == i as u32);
                                assert(self.items()[i].on_chain);
                            } else {
                                assert(self.items()[i] == before[i]);
                                if self.items()[i].on_chain {
                                    if !pre_items[i].on_chain {
                                        let t = choose|t: int|
                                            0 <= t < k && indices@[t] == i as u32;
                                        assert(0 <= t < k + 1 && indices@[t] == i as u32);
                                    }
                                } else {
                                    if exists|t: int| 0 <= t < k + 1 && indices@[t] == i as u32 {
                                        let t = choose|t: int|
                                            0 <= t < k + 1 && indices@[t] == i as u32;
                                        assert(t < k);
                                    }
                                }
                            }
                        }
                    }
                    k = k + 1;
                }
                proof {
                    lemma_count_update(
                        self.outcomes@,
                        pos as int,
                        BatchOutcome::Accepted,
                        BatchOutcome::Pending,
                    );
                    lemma_count_update(
                        self.outcomes@,
                        pos as int,
                        BatchOutcome::Accepted,
                        BatchOutcome::Failed,
                    );
                }
                self.outcomes[pos] = BatchOutcome::Accepted;
                self.in_flight = self.in_flight - 1;
                proof {
                    assert forall|i: int| 0 <= i < self.items().len() implies ((
                    #[trigger] self.items()[i]).on_chain <==> self.initial@[i].on_chain
                        || planned_accepted(self.outcomes@, plan_view(self.plan), i as u32)) by {
                        lemma_planned_update(
                            pre.outcomes@,
                            plan_view(pre.plan),
                            pos as int,
                            BatchOutcome::Accepted,
                            i as u32,
                        );
                        assert(indices@.contains(i as u32) <==> exists|t: int|
                            0 <= t < indices@.len() && indices@[t] == i as u32);
                    }
                    assert(self.wf());
                }
            },
            Err(m) => {
                proof {
                    lemma_count_update(
                        self.outcomes@,
                        pos as int,
                        BatchOutcome::Failed,
                        BatchOutcome::Pending,
                    );
                    lemma_count_update(
                        self.outcomes@,
                        pos as int,
                        BatchOutcome::Failed,
                        BatchOutcome::Failed,
                    );
                }
                self.errors.push(m);
                self.outcomes[pos] = BatchOutcome::Failed;
                self.in_flight = self.in_flight - 1;
                proof {
                    assert forall|i: int| 0 <= i < self.items().len() implies ((
                    #[trigger] self.items()[i]).on_chain <==> self.initial@[i].on_chain
                        || planned_accepted(self.outcomes@, plan_view(self.plan), i as u32)) by {
                        lemma_planned_update(
                            pre.outcomes@,
                            plan_view(pre.plan),
                            pos as int,
                            BatchOutcome::Failed,
                            i as u32,
                        );
                    }
                    assert(self.wf());
                }
            },
        }
        if cancel_requested {
            self.cancelled = true;
        }
        let ghost mid = *self;
        if !self.cancelled && self.outcomes.len() < self.plan.len() && (self.limit - self.in_flight)
            > self.limit / 2 {
            let first = self.outcomes.len();
            let room = self.limit - self.in_flight;
            let rem = self.plan.len() - first;
            let take = if rem < room {
                rem
            } else {
                room
            };
            let mut k: usize = 0;
            while k < take
                invariant
                    k <= take,
                    mid.wf(),
                    take >= 1,
                    first == mid.outcomes@.len(),
                    first + take <= mid.plan@.len(),
                    mid.in_flight + take <= mid.limit,
                    self.cache == mid.cache,
                    self.plan == mid.plan,
                    self.limit == mid.limit,
                    self.errors == mid.errors,
                    self.cancelled == mid.cancelled,
                    self.initial == mid.initial,
                    self.outcomes@.len() == first + k,
                    self.in_flight == mid.in_flight + k,
                    pos < first,
                    mid.outcomes@.len() == first,
                    forall|j: int|
                        0 <= j < first && j != pos ==> mid.outcomes@[j] == old(self).outcomes@[j],
                    forall|j: int| 0 <= j < first ==> self.outcomes@[j] == mid.outcomes@[j],
                    forall|j: int|
                        first <= j < first + k ==> self.outcomes@[j] == BatchOutcome::Pending,
                    count_outcome(self.outcomes@, BatchOutcome::Pending) == mid.in_flight + k,
                    count_outcome(self.outcomes@, BatchOutcome::Failed) == count_outcome(
                        mid.outcomes@,
                        BatchOutcome::Failed,
                    ),
                    store_tracks(
                        self.initial@,
                        self.items(),
                        self.outcomes@,
                        plan_view(self.plan),
                    ),
                decreases take - k,
            {
                proof {
                    lemma_count_push(self.outcomes@, BatchOutcome::Pending, BatchOutcome::Pending);
                    lemma_count_push(self.outcomes@, BatchOutcome::Pending, BatchOutcome::Failed);
                    assert forall|i: int| 0 <= i < self.items().len() implies ((
                    #[trigger] self.items()[i]).on_chain <==> self.initial@[i].on_chain
                        || planned_accepted(
                        self.outcomes@.push(BatchOutcome::Pending),
                        plan_view(self.plan),
                        i as u32,
                    )) by {
                        lemma_planned_push_non_accepted(
                            self.outcomes@,
                            plan_view(self.plan),
                            BatchOutcome::Pending,
                            i as u32,
                        );
                    }
                }
                self.outcomes.push(BatchOutcome::Pending);
                self.in_flight = self.in_flight + 1;
                k = k + 1;
            }
            proof {
                assert forall|j: int|
                    0 <= j < pre.outcomes@.len() && j != pos implies self.outcomes@[j]
                        == pre.outcomes@[j] by {
                    assert(self.outcomes@[j] == mid.outcomes@[j]);
                    assert(mid.outcomes@[j] == pre.outcomes@[j]);
                }
            }
            return DispatchStep::Refill { first, count: take };
        }
        if self.in_flight == 0 {
            DispatchStep::Done
        } else {
            DispatchStep::Wait
        }
    }

    /// The terminal report, once nothing is in flight and nothing more will
    /// be scheduled: `Completed` exactly when every batch was handed out and
    /// none failed; otherwise the distinct failure messages, the total
    /// failure count, and the number of batches never handed out.
    pub fn finish(&self) -> (r: DeployReport)
        requires
            self.wf(),
            self.in_flight == 0,
        ensures
            (r is Completed) <==> (self.errors.messages@.len() == 0 && self.outcomes@.len()
                == self.plan@.len()),
            // a completed run accepted every record of every planned batch
            r is Completed ==> forall|j: int, t: int|
                0 <= j < self.plan@.len() && 0 <= t < self.plan@[j]@.len() ==> self.items()[(
                #[trigger] self.plan@[j]@[t]).0 as int].on_chain,
            r matches DeployReport::Failed { distinct_errors, failure_count, remaining } ==> {
                &&& failure_count == self.errors.messages@.len()
                &&& remaining as int == self.plan@.len() - self.outcomes@.len()
                &&& distinct_errors@ == crate::aggregate::spec_distinct(self.errors.messages@)
                &&& forall|a: int, b: int|
                    0 <= a < b < distinct_errors@.len() ==> distinct_errors@[a]@
                        != distinct_errors@[b]@
                &&& forall|i: int|
                    0 <= i < self.errors.messages@.len() ==> crate::aggregate::contains_text(
                        distinct_errors@,
                        #[trigger] self.errors.messages@[i]@,
                    )
                &&& forall|a: int|
                    0 <= a < distinct_errors@.len() ==> crate::aggregate::contains_text(
                        self.errors.messages@,
                        #[trigger] distinct_errors@[a]@,
                    )
            },
    {
        if self.errors.is_empty() && self.outcomes.len() == self.plan.len() {
            proof {
                lemma_count_none(self.outcomes@, BatchOutcome::Pending);
                lemma_count_none(self.outcomes@, BatchOutcome::Failed);
                assert forall|j: int, t: int|
                    0 <= j < self.plan@.len() && 0 <= t < self.plan@[j]@.len() implies self.items()[(
                #[trigger] self.plan@[j]@[t]).0 as int].on_chain by {
                    let b = self.plan@[j]@;
                    let x = b[t].0;
                    assert(self.outcomes@[j] == BatchOutcome::Accepted);
                    lemma_batch_indices_elems(b);
                    assert(batch_indices(b)[t] == x);
                    assert(batch_indices(b).contains(x));
                    assert(plan_view(self.plan)[j] == b);
                    assert(planned_accepted(self.outcomes@, plan_view(self.plan), x));
                    assert(batch_fits(plan_view(self.plan)[j], self.items().len() as int));
                    assert((x as int) < self.items().len());
                    assert(self.items()[x as int].on_chain);
                }
            }
            DeployReport::Completed
        } else {
            DeployReport::Failed {
                distinct_errors: self.errors.distinct(),
                failure_count: self.errors.total(),
                remaining: self.plan.len() - self.outcomes.len(),
            }
        }
    }
}

/// Law: a run that ends with nothing in flight, every batch handed out and no
/// failures — one the report calls `Completed` — leaves every one of the
/// store's first `n` records accepted, when the plan is the planner's output
/// for the store's state at the start of the run.
pub proof fn lemma_completed_run_accepts_all(d: Dispatcher, n: int)
    requires
        d.wf(),
        d.in_flight == 0,
        d.errors.messages@.len() == 0,
        d.outcomes@.len() == d.plan@.len(),
        0 <= n <= d.initial@.len(),
        n <= 0x1_0000_0000,
        plan_view(d.plan) == spec_plan(d.initial@, n),
    ensures
        forall|i: int| 0 <= i < n ==> d.items()[i].on_chain,
{
    lemma_count_none(d.outcomes@, BatchOutcome::Pending);
    lemma_count_none(d.outcomes@, BatchOutcome::Failed);
    lemma_plan_covers_unaccepted(d.initial@, n);
    assert forall|i: int| 0 <= i < n implies d.items()[i].on_chain by {
        if !d.initial@[i].on_chain {
            lemma_unaccepted_contains(d.initial@, n, i as u32);
            assert(unaccepted_indices(d.initial@, n).contains(i as u32));
            assert(plan_indices(plan_view(d.plan)).contains(i as u32));
            lemma_plan_indices_decompose(plan_view(d.plan), i as u32);
            let j = choose|j: int|
                0 <= j < plan_view(d.plan).len() && batch_indices(
                    #[trigger] plan_view(d.plan)[j],
                ).contains(i as u32);
            assert(d.outcomes@[j] != BatchOutcome::Pending);
            assert(d.outcomes@[j] != BatchOutcome::Failed);
            assert(d.outcomes@[j] == BatchOutcome::Accepted);
            assert(planned_accepted(d.outcomes@, plan_view(d.plan), i as u32));
        }
    }
}

/// Law: with an empty plan — what the planner yields for a store already
/// fully accepted — the run is a no-op: nothing is ever in flight, no failure
/// is ever recorded, and the store is left exactly as it was (so the report
/// is `Completed`).
pub proof fn lemma_noop_when_plan_empty(d: Dispatcher)
    requires
        d.wf(),
        d.plan@.len() == 0,
    ensures
        d.in_flight == 0,
        d.errors.messages@.len() == 0,
        d.items() =~= d.initial@,
{
    assert(d.outcomes@.len() == 0);
    assert(count_outcome(d.outcomes@, BatchOutcome::Pending) == 0);
    assert(count_outcome(d.outcomes@, BatchOutcome::Failed) == 0);
    assert forall|i: int| 0 <= i < d.items().len() implies d.items()[i] =~= d.initial@[i] by {
        assert(!planned_accepted(d.outcomes@, plan_view(d.plan), i as u32));
        assert(d.items()[i].on_chain == d.initial@[i].on_chain);
        assert(d.items()[i].name == d.initial@[i].name);
        assert(d.items()[i].metadata_link == d.initial@[i].metadata_link);
    }
}

} // verus!
