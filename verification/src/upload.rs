//! The upload run: reconciling one delta against the remote program.
//!
//! The run is a state machine over four pairwise-disjoint pools of item
//! indices: queued (not yet dispatched), in flight (dispatched, outcome
//! pending), confirmed, and failed. The surrounding driver owns the actual
//! network calls and the worker scheduling; it asks the run what to dispatch
//! next and reports every outcome back, so every decision — retry budgets,
//! cancellation, accounting — is made and checked here. Retry backoff is a
//! matter of when the driver redispatches, never of which item it is handed.
//!
//! Cancellation is cooperative: once the flag is set no new dispatch is
//! handed out, while outcomes of writes already in flight are still
//! accepted, so a transaction whose fate is unknown is never orphaned.

use vstd::prelude::*;

use crate::delta::ConfigLine;

verus! {

/// One write waiting to be dispatched (or re-dispatched).
#[derive(Debug, PartialEq, Eq)]
pub struct PendingWrite {
    pub index: u32,
    pub line: ConfigLine,
    pub attempts: u32,
}

impl Clone for PendingWrite {
    fn clone(&self) -> (r: Self)
        ensures
            r == *self,
    {
        PendingWrite { index: self.index, line: self.line.clone(), attempts: self.attempts }
    }
}

/// What the gateway reported for one write call.
#[derive(Debug, PartialEq, Eq)]
pub enum WriteOutcome {
    /// The remote program confirmed the write.
    Confirmed,
    /// A network- or timeout-classified failure: retryable.
    Transient(String),
    /// The remote program rejected the write: recorded, never retried.
    Rejected(String),
}

/// The aggregated result of a run.
#[derive(Debug, PartialEq, Eq)]
pub struct UploadOutcome {
    /// Indices confirmed during this run.
    pub confirmed: Vec<u32>,
    /// Indices that failed permanently, each with its error message.
    pub errors: Vec<(u32, String)>,
    /// Whether the run was cut short by the cancellation signal.
    pub interrupted: bool,
}

/// The state of one upload run.
pub struct UploadRun {
    queue: Vec<PendingWrite>,
    in_flight: Vec<PendingWrite>,
    confirmed: Vec<u32>,
    errors: Vec<(u32, String)>,
    interrupted: bool,
    max_retries: u32,
    initial: Ghost<Seq<u32>>,
}

impl UploadRun {
    /// The queued entries, in dispatch order.
    pub closed spec fn queued(self) -> Seq<PendingWrite> {
        self.queue@
    }

    /// The dispatched entries whose outcome is pending.
    pub closed spec fn inflight(self) -> Seq<PendingWrite> {
        self.in_flight@
    }

    /// The indices confirmed so far, in confirmation order.
    pub closed spec fn confirmed_seq(self) -> Seq<u32> {
        self.confirmed@
    }

    /// The permanent failures so far, in the order they were recorded.
    pub closed spec fn errors_seq(self) -> Seq<(u32, String)> {
        self.errors@
    }

    /// Whether the cancellation signal has been observed.
    pub closed spec fn is_interrupted(self) -> bool {
        self.interrupted
    }

    /// The retry budget each item gets for transient failures.
    pub closed spec fn retry_budget(self) -> u32 {
        self.max_retries
    }

    /// The indices the run was started with.
    pub closed spec fn initial_indices(self) -> Seq<u32> {
        self.initial@
    }

    /// Whether `x` is still queued.
    pub open spec fn queued_has(self, x: u32) -> bool {
        exists|i: int| 0 <= i < self.queued().len() && (#[trigger] self.queued()[i]).index == x
    }

    /// Whether `x` is in flight.
    pub open spec fn inflight_has(self, x: u32) -> bool {
        exists|i: int| 0 <= i < self.inflight().len() && (#[trigger] self.inflight()[i]).index == x
    }

    /// Whether `x` is confirmed.
    pub open spec fn confirmed_has(self, x: u32) -> bool {
        self.confirmed_seq().contains(x)
    }

    /// Whether `x` failed permanently.
    pub open spec fn errored_has(self, x: u32) -> bool {
        exists|i: int| 0 <= i < self.errors_seq().len() && (#[trigger] self.errors_seq()[i]).0 == x
    }

    /// In how many of the four pools `x` sits.
    pub open spec fn pool_count(self, x: u32) -> int {
        (if self.queued_has(x) {
            1int
        } else {
            0int
        }) + (if self.inflight_has(x) {
            1int
        } else {
            0int
        }) + (if self.confirmed_has(x) {
            1int
        } else {
            0int
        }) + (if self.errored_has(x) {
            1int
        } else {
            0int
        })
    }

    /// The run's invariant: each pool holds distinct indices, and every
    /// index the run was started with sits in exactly one pool — nothing is
    /// ever lost, duplicated, or invented.
    pub open spec fn wf(self) -> bool {
        &&& forall|i: int, j: int|
            0 <= i < j < self.queued().len() ==> (#[trigger] self.queued()[i]).index != (
            #[trigger] self.queued()[j]).index
        &&& forall|i: int, j: int|
            0 <= i < j < self.inflight().len() ==> (#[trigger] self.inflight()[i]).index != (
            #[trigger] self.inflight()[j]).index
        &&& forall|i: int, j: int|
            0 <= i < j < self.confirmed_seq().len() ==> #[trigger] self.confirmed_seq()[i]
                != #[trigger] self.confirmed_seq()[j]
        &&& forall|i: int, j: int|
            0 <= i < j < self.errors_seq().len() ==> (#[trigger] self.errors_seq()[i]).0 != (
            #[trigger] self.errors_seq()[j]).0
        &&& forall|x: u32| #[trigger]
            self.pool_count(x) == if self.initial_indices().contains(x) {
                1int
            } else {
                0int
            }
    }

    /// Starts a run over a delta whose indices are distinct, with the given
    /// retry budget for transient failures.
    pub fn new(delta: Vec<(u32, ConfigLine)>, max_retries: u32) -> (r: UploadRun)
        requires
            forall|i: int, j: int|
                0 <= i < j < delta@.len() ==> (#[trigger] delta@[i]).0 != (#[trigger] delta@[j]).0,
        ensures
            r.wf(),
            r.queued().len() == delta@.len(),
            forall|i: int|
                0 <= i < delta@.len() ==> #[trigger] r.queued()[i] == (PendingWrite {
                    index: delta@[i].0,
                    line: delta@[i].1,
                    attempts: 0,
                }),
            r.inflight().len() == 0,
            r.confirmed_seq().len() == 0,
            r.errors_seq().len() == 0,
            !r.is_interrupted(),
            r.retry_budget() == max_retries,
            forall|x: u32| #[trigger] r.initial_indices().contains(x) <==> r.queued_has(x),
    {
        let ghost initial = delta@.map_values(|e: (u32, ConfigLine)| e.0);
        let mut queue: Vec<PendingWrite> = Vec::new();
        let n = delta.len();
        let mut i: usize = 0;
        while i < n
            invariant
                n == delta@.len(),
                0 <= i <= n,
                queue@.len() == i,
                forall|p: int|
                    0 <= p < i as int ==> #[trigger] queue@[p] == (PendingWrite {
                        index: delta@[p].0,
                        line: delta@[p].1,
                        attempts: 0,
                    }),
            decreases n - i,
        {
            let entry = PendingWrite {
                index: delta[i].0,
                line: delta[i].1.clone(),
                attempts: 0,
            };
            queue.push(entry);
            i += 1;
        }
        let r = UploadRun {
            queue,
            in_flight: Vec::new(),
            confirmed: Vec::new(),
            errors: Vec::new(),
            interrupted: false,
            max_retries,
            initial: Ghost(initial),
        };
        proof {
            assert(forall|x: u32| !r.inflight_has(x) && !r.confirmed_has(x) && !r.errored_has(x));
            assert forall|x: u32| #[trigger] r.initial_indices().contains(x) implies r.queued_has(
                x,
            ) by {
                let p = choose|p: int| 0 <= p < initial.len() && initial[p] == x;
                assert(r.queued()[p].index == x);
            }
            assert forall|x: u32| r.queued_has(x) implies r.initial_indices().contains(x) by {
                let p = choose|p: int|
                    0 <= p < r.queued().len() && (#[trigger] r.queued()[p]).index == x;
                assert(initial[p] == x);
            }
            assert forall|x: u32| #[trigger]
                r.pool_count(x) == if r.initial_indices().contains(x) {
                    1int
                } else {
                    0int
                } by {}
        }
        r
    }

    /// Observes the cancellation signal: no new dispatch will be handed out
    /// after this, while outcomes already in flight are still accepted.
    pub fn cancel(&mut self)
        requires
            old(self).wf(),
        ensures
            final(self).wf(),
            final(self).is_interrupted(),
            final(self).queued() == old(self).queued(),
            final(self).inflight() == old(self).inflight(),
            final(self).confirmed_seq() == old(self).confirmed_seq(),
            final(self).errors_seq() == old(self).errors_seq(),
            final(self).initial_indices() == old(self).initial_indices(),
            final(self).retry_budget() == old(self).retry_budget(),
    {
        self.interrupted = true;
        proof {
            lemma_wf_same_pools(*old(self), *self);
        }
    }

    /// Hands out the next write to dispatch, moving it into the in-flight
    /// pool — or nothing, exactly when the run was cancelled or the queue is
    /// drained. After cancellation no new submission is ever started.
    pub fn next_dispatch(&mut self) -> (r: Option<PendingWrite>)
        requires
            old(self).wf(),
        ensures
            final(self).wf(),
            final(self).is_interrupted() == old(self).is_interrupted(),
            final(self).confirmed_seq() == old(self).confirmed_seq(),
            final(self).errors_seq() == old(self).errors_seq(),
            final(self).initial_indices() == old(self).initial_indices(),
            final(self).retry_budget() == old(self).retry_budget(),
            r is None <==> (old(self).is_interrupted() || old(self).queued().len() == 0),
            r is None ==> *final(self) == *old(self),
            r matches Some(entry) ==> {
                &&& entry == old(self).queued()[0]
                &&& final(self).queued() == old(self).queued().remove(0)
                &&& final(self).inflight() == old(self).inflight().push(entry)
            },
    {
        if self.interrupted || self.queue.len() == 0 {
            return None;
        }
        let ghost prev = *self;
        let entry = self.queue.remove(0);
        let returned = entry.clone();
        self.in_flight.push(entry);
        proof {
            lemma_move_queue_to_inflight(prev, *self);
        }
        Some(returned)
    }

    /// Records the gateway's outcome for an in-flight write. A confirmed
    /// write joins the confirmed pool; a transient failure goes back to the
    /// queue while its retry budget lasts and to the failures after that; a
    /// rejection is recorded at once, never retried.
    pub fn report(&mut self, index: u32, outcome: WriteOutcome)
        requires
            old(self).wf(),
            old(self).inflight_has(index),
        ensures
            final(self).wf(),
            final(self).is_interrupted() == old(self).is_interrupted(),
            final(self).initial_indices() == old(self).initial_indices(),
            final(self).retry_budget() == old(self).retry_budget(),
            final(self).inflight() == old(self).inflight().remove(old(self).inflight_at(index)),
            match outcome {
                WriteOutcome::Confirmed => {
                    &&& final(self).confirmed_seq() == old(self).confirmed_seq().push(index)
                    &&& final(self).queued() == old(self).queued()
                    &&& final(self).errors_seq() == old(self).errors_seq()
                },
                WriteOutcome::Transient(msg) => {
                    if old(self).inflight_entry(index).attempts < old(self).retry_budget() {
                        &&& final(self).queued() == old(self).queued().push(
                            PendingWrite {
                                index,
                                line: old(self).inflight_entry(index).line,
                                attempts: (old(self).inflight_entry(index).attempts + 1) as u32,
                            },
                        )
                        &&& final(self).confirmed_seq() == old(self).confirmed_seq()
                        &&& final(self).errors_seq() == old(self).errors_seq()
                    } else {
                        &&& final(self).errors_seq() == old(self).errors_seq().push((index, msg))
                        &&& final(self).queued() == old(self).queued()
                        &&& final(self).confirmed_seq() == old(self).confirmed_seq()
                    }
                },
                WriteOutcome::Rejected(msg) => {
                    &&& final(self).errors_seq() == old(self).errors_seq().push((index, msg))
                    &&& final(self).queued() == old(self).queued()
                    &&& final(self).confirmed_seq() == old(self).confirmed_seq()
                },
            },
    {
        let n = self.in_flight.len();
        let mut p: usize = 0;
        let ghost prev = *self;
        while p < n
            invariant
                *self == prev,
                prev == *old(self),
                prev.wf(),
                prev.inflight_has(index),
                n == self.inflight().len(),
                0 <= p <= n,
                forall|q: int| 0 <= q < p as int ==> (#[trigger] self.inflight()[q]).index != index,
            decreases n - p,
        {
            if self.in_flight[p].index == index {
                proof {
                    prev.lemma_inflight_at_unique(index, p as int);
                }
                let entry = self.in_flight.remove(p);
                match outcome {
                    WriteOutcome::Confirmed => {
                        self.confirmed.push(index);
                        proof {
                            lemma_move_inflight_to_confirmed(prev, *self, index, p as int);
                        }
                    },
                    WriteOutcome::Transient(msg) => {
                        if entry.attempts < self.max_retries {
                            let requeued = PendingWrite {
                                index,
                                line: entry.line,
                                attempts: entry.attempts + 1,
                            };
                            self.queue.push(requeued);
                            proof {
                                lemma_move_inflight_to_queue(prev, *self, index, p as int);
                            }
                        } else {
                            self.errors.push((index, msg));
                            proof {
                                lemma_move_inflight_to_errors(prev, *self, index, p as int);
                            }
                        }
                    },
                    WriteOutcome::Rejected(msg) => {
                        self.errors.push((index, msg));
                        proof {
                            lemma_move_inflight_to_errors(prev, *self, index, p as int);
                        }
                    },
                }
                return ;
            }
            p += 1;
        }
        proof {
            let q = choose|q: int|
                0 <= q < prev.inflight().len() && (#[trigger] prev.inflight()[q]).index == index;
            assert(false);
        }
    }

    /// The position of `index` in the in-flight pool (meaningful when
    /// `inflight_has`).
    pub open spec fn inflight_at(self, index: u32) -> int {
        choose|i: int|
            0 <= i < self.inflight().len() && (#[trigger] self.inflight()[i]).index == index
    }

    /// The in-flight entry carrying `index`.
    pub open spec fn inflight_entry(self, index: u32) -> PendingWrite {
        self.inflight()[self.inflight_at(index)]
    }

    /// Under `wf`, any in-flight position holding `index` is `inflight_at`.
    pub proof fn lemma_inflight_at_unique(self, index: u32, i: int)
        requires
            self.wf(),
            0 <= i < self.inflight().len(),
            self.inflight()[i].index == index,
        ensures
            self.inflight_has(index),
            self.inflight_at(index) == i,
    {
        assert(self.inflight_has(index));
        let j = self.inflight_at(index);
        if i < j {
            assert(self.inflight()[i].index != self.inflight()[j].index);
        } else if j < i {
            assert(self.inflight()[j].index != self.inflight()[i].index);
        }
    }

    /// Whether the run is finished: nothing is in flight, and the queue is
    /// drained or the run was cancelled.
    pub fn is_done(&self) -> (r: bool)
        ensures
            r == (self.inflight().len() == 0 && (self.queued().len() == 0
                || self.is_interrupted())),
    {
        self.in_flight.len() == 0 && (self.queue.len() == 0 || self.interrupted)
    }

    /// The aggregated result: the confirmed indices, the permanent failures,
    /// and whether the run was interrupted. Partial success is a normal
    /// outcome; the cache already reflects every confirmed index whatever
    /// the rest did.
    pub fn outcome(&self) -> (r: UploadOutcome)
        ensures
            r.confirmed@ == self.confirmed_seq(),
            r.errors@ == self.errors_seq(),
            r.interrupted == self.is_interrupted(),
    {
        let mut confirmed: Vec<u32> = Vec::new();
        let mut i: usize = 0;
        let n = self.confirmed.len();
        while i < n
            invariant
                n == self.confirmed_seq().len(),
                0 <= i <= n,
                confirmed@ == self.confirmed_seq().subrange(0, i as int),
            decreases n - i,
        {
            confirmed.push(self.confirmed[i]);
            proof {
                assert(confirmed@ =~= self.confirmed_seq().subrange(0, i + 1));
            }
            i += 1;
        }
        let mut errors: Vec<(u32, String)> = Vec::new();
        let mut j: usize = 0;
        let m = self.errors.len();
        while j < m
            invariant
                m == self.errors_seq().len(),
                0 <= j <= m,
                errors@ == self.errors_seq().subrange(0, j as int),
            decreases m - j,
        {
            errors.push((self.errors[j].0, self.errors[j].1.clone()));
            proof {
                assert(errors@ =~= self.errors_seq().subrange(0, j + 1));
            }
            j += 1;
        }
        proof {
            assert(confirmed@ =~= self.confirmed_seq());
            assert(errors@ =~= self.errors_seq());
        }
        UploadOutcome { confirmed, errors, interrupted: self.interrupted }
    }
}

/// A run whose pools are unchanged keeps the invariant.
proof fn lemma_wf_same_pools(prev: UploadRun, cur: UploadRun)
    requires
        prev.wf(),
        cur.queued() == prev.queued(),
        cur.inflight() == prev.inflight(),
        cur.confirmed_seq() == prev.confirmed_seq(),
        cur.errors_seq() == prev.errors_seq(),
        cur.initial_indices() == prev.initial_indices(),
    ensures
        cur.wf(),
{
    assert forall|x: u32| #[trigger]
        cur.pool_count(x) == if cur.initial_indices().contains(x) {
            1int
        } else {
            0int
        } by {
        lemma_same_pools_same_membership(prev, cur, x);
        assert(prev.pool_count(x) == if prev.initial_indices().contains(x) {
            1int
        } else {
            0int
        });
    }
}

/// Equal pool contents give equal pool membership for `x`.
proof fn lemma_same_pools_same_membership(prev: UploadRun, cur: UploadRun, x: u32)
    requires
        cur.queued() == prev.queued(),
        cur.inflight() == prev.inflight(),
        cur.confirmed_seq() == prev.confirmed_seq(),
        cur.errors_seq() == prev.errors_seq(),
    ensures
        cur.queued_has(x) == prev.queued_has(x),
        cur.inflight_has(x) == prev.inflight_has(x),
        cur.confirmed_has(x) == prev.confirmed_has(x),
        cur.errored_has(x) == prev.errored_has(x),
{
    if prev.queued_has(x) {
        let p = choose|p: int|
            0 <= p < prev.queued().len() && (#[trigger] prev.queued()[p]).index == x;
        assert(cur.queued()[p].index == x);
    }
    if cur.queued_has(x) {
        let p = choose|p: int|
            0 <= p < cur.queued().len() && (#[trigger] cur.queued()[p]).index == x;
        assert(prev.queued()[p].index == x);
    }
    if prev.inflight_has(x) {
        let p = choose|p: int|
            0 <= p < prev.inflight().len() && (#[trigger] prev.inflight()[p]).index == x;
        assert(cur.inflight()[p].index == x);
    }
    if cur.inflight_has(x) {
        let p = choose|p: int|
            0 <= p < cur.inflight().len() && (#[trigger] cur.inflight()[p]).index == x;
        assert(prev.inflight()[p].index == x);
    }
    if prev.errored_has(x) {
        let p = choose|p: int|
            0 <= p < prev.errors_seq().len() && (#[trigger] prev.errors_seq()[p]).0 == x;
        assert(cur.errors_seq()[p].0 == x);
    }
    if cur.errored_has(x) {
        let p = choose|p: int|
            0 <= p < cur.errors_seq().len() && (#[trigger] cur.errors_seq()[p]).0 == x;
        assert(prev.errors_seq()[p].0 == x);
    }
}

/// Moving the queue's front entry to the end of the in-flight pool keeps
/// the invariant.
proof fn lemma_move_queue_to_inflight(prev: UploadRun, cur: UploadRun)
    requires
        prev.wf(),
        prev.queued().len() > 0,
        cur.queued() == prev.queued().remove(0),
        cur.inflight() == prev.inflight().push(prev.queued()[0]),
        cur.confirmed_seq() == prev.confirmed_seq(),
        cur.errors_seq() == prev.errors_seq(),
        cur.initial_indices() == prev.initial_indices(),
    ensures
        cur.wf(),
{
    let moved = prev.queued()[0];
    let fl = prev.inflight().len() as int;
    assert(forall|p: int|
        0 <= p < cur.queued().len() ==> #[trigger] cur.queued()[p] == prev.queued()[p + 1]);
    assert(forall|p: int| 0 <= p < fl ==> #[trigger] cur.inflight()[p] == prev.inflight()[p]);
    assert(cur.inflight()[fl] == moved);
    assert(prev.queued_has(moved.index)) by {
        assert(prev.queued()[0].index == moved.index);
    }
    assert(prev.pool_count(moved.index) == if prev.initial_indices().contains(moved.index) {
        1int
    } else {
        0int
    });
    assert(!prev.inflight_has(moved.index));
    // each pool keeps distinct indices
    assert forall|i: int, j: int| 0 <= i < j < cur.queued().len() implies (
    #[trigger] cur.queued()[i]).index != (#[trigger] cur.queued()[j]).index by {
        assert(prev.queued()[i + 1].index != prev.queued()[j + 1].index);
    }
    assert forall|i: int, j: int| 0 <= i < j < cur.inflight().len() implies (
    #[trigger] cur.inflight()[i]).index != (#[trigger] cur.inflight()[j]).index by {
        if j < fl {
            assert(prev.inflight()[i].index != prev.inflight()[j].index);
        } else {
            assert(cur.inflight()[j] == moved);
            if prev.inflight()[i].index == moved.index {
                assert(prev.inflight_has(moved.index));
            }
        }
    }
    // membership before and after
    assert forall|x: u32| #[trigger]
        cur.pool_count(x) == if cur.initial_indices().contains(x) {
            1int
        } else {
            0int
        } by {
        assert(prev.pool_count(x) == if prev.initial_indices().contains(x) {
            1int
        } else {
            0int
        });
        if x == moved.index {
            assert(cur.inflight_has(x)) by {
                assert(cur.inflight()[fl].index == x);
            }
            assert(!cur.queued_has(x)) by {
                if cur.queued_has(x) {
                    let p = choose|p: int|
                        0 <= p < cur.queued().len() && (#[trigger] cur.queued()[p]).index == x;
                    assert(prev.queued()[p + 1].index == x);
                    assert(prev.queued()[0].index != prev.queued()[p + 1].index);
                }
            }
        } else {
            assert(cur.queued_has(x) == prev.queued_has(x)) by {
                if prev.queued_has(x) {
                    let p = choose|p: int|
                        0 <= p < prev.queued().len() && (#[trigger] prev.queued()[p]).index == x;
                    assert(p != 0);
                    assert(cur.queued()[p - 1].index == x);
                }
                if cur.queued_has(x) {
                    let p = choose|p: int|
                        0 <= p < cur.queued().len() && (#[trigger] cur.queued()[p]).index == x;
                    assert(prev.queued()[p + 1].index == x);
                }
            }
            assert(cur.inflight_has(x) == prev.inflight_has(x)) by {
                if prev.inflight_has(x) {
                    let p = choose|p: int|
                        0 <= p < prev.inflight().len() && (#[trigger] prev.inflight()[p]).index
                            == x;
                    assert(cur.inflight()[p].index == x);
                }
                if cur.inflight_has(x) {
                    let p = choose|p: int|
                        0 <= p < cur.inflight().len() && (#[trigger] cur.inflight()[p]).index == x;
                    if p < fl {
                        assert(prev.inflight()[p].index == x);
                    } else {
                        assert(cur.inflight()[p] == moved);
                    }
                }
            }
        }
    }
}

/// Moving in-flight position `p` (holding `index`) to the confirmed pool
/// keeps the invariant.
proof fn lemma_move_inflight_to_confirmed(prev: UploadRun, cur: UploadRun, index: u32, p: int)
    requires
        prev.wf(),
        0 <= p < prev.inflight().len(),
        prev.inflight()[p].index == index,
        cur.queued() == prev.queued(),
        cur.inflight() == prev.inflight().remove(p),
        cur.confirmed_seq() == prev.confirmed_seq().push(index),
        cur.errors_seq() == prev.errors_seq(),
        cur.initial_indices() == prev.initial_indices(),
    ensures
        cur.wf(),
{
    lemma_inflight_removal(prev, cur.inflight(), index, p);
    assert(prev.inflight_has(index)) by {
        assert(prev.inflight()[p].index == index);
    }
    let cl = prev.confirmed_seq().len() as int;
    assert(forall|q: int|
        0 <= q < cl ==> #[trigger] cur.confirmed_seq()[q] == prev.confirmed_seq()[q]);
    assert(cur.confirmed_seq()[cl] == index);
    assert(prev.pool_count(index) == if prev.initial_indices().contains(index) {
        1int
    } else {
        0int
    });
    assert(!prev.confirmed_has(index));
    assert forall|i: int, j: int|
        0 <= i < j < cur.confirmed_seq().len() implies #[trigger] cur.confirmed_seq()[i]
        != #[trigger] cur.confirmed_seq()[j] by {
        if j < cl {
            assert(prev.confirmed_seq()[i] != prev.confirmed_seq()[j]);
        } else {
            assert(cur.confirmed_seq()[j] == index);
            if prev.confirmed_seq()[i] == index {
                assert(prev.confirmed_has(index));
            }
        }
    }
    assert forall|x: u32| #[trigger]
        cur.pool_count(x) == if cur.initial_indices().contains(x) {
            1int
        } else {
            0int
        } by {
        assert(prev.pool_count(x) == if prev.initial_indices().contains(x) {
            1int
        } else {
            0int
        });
        lemma_queue_errors_membership_same(prev, cur, x);
        if x == index {
            assert(cur.confirmed_has(x)) by {
                assert(cur.confirmed_seq()[cl] == x);
            }
        } else {
            assert(cur.confirmed_has(x) == prev.confirmed_has(x)) by {
                if prev.confirmed_has(x) {
                    let q = choose|q: int|
                        0 <= q < prev.confirmed_seq().len() && prev.confirmed_seq()[q] == x;
                    assert(cur.confirmed_seq()[q] == x);
                }
                if cur.confirmed_has(x) {
                    let q = choose|q: int|
                        0 <= q < cur.confirmed_seq().len() && cur.confirmed_seq()[q] == x;
                    assert(q != cl);
                    assert(prev.confirmed_seq()[q] == x);
                }
            }
        }
    }
}

/// Moving in-flight position `p` (holding `index`) back to the queue with
/// one more attempt keeps the invariant.
proof fn lemma_move_inflight_to_queue(prev: UploadRun, cur: UploadRun, index: u32, p: int)
    requires
        prev.wf(),
        0 <= p < prev.inflight().len(),
        prev.inflight()[p].index == index,
        cur.queued().len() == prev.queued().len() + 1,
        forall|q: int| 0 <= q < prev.queued().len() ==> #[trigger] cur.queued()[q]
            == prev.queued()[q],
        cur.queued()[prev.queued().len() as int].index == index,
        cur.inflight() == prev.inflight().remove(p),
        cur.confirmed_seq() == prev.confirmed_seq(),
        cur.errors_seq() == prev.errors_seq(),
        cur.initial_indices() == prev.initial_indices(),
    ensures
        cur.wf(),
{
    lemma_inflight_removal(prev, cur.inflight(), index, p);
    assert(prev.inflight_has(index)) by {
        assert(prev.inflight()[p].index == index);
    }
    let ql = prev.queued().len() as int;
    assert(prev.pool_count(index) == if prev.initial_indices().contains(index) {
        1int
    } else {
        0int
    });
    assert(!prev.queued_has(index));
    assert forall|i: int, j: int| 0 <= i < j < cur.queued().len() implies (
    #[trigger] cur.queued()[i]).index != (#[trigger] cur.queued()[j]).index by {
        if j < ql {
            assert(prev.queued()[i].index != prev.queued()[j].index);
        } else {
            assert(cur.queued()[j].index == index);
            if prev.queued()[i].index == index {
                assert(prev.queued_has(index));
            }
        }
    }
    assert forall|x: u32| #[trigger]
        cur.pool_count(x) == if cur.initial_indices().contains(x) {
            1int
        } else {
            0int
        } by {
        assert(prev.pool_count(x) == if prev.initial_indices().contains(x) {
            1int
        } else {
            0int
        });
        lemma_confirmed_errors_membership_same(prev, cur, x);
        if x == index {
            assert(cur.queued_has(x)) by {
                assert(cur.queued()[ql].index == x);
            }
        } else {
            assert(cur.queued_has(x) == prev.queued_has(x)) by {
                if prev.queued_has(x) {
                    let q = choose|q: int|
                        0 <= q < prev.queued().len() && (#[trigger] prev.queued()[q]).index == x;
                    assert(cur.queued()[q].index == x);
                }
                if cur.queued_has(x) {
                    let q = choose|q: int|
                        0 <= q < cur.queued().len() && (#[trigger] cur.queued()[q]).index == x;
                    assert(q != ql);
                    assert(prev.queued()[q].index == x);
                }
            }
        }
    }
}

/// Moving in-flight position `p` (holding `index`) to the failures keeps
/// the invariant.
proof fn lemma_move_inflight_to_errors(prev: UploadRun, cur: UploadRun, index: u32, p: int)
    requires
        prev.wf(),
        0 <= p < prev.inflight().len(),
        prev.inflight()[p].index == index,
        cur.queued() == prev.queued(),
        cur.inflight() == prev.inflight().remove(p),
        cur.confirmed_seq() == prev.confirmed_seq(),
        cur.errors_seq().len() == prev.errors_seq().len() + 1,
        forall|q: int| 0 <= q < prev.errors_seq().len() ==> #[trigger] cur.errors_seq()[q]
            == prev.errors_seq()[q],
        cur.errors_seq()[prev.errors_seq().len() as int].0 == index,
        cur.initial_indices() == prev.initial_indices(),
    ensures
        cur.wf(),
{
    lemma_inflight_removal(prev, cur.inflight(), index, p);
    assert(prev.inflight_has(index)) by {
        assert(prev.inflight()[p].index == index);
    }
    let el = prev.errors_seq().len() as int;
    assert(prev.pool_count(index) == if prev.initial_indices().contains(index) {
        1int
    } else {
        0int
    });
    assert(!prev.errored_has(index));
    assert forall|i: int, j: int| 0 <= i < j < cur.errors_seq().len() implies (
    #[trigger] cur.errors_seq()[i]).0 != (#[trigger] cur.errors_seq()[j]).0 by {
        if j < el {
            assert(prev.errors_seq()[i].0 != prev.errors_seq()[j].0);
        } else {
            assert(cur.errors_seq()[j].0 == index);
            if prev.errors_seq()[i].0 == index {
                assert(prev.errored_has(index));
            }
        }
    }
    assert forall|x: u32| #[trigger]
        cur.pool_count(x) == if cur.initial_indices().contains(x) {
            1int
        } else {
            0int
        } by {
        assert(prev.pool_count(x) == if prev.initial_indices().contains(x) {
            1int
        } else {
            0int
        });
        lemma_queue_confirmed_membership_same(prev, cur, x);
        if x == index {
            assert(cur.errored_has(x)) by {
                assert(cur.errors_seq()[el].0 == x);
            }
        } else {
            assert(cur.errored_has(x) == prev.errored_has(x)) by {
                if prev.errored_has(x) {
                    let q = choose|q: int|
                        0 <= q < prev.errors_seq().len() && (#[trigger] prev.errors_seq()[q]).0
                            == x;
                    assert(cur.errors_seq()[q].0 == x);
                }
                if cur.errored_has(x) {
                    let q = choose|q: int|
                        0 <= q < cur.errors_seq().len() && (#[trigger] cur.errors_seq()[q]).0 == x;
                    assert(q != el);
                    assert(prev.errors_seq()[q].0 == x);
                }
            }
        }
    }
}

/// What removing in-flight position `p` does to the pool: its indices stay
/// distinct, `index` leaves, every other index stays.
proof fn lemma_inflight_removal(prev: UploadRun, after: Seq<PendingWrite>, index: u32, p: int)
    requires
        prev.wf(),
        0 <= p < prev.inflight().len(),
        prev.inflight()[p].index == index,
        after == prev.inflight().remove(p),
    ensures
        forall|i: int, j: int|
            0 <= i < j < after.len() ==> (#[trigger] after[i]).index != (#[trigger] after[j]).index,
        !(exists|i: int| 0 <= i < after.len() && (#[trigger] after[i]).index == index),
        forall|x: u32|
            x != index ==> ((exists|i: int|
                0 <= i < after.len() && (#[trigger] after[i]).index == x) <==> prev.inflight_has(
                x,
            )),
{
    let fl = prev.inflight().len() as int;
    assert(forall|q: int| 0 <= q < p ==> #[trigger] after[q] == prev.inflight()[q]);
    assert(forall|q: int| p <= q < fl - 1 ==> #[trigger] after[q] == prev.inflight()[q + 1]);
    assert forall|i: int, j: int| 0 <= i < j < after.len() implies (#[trigger] after[i]).index != (
    #[trigger] after[j]).index by {
        let i0 = if i < p {
            i
        } else {
            i + 1
        };
        let j0 = if j < p {
            j
        } else {
            j + 1
        };
        assert(prev.inflight()[i0].index != prev.inflight()[j0].index);
    }
    assert forall|i: int| 0 <= i < after.len() implies (#[trigger] after[i]).index != index by {
        let i0 = if i < p {
            i
        } else {
            i + 1
        };
        if prev.inflight()[i0].index == index {
            assert(prev.inflight()[i0].index == prev.inflight()[p].index);
            if i0 < p {
                assert(prev.inflight()[i0].index != prev.inflight()[p].index);
            } else {
                assert(prev.inflight()[p].index != prev.inflight()[i0].index);
            }
        }
    }
    assert forall|x: u32| x != index implies ((exists|i: int|
        0 <= i < after.len() && (#[trigger] after[i]).index == x) <==> prev.inflight_has(x)) by {
        if exists|i: int| 0 <= i < after.len() && (#[trigger] after[i]).index == x {
            let i = choose|i: int| 0 <= i < after.len() && (#[trigger] after[i]).index == x;
            let i0 = if i < p {
                i
            } else {
                i + 1
            };
            assert(prev.inflight()[i0].index == x);
        }
        if prev.inflight_has(x) {
            let i0 = choose|i0: int|
                0 <= i0 < prev.inflight().len() && (#[trigger] prev.inflight()[i0]).index == x;
            assert(i0 != p);
            let i = if i0 < p {
                i0
            } else {
                i0 - 1
            };
            assert(after[i].index == x);
        }
    }
}

/// Queue and failure pools unchanged: membership unchanged.
proof fn lemma_queue_errors_membership_same(prev: UploadRun, cur: UploadRun, x: u32)
    requires
        cur.queued() == prev.queued(),
        cur.errors_seq() == prev.errors_seq(),
    ensures
        cur.queued_has(x) == prev.queued_has(x),
        cur.errored_has(x) == prev.errored_has(x),
{
    if prev.queued_has(x) {
        let p = choose|p: int|
            0 <= p < prev.queued().len() && (#[trigger] prev.queued()[p]).index == x;
        assert(cur.queued()[p].index == x);
    }
    if cur.queued_has(x) {
        let p = choose|p: int|
            0 <= p < cur.queued().len() && (#[trigger] cur.queued()[p]).index == x;
        assert(prev.queued()[p].index == x);
    }
    if prev.errored_has(x) {
        let p = choose|p: int|
            0 <= p < prev.errors_seq().len() && (#[trigger] prev.errors_seq()[p]).0 == x;
        assert(cur.errors_seq()[p].0 == x);
    }
    if cur.errored_has(x) {
        let p = choose|p: int|
            0 <= p < cur.errors_seq().len() && (#[trigger] cur.errors_seq()[p]).0 == x;
        assert(prev.errors_seq()[p].0 == x);
    }
}

/// Confirmed and failure pools unchanged: membership unchanged.
proof fn lemma_confirmed_errors_membership_same(prev: UploadRun, cur: UploadRun, x: u32)
    requires
        cur.confirmed_seq() == prev.confirmed_seq(),
        cur.errors_seq() == prev.errors_seq(),
    ensures
        cur.confirmed_has(x) == prev.confirmed_has(x),
        cur.errored_has(x) == prev.errored_has(x),
{
    if prev.errored_has(x) {
        let p = choose|p: int|
            0 <= p < prev.errors_seq().len() && (#[trigger] prev.errors_seq()[p]).0 == x;
        assert(cur.errors_seq()[p].0 == x);
    }
    if cur.errored_has(x) {
        let p = choose|p: int|
            0 <= p < cur.errors_seq().len() && (#[trigger] cur.errors_seq()[p]).0 == x;
        assert(prev.errors_seq()[p].0 == x);
    }
}

/// Queue and confirmed pools unchanged: membership unchanged.
proof fn lemma_queue_confirmed_membership_same(prev: UploadRun, cur: UploadRun, x: u32)
    requires
        cur.queued() == prev.queued(),
        cur.confirmed_seq() == prev.confirmed_seq(),
    ensures
        cur.queued_has(x) == prev.queued_has(x),
        cur.confirmed_has(x) == prev.confirmed_has(x),
{
    if prev.queued_has(x) {
        let p = choose|p: int|
            0 <= p < prev.queued().len() && (#[trigger] prev.queued()[p]).index == x;
        assert(cur.queued()[p].index == x);
    }
    if cur.queued_has(x) {
        let p = choose|p: int|
            0 <= p < cur.queued().len() && (#[trigger] cur.queued()[p]).index == x;
        assert(prev.queued()[p].index == x);
    }
}

/// A finished, uncancelled run with no recorded failure confirmed exactly
/// the indices it was started with: repeated reinvocation therefore drives
/// every index to the confirmed state once each write eventually succeeds.
pub proof fn lemma_clean_run_confirms_everything(run: UploadRun)
    requires
        run.wf(),
        run.inflight().len() == 0,
        run.queued().len() == 0,
        run.errors_seq().len() == 0,
    ensures
        forall|x: u32| #[trigger] run.initial_indices().contains(x) <==> run.confirmed_has(x),
{
    assert forall|x: u32| #[trigger]
        run.initial_indices().contains(x) <==> run.confirmed_has(x) by {
        assert(run.pool_count(x) == if run.initial_indices().contains(x) {
            1int
        } else {
            0int
        });
        assert(!run.queued_has(x));
        assert(!run.inflight_has(x));
        assert(!run.errored_has(x));
    }
}

/// Once a run is cancelled, what is confirmed can only ever grow by the
/// writes that were already in flight at that moment: the queue never
/// shrinks again and nothing new is dispatched.
pub proof fn lemma_cancelled_run_confirms_at_most_inflight(run: UploadRun, x: u32)
    requires
        run.wf(),
        run.confirmed_has(x) || run.inflight_has(x),
    ensures
        run.initial_indices().contains(x),
        !run.queued_has(x),
{
    assert(run.pool_count(x) == if run.initial_indices().contains(x) {
        1int
    } else {
        0int
    });
}

} // verus!
