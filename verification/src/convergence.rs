//! Convergence tracking for batched Newton-Raphson sweeps.
//!
//! When many parameter points of the same circuit are iterated in a batch,
//! each point converges (or fails) on its own schedule.  The tracker records a
//! terminal status per point so that finished points can be skipped, either by
//! masking or by compacting the active points into a dense sub-cohort.
//!
//! The tracker maintains two invariants: the cached active count always
//! equals the number of `Active` entries, and a transition out of `Active` is
//! terminal (`Converged`, `Failed` and `Singular` are never left again).

use vstd::prelude::*;

verus! {

/// Convergence status for a single sweep point.
#[derive(Debug, Clone, Copy, PartialEq, Eq, Structural)]
pub enum ConvergenceStatus {
    /// Point is still iterating (not yet converged).
    Active,
    /// Point has converged successfully.
    Converged,
    /// Point failed to converge within the iteration limit.
    Failed,
    /// Point was singular (matrix not invertible).
    Singular,
}

impl ConvergenceStatus {
    /// Returns true if this point needs more iterations.
    pub fn is_active(&self) -> (r: bool)
        ensures
            r == (*self is Active),
    {
        matches!(self, ConvergenceStatus::Active)
    }

    /// Returns true if this point has finished (converged, failed, or singular).
    pub fn is_finished(&self) -> (r: bool)
        ensures
            r == !(*self is Active),
    {
        !self.is_active()
    }

    /// Returns true if this point converged successfully.
    pub fn is_converged(&self) -> (r: bool)
        ensures
            r == (*self is Converged),
    {
        matches!(self, ConvergenceStatus::Converged)
    }
}

/// Number of entries of `s` that equal `t`.
pub open spec fn count_status(s: Seq<ConvergenceStatus>, t: ConvergenceStatus) -> nat
    decreases s.len(),
{
    if s.len() == 0 {
        0
    } else {
        count_status(s.drop_last(), t) + (if s.last() == t {
            1nat
        } else {
            0nat
        })
    }
}

proof fn lemma_count_le_len(s: Seq<ConvergenceStatus>, t: ConvergenceStatus)
    ensures
        count_status(s, t) <= s.len(),
    decreases s.len(),
{
    if s.len() > 0 {
        lemma_count_le_len(s.drop_last(), t);
    }
}

proof fn lemma_count_take_step(s: Seq<ConvergenceStatus>, t: ConvergenceStatus, i: int)
    requires
        0 <= i < s.len(),
    ensures
        count_status(s.take(i + 1), t) == count_status(s.take(i), t) + (if s[i] == t {
            1int
        } else {
            0int
        }),
{
    assert(s.take(i + 1).drop_last() =~= s.take(i));
    assert(s.take(i + 1).last() == s[i]);
}

proof fn lemma_count_take_all(s: Seq<ConvergenceStatus>, t: ConvergenceStatus)
    ensures
        count_status(s.take(s.len() as int), t) == count_status(s, t),
{
    assert(s.take(s.len() as int) =~= s);
}

proof fn lemma_count_pos(s: Seq<ConvergenceStatus>, t: ConvergenceStatus, i: int)
    requires
        0 <= i < s.len(),
        s[i] == t,
    ensures
        count_status(s, t) >= 1,
    decreases s.len(),
{
    if i < s.len() - 1 {
        lemma_count_pos(s.drop_last(), t, i);
    }
}

proof fn lemma_count_update(s: Seq<ConvergenceStatus>, t: ConvergenceStatus, i: int, v: ConvergenceStatus)
    requires
        0 <= i < s.len(),
    ensures
        count_status(s.update(i, v), t) == count_status(s, t) + (if v == t {
            1int
        } else {
            0int
        }) - (if s[i] == t {
            1int
        } else {
            0int
        }),
    decreases s.len(),
{
    if i == s.len() - 1 {
        assert(s.update(i, v).drop_last() =~= s.drop_last());
        assert(s.update(i, v).last() == v);
    } else {
        assert(s.update(i, v).drop_last() =~= s.drop_last().update(i, v));
        assert(s.update(i, v).last() == s.last());
        lemma_count_update(s.drop_last(), t, i, v);
    }
}

/// Every entry has exactly one of the four statuses, so the per-status counts
/// partition the batch.
pub proof fn lemma_status_partition(s: Seq<ConvergenceStatus>)
    ensures
        count_status(s, ConvergenceStatus::Active) + count_status(s, ConvergenceStatus::Converged)
            + count_status(s, ConvergenceStatus::Failed) + count_status(
            s,
            ConvergenceStatus::Singular,
        ) == s.len(),
    decreases s.len(),
{
    if s.len() > 0 {
        lemma_status_partition(s.drop_last());
    }
}

/// In a consistent tracker the whole batch is accounted for: the cached
/// active count plus the converged, failed and singular counts equals the
/// batch size.
pub proof fn lemma_tracker_accounting(t: &ConvergenceTracker)
    requires
        t.wf(),
    ensures
        t.spec_active_count() + count_status(t.statuses(), ConvergenceStatus::Converged)
            + count_status(t.statuses(), ConvergenceStatus::Failed) + count_status(
            t.statuses(),
            ConvergenceStatus::Singular,
        ) == t.statuses().len(),
{
    lemma_status_partition(t.statuses());
}

/// Tracks convergence status for a batch of sweep points.
///
/// This is the main type for managing early termination in batched
/// Newton-Raphson solves.
#[derive(Debug, Clone)]
pub struct ConvergenceTracker {
    /// Status of each point.
    status: Vec<ConvergenceStatus>,
    /// Iteration count for each point.
    iterations: Vec<u32>,
    /// Maximum allowed iterations.
    max_iterations: u32,
    /// Number of currently active (unconverged) points.
    active_count: usize,
}

impl ConvergenceTracker {
    /// The statuses of all points, in index order.
    pub closed spec fn statuses(&self) -> Seq<ConvergenceStatus> {
        self.status@
    }

    /// The iteration counts of all points, in index order.
    pub closed spec fn iters(&self) -> Seq<u32> {
        self.iterations@
    }

    /// The iteration limit.
    pub closed spec fn max_iters(&self) -> u32 {
        self.max_iterations
    }

    /// The cached count of active points.
    pub closed spec fn spec_active_count(&self) -> nat {
        self.active_count as nat
    }

    /// Internal consistency: one iteration counter per point, and the cached
    /// active count equals the number of `Active` entries.
    pub open spec fn wf(&self) -> bool {
        &&& self.iters().len() == self.statuses().len()
        &&& self.spec_active_count() == count_status(self.statuses(), ConvergenceStatus::Active)
    }

    /// Create a new convergence tracker for the given batch size.
    ///
    /// All points start as `Active` with zero iterations.
    pub fn new(batch_size: usize) -> (r: Self)
        ensures
            r.wf(),
            r.statuses() == Seq::new(batch_size as nat, |i: int| ConvergenceStatus::Active),
            r.iters() == Seq::new(batch_size as nat, |i: int| 0u32),
            r.max_iters() == 50u32,
            r.spec_active_count() == batch_size,
    {
        Self::with_max_iterations(batch_size, 50)
    }

    /// Create a new convergence tracker with a custom iteration limit.
    pub fn with_max_iterations(batch_size: usize, max_iterations: u32) -> (r: Self)
        ensures
            r.wf(),
            r.statuses() == Seq::new(batch_size as nat, |i: int| ConvergenceStatus::Active),
            r.iters() == Seq::new(batch_size as nat, |i: int| 0u32),
            r.max_iters() == max_iterations,
            r.spec_active_count() == batch_size,
    {
        let status: Vec<ConvergenceStatus> = vec![ConvergenceStatus::Active; batch_size];
        let iterations: Vec<u32> = vec![0u32; batch_size];
        proof {
            lemma_count_all_active(status@);
            assert(status@ =~= Seq::new(batch_size as nat, |i: int| ConvergenceStatus::Active));
            assert(iterations@ =~= Seq::new(batch_size as nat, |i: int| 0u32));
        }
        Self { status, iterations, max_iterations, active_count: batch_size }
    }

    /// Total number of points in the batch.
    pub fn batch_size(&self) -> (r: usize)
        ensures
            r == self.statuses().len(),
    {
        self.status.len()
    }

    /// Number of currently active (unconverged) points.
    pub fn active_count(&self) -> (r: usize)
        ensures
            r == self.spec_active_count(),
    {
        self.active_count
    }

    /// Number of converged points.
    pub fn converged_count(&self) -> (r: usize)
        ensures
            r == count_status(self.statuses(), ConvergenceStatus::Converged),
    {
        let n = self.status.len();
        let mut count: usize = 0;
        let mut i: usize = 0;
        proof {
            assert(self.statuses().take(0) =~= Seq::<ConvergenceStatus>::empty());
        }
        while i < n
            invariant
                i <= n,
                n == self.statuses().len(),
                count == count_status(self.statuses().take(i as int), ConvergenceStatus::Converged),
                count <= i,
            decreases n - i,
        {
            proof {
                lemma_count_take_step(self.statuses(), ConvergenceStatus::Converged, i as int);
            }
            if self.status[i].is_converged() {
                count = count + 1;
            }
            i = i + 1;
        }
        proof {
            lemma_count_take_all(self.statuses(), ConvergenceStatus::Converged);
        }
        count
    }

    /// Number of failed points (failed to converge, or singular).
    pub fn failed_count(&self) -> (r: usize)
        ensures
            r == count_status(self.statuses(), ConvergenceStatus::Failed) + count_status(
                self.statuses(),
                ConvergenceStatus::Singular,
            ),
    {
        let n = self.status.len();
        let mut count: usize = 0;
        let mut i: usize = 0;
        proof {
            assert(self.statuses().take(0) =~= Seq::<ConvergenceStatus>::empty());
            lemma_count_le_len(self.statuses(), ConvergenceStatus::Failed);
            lemma_count_le_len(self.statuses(), ConvergenceStatus::Singular);
        }
        while i < n
            invariant
                i <= n,
                n == self.statuses().len(),
                count == count_status(self.statuses().take(i as int), ConvergenceStatus::Failed)
                    + count_status(self.statuses().take(i as int), ConvergenceStatus::Singular),
                count <= i,
            decreases n - i,
        {
            proof {
                lemma_count_take_step(self.statuses(), ConvergenceStatus::Failed, i as int);
                lemma_count_take_step(self.statuses(), ConvergenceStatus::Singular, i as int);
            }
            if matches!(self.status[i], ConvergenceStatus::Failed | ConvergenceStatus::Singular) {
                count = count + 1;
            }
            i = i + 1;
        }
        proof {
            lemma_count_take_all(self.statuses(), ConvergenceStatus::Failed);
            lemma_count_take_all(self.statuses(), ConvergenceStatus::Singular);
        }
        count
    }

    /// Check if all points have finished (none active).
    pub fn all_finished(&self) -> (r: bool)
        ensures
            r == (self.spec_active_count() == 0),
    {
        self.active_count == 0
    }

    /// Get the status of a specific point.
    pub fn status(&self, index: usize) -> (r: ConvergenceStatus)
        requires
            index < self.statuses().len(),
        ensures
            r == self.statuses()[index as int],
    {
        self.status[index]
    }

    /// Get the iteration count for a specific point.
    pub fn iterations(&self, index: usize) -> (r: u32)
        requires
            index < self.iters().len(),
        ensures
            r == self.iters()[index as int],
    {
        self.iterations[index]
    }

    /// Mark a point as converged.
    ///
    /// Returns true if the point was previously active; a point that has
    /// already finished is left unchanged.
    pub fn mark_converged(&mut self, index: usize) -> (r: bool)
        requires
            old(self).wf(),
            index < old(self).statuses().len(),
        ensures
            final(self).wf(),
            r == (old(self).statuses()[index as int] is Active),
            r ==> final(self).statuses() == old(self).statuses().update(
                index as int,
                ConvergenceStatus::Converged,
            ) && final(self).spec_active_count() == old(self).spec_active_count() - 1,
            !r ==> *final(self) == *old(self),
            final(self).iters() == old(self).iters(),
            final(self).max_iters() == old(self).max_iters(),
    {
        self.mark_terminal(index, ConvergenceStatus::Converged)
    }

    /// Mark a point as failed (exceeded the iteration limit).
    ///
    /// Returns true if the point was previously active.
    pub fn mark_failed(&mut self, index: usize) -> (r: bool)
        requires
            old(self).wf(),
            index < old(self).statuses().len(),
        ensures
            final(self).wf(),
            r == (old(self).statuses()[index as int] is Active),
            r ==> final(self).statuses() == old(self).statuses().update(
                index as int,
                ConvergenceStatus::Failed,
            ) && final(self).spec_active_count() == old(self).spec_active_count() - 1,
            !r ==> *final(self) == *old(self),
            final(self).iters() == old(self).iters(),
            final(self).max_iters() == old(self).max_iters(),
    {
        self.mark_terminal(index, ConvergenceStatus::Failed)
    }

    /// Mark a point as singular (matrix not invertible).
    ///
    /// Returns true if the point was previously active.
    pub fn mark_singular(&mut self, index: usize) -> (r: bool)
        requires
            old(self).wf(),
            index < old(self).statuses().len(),
        ensures
            final(self).wf(),
            r == (old(self).statuses()[index as int] is Active),
            r ==> final(self).statuses() == old(self).statuses().update(
                index as int,
                ConvergenceStatus::Singular,
            ) && final(self).spec_active_count() == old(self).spec_active_count() - 1,
            !r ==> *final(self) == *old(self),
            final(self).iters() == old(self).iters(),
            final(self).max_iters() == old(self).max_iters(),
    {
        self.mark_terminal(index, ConvergenceStatus::Singular)
    }

    /// Move an active point to the given terminal status.
    fn mark_terminal(&mut self, index: usize, terminal: ConvergenceStatus) -> (r: bool)
        requires
            old(self).wf(),
            index < old(self).statuses().len(),
            !(terminal is Active),
        ensures
            final(self).wf(),
            r == (old(self).statuses()[index as int] is Active),
            r ==> final(self).statuses() == old(self).statuses().update(index as int, terminal)
                && final(self).spec_active_count() == old(self).spec_active_count() - 1,
            !r ==> *final(self) == *old(self),
            final(self).iters() == old(self).iters(),
            final(self).max_iters() == old(self).max_iters(),
    {
        if self.status[index].is_active() {
            proof {
                lemma_count_pos(self.statuses(), ConvergenceStatus::Active, index as int);
                lemma_count_update(
                    self.statuses(),
                    ConvergenceStatus::Active,
                    index as int,
                    terminal,
                );
            }
            self.status.set(index, terminal);
            self.active_count = self.active_count - 1;
            true
        } else {
            false
        }
    }
}

/// Status of a point after one iteration is charged to it: an active point
/// whose new count reaches the limit is marked failed.
pub open spec fn stepped_status(s: ConvergenceStatus, it: u32, max: u32) -> ConvergenceStatus {
    if s is Active && it + 1 >= max {
        ConvergenceStatus::Failed
    } else {
        s
    }
}

impl ConvergenceTracker {
    /// Increment the iteration count for a point.
    ///
    /// If the new count reaches the iteration limit while the point is still
    /// active, the point is marked as failed.  Returns the new count.
    pub fn increment_iteration(&mut self, index: usize) -> (r: u32)
        requires
            old(self).wf(),
            index < old(self).statuses().len(),
            old(self).iters()[index as int] < u32::MAX,
        ensures
            final(self).wf(),
            r == old(self).iters()[index as int] + 1,
            final(self).iters() == old(self).iters().update(index as int, r),
            final(self).statuses() == old(self).statuses().update(
                index as int,
                stepped_status(
                    old(self).statuses()[index as int],
                    old(self).iters()[index as int],
                    old(self).max_iters(),
                ),
            ),
            final(self).max_iters() == old(self).max_iters(),
            final(self).spec_active_count() == old(self).spec_active_count() - (
            if old(self).statuses()[index as int] is Active && old(self).iters()[index as int] + 1
                >= old(self).max_iters() {
                1int
            } else {
                0int
            }),
    {
        let it = self.iterations[index] + 1;
        self.iterations.set(index, it);
        if it >= self.max_iterations && self.status[index].is_active() {
            self.mark_failed(index);
        }
        proof {
            assert(final(self).statuses() =~= old(self).statuses().update(
                index as int,
                stepped_status(
                    old(self).statuses()[index as int],
                    old(self).iters()[index as int],
                    old(self).max_iters(),
                ),
            ));
        }
        it
    }

    /// Increment the iteration count for every active point.
    ///
    /// Points whose count reaches the iteration limit are marked as failed.
    pub fn increment_all_active(&mut self)
        requires
            old(self).wf(),
            forall|i: int|
                0 <= i < old(self).statuses().len() && old(self).statuses()[i] is Active ==> old(
                    self,
                ).iters()[i] < u32::MAX,
        ensures
            final(self).wf(),
            final(self).statuses().len() == old(self).statuses().len(),
            final(self).iters().len() == old(self).iters().len(),
            final(self).max_iters() == old(self).max_iters(),
            forall|i: int|
                0 <= i < old(self).statuses().len() ==> final(self).statuses()[i] == stepped_status(
                    old(self).statuses()[i],
                    old(self).iters()[i],
                    old(self).max_iters(),
                ),
            forall|i: int|
                0 <= i < old(self).iters().len() ==> final(self).iters()[i] == (
                if old(self).statuses()[i] is Active {
                    (old(self).iters()[i] + 1) as u32
                } else {
                    old(self).iters()[i]
                }),
    {
        let ghost os = old(self).statuses();
        let ghost oi = old(self).iters();
        let n = self.status.len();
        let mut i: usize = 0;
        while i < n
            invariant
                i <= n,
                self.wf(),
                self.statuses().len() == n,
                self.iters().len() == n,
                os.len() == n,
                oi.len() == n,
                self.max_iters() == old(self).max_iters(),
                forall|j: int| 0 <= j < n && os[j] is Active ==> oi[j] < u32::MAX,
                forall|j: int| i <= j < n ==> self.statuses()[j] == os[j],
                forall|j: int| i <= j < n ==> self.iters()[j] == oi[j],
                forall|j: int|
                    0 <= j < i ==> self.statuses()[j] == stepped_status(
                        os[j],
                        oi[j],
                        old(self).max_iters(),
                    ),
                forall|j: int|
                    0 <= j < i ==> self.iters()[j] == (if os[j] is Active {
                        (oi[j] + 1) as u32
                    } else {
                        oi[j]
                    }),
            decreases n - i,
        {
            if self.status[i].is_active() {
                self.increment_iteration(i);
            }
            i = i + 1;
        }
    }
}

/// True when `st` is selected by the three flags; `Failed` and `Singular`
/// are always selected together.
pub open spec fn status_selected(
    st: ConvergenceStatus,
    want_active: bool,
    want_converged: bool,
    want_failed: bool,
) -> bool {
    match st {
        ConvergenceStatus::Active => want_active,
        ConvergenceStatus::Converged => want_converged,
        ConvergenceStatus::Failed => want_failed,
        ConvergenceStatus::Singular => want_failed,
    }
}

/// The indices listed in `r` are exactly the indices of `s` whose status is
/// selected by the flags, in increasing order.
pub open spec fn lists_indices_with(
    s: Seq<ConvergenceStatus>,
    want_active: bool,
    want_converged: bool,
    want_failed: bool,
    r: Seq<usize>,
) -> bool {
    &&& forall|k: int|
        0 <= k < r.len() ==> r[k] < s.len() && status_selected(
            s[r[k] as int],
            want_active,
            want_converged,
            want_failed,
        )
    &&& forall|i: int|
        0 <= i < s.len() && status_selected(s[i], want_active, want_converged, want_failed)
            ==> r.contains(i as usize)
    &&& forall|k: int, l: int| 0 <= k < l < r.len() ==> r[k] < r[l]
}

impl ConvergenceTracker {
    /// Collect the indices whose status is selected by the flags, in
    /// increasing order.
    fn indices_with(&self, want_active: bool, want_converged: bool, want_failed: bool) -> (r: Vec<
        usize,
    >)
        ensures
            lists_indices_with(self.statuses(), want_active, want_converged, want_failed, r@),
    {
        let n = self.status.len();
        let mut r: Vec<usize> = Vec::new();
        let mut i: usize = 0;
        while i < n
            invariant
                i <= n,
                n == self.statuses().len(),
                forall|k: int|
                    0 <= k < r@.len() ==> r@[k] < i && status_selected(
                        self.statuses()[r@[k] as int],
                        want_active,
                        want_converged,
                        want_failed,
                    ),
                forall|j: int|
                    0 <= j < i && status_selected(
                        self.statuses()[j],
                        want_active,
                        want_converged,
                        want_failed,
                    ) ==> r@.contains(j as usize),
                forall|k: int, l: int| 0 <= k < l < r@.len() ==> r@[k] < r@[l],
            decreases n - i,
        {
            let s = self.status[i];
            let take = match s {
                ConvergenceStatus::Active => want_active,
                ConvergenceStatus::Converged => want_converged,
                ConvergenceStatus::Failed => want_failed,
                ConvergenceStatus::Singular => want_failed,
            };
            let ghost r_before = r@;
            if take {
                r.push(i);
                proof {
                    assert(r@[r_before.len() as int] == i as usize);
                    assert(r@.contains(i as usize));
                }
            }
            proof {
                assert forall|j: int|
                    0 <= j < i + 1 && status_selected(
                        self.statuses()[j],
                        want_active,
                        want_converged,
                        want_failed,
                    ) implies #[trigger] r@.contains(j as usize) by {
                    if j < i {
                        assert(r_before.contains(j as usize));
                        let k = choose|k: int|
                            0 <= k < r_before.len() && r_before[k] == j as usize;
                        assert(r@[k] == j as usize);
                    } else {
                        assert(r@.contains(i as usize));
                    }
                }
            }
            i = i + 1;
        }
        r
    }

    /// Get the indices of all active (unconverged) points, in increasing
    /// order.
    ///
    /// This is the masking strategy's work list: only these points are
    /// processed in the next iteration while the batch keeps its full width.
    pub fn active_indices(&self) -> (r: Vec<usize>)
        ensures
            lists_indices_with(self.statuses(), true, false, false, r@),
    {
        self.indices_with(true, false, false)
    }

    /// Get the indices of all converged points, in increasing order.
    pub fn converged_indices(&self) -> (r: Vec<usize>)
        ensures
            lists_indices_with(self.statuses(), false, true, false, r@),
    {
        self.indices_with(false, true, false)
    }

    /// Get the indices of all failed or singular points, in increasing order.
    pub fn failed_indices(&self) -> (r: Vec<usize>)
        ensures
            lists_indices_with(self.statuses(), false, false, true, r@),
    {
        self.indices_with(false, false, true)
    }

    /// Create a boolean mask where true means active.
    ///
    /// Useful for masked execution, where finished points are skipped inside
    /// the per-iteration kernel.
    pub fn active_mask(&self) -> (r: Vec<bool>)
        ensures
            r@.len() == self.statuses().len(),
            forall|i: int| 0 <= i < r@.len() ==> r@[i] == (self.statuses()[i] is Active),
    {
        let n = self.status.len();
        let mut r: Vec<bool> = Vec::new();
        let mut i: usize = 0;
        while i < n
            invariant
                i <= n,
                n == self.statuses().len(),
                r@.len() == i,
                forall|j: int| 0 <= j < i ==> r@[j] == (self.statuses()[j] is Active),
            decreases n - i,
        {
            r.push(self.status[i].is_active());
            i = i + 1;
        }
        r
    }

    /// Create a mask of integer words where 1 means active and 0 inactive.
    ///
    /// Useful for handing the mask to a compute kernel.
    pub fn active_mask_u32(&self) -> (r: Vec<u32>)
        ensures
            r@.len() == self.statuses().len(),
            forall|i: int|
                0 <= i < r@.len() ==> r@[i] == (if self.statuses()[i] is Active {
                    1u32
                } else {
                    0u32
                }),
    {
        let n = self.status.len();
        let mut r: Vec<u32> = Vec::new();
        let mut i: usize = 0;
        while i < n
            invariant
                i <= n,
                n == self.statuses().len(),
                r@.len() == i,
                forall|j: int|
                    0 <= j < i ==> r@[j] == (if self.statuses()[j] is Active {
                        1u32
                    } else {
                        0u32
                    }),
            decreases n - i,
        {
            let v: u32 = if self.status[i].is_active() {
                1
            } else {
                0
            };
            r.push(v);
            i = i + 1;
        }
        r
    }
}

proof fn lemma_count_all_active(s: Seq<ConvergenceStatus>)
    requires
        forall|i: int| 0 <= i < s.len() ==> s[i] == ConvergenceStatus::Active,
    ensures
        count_status(s, ConvergenceStatus::Active) == s.len(),
    decreases s.len(),
{
    if s.len() > 0 {
        lemma_count_all_active(s.drop_last());
    }
}

/// Number of positions that are `Active` in `s` and selected by the mask `m`.
pub open spec fn count_newly_converged(s: Seq<ConvergenceStatus>, m: Seq<bool>) -> nat
    recommends
        s.len() == m.len(),
    decreases s.len(),
{
    if s.len() == 0 || m.len() == 0 {
        0
    } else {
        count_newly_converged(s.drop_last(), m.drop_last()) + (if s.last() is Active && m.last() {
            1nat
        } else {
            0nat
        })
    }
}

proof fn lemma_count_newly_take_step(s: Seq<ConvergenceStatus>, m: Seq<bool>, i: int)
    requires
        0 <= i < s.len(),
        s.len() == m.len(),
    ensures
        count_newly_converged(s.take(i + 1), m.take(i + 1)) == count_newly_converged(
            s.take(i),
            m.take(i),
        ) + (if s[i] is Active && m[i] {
            1int
        } else {
            0int
        }),
{
    assert(s.take(i + 1).drop_last() =~= s.take(i));
    assert(m.take(i + 1).drop_last() =~= m.take(i));
}

/// Status of a point after a convergence verdict is applied: an active point
/// with a true verdict becomes `Converged`; every other point is unchanged.
pub open spec fn converged_step(s: ConvergenceStatus, verdict: bool) -> ConvergenceStatus {
    if s is Active && verdict {
        ConvergenceStatus::Converged
    } else {
        s
    }
}

impl ConvergenceTracker {
    /// Mark as converged every point that is still active and whose entry in
    /// `converged` is true, and return the number of newly converged points.
    ///
    /// This is the bookkeeping half of a convergence check: the caller
    /// computes one verdict per point from the numerical data (solution
    /// change or residual norm against the tolerances) and hands the verdicts
    /// over as a mask.
    pub fn mark_converged_where(&mut self, converged: &Vec<bool>) -> (r: usize)
        requires
            old(self).wf(),
            converged@.len() == old(self).statuses().len(),
        ensures
            final(self).wf(),
            r == count_newly_converged(old(self).statuses(), converged@),
            final(self).statuses().len() == old(self).statuses().len(),
            forall|i: int|
                0 <= i < old(self).statuses().len() ==> final(self).statuses()[i]
                    == converged_step(old(self).statuses()[i], converged@[i]),
            final(self).iters() == old(self).iters(),
            final(self).max_iters() == old(self).max_iters(),
            final(self).spec_active_count() == old(self).spec_active_count() - r,
    {
        let ghost os = old(self).statuses();
        let ghost m = converged@;
        let n = self.status.len();
        let mut newly: usize = 0;
        let mut i: usize = 0;
        proof {
            assert(os.take(0) =~= Seq::<ConvergenceStatus>::empty());
            assert(m.take(0) =~= Seq::<bool>::empty());
        }
        while i < n
            invariant
                i <= n,
                self.wf(),
                self.statuses().len() == n,
                os.len() == n,
                m.len() == n,
                m == converged@,
                self.iters() == old(self).iters(),
                self.max_iters() == old(self).max_iters(),
                newly <= i,
                newly == count_newly_converged(os.take(i as int), m.take(i as int)),
                self.spec_active_count() == old(self).spec_active_count() - newly,
                forall|j: int| i <= j < n ==> self.statuses()[j] == os[j],
                forall|j: int|
                    0 <= j < i ==> self.statuses()[j] == converged_step(os[j], m[j]),
            decreases n - i,
        {
            proof {
                lemma_count_newly_take_step(os, m, i as int);
            }
            let ghost pre = *self;
            if converged[i] && self.status[i].is_active() {
                self.mark_converged(i);
                newly = newly + 1;
            }
            proof {
                assert forall|j: int|
                    0 <= j < i + 1 implies self.statuses()[j] == converged_step(os[j], m[j]) by {
                    if j == i {
                        if os[j] is Active && m[j] {
                            assert(self.statuses() == pre.statuses().update(
                                i as int,
                                ConvergenceStatus::Converged,
                            ));
                        } else {
                            assert(self.statuses()[j] == pre.statuses()[j]);
                        }
                    } else {
                        assert(pre.statuses()[j] == converged_step(os[j], m[j]));
                    }
                }
            }
            i = i + 1;
        }
        proof {
            assert(os.take(n as int) =~= os);
            assert(m.take(n as int) =~= m);
        }
        newly
    }
}

/// `c` holds the blocks of `data` named by `idx`, back to back: block `k` of
/// `c` is the block of `data` that starts at `idx[k] * item_size`.
pub open spec fn is_compaction<T>(data: Seq<T>, item_size: nat, idx: Seq<usize>, c: Seq<T>) -> bool {
    &&& c.len() == idx.len() * item_size
    &&& forall|k: int, j: int|
        0 <= k < idx.len() && 0 <= j < item_size ==> #[trigger] c[k * item_size + j] == data[idx[k]
            * item_size + j]
}

/// Position `p` lies inside one of the blocks named by `idx`.
pub open spec fn covered_position(p: int, item_size: nat, idx: Seq<usize>) -> bool {
    exists|k: int|
        0 <= k < idx.len() && #[trigger] idx[k] * item_size <= p < idx[k] * item_size + item_size
}

/// `e` is the full-width expansion of the compacted blocks `c`: block `k` of
/// `c` sits at `idx[k] * item_size`, and every position outside the named
/// blocks holds `default`.
pub open spec fn is_expansion<T>(
    c: Seq<T>,
    item_size: nat,
    idx: Seq<usize>,
    batch_size: nat,
    default: T,
    e: Seq<T>,
) -> bool {
    &&& e.len() == batch_size * item_size
    &&& forall|k: int, j: int|
        0 <= k < idx.len() && 0 <= j < item_size ==> #[trigger] e[idx[k] * item_size + j] == c[k
            * item_size + j]
    &&& forall|p: int|
        0 <= p < e.len() && !covered_position(p, item_size, idx) ==> e[p] == default
}

/// Compact the blocks named by `active_indices` into a contiguous buffer.
///
/// This is the compaction strategy: only active points are carried into the
/// next iteration, as a dense sub-cohort.
pub fn compact_active<T: Copy>(data: &[T], item_size: usize, active_indices: &[usize]) -> (r: Vec<
    T,
>)
    requires
        forall|k: int|
            0 <= k < active_indices@.len() ==> (active_indices@[k] + 1) * item_size
                <= data@.len(),
    ensures
        is_compaction(data@, item_size as nat, active_indices@, r@),
{
    let m = active_indices.len();
    let data_len = data.len();
    let mut r: Vec<T> = Vec::new();
    let mut k: usize = 0;
    while k < m
        invariant
            k <= m,
            m == active_indices@.len(),
            data_len == data@.len(),
            forall|k2: int|
                0 <= k2 < m ==> (active_indices@[k2] + 1) * item_size <= data@.len(),
            r@.len() == k * item_size,
            forall|k2: int, j: int|
                0 <= k2 < k && 0 <= j < item_size ==> #[trigger] r@[k2 * item_size + j] == data@[
                    active_indices@[k2] * item_size + j],
        decreases m - k,
    {
        let idx = active_indices[k];
        proof {
            assert((active_indices@[k as int] + 1) * item_size <= data@.len());
            assert((idx + 1) * item_size == idx * item_size + item_size) by (nonlinear_arith);
            assert((k + 1) * item_size == k * item_size + item_size) by (nonlinear_arith);
        }
        let offset = idx * item_size;
        let ghost r_before = r@;
        let mut j: usize = 0;
        while j < item_size
            invariant
                j <= item_size,
                m == active_indices@.len(),
                k < m,
                data_len == data@.len(),
                idx == active_indices@[k as int],
                offset == idx * item_size,
                offset + item_size <= data_len,
                r@.len() == r_before.len() + j,
                r@ == r_before + data@.subrange(offset as int, offset + j),
            decreases item_size - j,
        {
            r.push(data[offset + j]);
            proof {
                assert(r@ =~= r_before + data@.subrange(offset as int, offset + j + 1));
            }
            j = j + 1;
        }
        proof {
            assert forall|k2: int, j2: int|
                0 <= k2 < k + 1 && 0 <= j2 < item_size implies #[trigger] r@[k2 * item_size + j2]
                == data@[active_indices@[k2] * item_size + j2] by {
                if k2 < k {
                    assert((k2 + 1) * item_size <= k * item_size) by (nonlinear_arith)
                        requires 0 <= k2, k2 + 1 <= k, 0 <= item_size;
                    assert((k2 + 1) * item_size == k2 * item_size + item_size) by (nonlinear_arith);
                    assert(k2 * item_size + j2 < k * item_size);
                    assert(r@[k2 * item_size + j2] == r_before[k2 * item_size + j2]);
                } else {
                    assert(r@[k * item_size + j2] == data@.subrange(
                        offset as int,
                        offset + item_size,
                    )[j2]);
                }
            }
        }
        k = k + 1;
    }
    r
}

/// Expand compacted results back to the full batch width.
///
/// Block `k` of `compacted` is written at `active_indices[k]`, and every
/// position outside the named blocks holds `default`.
pub fn expand_active<T: Copy>(
    compacted: &[T],
    item_size: usize,
    active_indices: &[usize],
    batch_size: usize,
    default: T,
) -> (r: Vec<T>)
    requires
        batch_size * item_size <= usize::MAX,
        active_indices@.len() * item_size <= compacted@.len(),
        forall|k: int| 0 <= k < active_indices@.len() ==> active_indices@[k] < batch_size,
        forall|k: int, l: int|
            0 <= k < l < active_indices@.len() ==> active_indices@[k] != active_indices@[l],
    ensures
        is_expansion(
            compacted@,
            item_size as nat,
            active_indices@,
            batch_size as nat,
            default,
            r@,
        ),
{
    let total = batch_size * item_size;
    let mut r: Vec<T> = Vec::new();
    let mut p0: usize = 0;
    while p0 < total
        invariant
            p0 <= total,
            r@.len() == p0,
            forall|q: int| 0 <= q < p0 ==> r@[q] == default,
        decreases total - p0,
    {
        r.push(default);
        p0 = p0 + 1;
    }
    let m = active_indices.len();
    let compacted_len = compacted.len();
    let mut k: usize = 0;
    while k < m
        invariant
            k <= m,
            m == active_indices@.len(),
            compacted_len == compacted@.len(),
            m * item_size <= compacted_len,
            total == batch_size * item_size,
            r@.len() == batch_size * item_size,
            forall|k2: int| 0 <= k2 < m ==> active_indices@[k2] < batch_size,
            forall|k2: int, l: int| 0 <= k2 < l < m ==> active_indices@[k2] != active_indices@[l],
            forall|k2: int, j: int|
                0 <= k2 < k && 0 <= j < item_size ==> #[trigger] r@[active_indices@[k2] * item_size
                    + j] == compacted@[k2 * item_size + j],
            forall|p: int|
                0 <= p < r@.len() && !covered_prefix(p, item_size as nat, active_indices@, k as int)
                    ==> r@[p] == default,
        decreases m - k,
    {
        let idx = active_indices[k];
        proof {
            assert(active_indices@[k as int] < batch_size);
            assert((idx + 1) * item_size <= batch_size * item_size) by (nonlinear_arith)
                requires idx + 1 <= batch_size, 0 <= item_size;
            assert((idx + 1) * item_size == idx * item_size + item_size) by (nonlinear_arith);
            assert((k + 1) * item_size <= m * item_size) by (nonlinear_arith)
                requires k + 1 <= m, 0 <= item_size;
            assert((k + 1) * item_size == k * item_size + item_size) by (nonlinear_arith);
        }
        let dst = idx * item_size;
        let src = k * item_size;
        let ghost r_mid = r@;
        let mut j: usize = 0;
        while j < item_size
            invariant
                j <= item_size,
                m == active_indices@.len(),
                k < m,
                compacted_len == compacted@.len(),
                idx == active_indices@[k as int],
                dst == idx * item_size,
                src == k * item_size,
                dst + item_size <= r@.len(),
                src + item_size <= compacted_len,
                r@.len() <= usize::MAX,
                r@.len() == r_mid.len(),
                forall|p: int|
                    0 <= p < r@.len() && !(dst <= p < dst + j) ==> #[trigger] r@[p] == r_mid[p],
                forall|j2: int| 0 <= j2 < j ==> #[trigger] r@[dst + j2] == compacted@[src + j2],
            decreases item_size - j,
        {
            r.set(dst + j, compacted[src + j]);
            j = j + 1;
        }
        proof {
            lemma_expand_step(r_mid, r@, compacted@, item_size as nat, active_indices@, batch_size as nat, default, k as int);
        }
        k = k + 1;
    }
    proof {
        assert forall|p: int|
            0 <= p < r@.len() && !covered_position(p, item_size as nat, active_indices@)
                implies r@[p] == default by {
            assert(!covered_prefix(p, item_size as nat, active_indices@, m as int));
        }
    }
    r
}

/// Position `p` lies inside one of the first `upto` blocks named by `idx`.
pub open spec fn covered_prefix(p: int, item_size: nat, idx: Seq<usize>, upto: int) -> bool {
    exists|k: int|
        0 <= k < upto && #[trigger] idx[k] * item_size <= p < idx[k] * item_size + item_size
}

proof fn lemma_expand_step<T>(
    before: Seq<T>,
    after: Seq<T>,
    c: Seq<T>,
    item_size: nat,
    idx: Seq<usize>,
    batch_size: nat,
    default: T,
    k: int,
)
    requires
        0 <= k < idx.len(),
        idx.len() * item_size <= c.len(),
        forall|k2: int| 0 <= k2 < idx.len() ==> idx[k2] < batch_size,
        forall|k2: int, l: int| 0 <= k2 < l < idx.len() ==> idx[k2] != idx[l],
        before.len() == batch_size * item_size,
        after.len() == before.len(),
        idx[k] * item_size + item_size <= after.len(),
        forall|p: int|
            0 <= p < after.len() && !(idx[k] * item_size <= p < idx[k] * item_size + item_size)
                ==> after[p] == before[p],
        forall|j: int|
            0 <= j < item_size ==> #[trigger] after[idx[k] * item_size + j] == c[k * item_size + j],
        forall|k2: int, j: int|
            0 <= k2 < k && 0 <= j < item_size ==> #[trigger] before[idx[k2] * item_size + j] == c[
                k2 * item_size + j],
        forall|p: int|
            0 <= p < before.len() && !covered_prefix(p, item_size, idx, k) ==> before[p] == default,
    ensures
        forall|k2: int, j: int|
            0 <= k2 < k + 1 && 0 <= j < item_size ==> #[trigger] after[idx[k2] * item_size + j]
                == c[k2 * item_size + j],
        forall|p: int|
            0 <= p < after.len() && !covered_prefix(p, item_size, idx, k + 1) ==> after[p]
                == default,
{
    assert forall|k2: int, j: int|
        0 <= k2 < k + 1 && 0 <= j < item_size implies #[trigger] after[idx[k2] * item_size + j]
        == c[k2 * item_size + j] by {
        if k2 < k {
            let p = idx[k2] * item_size + j;
            assert(idx[k2] != idx[k]);
            assert((idx[k2] + 1) * item_size <= batch_size * item_size) by (nonlinear_arith)
                requires idx[k2] as int + 1 <= batch_size, 0 <= item_size;
            assert((idx[k2] + 1) * item_size == idx[k2] * item_size + item_size)
                by (nonlinear_arith);
            lemma_distinct_blocks_disjoint(idx[k2] as int, idx[k] as int, item_size, j);
            assert(after[p] == before[p]);
        }
    }
    assert forall|p: int|
        0 <= p < after.len() && !covered_prefix(p, item_size, idx, k + 1) implies after[p]
        == default by {
        assert(!(idx[k] * item_size <= p < idx[k] * item_size + item_size));
        assert(!covered_prefix(p, item_size, idx, k));
        assert(after[p] == before[p]);
    }
}

/// Blocks of distinct indices do not overlap.
proof fn lemma_distinct_blocks_disjoint(a: int, b: int, item_size: nat, j: int)
    requires
        a != b,
        0 <= j < item_size,
        0 <= a,
        0 <= b,
    ensures
        !(b * item_size <= a * item_size + j < b * item_size + item_size),
{
    if a < b {
        assert((a + 1) * item_size <= b * item_size) by (nonlinear_arith)
            requires a + 1 <= b, 0 <= item_size;
        assert((a + 1) * item_size == a * item_size + item_size) by (nonlinear_arith);
    } else {
        assert((b + 1) * item_size <= a * item_size) by (nonlinear_arith)
            requires b + 1 <= a, 0 <= item_size;
        assert((b + 1) * item_size == b * item_size + item_size) by (nonlinear_arith);
    }
}

/// Round trip of the compaction strategy: expanding a compaction restores
/// every named block of the original data, and every position outside the
/// named blocks holds the default value.
pub proof fn lemma_compact_expand_roundtrip<T>(
    data: Seq<T>,
    item_size: nat,
    idx: Seq<usize>,
    batch_size: nat,
    default: T,
    c: Seq<T>,
    e: Seq<T>,
)
    requires
        forall|k: int| 0 <= k < idx.len() ==> (idx[k] + 1) * item_size <= data.len(),
        forall|k: int, l: int| 0 <= k < l < idx.len() ==> idx[k] != idx[l],
        is_compaction(data, item_size, idx, c),
        is_expansion(c, item_size, idx, batch_size, default, e),
    ensures
        forall|k: int, j: int|
            0 <= k < idx.len() && 0 <= j < item_size ==> #[trigger] e[idx[k] * item_size + j]
                == data[idx[k] * item_size + j],
        forall|p: int|
            0 <= p < e.len() && !covered_position(p, item_size, idx) ==> e[p] == default,
{
    assert forall|k: int, j: int|
        0 <= k < idx.len() && 0 <= j < item_size implies #[trigger] e[idx[k] * item_size + j]
        == data[idx[k] * item_size + j] by {
        assert(e[idx[k] * item_size + j] == c[k * item_size + j]);
        assert(c[k * item_size + j] == data[idx[k] * item_size + j]);
    }
}

} // verus!
