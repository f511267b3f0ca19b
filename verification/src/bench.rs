//! The write-benchmark cycle as a state machine.
//!
//! One cycle opens a uniquely named temporary file, performs its fixed number
//! of timed write-and-sync steps, and removes the file again — also when a
//! step fails partway. The machine here holds the cycle's bookkeeping and its
//! guarantees: what the driver must do next, how the accumulated time relates
//! to the recorded per-write samples, and that no cycle reaches its end
//! without the removal of a file it created having been attempted. The driver
//! performs the actual file I/O and reports each outcome back.

use vstd::prelude::*;
use vstd::string::StringExecFns;

use crate::fmt::dec_digits;
use crate::fmt::lemma_dec_digits_injective;
use crate::fmt::u128_to_dec;
use crate::timer::Duration;
use crate::timer::MAX_STD_DURATION_NANOS;
use crate::utils::TOTAL_REFERENCE_BYTES;

verus! {

/// Which step of a write cycle failed.
#[derive(Debug, Clone, Copy, PartialEq, Eq, Structural)]
pub enum CycleError {
    /// The temporary file could not be created.
    OpenFailed,
    /// A write did not complete.
    WriteFailed,
    /// Forcing written data to stable storage did not complete.
    SyncFailed,
    /// The temporary file could not be removed.
    RemoveFailed,
}

/// Where a write cycle stands.
#[derive(Debug, Clone, Copy)]
pub enum CycleState {
    /// The temporary file is not created yet.
    Opening,
    /// `done` timed write-and-sync steps have completed; more remain.
    Writing { done: u64 },
    /// Writing is over — completed or aborted by `failure` — and the
    /// temporary file still exists.
    Removing { failure: Option<CycleError> },
    /// The cycle is over, cleanly when `failure` is `None`.
    Finished { failure: Option<CycleError> },
}

/// What the driver must do next to advance a cycle.
#[derive(Debug, Clone, Copy, PartialEq, Eq, Structural)]
pub enum CycleAction {
    /// Create the cycle's temporary file.
    OpenFile,
    /// Perform one timed write of the buffer followed by a full sync.
    WriteAndSync,
    /// Delete the temporary file.
    RemoveFile,
    /// Nothing: read the result.
    Done,
}

/// The sum of a sequence of (nanosecond) values.
pub open spec fn sum_int(s: Seq<int>) -> int
    decreases s.len(),
{
    if s.len() == 0 {
        0
    } else {
        sum_int(s.drop_last()) + s.last()
    }
}

proof fn lemma_sum_int_bound(s: Seq<int>, cap: int)
    requires
        cap >= 0,
        forall|i: int| 0 <= i < s.len() ==> 0 <= #[trigger] s[i] <= cap,
    ensures
        0 <= sum_int(s) <= s.len() * cap,
    decreases s.len(),
{
    if s.len() > 0 {
        lemma_sum_int_bound(s.drop_last(), cap);
        assert((s.len() - 1) * cap + cap == s.len() * cap) by (nonlinear_arith);
    }
}

/// The failure, if any, that a cycle in state `s` carries.
pub open spec fn phase_failure(s: CycleState) -> Option<CycleError> {
    match s {
        CycleState::Opening => None,
        CycleState::Writing { .. } => None,
        CycleState::Removing { failure } => failure,
        CycleState::Finished { failure } => failure,
    }
}

/// The action a cycle in state `s` asks of its driver.
pub open spec fn spec_next_action(s: CycleState) -> CycleAction {
    match s {
        CycleState::Opening => CycleAction::OpenFile,
        CycleState::Writing { .. } => CycleAction::WriteAndSync,
        CycleState::Removing { .. } => CycleAction::RemoveFile,
        CycleState::Finished { .. } => CycleAction::Done,
    }
}

/// Whether a progress marker is due after the write at (zero-based) index
/// `i` out of `n`: one marker roughly every two percent of the writes —
/// every `n / 50` of them, or every write when there are fewer than fifty.
pub open spec fn spec_progress_mark(i: int, n: int) -> bool
    recommends
        0 <= i < n,
{
    let every = if n / 50 == 0 {
        1int
    } else {
        n / 50
    };
    i % every == 0
}

/// One write cycle's bookkeeping: how many writes it must perform, where it
/// stands, and the write-and-sync time accumulated so far.
pub struct WriteCycle {
    n: u64,
    state: CycleState,
    elapsed: Duration,
    opened: bool,
    remove_attempted: bool,
    samples: Ghost<Seq<int>>,
}

impl WriteCycle {
    /// The number of writes this cycle performs.
    pub closed spec fn writes(&self) -> int {
        self.n as int
    }

    /// Where the cycle stands.
    pub closed spec fn phase(&self) -> CycleState {
        self.state
    }

    /// The accumulated write-and-sync time, in nanoseconds.
    pub closed spec fn elapsed_nanos(&self) -> int {
        self.elapsed@
    }

    /// The per-write time samples recorded so far, in nanoseconds, in order.
    pub closed spec fn recorded(&self) -> Seq<int> {
        self.samples@
    }

    /// Whether the cycle's temporary file was ever created.
    pub closed spec fn opened(&self) -> bool {
        self.opened
    }

    /// Whether removal of the temporary file has been attempted.
    pub closed spec fn remove_attempted(&self) -> bool {
        self.remove_attempted
    }

    /// The cycle's invariant. The accumulated time is exactly the sum of the
    /// recorded samples; a finished cycle that ever created its file has
    /// attempted the removal; a cleanly finishing cycle has recorded every
    /// write.
    pub open spec fn wf(&self) -> bool {
        &&& 1 <= self.writes() <= TOTAL_REFERENCE_BYTES
        &&& self.elapsed_nanos() == sum_int(self.recorded())
        &&& forall|i: int|
            0 <= i < self.recorded().len() ==> 0 <= #[trigger] self.recorded()[i]
                <= MAX_STD_DURATION_NANOS
        &&& self.recorded().len() <= self.writes()
        &&& match self.phase() {
            CycleState::Opening => !self.opened() && !self.remove_attempted()
                && self.recorded().len() == 0,
            CycleState::Writing { done } => self.opened() && !self.remove_attempted()
                && self.recorded().len() == done && done < self.writes(),
            CycleState::Removing { failure } => self.opened() && !self.remove_attempted() && (
            failure is None ==> self.recorded().len() == self.writes()),
            CycleState::Finished { failure } => (self.opened() ==> self.remove_attempted()) && (
            failure is None ==> self.recorded().len() == self.writes() && self.opened()),
        }
    }

    /// A fresh cycle of `n` writes, about to create its file.
    pub fn new(n: u64) -> (r: WriteCycle)
        requires
            1 <= n <= TOTAL_REFERENCE_BYTES,
        ensures
            r.wf(),
            r.phase() is Opening,
            r.writes() == n,
            r.elapsed_nanos() == 0,
            r.recorded() == Seq::<int>::empty(),
    {
        WriteCycle {
            n,
            state: CycleState::Opening,
            elapsed: Duration::zero(),
            opened: false,
            remove_attempted: false,
            samples: Ghost(Seq::empty()),
        }
    }

    /// What the driver must do next.
    pub fn next_action(&self) -> (a: CycleAction)
        ensures
            a == spec_next_action(self.phase()),
    {
        match &self.state {
            CycleState::Opening => CycleAction::OpenFile,
            CycleState::Writing { .. } => CycleAction::WriteAndSync,
            CycleState::Removing { .. } => CycleAction::RemoveFile,
            CycleState::Finished { .. } => CycleAction::Done,
        }
    }

    /// The temporary file was created.
    pub fn file_opened(&mut self)
        requires
            old(self).wf(),
            old(self).phase() is Opening,
        ensures
            final(self).wf(),
            final(self).phase() == (CycleState::Writing { done: 0 }),
            final(self).writes() == old(self).writes(),
            final(self).elapsed_nanos() == 0,
            final(self).recorded() == old(self).recorded(),
            final(self).opened(),
    {
        self.state = CycleState::Writing { done: 0 };
        self.opened = true;
    }

    /// Creating the temporary file failed: the cycle is over without a file
    /// ever existing, so there is nothing to clean up.
    pub fn open_failed(&mut self)
        requires
            old(self).wf(),
            old(self).phase() is Opening,
        ensures
            final(self).wf(),
            final(self).phase() == (CycleState::Finished {
                failure: Some(CycleError::OpenFailed),
            }),
            final(self).writes() == old(self).writes(),
            !final(self).opened(),
    {
        self.state = CycleState::Finished { failure: Some(CycleError::OpenFailed) };
    }

    /// One write-and-sync step completed, taking `d`. Accumulates the sample;
    /// after the last write the file is due for removal. Returns whether the
    /// driver should emit a progress marker, per `spec_progress_mark`.
    pub fn write_completed(&mut self, d: &Duration) -> (progress: bool)
        requires
            old(self).wf(),
            old(self).phase() is Writing,
            0 <= d@ <= MAX_STD_DURATION_NANOS,
        ensures
            final(self).wf(),
            final(self).writes() == old(self).writes(),
            final(self).opened(),
            final(self).recorded() == old(self).recorded().push(d@),
            final(self).elapsed_nanos() == old(self).elapsed_nanos() + d@,
            final(self).phase() == if old(self).recorded().len() + 1 == old(self).writes() {
                (CycleState::Removing { failure: None })
            } else {
                (CycleState::Writing { done: (old(self).recorded().len() + 1) as u64 })
            },
            progress == spec_progress_mark(old(self).recorded().len() as int, old(self).writes()),
    {
        let done: u64 = match self.state {
            CycleState::Writing { done } => done,
            _ => 0,
        };
        let every = self.n / 50;
        let divisor: u64 = if every == 0 {
            1
        } else {
            every
        };
        let progress = done % divisor == 0;
        proof {
            lemma_sum_int_bound(self.samples@, MAX_STD_DURATION_NANOS as int);
            assert(self.samples@.len() * MAX_STD_DURATION_NANOS as int + MAX_STD_DURATION_NANOS
                as int == (self.samples@.len() + 1) * MAX_STD_DURATION_NANOS as int)
                by (nonlinear_arith);
            vstd::arithmetic::mul::lemma_mul_inequality(
                self.samples@.len() as int + 1,
                self.n as int,
                MAX_STD_DURATION_NANOS as int,
            );
            vstd::arithmetic::mul::lemma_mul_inequality(
                self.n as int,
                TOTAL_REFERENCE_BYTES as int,
                MAX_STD_DURATION_NANOS as int,
            );
            assert((TOTAL_REFERENCE_BYTES as int) * (MAX_STD_DURATION_NANOS as int) < (u128::MAX
                as int));
        }
        let total = self.elapsed.as_nanos() + d.as_nanos();
        self.elapsed = Duration::from_nanos(total);
        proof {
            assert(self.samples@.push(d@).drop_last() =~= self.samples@);
        }
        self.samples = Ghost(self.samples@.push(d@));
        let next_done = done + 1;
        if next_done == self.n {
            self.state = CycleState::Removing { failure: None };
        } else {
            self.state = CycleState::Writing { done: next_done };
        }
        progress
    }

    /// A write did not complete: writing is abandoned, but the file still
    /// exists and must be removed before the cycle reports its failure.
    pub fn write_failed(&mut self)
        requires
            old(self).wf(),
            old(self).phase() is Writing,
        ensures
            final(self).wf(),
            final(self).phase() == (CycleState::Removing {
                failure: Some(CycleError::WriteFailed),
            }),
            final(self).writes() == old(self).writes(),
            final(self).recorded() == old(self).recorded(),
            final(self).elapsed_nanos() == old(self).elapsed_nanos(),
    {
        self.state = CycleState::Removing { failure: Some(CycleError::WriteFailed) };
    }

    /// A sync did not complete: as `write_failed`, with the failure recorded
    /// against the sync step.
    pub fn sync_failed(&mut self)
        requires
            old(self).wf(),
            old(self).phase() is Writing,
        ensures
            final(self).wf(),
            final(self).phase() == (CycleState::Removing {
                failure: Some(CycleError::SyncFailed),
            }),
            final(self).writes() == old(self).writes(),
            final(self).recorded() == old(self).recorded(),
            final(self).elapsed_nanos() == old(self).elapsed_nanos(),
    {
        self.state = CycleState::Removing { failure: Some(CycleError::SyncFailed) };
    }

    /// The temporary file was removed. The cycle finishes, carrying whatever
    /// failure aborted the writing, or none.
    pub fn file_removed(&mut self)
        requires
            old(self).wf(),
            old(self).phase() is Removing,
        ensures
            final(self).wf(),
            final(self).phase() == (CycleState::Finished {
                failure: phase_failure(old(self).phase()),
            }),
            final(self).writes() == old(self).writes(),
            final(self).recorded() == old(self).recorded(),
            final(self).elapsed_nanos() == old(self).elapsed_nanos(),
            final(self).remove_attempted(),
    {
        let failure = match self.state {
            CycleState::Removing { failure } => failure,
            _ => None,
        };
        self.state = CycleState::Finished { failure };
        self.remove_attempted = true;
    }

    /// Removing the temporary file failed. The attempt was made — more the
    /// cycle cannot do — and the cycle reports the earlier failure if there
    /// was one, else the failed removal itself.
    pub fn remove_failed(&mut self)
        requires
            old(self).wf(),
            old(self).phase() is Removing,
        ensures
            final(self).wf(),
            final(self).phase() == (CycleState::Finished {
                failure: Some(
                    match phase_failure(old(self).phase()) {
                        Some(e) => e,
                        None => CycleError::RemoveFailed,
                    },
                ),
            }),
            final(self).writes() == old(self).writes(),
            final(self).recorded() == old(self).recorded(),
            final(self).elapsed_nanos() == old(self).elapsed_nanos(),
            final(self).remove_attempted(),
    {
        let failure = match self.state {
            CycleState::Removing { failure: Some(e) } => e,
            _ => CycleError::RemoveFailed,
        };
        self.state = CycleState::Finished { failure: Some(failure) };
        self.remove_attempted = true;
    }

    /// The cycle's outcome: the accumulated write-and-sync time of a clean
    /// run, or the failure that ended it.
    pub fn result(&self) -> (r: Result<Duration, CycleError>)
        requires
            self.wf(),
            self.phase() is Finished,
        ensures
            phase_failure(self.phase()) is None ==> (r matches Ok(d) && d@ == self.elapsed_nanos()),
            phase_failure(self.phase()) matches Some(e) ==> r == Result::<Duration, CycleError>::Err(
                e,
            ),
    {
        match self.state {
            CycleState::Finished { failure: Some(e) } => Err(e),
            _ => Ok(self.elapsed),
        }
    }
}

/// A write cycle that has finished never leaves its temporary file behind:
/// if the file was ever created, its removal was attempted before the cycle
/// reported an outcome — a clean run and a failed one alike.
pub proof fn lemma_finished_cycle_cleans_up(c: &WriteCycle)
    requires
        c.wf(),
        c.phase() is Finished,
        c.opened(),
    ensures
        c.remove_attempted(),
{
}

/// The temporary file name for numeric suffix `suffix`: ".benchmark."
/// followed by the suffix's decimal digits.
pub open spec fn temp_name_seq(suffix: int) -> Seq<char>
    recommends
        suffix >= 0,
{
    ".benchmark."@ + dec_digits(suffix)
}

/// Builds the temporary file name for `suffix`.
pub fn temp_file_name(suffix: u32) -> (r: String)
    ensures
        r@ == temp_name_seq(suffix as int),
{
    let mut out = String::from_str(".benchmark.");
    let digits = u128_to_dec(suffix as u128);
    out.append(digits.as_str());
    out
}

/// Draws a random suffix for a temporary file name.
///
/// Relies on `fastrand::u32` over the range `99999..`: the draw lies between
/// 99999 and `u32::MAX`, both inclusive. Which value comes out depends on the
/// global generator's state, so nothing more is claimed.
#[verifier::external_body]
fn random_suffix() -> (r: u32)
    ensures
        99999 <= r,
{
    fastrand::u32(99999..)
}

/// A fresh temporary file name: ".benchmark." with a random suffix of at
/// least five digits, collision-resistant against leftover or concurrent
/// runs.
pub fn unique_temp_file_name() -> (r: String)
    ensures
        exists|s: int| 99999 <= s <= u32::MAX && r@ == temp_name_seq(s),
{
    let suffix = random_suffix();
    let r = temp_file_name(suffix);
    proof {
        assert(99999 <= suffix as int <= u32::MAX && r@ == temp_name_seq(suffix as int));
    }
    r
}

/// Distinct suffixes give distinct temporary file names: repeated cycles in
/// one process collide only if their random draws collide.
pub proof fn lemma_temp_file_name_injective(a: int, b: int)
    requires
        a >= 0,
        b >= 0,
        a != b,
    ensures
        temp_name_seq(a) != temp_name_seq(b),
{
    if temp_name_seq(a) == temp_name_seq(b) {
        let p = ".benchmark."@;
        assert(dec_digits(a) =~= temp_name_seq(a).subrange(
            p.len() as int,
            temp_name_seq(a).len() as int,
        ));
        assert(dec_digits(b) =~= temp_name_seq(b).subrange(
            p.len() as int,
            temp_name_seq(b).len() as int,
        ));
        lemma_dec_digits_injective(a, b);
        assert(false);
    }
}

} // verus!
