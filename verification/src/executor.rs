//! The build of one repository: resolve where its source lies, run the build
//! tool on it, and on any failure wait and try again, each time waiting
//! longer, until a build succeeds.
//!
//! The executor decides; the caller performs each step and reports back.

use vstd::prelude::*;

verus! {

/// The wait after the first failure, in milliseconds.
pub const INITIAL_DELAY_MS: u64 = 200;

/// The longest wait between two tries, in milliseconds: thirty minutes.
pub const MAX_DELAY_MS: u64 = 1_800_000;

/// The wait that follows a wait of `delay` milliseconds: twice as long, but
/// no longer than the longest.
pub open spec fn next_delay(delay: nat) -> nat {
    if 2 * delay <= MAX_DELAY_MS {
        2 * delay
    } else {
        MAX_DELAY_MS as nat
    }
}

/// The wait, in milliseconds, after a failure that `failures` failures came
/// before.
pub open spec fn backoff_delay(failures: nat) -> nat
    decreases failures,
{
    if failures == 0 {
        INITIAL_DELAY_MS as nat
    } else {
        next_delay(backoff_delay((failures - 1) as nat))
    }
}

/// What the caller reports of the step it performed.
#[derive(Debug)]
pub enum Report {
    /// The source location was asked for: here it is, or it could not be
    /// had.
    Resolved(Option<String>),
    /// The build tool ran, and this is whether it succeeded.
    Built(bool),
    /// The wait is over.
    Slept,
}

/// What the caller is to do next.
#[derive(Debug)]
pub enum Step {
    /// Ask the forge where the source lies.
    Resolve,
    /// Run the build tool on the source at this location.
    Invoke(String),
    /// Wait this many milliseconds.
    Sleep(u64),
    /// The build succeeded: there is nothing more to do.
    Done,
}

/// Whether `report` tells of a failure, of either kind.
pub open spec fn is_failure(report: Report) -> bool {
    report == Report::Resolved(None) || report == Report::Built(false)
}

/// The executor's answer to `report` when its next wait is `delay`: the wait
/// after that, and the step to take.
///
/// A failure of either kind is answered with a wait, and makes the next one
/// longer. Nothing else changes the wait: a resolution that succeeds does
/// not set it back.
pub open spec fn answer(delay: nat, report: Report) -> (nat, Step) {
    match report {
        Report::Resolved(Some(location)) => (delay, Step::Invoke(location)),
        Report::Resolved(None) => (next_delay(delay), Step::Sleep(delay as u64)),
        Report::Built(true) => (delay, Step::Done),
        Report::Built(false) => (next_delay(delay), Step::Sleep(delay as u64)),
        Report::Slept => (delay, Step::Resolve),
    }
}

/// One build, from its first try to its success.
#[derive(Debug)]
pub struct BuildExecutor {
    delay_ms: u64,
}

impl BuildExecutor {
    #[verifier::type_invariant]
    spec fn delay_in_range(&self) -> bool {
        INITIAL_DELAY_MS <= self.delay_ms <= MAX_DELAY_MS
    }

    /// The wait, in milliseconds, that the next failure is answered with.
    pub closed spec fn delay(&self) -> nat {
        self.delay_ms as nat
    }

    /// An executor at the start of a build.
    pub fn new() -> (executor: BuildExecutor)
        ensures
            executor.delay() == backoff_delay(0),
    {
        BuildExecutor { delay_ms: INITIAL_DELAY_MS }
    }

    /// The first step of a build.
    pub fn begin(&self) -> (step: Step)
        ensures
            step == Step::Resolve,
    {
        Step::Resolve
    }

    /// The wait, in milliseconds, that the next failure is answered with.
    pub fn delay_ms(&self) -> (delay: u64)
        ensures
            delay == self.delay(),
            INITIAL_DELAY_MS <= delay <= MAX_DELAY_MS,
    {
        proof {
            use_type_invariant(self);
        }
        self.delay_ms
    }

    /// Takes the report of the step performed and says what to do next.
    pub fn advance(&mut self, report: Report) -> (step: Step)
        ensures
            (final(self).delay(), step) == answer(old(self).delay(), report),
    {
        proof {
            use_type_invariant(&*self);
        }
        match report {
            Report::Resolved(Some(location)) => Step::Invoke(location),
            Report::Built(true) => Step::Done,
            Report::Slept => Step::Resolve,
            _ => {
                let delay: u64 = self.delay_ms;
                if delay <= MAX_DELAY_MS / 2 {
                    self.delay_ms = delay * 2;
                } else {
                    self.delay_ms = MAX_DELAY_MS;
                }
                Step::Sleep(delay)
            },
        }
    }
}

/// The number of failures among `reports`.
pub open spec fn failures(reports: Seq<Report>) -> nat
    decreases reports.len(),
{
    if reports.len() == 0 {
        0
    } else if is_failure(reports.last()) {
        failures(reports.drop_last()) + 1
    } else {
        failures(reports.drop_last())
    }
}

/// The wait that an executor is at after it was given `reports`, in order,
/// from the start of a build.
pub open spec fn delay_after(reports: Seq<Report>) -> nat
    decreases reports.len(),
{
    if reports.len() == 0 {
        backoff_delay(0)
    } else {
        answer(delay_after(reports.drop_last()), reports.last()).0
    }
}

/// The waits that an executor asked for while it was given `reports`, in
/// order, from the start of a build.
pub open spec fn waits(reports: Seq<Report>) -> Seq<nat>
    decreases reports.len(),
{
    if reports.len() == 0 {
        Seq::<nat>::empty()
    } else if is_failure(reports.last()) {
        waits(reports.drop_last()).push(delay_after(reports.drop_last()))
    } else {
        waits(reports.drop_last())
    }
}

/// Every wait is at least the first and at most the longest.
pub proof fn lemma_backoff_bounds(failures: nat)
    ensures
        INITIAL_DELAY_MS <= backoff_delay(failures) <= MAX_DELAY_MS,
    decreases failures,
{
    if failures > 0 {
        lemma_backoff_bounds((failures - 1) as nat);
    }
}

/// Each wait is twice the one before, until that would pass the longest
/// wait; from then on it is the longest.
pub proof fn lemma_backoff_doubles(failures: nat)
    ensures
        backoff_delay(0) == 200,
        2 * backoff_delay(failures) <= MAX_DELAY_MS ==> backoff_delay(failures + 1) == 2
            * backoff_delay(failures),
        2 * backoff_delay(failures) > MAX_DELAY_MS ==> backoff_delay(failures + 1)
            == MAX_DELAY_MS,
{
    assert(backoff_delay(failures + 1) == next_delay(backoff_delay(failures)));
}

/// Waits never get shorter.
pub proof fn lemma_backoff_monotone(earlier: nat, later: nat)
    requires
        earlier <= later,
    ensures
        backoff_delay(earlier) <= backoff_delay(later),
    decreases later - earlier,
{
    if earlier < later {
        lemma_backoff_monotone(earlier, (later - 1) as nat);
        lemma_backoff_bounds((later - 1) as nat);
    }
}

/// The wait of an executor depends only on how many failures it was told of,
/// whichever step failed and whatever succeeded in between.
pub proof fn lemma_delay_counts_failures(reports: Seq<Report>)
    ensures
        delay_after(reports) == backoff_delay(failures(reports)),
    decreases reports.len(),
{
    if reports.len() > 0 {
        lemma_delay_counts_failures(reports.drop_last());
    }
}

/// Backoff: the waits of one build are, in order, the wait after no failure,
/// after one, after two, and so on. So they begin at 200 milliseconds, double
/// each time up to the longest wait, never get shorter and never pass thirty
/// minutes.
pub proof fn lemma_waits_back_off(reports: Seq<Report>)
    ensures
        waits(reports).len() == failures(reports),
        forall|k: int|
            0 <= k < waits(reports).len() ==> #[trigger] waits(reports)[k] == backoff_delay(
                k as nat,
            ),
        forall|k: int|
            0 <= k < waits(reports).len() ==> INITIAL_DELAY_MS <= #[trigger] waits(reports)[k]
                <= MAX_DELAY_MS,
        forall|j: int, k: int|
            0 <= j <= k < waits(reports).len() ==> #[trigger] waits(reports)[j]
                <= #[trigger] waits(reports)[k],
    decreases reports.len(),
{
    if reports.len() > 0 {
        let shorter = reports.drop_last();
        lemma_waits_back_off(shorter);
        lemma_delay_counts_failures(shorter);
    }
    assert forall|k: int| 0 <= k < waits(reports).len() implies INITIAL_DELAY_MS
        <= #[trigger] waits(reports)[k] <= MAX_DELAY_MS by {
        lemma_backoff_bounds(k as nat);
    }
    assert forall|j: int, k: int| 0 <= j <= k < waits(reports).len() implies #[trigger] waits(
        reports,
    )[j] <= #[trigger] waits(reports)[k] by {
        lemma_backoff_monotone(j as nat, k as nat);
    }
}

} // verus!
