//! The build trigger of a repository and the worker that waits on it.
//!
//! Deliveries raise a flag; the worker lowers it when it starts a build. Any
//! number of deliveries that arrive while a build runs leave one raised flag
//! behind, and so one more build. The flag is meant to sit behind a lock with
//! a condition to wait on; the lock and the waiting are the caller's, the
//! rules are here.

use vstd::prelude::*;

verus! {

/// The flag that says a build is due.
#[derive(Debug)]
pub struct BuildTrigger {
    pending: bool,
}

impl BuildTrigger {
    /// Whether a build is due.
    pub closed spec fn pending(&self) -> bool {
        self.pending
    }

    /// A trigger with no build due.
    pub fn new() -> (trigger: BuildTrigger)
        ensures
            !trigger.pending(),
    {
        BuildTrigger { pending: false }
    }

    /// Says that a build is due. Saying so again changes nothing.
    pub fn signal(&mut self)
        ensures
            final(self).pending(),
    {
        self.pending = true;
    }

    /// Whether a build is due.
    pub fn is_pending(&self) -> (pending: bool)
        ensures
            pending == self.pending(),
    {
        self.pending
    }

    /// Takes the flag: tells whether a build was due, and leaves none due.
    pub fn take(&mut self) -> (was_pending: bool)
        ensures
            was_pending == old(self).pending(),
            !final(self).pending(),
    {
        let was_pending = self.pending;
        self.pending = false;
        was_pending
    }
}

/// Where a worker stands.
#[derive(Clone, Copy, Debug, PartialEq, Eq, Structural)]
pub enum Phase {
    /// The worker has not begun.
    Start,
    /// The worker runs a build.
    Building,
    /// The worker waits for its trigger.
    Waiting,
}

/// What a worker does next.
#[derive(Clone, Copy, Debug, PartialEq, Eq, Structural)]
pub enum Action {
    /// Run a build, then ask again.
    Build,
    /// Wait on the trigger's condition, then ask again.
    Wait,
}

/// The worker's move: from where it stands and whether a build is due, to
/// where it stands next, whether a build is still due, and what it does.
///
/// A worker that has not begun builds, whatever the flag says, and leaves the
/// flag alone. Later it builds exactly when the flag is raised, and lowers
/// it.
pub open spec fn advance(phase: Phase, pending: bool) -> (Phase, bool, Action) {
    if phase is Start {
        (Phase::Building, pending, Action::Build)
    } else if pending {
        (Phase::Building, false, Action::Build)
    } else {
        (Phase::Waiting, false, Action::Wait)
    }
}

/// The one worker of a repository. Only the worker runs builds of its
/// repository, one at a time.
#[derive(Debug)]
pub struct Worker {
    phase: Phase,
}

impl Worker {
    /// Where the worker stands.
    pub closed spec fn phase(&self) -> Phase {
        self.phase
    }

    /// A worker that has not begun.
    pub fn new() -> (worker: Worker)
        ensures
            worker.phase() is Start,
    {
        Worker { phase: Phase::Start }
    }

    /// Where the worker stands.
    pub fn current(&self) -> (phase: Phase)
        ensures
            phase == self.phase(),
    {
        self.phase
    }

    /// Makes the worker's next move. To be called when the worker begins,
    /// when its build has ended, and when it wakes from waiting, each time
    /// with the trigger's lock held.
    pub fn next(&mut self, trigger: &mut BuildTrigger) -> (action: Action)
        ensures
            (final(self).phase(), final(trigger).pending(), action) == advance(
                old(self).phase(),
                old(trigger).pending(),
            ),
            old(self).phase() is Start ==> action is Build,
    {
        match self.phase {
            Phase::Start => {
                self.phase = Phase::Building;
                Action::Build
            },
            _ => {
                if trigger.take() {
                    self.phase = Phase::Building;
                    Action::Build
                } else {
                    self.phase = Phase::Waiting;
                    Action::Wait
                }
            },
        }
    }
}

/// A repository's trigger and worker seen from outside, with a count of the
/// builds begun and ended.
pub struct Watch {
    pub phase: Phase,
    pub pending: bool,
    pub begun: nat,
    pub ended: nat,
}

/// What happens to a trigger and its worker.
pub enum Event {
    /// A delivery signals the trigger.
    Signal,
    /// The worker makes its next move: it begins, its build has ended, or it
    /// woke from waiting.
    Move,
}

impl Watch {
    /// The state at the start of the service.
    pub open spec fn initial() -> Watch {
        Watch { phase: Phase::Start, pending: false, begun: 0, ended: 0 }
    }

    /// The number of builds that run.
    pub open spec fn running(self) -> int {
        self.begun - self.ended
    }

    /// The state after `event`.
    pub open spec fn after(self, event: Event) -> Watch {
        match event {
            Event::Signal => Watch { pending: true, ..self },
            Event::Move => {
                let (phase, pending, action) = advance(self.phase, self.pending);
                Watch {
                    phase,
                    pending,
                    begun: if action is Build {
                        self.begun + 1
                    } else {
                        self.begun
                    },
                    ended: if self.phase is Building {
                        self.ended + 1
                    } else {
                        self.ended
                    },
                }
            },
        }
    }

    /// The state after the events of `events`, in order.
    pub open spec fn after_all(self, events: Seq<Event>) -> Watch
        decreases events.len(),
    {
        if events.len() == 0 {
            self
        } else {
            self.after_all(events.drop_last()).after(events.last())
        }
    }

    /// Whether the counts agree with where the worker stands: a build runs
    /// exactly while the worker is building, and a worker that has not begun
    /// has run none.
    pub open spec fn consistent(self) -> bool {
        &&& self.ended <= self.begun
        &&& self.running() == if self.phase is Building {
            1int
        } else {
            0int
        }
        &&& self.phase is Start ==> self.begun == 0
    }
}

/// `count` signals in a row.
pub open spec fn signals(count: nat) -> Seq<Event> {
    Seq::new(count, |i: int| Event::Signal)
}

/// No event breaks the agreement between the counts and the worker's phase.
pub proof fn lemma_step_consistent(watch: Watch, event: Event)
    requires
        watch.consistent(),
    ensures
        watch.after(event).consistent(),
{
}

/// Mutual exclusion: whatever happens from the start of the service on, at
/// most one build of the repository runs at any time, and one runs exactly
/// while the worker is building.
pub proof fn lemma_one_build_at_a_time(events: Seq<Event>)
    ensures
        Watch::initial().after_all(events).consistent(),
        0 <= Watch::initial().after_all(events).running() <= 1,
    decreases events.len(),
{
    if events.len() > 0 {
        lemma_one_build_at_a_time(events.drop_last());
        lemma_step_consistent(Watch::initial().after_all(events.drop_last()), events.last());
    }
}

/// Signals only raise the flag.
pub proof fn lemma_signals(watch: Watch, count: nat)
    ensures
        watch.after_all(signals(count)) == (Watch {
            pending: watch.pending || count > 0,
            ..watch
        }),
    decreases count,
{
    if count > 0 {
        lemma_signals(watch, (count - 1) as nat);
        assert(signals(count).drop_last() =~= signals((count - 1) as nat));
    }
}

/// Coalescing: signals that arrive while a build runs, however many, make
/// exactly one more build. When the running build ends the worker begins
/// that one build, and when it ends in turn, with no signal since, the
/// worker waits.
pub proof fn lemma_signals_coalesce(watch: Watch, count: nat)
    requires
        watch.phase is Building,
        count >= 1,
    ensures
        ({
            let signalled = watch.after_all(signals(count));
            let next = signalled.after(Event::Move);
            let last = next.after(Event::Move);
            &&& signalled.begun == watch.begun
            &&& next.phase is Building
            &&& next.begun == watch.begun + 1
            &&& !next.pending
            &&& last.phase is Waiting
            &&& last.begun == watch.begun + 1
        }),
{
    lemma_signals(watch, count);
}

/// A signal that arrives while the worker waits makes one build at the
/// worker's next move. Without a signal the worker goes on waiting.
pub proof fn lemma_signal_wakes(watch: Watch)
    requires
        watch.phase is Waiting,
    ensures
        watch.after(Event::Signal).after(Event::Move).phase is Building,
        watch.after(Event::Signal).after(Event::Move).begun == watch.begun + 1,
        !watch.pending ==> watch.after(Event::Move).phase is Waiting && watch.after(
            Event::Move,
        ).begun == watch.begun,
{
}

/// Startup: the first move of a worker begins a build, whether or not any
/// delivery has arrived, and it is the first build.
pub proof fn lemma_builds_at_start(deliveries: nat)
    ensures
        Watch::initial().after(Event::Move).phase is Building,
        Watch::initial().after(Event::Move).begun == 1,
        Watch::initial().after_all(signals(deliveries)).begun == 0,
        Watch::initial().after_all(signals(deliveries)).after(Event::Move).phase is Building,
        Watch::initial().after_all(signals(deliveries)).after(Event::Move).begun == 1,
{
    lemma_signals(Watch::initial(), deliveries);
}

} // verus!
