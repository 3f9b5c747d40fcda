//! When the next download starts: never more than the allowed number at once,
//! and never sooner after the last start than the throttle allows.

use crate::config::RunConfig;
use vstd::prelude::*;

verus! {

/// What the caller of the scheduler does next.
#[derive(Clone, Copy, Debug, PartialEq, Eq, Structural)]
pub enum Action {
    /// Start the download of the key at `index` now.
    Dispatch { index: usize },
    /// Nothing may start for `millis` milliseconds: ask again then, or when a
    /// download ends, whichever comes first.
    Wait { millis: u64 },
    /// Nothing may start until a download ends: ask again then.
    AwaitJob,
    /// Every key was dispatched and every download has ended.
    Finished,
}

/// What happens to a scheduler: it is asked what to do at the time `now`, in
/// milliseconds of a clock of the caller, or it is told that a download ended.
pub ghost enum Step {
    Poll { now: nat },
    JobDone,
}

/// What a scheduler holds.
pub ghost struct SchedulerState {
    /// The number of keys.
    pub total: nat,
    /// The number of downloads that may run at once.
    pub cap: nat,
    /// The least time between two starts, in milliseconds.
    pub throttle: nat,
    /// The number of keys dispatched: the index of the next one.
    pub next: nat,
    /// The number of downloads dispatched that have not ended.
    pub in_flight: nat,
    /// The time of the last start.
    pub last: Option<nat>,
}

impl SchedulerState {
    /// The scheduler of a run before its first start.
    pub open spec fn init(total: nat, cap: nat, throttle: nat) -> SchedulerState {
        SchedulerState { total, cap, throttle, next: 0, in_flight: 0, last: None }
    }

    /// What holds of every scheduler.
    pub open spec fn wf(self) -> bool {
        &&& self.cap > 0
        &&& self.next <= self.total
        &&& self.in_flight <= self.cap
        &&& self.in_flight <= self.next
    }

    /// A download may start as far as the keys and the cap go.
    pub open spec fn has_room(self) -> bool {
        self.next < self.total && self.in_flight < self.cap
    }

    /// The time from which the throttle lets the next download start.
    pub open spec fn ready_at(self) -> nat {
        match self.last {
            Some(t) => t + self.throttle,
            None => 0,
        }
    }

    /// A download starts at the time `now`.
    pub open spec fn dispatches(self, now: nat) -> bool {
        self.has_room() && now >= self.ready_at()
    }

    /// What the caller is told to do at the time `now`.
    pub open spec fn decide(self, now: nat) -> Action {
        if self.has_room() {
            if now >= self.ready_at() {
                Action::Dispatch { index: self.next as usize }
            } else if self.ready_at() - now > u64::MAX {
                Action::Wait { millis: u64::MAX }
            } else {
                Action::Wait { millis: (self.ready_at() - now) as u64 }
            }
        } else if self.in_flight > 0 {
            Action::AwaitJob
        } else {
            Action::Finished
        }
    }

    /// The scheduler after it was asked at the time `now`.
    pub open spec fn after_poll(self, now: nat) -> SchedulerState {
        if self.dispatches(now) {
            SchedulerState {
                next: self.next + 1,
                in_flight: self.in_flight + 1,
                last: Some(now),
                ..self
            }
        } else {
            self
        }
    }

    /// The scheduler after a download ended.
    pub open spec fn after_job(self) -> SchedulerState {
        if self.in_flight > 0 {
            SchedulerState { in_flight: (self.in_flight - 1) as nat, ..self }
        } else {
            self
        }
    }

    /// The scheduler after one step.
    pub open spec fn step(self, step: Step) -> SchedulerState {
        match step {
            Step::Poll { now } => self.after_poll(now),
            Step::JobDone => self.after_job(),
        }
    }

    /// The scheduler after the steps of `steps`, one after another.
    pub open spec fn run(self, steps: Seq<Step>) -> SchedulerState
        decreases steps.len(),
    {
        if steps.len() == 0 {
            self
        } else {
            self.run(steps.drop_last()).step(steps.last())
        }
    }

    /// The times at which downloads start along `steps`, in order.
    pub open spec fn dispatch_times(self, steps: Seq<Step>) -> Seq<nat>
        decreases steps.len(),
    {
        if steps.len() == 0 {
            Seq::empty()
        } else {
            let before = self.run(steps.drop_last());
            let times = self.dispatch_times(steps.drop_last());
            match steps.last() {
                Step::Poll { now } => if before.dispatches(now) {
                    times.push(now)
                } else {
                    times
                },
                Step::JobDone => times,
            }
        }
    }

    /// The keys dispatched along `steps`, by their indices, in order.
    pub open spec fn dispatch_order(self, steps: Seq<Step>) -> Seq<nat>
        decreases steps.len(),
    {
        if steps.len() == 0 {
            Seq::empty()
        } else {
            let before = self.run(steps.drop_last());
            let order = self.dispatch_order(steps.drop_last());
            match steps.last() {
                Step::Poll { now } => if before.dispatches(now) {
                    order.push(before.next)
                } else {
                    order
                },
                Step::JobDone => order,
            }
        }
    }
}

/// Whatever happens to a scheduler, what holds of every scheduler holds of
/// it afterwards, and its settings are those it began with.
pub proof fn lemma_run_keeps_wf(s: SchedulerState, steps: Seq<Step>)
    requires
        s.wf(),
    ensures
        s.run(steps).wf(),
        s.run(steps).total == s.total,
        s.run(steps).cap == s.cap,
        s.run(steps).throttle == s.throttle,
    decreases steps.len(),
{
    if steps.len() > 0 {
        lemma_run_keeps_wf(s, steps.drop_last());
    }
}

/// The concurrency cap: at no point of a run are more downloads in flight
/// than the cap allows, whatever the times at which the scheduler is asked
/// and whenever the downloads end.
pub proof fn lemma_concurrency_cap(s: SchedulerState, steps: Seq<Step>, k: int)
    requires
        s.wf(),
        0 <= k <= steps.len(),
    ensures
        s.run(steps.take(k)).in_flight <= s.cap,
{
    lemma_run_keeps_wf(s, steps.take(k));
}

/// The time of the last start is the last of the times at which downloads
/// started; without a start it is what it was.
pub proof fn lemma_last_start(s: SchedulerState, steps: Seq<Step>)
    ensures
        s.run(steps).last == if s.dispatch_times(steps).len() > 0 {
            Some(s.dispatch_times(steps).last())
        } else {
            s.last
        },
        s.run(steps).throttle == s.throttle,
    decreases steps.len(),
{
    if steps.len() > 0 {
        lemma_last_start(s, steps.drop_last());
    }
}

/// Dispatch throttling: between the start of one download and the start of
/// the next lies at least the throttle interval, whatever the cap, whatever
/// the times at which the scheduler is asked and whenever the downloads end.
pub proof fn lemma_dispatch_spacing(s: SchedulerState, steps: Seq<Step>, i: int)
    requires
        0 <= i,
        i + 1 < s.dispatch_times(steps).len(),
    ensures
        s.dispatch_times(steps)[i + 1] >= s.dispatch_times(steps)[i] + s.throttle,
    decreases steps.len(),
{
    let front = steps.drop_last();
    let times = s.dispatch_times(front);
    if i + 1 < times.len() {
        lemma_dispatch_spacing(s, front, i);
    } else {
        lemma_last_start(s, front);
    }
}

/// The first start of a run that goes on from `s` keeps the throttle interval
/// to the last start before it.
pub proof fn lemma_first_dispatch_waits(s: SchedulerState, steps: Seq<Step>)
    requires
        s.dispatch_times(steps).len() > 0,
    ensures
        s.dispatch_times(steps)[0] >= s.ready_at(),
    decreases steps.len(),
{
    let front = steps.drop_last();
    if s.dispatch_times(front).len() > 0 {
        lemma_first_dispatch_waits(s, front);
    } else {
        lemma_last_start(s, front);
    }
}

/// Dispatch order: the keys are dispatched in the order in which they are
/// listed, each once, starting with the first not yet dispatched.
pub proof fn lemma_dispatch_order(s: SchedulerState, steps: Seq<Step>, i: int)
    requires
        0 <= i < s.dispatch_order(steps).len(),
    ensures
        s.dispatch_order(steps)[i] == s.next + i,
        s.run(steps).next == s.next + s.dispatch_order(steps).len(),
        s.dispatch_order(steps).len() == s.dispatch_times(steps).len(),
    decreases steps.len(),
{
    lemma_order_length(s, steps);
    let front = steps.drop_last();
    if i < s.dispatch_order(front).len() {
        lemma_dispatch_order(s, front, i);
    } else {
        lemma_order_length(s, front);
    }
}

/// As many keys are dispatched along `steps` as downloads start.
pub proof fn lemma_order_length(s: SchedulerState, steps: Seq<Step>)
    ensures
        s.run(steps).next == s.next + s.dispatch_order(steps).len(),
        s.dispatch_order(steps).len() == s.dispatch_times(steps).len(),
    decreases steps.len(),
{
    if steps.len() > 0 {
        lemma_order_length(s, steps.drop_last());
    }
}

/// A run is over exactly when every key was dispatched and no download is in
/// flight; with no keys at all it is over at once.
pub proof fn lemma_finished(s: SchedulerState, now: nat)
    requires
        s.wf(),
    ensures
        s.decide(now) == Action::Finished <==> s.next == s.total && s.in_flight == 0,
        s.total == 0 ==> s.decide(now) == Action::Finished,
        s.decide(now) is Dispatch <==> s.dispatches(now),
{
}

/// The scheduler of one run.
#[derive(Clone, Copy, Debug)]
pub struct Scheduler {
    total: usize,
    cap: usize,
    throttle_ms: u64,
    next: usize,
    in_flight: usize,
    last: Option<u64>,
}

impl View for Scheduler {
    type V = SchedulerState;

    closed spec fn view(&self) -> SchedulerState {
        SchedulerState {
            total: self.total as nat,
            cap: self.cap as nat,
            throttle: self.throttle_ms as nat,
            next: self.next as nat,
            in_flight: self.in_flight as nat,
            last: match self.last {
                Some(t) => Some(t as nat),
                None => None,
            },
        }
    }
}

impl Scheduler {
    #[verifier::type_invariant]
    spec fn valid(self) -> bool {
        self@.wf()
    }

    /// The scheduler of a run of `total` keys, before its first start.
    pub fn new(total: usize, config: &RunConfig) -> (s: Scheduler)
        ensures
            s@ == SchedulerState::init(
                total as nat,
                config@.concurrency as nat,
                config@.throttle_ms as nat,
            ),
            s@.wf(),
    {
        Scheduler {
            total,
            cap: config.concurrency(),
            throttle_ms: config.throttle_ms(),
            next: 0,
            in_flight: 0,
            last: None,
        }
    }

    /// Says what to do at the time `now`, in milliseconds of a clock of the
    /// caller. Where the answer is `Dispatch`, the download counts as started
    /// at `now`.
    pub fn poll(&mut self, now: u64) -> (action: Action)
        ensures
            old(self)@.wf(),
            action == old(self)@.decide(now as nat),
            final(self)@ == old(self)@.after_poll(now as nat),
            final(self)@.wf(),
    {
        proof {
            use_type_invariant(&*self);
        }
        if self.next < self.total && self.in_flight < self.cap {
            let ready: u128 = match self.last {
                Some(t) => t as u128 + self.throttle_ms as u128,
                None => 0,
            };
            if now as u128 >= ready {
                let index = self.next;
                *self = Scheduler {
                    total: self.total,
                    cap: self.cap,
                    throttle_ms: self.throttle_ms,
                    next: self.next + 1,
                    in_flight: self.in_flight + 1,
                    last: Some(now),
                };
                Action::Dispatch { index }
            } else {
                let wait: u128 = ready - now as u128;
                if wait > u64::MAX as u128 {
                    Action::Wait { millis: u64::MAX }
                } else {
                    Action::Wait { millis: wait as u64 }
                }
            }
        } else if self.in_flight > 0 {
            Action::AwaitJob
        } else {
            Action::Finished
        }
    }

    /// Takes note that a download has ended. Says `false`, and changes
    /// nothing, where none was in flight.
    pub fn job_finished(&mut self) -> (counted: bool)
        ensures
            old(self)@.wf(),
            counted == (old(self)@.in_flight > 0),
            final(self)@ == old(self)@.after_job(),
            final(self)@.wf(),
    {
        proof {
            use_type_invariant(&*self);
        }
        if self.in_flight > 0 {
            self.in_flight = self.in_flight - 1;
            true
        } else {
            false
        }
    }

    /// The number of keys.
    pub fn total(&self) -> (n: usize)
        ensures
            n == self@.total,
    {
        self.total
    }

    /// The number of keys dispatched so far.
    pub fn dispatched(&self) -> (n: usize)
        ensures
            n == self@.next,
    {
        self.next
    }

    /// The number of downloads in flight.
    pub fn in_flight(&self) -> (n: usize)
        ensures
            n == self@.in_flight,
            n <= self@.cap,
    {
        proof {
            use_type_invariant(self);
        }
        self.in_flight
    }

    /// Every key was dispatched and every download has ended.
    pub fn is_finished(&self) -> (done: bool)
        ensures
            done == (self@.next == self@.total && self@.in_flight == 0),
    {
        self.next == self.total && self.in_flight == 0
    }
}

} // verus!
