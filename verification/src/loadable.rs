//! The synchronization core of an asynchronously loadable value: at most one
//! producer computes the value, any number of consumers read, poll progress,
//! or wait for completion, and the finished outcome is memoized.
//!
//! This module holds the state and every decision; it is sequential. A host
//! wraps a [`LoadableCell`] in one mutual-exclusion lock shared between
//! threads, calls one method per critical section, and performs the returned
//! actions (spawning the producer, sending a cooperative abort, waking
//! waiters) outside the lock. Waking works without lost wakeups because a
//! completing producer publishes its outcome and collects the registered
//! waiters in one atomic step ([`LoadableCell::complete`]), and a waiter
//! observes the missing result and registers itself in one atomic step
//! ([`LoadableCell::register_waiter`]).

use vstd::prelude::*;

use crate::app_error::AppError;

verus! {

/// The abstract state of a loadable cell.
pub struct LoadableModel<T, P> {
    /// The memoized outcome, if a computation has finished.
    pub res: Option<Result<T, AppError>>,
    /// Producer-reported progress for the current run.
    pub progress: Option<P>,
    /// Whether a computation is in flight.
    pub running: bool,
    /// How many registered waiters have not yet been woken.
    pub waiters: nat,
}

impl<T, P> LoadableModel<T, P> {
    /// The cell's invariant: a run in flight has no memoized result yet, and
    /// progress exists only while a run is in flight.
    pub open spec fn wf(self) -> bool {
        &&& self.running ==> self.res is None
        &&& !self.running ==> self.progress is None
    }
}

/// What a call to [`LoadableCell::try_load`] decided.
#[derive(PartialEq, Eq, Structural, Clone, Copy, Debug)]
pub enum TryLoadDecision {
    /// A run is already in flight; the caller should wait instead.
    AlreadyRunning,
    /// An outcome is already memoized; the caller should read it.
    AlreadyLoaded,
    /// The cell is now marked running; the caller must start the producer.
    Started,
}

/// The decision [`LoadableCell::try_load`] takes on a given state.
pub open spec fn spec_try_load_decision<T, P>(m: LoadableModel<T, P>) -> TryLoadDecision {
    if m.running {
        TryLoadDecision::AlreadyRunning
    } else if m.res is Some {
        TryLoadDecision::AlreadyLoaded
    } else {
        TryLoadDecision::Started
    }
}

/// The state [`LoadableCell::try_load`] leaves behind.
pub open spec fn spec_try_load_state<T, P>(m: LoadableModel<T, P>) -> LoadableModel<T, P> {
    if spec_try_load_decision(m) is Started {
        LoadableModel { running: true, ..m }
    } else {
        m
    }
}

/// The state after a completion: the outcome is memoized, progress is
/// cleared, the run ends, and every registered waiter is collected.
pub open spec fn spec_complete_state<T, P>(
    m: LoadableModel<T, P>,
    outcome: Result<T, AppError>,
) -> LoadableModel<T, P> {
    LoadableModel { res: Some(outcome), progress: None, running: false, waiters: 0 }
}

/// How many waiters a completion wakes: all that are registered.
pub open spec fn spec_complete_woken<T, P>(m: LoadableModel<T, P>) -> nat {
    m.waiters
}

/// The state after a waiter checked the cell: it registers only while no
/// outcome is memoized.
pub open spec fn spec_register<T, P>(m: LoadableModel<T, P>) -> LoadableModel<T, P> {
    if m.res is None {
        LoadableModel { waiters: m.waiters + 1, ..m }
    } else {
        m
    }
}

/// The state after a reset: the memoized outcome is taken out; a run in
/// flight is not affected.
pub open spec fn spec_reset_state<T, P>(m: LoadableModel<T, P>) -> LoadableModel<T, P> {
    LoadableModel { res: None, ..m }
}

/// What a reset returns: the outcome memoized so far, if any.
pub open spec fn spec_reset_taken<T, P>(m: LoadableModel<T, P>) -> Option<Result<T, AppError>> {
    m.res
}

/// An asynchronously loadable value: the state of one loading cell, to be
/// guarded by a single lock by the host.
pub struct LoadableCell<T, P> {
    /// The memoized outcome.
    res: Option<Result<T, AppError>>,
    /// Producer-reported progress.
    progress: Option<P>,
    /// Whether a run is in flight.
    running: bool,
    /// Registered, not yet woken waiters.
    waiters: u64,
}

impl<T, P> View for LoadableCell<T, P> {
    type V = LoadableModel<T, P>;

    closed spec fn view(&self) -> LoadableModel<T, P> {
        LoadableModel {
            res: self.res,
            progress: self.progress,
            running: self.running,
            waiters: self.waiters as nat,
        }
    }
}

impl<T, P> LoadableCell<T, P> {
    /// Creates a new, unloaded cell.
    pub fn new() -> (r: Self)
        ensures
            r@ == (LoadableModel::<T, P> {
                res: None,
                progress: None,
                running: false,
                waiters: 0,
            }),
            r@.wf(),
    {
        LoadableCell { res: None, progress: None, running: false, waiters: 0 }
    }

    /// Reads the memoized outcome, if any. Never suspends.
    pub fn get(&self) -> (r: Option<&Result<T, AppError>>)
        ensures
            match r {
                Some(v) => self@.res == Some(*v),
                None => self@.res is None,
            },
    {
        self.res.as_ref()
    }

    /// Reads the producer's last reported progress, if a run is in flight and
    /// one was reported. Never suspends.
    pub fn progress(&self) -> (r: Option<&P>)
        ensures
            match r {
                Some(p) => self@.progress == Some(*p),
                None => self@.progress is None,
            },
    {
        self.progress.as_ref()
    }

    /// Returns whether a computation is in flight.
    pub fn is_loading(&self) -> (r: bool)
        ensures
            r == self@.running,
    {
        self.running
    }

    /// Decides whether a cooperative abort should be sent: only while a run
    /// is in flight. The state does not change; the abort itself is the
    /// host's action, and the aborted run ends through
    /// [`LoadableCell::complete_cancelled`].
    pub fn stop_loading(&self) -> (abort: bool)
        ensures
            abort == self@.running,
    {
        self.running
    }

    /// Takes the memoized outcome out, leaving the cell unloaded. A run in
    /// flight is not affected and will re-populate the result.
    pub fn reset(&mut self) -> (r: Option<Result<T, AppError>>)
        requires
            old(self)@.wf(),
        ensures
            r == spec_reset_taken(old(self)@),
            final(self)@ == spec_reset_state(old(self)@),
            final(self)@.wf(),
    {
        self.res.take()
    }

    /// Decides what a load attempt does: yields to a run in flight, returns
    /// the memoized outcome, or marks the cell running, in which case the
    /// caller must start the producer.
    pub fn try_load(&mut self) -> (d: TryLoadDecision)
        requires
            old(self)@.wf(),
        ensures
            d == spec_try_load_decision(old(self)@),
            final(self)@ == spec_try_load_state(old(self)@),
            final(self)@.wf(),
    {
        if self.running {
            TryLoadDecision::AlreadyRunning
        } else if self.res.is_some() {
            TryLoadDecision::AlreadyLoaded
        } else {
            self.running = true;
            TryLoadDecision::Started
        }
    }

    /// Records the producer's outcome: memoizes it, clears progress, ends the
    /// run, and collects the registered waiters. The host must wake exactly
    /// the returned number of waiters, in the same critical section's
    /// broadcast.
    pub fn complete(&mut self, outcome: Result<T, AppError>) -> (woken: u64)
        requires
            old(self)@.wf(),
            old(self)@.running,
        ensures
            woken as nat == spec_complete_woken(old(self)@),
            final(self)@ == spec_complete_state(old(self)@, outcome),
            final(self)@.wf(),
    {
        self.res = Some(outcome);
        self.progress = None;
        self.running = false;
        let woken = self.waiters;
        self.waiters = 0;
        woken
    }

    /// Ends a run whose task was aborted before completion: memoizes a
    /// failure marked as cancelled, so that no waiter starves.
    pub fn complete_cancelled(&mut self) -> (woken: u64)
        requires
            old(self)@.wf(),
            old(self)@.running,
        ensures
            woken as nat == spec_complete_woken(old(self)@),
            final(self)@.res matches Some(r) && (r matches Err(e) && is_cancelled_error(e)),
            final(self)@.progress is None,
            !final(self)@.running,
            final(self)@.waiters == 0,
            final(self)@.wf(),
    {
        let err = AppError::msg("Loader was cancelled".to_owned());
        self.complete(Err(err))
    }

    /// Ends a run whose task panicked: memoizes a failure carrying the panic
    /// payload, so that no waiter starves.
    pub fn complete_panicked(&mut self, payload: String) -> (woken: u64)
        requires
            old(self)@.wf(),
            old(self)@.running,
        ensures
            woken as nat == spec_complete_woken(old(self)@),
            final(self)@.res matches Some(r) && (r matches Err(e) && is_panicked_error(
                e,
                payload@,
            )),
            final(self)@.progress is None,
            !final(self)@.running,
            final(self)@.waiters == 0,
            final(self)@.wf(),
    {
        let mut msg = "Loader panicked: ".to_owned();
        msg.append(payload.as_str());
        self.complete(Err(AppError::msg(msg)))
    }

    /// One atomic step of waiting: if an outcome is memoized the waiter is
    /// done and must read it with [`LoadableCell::get`]; otherwise it is
    /// registered and must suspend until a completion wakes it.
    pub fn register_waiter(&mut self) -> (registered: bool)
        requires
            old(self)@.wf(),
            old(self)@.waiters < u64::MAX,
        ensures
            registered == (old(self)@.res is None),
            final(self)@ == spec_register(old(self)@),
            final(self)@.wf(),
    {
        if self.res.is_none() {
            self.waiters = self.waiters + 1;
            true
        } else {
            false
        }
    }

    /// Overwrites the reported progress. Only the producer of the run in
    /// flight calls this.
    pub fn update_progress(&mut self, p: P)
        requires
            old(self)@.wf(),
            old(self)@.running,
        ensures
            final(self)@ == (LoadableModel { progress: Some(p), ..old(self)@ }),
            final(self)@.wf(),
    {
        self.progress = Some(p);
    }

    /// How many registered waiters have not been woken yet. A caller about
    /// to register checks this against the counter's limit first.
    pub fn waiter_count(&self) -> (r: u64)
        ensures
            r as nat == self@.waiters,
    {
        self.waiters
    }

    /// A best-effort snapshot for diagnostics, read under the single lock:
    /// whether a result is memoized, whether a run is in flight, and whether
    /// progress was reported.
    pub fn debug_snapshot(&self) -> (r: (bool, bool, bool))
        ensures
            r.0 == (self@.res is Some),
            r.1 == self@.running,
            r.2 == (self@.progress is Some),
    {
        (self.res.is_some(), self.running, self.progress.is_some())
    }
}

impl<T, P: Default> LoadableCell<T, P> {
    /// Updates the progress by transforming the reported value, starting from
    /// the default when none was reported yet. Only the producer of the run
    /// in flight calls this.
    pub fn update_progress_with<F: FnOnce(P) -> P>(&mut self, f: F)
        requires
            old(self)@.wf(),
            old(self)@.running,
            old(self)@.progress matches Some(p0) ==> call_requires(f, (p0,)),
            old(self)@.progress is None ==> forall|d: P|
                call_ensures(P::default, (), d) ==> call_requires(f, (d,)),
        ensures
            final(self)@.res == old(self)@.res,
            final(self)@.running == old(self)@.running,
            final(self)@.waiters == old(self)@.waiters,
            final(self)@.wf(),
            final(self)@.progress matches Some(p1) && (match old(self)@.progress {
                Some(p0) => call_ensures(f, (p0,), p1),
                None => exists|d: P| call_ensures(P::default, (), d) && call_ensures(
                    f,
                    (d,),
                    p1,
                ),
            }),
    {
        let cur: P = match self.progress.take() {
            Some(p0) => p0,
            None => P::default(),
        };
        self.progress = Some(f(cur));
    }
}

/// Whether an error is the failure recorded for a cancelled run.
pub open spec fn is_cancelled_error(e: AppError) -> bool {
    e matches AppError::Single { msg, source: None } && msg@ == "Loader was cancelled"@
}

/// Whether an error is the failure recorded for a run that panicked with the
/// given payload.
pub open spec fn is_panicked_error(e: AppError, payload: Seq<char>) -> bool {
    e matches AppError::Single { msg, source: None } && msg@ == "Loader panicked: "@ + payload
}

/// The state after `n` more waiters checked a cell with no memoized outcome
/// and registered.
pub open spec fn spec_register_many<T, P>(m: LoadableModel<T, P>, n: nat) -> LoadableModel<T, P>
    decreases n,
{
    if n == 0 {
        m
    } else {
        spec_register(spec_register_many(m, (n - 1) as nat))
    }
}

/// No lost wakeups: however many waiters register while a run is in flight,
/// the completion wakes all of them — the ones registered before the run and
/// the `n` registered during it — and every waiter, woken or late, then reads
/// the same memoized outcome; a waiter arriving after completion does not
/// suspend at all.
pub proof fn lemma_no_lost_wakeups<T, P>(
    m: LoadableModel<T, P>,
    n: nat,
    outcome: Result<T, AppError>,
)
    requires
        m.wf(),
        m.running,
    ensures
        spec_complete_woken(spec_register_many(m, n)) == m.waiters + n,
        spec_complete_state(spec_register_many(m, n), outcome).res == Some(outcome),
        spec_register(spec_complete_state(spec_register_many(m, n), outcome))
            == spec_complete_state(spec_register_many(m, n), outcome),
{
    lemma_register_many_effect(m, n);
}

/// While no outcome is memoized, every arriving waiter registers: `n`
/// check-and-register steps add exactly `n` waiters and change nothing else.
pub proof fn lemma_register_many_effect<T, P>(m: LoadableModel<T, P>, n: nat)
    requires
        m.res is None,
    ensures
        spec_register_many(m, n) == (LoadableModel { waiters: m.waiters + n, ..m }),
    decreases n,
{
    if n > 0 {
        lemma_register_many_effect(m, (n - 1) as nat);
    } else {
        assert(spec_register_many(m, n) == (LoadableModel { waiters: m.waiters + n, ..m }));
    }
}

/// The number of fresh runs that `k` successive load attempts start.
pub open spec fn spec_try_count<T, P>(m: LoadableModel<T, P>, k: nat) -> nat
    decreases k,
{
    if k == 0 {
        0
    } else {
        (if spec_try_load_decision(m) is Started {
            1nat
        } else {
            0nat
        }) + spec_try_count(spec_try_load_state(m), (k - 1) as nat)
    }
}

/// At most one concurrent run: of any number of successive load attempts, at
/// most one starts a fresh computation, and none does while a run is already
/// in flight.
pub proof fn lemma_at_most_one_start<T, P>(m: LoadableModel<T, P>, k: nat)
    ensures
        spec_try_count(m, k) <= 1,
        m.running ==> spec_try_count(m, k) == 0,
        m.res is Some ==> spec_try_count(m, k) == 0,
    decreases k,
{
    if k > 0 {
        lemma_at_most_one_start(spec_try_load_state(m), (k - 1) as nat);
    }
}

/// Idempotent re-entry after completion: a load attempt made after a
/// completion, with no reset in between, finds the memoized outcome, starts
/// nothing, and leaves the cell unchanged.
pub proof fn lemma_idempotent_after_complete<T, P>(
    m: LoadableModel<T, P>,
    outcome: Result<T, AppError>,
)
    requires
        m.wf(),
        m.running,
    ensures
        ({
            let done = spec_complete_state(m, outcome);
            &&& spec_try_load_decision(done) == TryLoadDecision::AlreadyLoaded
            &&& spec_try_load_state(done) == done
            &&& done.res == Some(outcome)
        }),
{
}

/// Reset clears exactly once: the first reset returns the memoized outcome,
/// and an immediate second reset returns nothing.
pub proof fn lemma_reset_clears_once<T, P>(m: LoadableModel<T, P>)
    ensures
        spec_reset_taken(m) == m.res,
        spec_reset_taken(spec_reset_state(m)) is None,
        spec_reset_state(m).res is None,
{
}

/// Progress visibility during a run, absence after: a progress update during
/// a run is observable until the run completes, and completion — success,
/// failure, or cancellation alike — clears it in the same atomic step that
/// publishes the outcome.
pub proof fn lemma_progress_visibility<T, P>(
    m: LoadableModel<T, P>,
    p: P,
    outcome: Result<T, AppError>,
)
    requires
        m.wf(),
        m.running,
    ensures
        ({
            let updated = LoadableModel { progress: Some(p), ..m };
            &&& updated.progress == Some(p)
            &&& updated.wf()
            &&& spec_complete_state(updated, outcome).progress is None
        }),
{
}

} // verus!
