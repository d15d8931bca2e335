//! The exactly-once initialization guard: data-directory discovery, the
//! tri-state protocol around the native initialize call, and the proof that
//! any serialized run of callers issues at most one native call.
//!
//! The caller holds the process-wide lock across one whole attempt:
//! `begin` (decide), the native initialize call if `begin` asked for one,
//! then `complete` (publish or fail). The spec functions below model one such
//! attempt, and the lemmas at the end state what every serialized trace of
//! attempts obeys.

use vstd::prelude::*;
use crate::errors::EspeakError;

verus! {

/// Sentinel the native initialize entry point returns on failure; on success
/// it returns the sample rate instead.
pub const NATIVE_INIT_FAILED: i32 = -1;

/// Candidate data directories, probed in order; the first that exists wins.
pub fn data_path_candidates() -> (r: Vec<&'static str>)
    ensures
        r@.len() == 4,
        r@[0]@ == "/usr/lib/x86_64-linux-gnu/espeak-ng-data"@,
        r@[1]@ == "/usr/local/Cellar/espeak-ng/1.50/share/espeak-ng-data"@,
        r@[2]@ == "/usr/local/share/espeak-ng-data"@,
        r@[3]@ == "/usr/share/espeak-ng-data"@,
{
    let mut r: Vec<&'static str> = Vec::new();
    r.push("/usr/lib/x86_64-linux-gnu/espeak-ng-data");
    r.push("/usr/local/Cellar/espeak-ng/1.50/share/espeak-ng-data");
    r.push("/usr/local/share/espeak-ng-data");
    r.push("/usr/share/espeak-ng-data");
    r
}

/// Pick the first existing candidate, given one existence flag per candidate.
pub fn choose_data_path(exists: &Vec<bool>) -> (r: Option<usize>)
    ensures
        match r {
            Some(i) => i < exists@.len() && exists@[i as int] && (forall|j: int|
                0 <= j < i ==> !exists@[j]),
            None => forall|j: int| 0 <= j < exists@.len() ==> !exists@[j],
        },
{
    let mut i: usize = 0;
    while i < exists.len()
        invariant
            i <= exists@.len(),
            forall|j: int| 0 <= j < i ==> !exists@[j],
        decreases exists@.len() - i,
    {
        if exists[i] {
            return Some(i);
        }
        i += 1;
    }
    None
}

/// The tri-state of the guard. It moves Uninitialized to Initializing to
/// Ready at most once; a failed attempt falls back to Uninitialized so a
/// later caller may retry after the data files are installed.
#[derive(Debug, Clone, Copy, PartialEq, Eq, Structural)]
pub enum InitState {
    /// No successful native initialize call has happened.
    Uninitialized,
    /// This caller is about to issue the native initialize call.
    Initializing,
    /// The one native initialize call succeeded; never left again.
    Ready,
}

/// What `begin` asks of its caller.
#[derive(Debug, Clone, Copy, PartialEq, Eq, Structural)]
pub enum InitStep {
    /// The guard is already ready; do nothing.
    AlreadyReady,
    /// Issue the native initialize call with the chosen data path, then hand
    /// its result to `complete`.
    CallNative,
}

/// State after `begin`, from the state before it and whether a data path was
/// found.
pub open spec fn begin_next(s: InitState, path_found: bool) -> InitState {
    if s is Ready {
        InitState::Ready
    } else if path_found {
        InitState::Initializing
    } else {
        InitState::Uninitialized
    }
}

/// Whether `begin` asks the caller to issue the native initialize call.
pub open spec fn begin_calls(s: InitState, path_found: bool) -> bool {
    !(s is Ready) && path_found
}

/// State after `complete`, from the native initialize result.
pub open spec fn complete_next(native_rate: i32) -> InitState {
    if native_rate == NATIVE_INIT_FAILED {
        InitState::Uninitialized
    } else {
        InitState::Ready
    }
}

/// One caller's whole attempt, as the serialization by the process-wide lock
/// presents it: whether its probe found a data path, and what the native
/// initialize call returned in case one was made.
pub struct InitAttempt {
    /// Whether any candidate data directory existed during this attempt.
    pub path_found: bool,
    /// The native initialize result, read only when a call is made.
    pub native_rate: i32,
}

/// Whether an attempt from state `s` issues a native initialize call.
pub open spec fn attempt_makes_call(s: InitState, a: InitAttempt) -> bool {
    begin_calls(s, a.path_found)
}

/// The state an attempt from state `s` leaves behind.
pub open spec fn attempt_next_state(s: InitState, a: InitAttempt) -> InitState {
    if attempt_makes_call(s, a) {
        complete_next(a.native_rate)
    } else {
        begin_next(s, a.path_found)
    }
}

/// The outcome an attempt from state `s` reports to its caller.
pub open spec fn attempt_outcome(s: InitState, a: InitAttempt) -> Result<(), EspeakError> {
    if s is Ready {
        Ok(())
    } else if !a.path_found {
        Err(EspeakError::DataPathNotFound)
    } else if a.native_rate == NATIVE_INIT_FAILED {
        Err(EspeakError::InitializationFailed)
    } else {
        Ok(())
    }
}

/// The state left after a serialized trace of attempts.
pub open spec fn run_state(s0: InitState, attempts: Seq<InitAttempt>) -> InitState
    decreases attempts.len(),
{
    if attempts.len() == 0 {
        s0
    } else {
        run_state(attempt_next_state(s0, attempts[0]), attempts.drop_first())
    }
}

/// How many native initialize calls a serialized trace of attempts issues.
pub open spec fn native_call_count(s0: InitState, attempts: Seq<InitAttempt>) -> nat
    decreases attempts.len(),
{
    if attempts.len() == 0 {
        0nat
    } else {
        (if attempt_makes_call(s0, attempts[0]) {
            1nat
        } else {
            0nat
        }) + native_call_count(attempt_next_state(s0, attempts[0]), attempts.drop_first())
    }
}

/// The outcome each attempt of a serialized trace reports to its caller, in
/// trace order.
pub open spec fn run_outcomes(s0: InitState, attempts: Seq<InitAttempt>) -> Seq<
    Result<(), EspeakError>,
>
    decreases attempts.len(),
{
    if attempts.len() == 0 {
        Seq::empty()
    } else {
        seq![attempt_outcome(s0, attempts[0])] + run_outcomes(
            attempt_next_state(s0, attempts[0]),
            attempts.drop_first(),
        )
    }
}

/// The guard itself. One value of it lives for the process, inside the same
/// lock that serializes all native calls.
pub struct InitGuard {
    state: InitState,
}

impl InitGuard {
    /// The guard's current state.
    pub closed spec fn state(&self) -> InitState {
        self.state
    }

    /// A fresh guard: nothing initialized yet.
    pub fn new() -> (r: InitGuard)
        ensures
            r.state() is Uninitialized,
    {
        InitGuard { state: InitState::Uninitialized }
    }

    /// Whether the one native initialize call has already succeeded. The
    /// caller may mirror this flag in an atomic for a lock-free fast path;
    /// the flag is never unset, so a stale read only costs a lock round.
    pub fn is_ready(&self) -> (r: bool)
        ensures
            r == (self.state() is Ready),
    {
        match self.state {
            InitState::Ready => true,
            _ => false,
        }
    }

    /// Decide this attempt, under the lock: nothing to do when ready, fail
    /// closed when no data path exists, otherwise move to Initializing and
    /// ask the caller to issue the one native call.
    pub fn begin(&mut self, chosen_path: Option<usize>) -> (r: Result<InitStep, EspeakError>)
        requires
            !(old(self).state() is Initializing),
        ensures
            final(self).state() == begin_next(old(self).state(), chosen_path is Some),
            r == Ok::<InitStep, EspeakError>(InitStep::CallNative) <==> begin_calls(
                old(self).state(),
                chosen_path is Some,
            ),
            old(self).state() is Ready ==> r == Ok::<InitStep, EspeakError>(
                InitStep::AlreadyReady,
            ),
            r is Err <==> !(old(self).state() is Ready) && chosen_path is None,
            r is Err ==> r == Err::<InitStep, EspeakError>(EspeakError::DataPathNotFound),
    {
        match self.state {
            InitState::Ready => Ok(InitStep::AlreadyReady),
            _ => {
                match chosen_path {
                    None => {
                        self.state = InitState::Uninitialized;
                        Err(EspeakError::DataPathNotFound)
                    },
                    Some(_) => {
                        self.state = InitState::Initializing;
                        Ok(InitStep::CallNative)
                    },
                }
            },
        }
    }

    /// Record the result of the native initialize call: publish Ready on
    /// success, fall back to Uninitialized on the failure sentinel so a later
    /// caller may retry.
    pub fn complete(&mut self, native_rate: i32) -> (r: Result<(), EspeakError>)
        requires
            old(self).state() is Initializing,
        ensures
            final(self).state() == complete_next(native_rate),
            r is Ok <==> native_rate != NATIVE_INIT_FAILED,
            r is Err ==> r == Err::<(), EspeakError>(EspeakError::InitializationFailed),
    {
        if native_rate == NATIVE_INIT_FAILED {
            self.state = InitState::Uninitialized;
            Err(EspeakError::InitializationFailed)
        } else {
            self.state = InitState::Ready;
            Ok(())
        }
    }
}

/// Ready is absorbing: once the guard is ready, a trace of any further
/// attempts issues no native call, leaves the guard ready, and reports
/// success to every caller.
pub proof fn lemma_ready_is_absorbing(attempts: Seq<InitAttempt>)
    ensures
        run_state(InitState::Ready, attempts) is Ready,
        native_call_count(InitState::Ready, attempts) == 0,
        run_outcomes(InitState::Ready, attempts).len() == attempts.len(),
        forall|i: int|
            0 <= i < attempts.len() ==> run_outcomes(InitState::Ready, attempts)[i] == Ok::<
                (),
                EspeakError,
            >(()),
    decreases attempts.len(),
{
    if attempts.len() > 0 {
        lemma_ready_is_absorbing(attempts.drop_first());
        let outs = run_outcomes(InitState::Ready, attempts);
        let rest = run_outcomes(InitState::Ready, attempts.drop_first());
        assert forall|i: int| 0 <= i < attempts.len() implies outs[i] == Ok::<(), EspeakError>(
            (),
        ) by {
            if i > 0 {
                assert(outs[i] == rest[i - 1]);
            }
        }
    }
}

/// Exactly once: starting uninitialized, when every attempt finds a data
/// path and the native library accepts it, a serialized trace of N >= 1
/// attempts issues exactly one native initialize call, ends ready, and all
/// N callers get a successful return.
pub proof fn lemma_exactly_once(attempts: Seq<InitAttempt>)
    requires
        forall|i: int| 0 <= i < attempts.len() ==> attempts[i].path_found,
        forall|i: int| 0 <= i < attempts.len() ==> attempts[i].native_rate != NATIVE_INIT_FAILED,
    ensures
        attempts.len() > 0 ==> native_call_count(InitState::Uninitialized, attempts) == 1,
        attempts.len() > 0 ==> run_state(InitState::Uninitialized, attempts) is Ready,
        run_outcomes(InitState::Uninitialized, attempts).len() == attempts.len(),
        forall|i: int|
            0 <= i < attempts.len() ==> run_outcomes(InitState::Uninitialized, attempts)[i]
                == Ok::<(), EspeakError>(()),
{
    if attempts.len() > 0 {
        let s1 = attempt_next_state(InitState::Uninitialized, attempts[0]);
        assert(s1 is Ready);
        lemma_ready_is_absorbing(attempts.drop_first());
        let outs = run_outcomes(InitState::Uninitialized, attempts);
        let rest = run_outcomes(InitState::Ready, attempts.drop_first());
        assert(outs[0] == attempt_outcome(InitState::Uninitialized, attempts[0]));
        assert forall|i: int| 0 <= i < attempts.len() implies outs[i] == Ok::<(), EspeakError>(
            (),
        ) by {
            if i > 0 {
                assert(outs[i] == rest[i - 1]);
            }
        }
    }
}

/// When the data files are absent throughout, no native call is ever issued,
/// the guard stays uninitialized (so a later caller may retry after the
/// files are installed), and all N callers get the same DataPathNotFound
/// failure.
pub proof fn lemma_absent_data_identical_failures(attempts: Seq<InitAttempt>)
    requires
        forall|i: int| 0 <= i < attempts.len() ==> !attempts[i].path_found,
    ensures
        native_call_count(InitState::Uninitialized, attempts) == 0,
        run_state(InitState::Uninitialized, attempts) is Uninitialized,
        run_outcomes(InitState::Uninitialized, attempts).len() == attempts.len(),
        forall|i: int|
            0 <= i < attempts.len() ==> run_outcomes(InitState::Uninitialized, attempts)[i]
                == Err::<(), EspeakError>(EspeakError::DataPathNotFound),
    decreases attempts.len(),
{
    if attempts.len() > 0 {
        lemma_absent_data_identical_failures(attempts.drop_first());
        let outs = run_outcomes(InitState::Uninitialized, attempts);
        let rest = run_outcomes(InitState::Uninitialized, attempts.drop_first());
        assert(outs[0] == attempt_outcome(InitState::Uninitialized, attempts[0]));
        assert forall|i: int| 0 <= i < attempts.len() implies outs[i] == Err::<(), EspeakError>(
            EspeakError::DataPathNotFound,
        ) by {
            if i > 0 {
                assert(outs[i] == rest[i - 1]);
            }
        }
    }
}

} // verus!
