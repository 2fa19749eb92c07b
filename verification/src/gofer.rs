use vstd::prelude::*;

verus! {

/// The fixed attempt budget of the fetch worker: both fetching and
/// saving are tried at most this many times.
pub const GOFER_ATTEMPTS: u8 = 5;

/// Where one source's fetch worker stands. The worker never propagates an
/// error: it either reaches `Done` having saved, or gives up after its
/// budget and reaches `Done` without.
pub enum GoferPhase {
    /// Fetching and parsing the source, with attempts left.
    Fetching { attempts_left: u8 },
    /// Chapters in hand; persisting them, with attempts left.
    Saving { attempts_left: u8 },
    /// This worker slot is free again; what was achieved is recorded.
    Done { fetched: bool, saved: bool },
}

/// The outcome of one outside attempt the loop performed.
pub enum GoferEvent {
    /// A fetch-and-parse attempt yielded chapters.
    FetchOk,
    /// A fetch-and-parse attempt failed.
    FetchErr,
    /// A persistence attempt returned without error.
    SaveOk,
    /// A persistence attempt failed.
    SaveErr,
}

/// One step of the fetch worker: the first successful fetch moves to
/// saving with a fresh budget; the first successful save finishes; each
/// failure burns one attempt, and a spent budget gives up that stage.
/// Events that do not belong to the current stage change nothing.
pub open spec fn spec_gofer_step(phase: GoferPhase, event: GoferEvent) -> GoferPhase {
    match phase {
        GoferPhase::Fetching { attempts_left } => match event {
            GoferEvent::FetchOk => GoferPhase::Saving { attempts_left: GOFER_ATTEMPTS },
            GoferEvent::FetchErr => {
                if attempts_left <= 1 {
                    GoferPhase::Done { fetched: false, saved: false }
                } else {
                    GoferPhase::Fetching { attempts_left: (attempts_left - 1) as u8 }
                }
            },
            _ => phase,
        },
        GoferPhase::Saving { attempts_left } => match event {
            GoferEvent::SaveOk => GoferPhase::Done { fetched: true, saved: true },
            GoferEvent::SaveErr => {
                if attempts_left <= 1 {
                    GoferPhase::Done { fetched: true, saved: false }
                } else {
                    GoferPhase::Saving { attempts_left: (attempts_left - 1) as u8 }
                }
            },
            _ => phase,
        },
        GoferPhase::Done { .. } => phase,
    }
}

/// A fresh fetch worker, with the full attempt budget.
pub fn run_gofer() -> (r: GoferPhase)
    ensures
        r == (GoferPhase::Fetching { attempts_left: GOFER_ATTEMPTS }),
{
    GoferPhase::Fetching { attempts_left: GOFER_ATTEMPTS }
}

/// Advances the fetch worker on one attempt outcome, as
/// `spec_gofer_step` says.
pub fn gofer_step(phase: &GoferPhase, event: &GoferEvent) -> (r: GoferPhase)
    ensures
        r == spec_gofer_step(*phase, *event),
{
    match phase {
        GoferPhase::Fetching { attempts_left } => match event {
            GoferEvent::FetchOk => GoferPhase::Saving { attempts_left: GOFER_ATTEMPTS },
            GoferEvent::FetchErr => {
                if *attempts_left <= 1 {
                    GoferPhase::Done { fetched: false, saved: false }
                } else {
                    GoferPhase::Fetching { attempts_left: *attempts_left - 1 }
                }
            },
            _ => GoferPhase::Fetching { attempts_left: *attempts_left },
        },
        GoferPhase::Saving { attempts_left } => match event {
            GoferEvent::SaveOk => GoferPhase::Done { fetched: true, saved: true },
            GoferEvent::SaveErr => {
                if *attempts_left <= 1 {
                    GoferPhase::Done { fetched: true, saved: false }
                } else {
                    GoferPhase::Saving { attempts_left: *attempts_left - 1 }
                }
            },
            _ => GoferPhase::Saving { attempts_left: *attempts_left },
        },
        GoferPhase::Done { fetched, saved } => GoferPhase::Done {
            fetched: *fetched,
            saved: *saved,
        },
    }
}

/// The attempts a run can still burn: the worker terminates within its
/// budget, at most `GOFER_ATTEMPTS` failures per stage.
pub open spec fn spec_gofer_fuel(phase: GoferPhase) -> int {
    match phase {
        GoferPhase::Fetching { attempts_left } => attempts_left + GOFER_ATTEMPTS,
        GoferPhase::Saving { attempts_left } => attempts_left as int,
        GoferPhase::Done { .. } => 0,
    }
}

/// Every failure event strictly burns fuel, and no step mints any: the
/// worker gives up or succeeds within its fixed budget.
pub proof fn lemma_gofer_attempts_bounded(phase: GoferPhase, event: GoferEvent)
    requires
        spec_gofer_fuel(phase) > 0 || phase is Done,
    ensures
        spec_gofer_fuel(spec_gofer_step(phase, event)) <= spec_gofer_fuel(phase),
        (phase matches GoferPhase::Fetching { .. } && event is FetchErr) ==> spec_gofer_fuel(
            spec_gofer_step(phase, event),
        ) < spec_gofer_fuel(phase),
        (phase matches GoferPhase::Saving { .. } && event is SaveErr) ==> spec_gofer_fuel(
            spec_gofer_step(phase, event),
        ) < spec_gofer_fuel(phase),
{
}

} // verus!
