//! Invocations: a script being carried out.
//!
//! An invocation hands out one request at a time. Whoever drives it performs the request and
//! resumes the invocation with the answer, until it has ended.
use soroban_sdk::Env;
use std::collections::VecDeque;
use vstd::prelude::*;

use crate::ledger;
use crate::ledger::{ledger_of, DataKey, Entry, Ledger};
use crate::script::{Refusal, Script, Step};
use crate::storage;
use crate::storage::as_flag;
use crate::types::{ContractError, Event, Request};

verus! {

/// Why an entry point panics.
#[derive(Clone, Copy, Debug, PartialEq, Eq)]
pub enum Trap {
    /// With an error of the contract.
    Coded(ContractError),
    /// On an error that it unwraps.
    Unwrapped(ContractError),
    /// On a stored value that is not of the type that belongs under its key.
    ForeignValue,
}

/// How an entry point ends.
#[derive(Clone, Copy, Debug, PartialEq, Eq)]
pub enum Outcome {
    Returned(Result<(), ContractError>),
    Panicked(Trap),
}

/// Where an invocation stands after it has been started or resumed.
#[derive(Debug, PartialEq, Eq)]
pub enum Progress {
    /// It waits for the answer to this request.
    Asked(Request),
    /// It has ended.
    Ended(Outcome),
}

/// What an invocation waits for.
#[derive(Clone, Copy, Debug, PartialEq, Eq)]
pub enum Phase {
    /// For the answer to a request that can be refused.
    Awaiting(Refusal),
    /// For the answer to a request that is reported by one of two events.
    Reporting(Event, Event),
    /// For something that cannot be refused.
    Telling,
    /// For the event to be published that reports this answer.
    Closing(Result<(), ContractError>),
    /// For nothing more.
    Ended(Outcome),
}

/// A script that is being carried out.
#[derive(Debug, PartialEq, Eq)]
pub struct Invocation {
    rest: VecDeque<Step>,
    phase: Phase,
}

/// Where an invocation stands: the steps that are left, what it waits for, the ledger that it
/// has left behind, and what it says.
pub struct Landing {
    pub rest: Seq<Step>,
    pub phase: Phase,
    pub ledger: Ledger,
    pub progress: Progress,
}

impl Refusal {
    /// How an entry point ends that was refused with this error.
    pub open spec fn outcome(self, error: ContractError) -> Outcome {
        match self {
            Refusal::Return => Outcome::Returned(Err(error)),
            Refusal::PanicWith(own) => Outcome::Panicked(Trap::Coded(own)),
            Refusal::Panic => Outcome::Panicked(Trap::Coded(error)),
            Refusal::Unwrap => Outcome::Panicked(Trap::Unwrapped(error)),
        }
    }
}

/// Where an invocation stands that has ended.
pub open spec fn ended(outcome: Outcome, ledger: Ledger) -> Landing {
    Landing { rest: seq![], phase: Phase::Ended(outcome), ledger, progress: Progress::Ended(outcome) }
}

/// Where an invocation stands that has asked for something.
pub open spec fn asked(request: Request, phase: Phase, rest: Seq<Step>, ledger: Ledger) -> Landing {
    Landing { rest, phase, ledger, progress: Progress::Asked(request) }
}

/// Where an invocation comes to stand that has these steps left and waits for nothing: the steps
/// on storage are carried out up to the first that has to be asked for.
pub open spec fn advance(rest: Seq<Step>, ledger: Ledger) -> Landing
    decreases rest.len(),
{
    if rest.len() == 0 {
        ended(Outcome::Returned(Ok(())), ledger)
    } else {
        let later = rest.drop_first();
        match rest[0] {
            Step::Ask(request, refusal) => asked(request, Phase::Awaiting(refusal), later, ledger),
            Step::AskAndReport(request, granted, refused) => asked(
                request,
                Phase::Reporting(granted, refused),
                later,
                ledger,
            ),
            Step::Tell(request) => asked(request, Phase::Telling, later, ledger),
            Step::Save(entry) => advance(later, ledger.save(entry)),
            Step::TogglePause => match as_flag(ledger.at(DataKey::Paused)) {
                Some(found) => {
                    let paused = found != Some(true);
                    asked(
                        Request::Emit(Event::PauseToggled(paused)),
                        Phase::Telling,
                        later,
                        ledger.save(Entry::Paused(paused)),
                    )
                },
                None => ended(Outcome::Panicked(Trap::ForeignValue), ledger),
            },
            Step::RefuseIfInitialized => match as_flag(ledger.at(DataKey::Initialized)) {
                Some(Some(true)) => ended(Outcome::Returned(Err(ContractError::AlreadyInitialized)), ledger),
                Some(_) => advance(later, ledger),
                None => ended(Outcome::Panicked(Trap::ForeignValue), ledger),
            },
            Step::Refuse(error) => ended(Outcome::Returned(Err(error)), ledger),
            Step::KeepAlive => advance(later, ledger.keep_alive()),
        }
    }
}

/// Where an invocation comes to stand that is resumed with this answer.
pub open spec fn resume(
    rest: Seq<Step>,
    phase: Phase,
    reply: Result<(), ContractError>,
    ledger: Ledger,
) -> Landing {
    match phase {
        Phase::Telling => advance(rest, ledger),
        Phase::Awaiting(refusal) => match reply {
            Ok(()) => advance(rest, ledger),
            Err(error) => ended(refusal.outcome(error), ledger),
        },
        Phase::Reporting(granted, refused) => asked(
            Request::Emit(if reply is Ok { granted } else { refused }),
            Phase::Closing(reply),
            rest,
            ledger,
        ),
        Phase::Closing(answer) => match answer {
            Ok(()) => advance(rest, ledger),
            Err(error) => ended(Outcome::Returned(Err(error)), ledger),
        },
        Phase::Ended(outcome) => ended(outcome, ledger),
    }
}

impl Invocation {
    /// The steps that are left.
    pub closed spec fn rest(self) -> Seq<Step> {
        self.rest@
    }

    /// What the invocation waits for.
    pub closed spec fn phase(self) -> Phase {
        self.phase
    }

    /// Starts a script, on the only handle that the caller holds.
    pub fn start(script: Script, env: &mut Env) -> (r: (Invocation, Progress))
        ensures
            (Landing {
                rest: r.0.rest(),
                phase: r.0.phase(),
                ledger: ledger_of(*final(env)),
                progress: r.1,
            }) == advance(script@, ledger_of(*old(env))),
    {
        let mut invocation = Invocation { rest: script.into_steps(), phase: Phase::Telling };
        let progress = invocation.advance(env);
        (invocation, progress)
    }

    /// Resumes the invocation with the answer to its last request. The answer to a request that
    /// cannot be refused makes no difference, nor does one that comes after the end.
    ///
    /// The handle is the one that the invocation was started with, and the only one that the caller
    /// holds. Whoever carries out a request is given it by `&mut`: whatever the request is, the
    /// ledger may be another one when the answer comes, and the invocation goes on from that one.
    pub fn resume(&mut self, env: &mut Env, reply: Result<(), ContractError>) -> (progress: Progress)
        ensures
            (Landing {
                rest: final(self).rest(),
                phase: final(self).phase(),
                ledger: ledger_of(*final(env)),
                progress,
            }) == resume(old(self).rest(), old(self).phase(), reply, ledger_of(*old(env))),
    {
        match self.phase {
            Phase::Telling => self.advance(env),
            Phase::Awaiting(refusal) => match reply {
                Ok(()) => self.advance(env),
                Err(error) => match refusal {
                    Refusal::Return => self.end(Outcome::Returned(Err(error))),
                    Refusal::PanicWith(own) => self.end(Outcome::Panicked(Trap::Coded(own))),
                    Refusal::Panic => self.end(Outcome::Panicked(Trap::Coded(error))),
                    Refusal::Unwrap => self.end(Outcome::Panicked(Trap::Unwrapped(error))),
                },
            },
            Phase::Reporting(granted, refused) => {
                self.phase = Phase::Closing(reply);
                Progress::Asked(Request::Emit(if reply.is_ok() { granted } else { refused }))
            },
            Phase::Closing(answer) => match answer {
                Ok(()) => self.advance(env),
                Err(error) => self.end(Outcome::Returned(Err(error))),
            },
            Phase::Ended(outcome) => self.end(outcome),
        }
    }

    /// Ends the invocation.
    fn end(&mut self, outcome: Outcome) -> (progress: Progress)
        ensures
            final(self).rest() == Seq::<Step>::empty(),
            final(self).phase() == Phase::Ended(outcome),
            progress == Progress::Ended(outcome),
    {
        self.rest.clear();
        self.phase = Phase::Ended(outcome);
        Progress::Ended(outcome)
    }

    /// Carries out steps up to the first that has to be asked for.
    fn advance(&mut self, env: &mut Env) -> (progress: Progress)
        ensures
            (Landing {
                rest: final(self).rest(),
                phase: final(self).phase(),
                ledger: ledger_of(*final(env)),
                progress,
            }) == advance(old(self).rest(), ledger_of(*old(env))),
    {
        loop
            invariant
                advance(self.rest(), ledger_of(*env)) == advance(old(self).rest(), ledger_of(*old(env))),
            decreases self.rest().len(),
        {
            let ghost rest = self.rest();
            match self.rest.pop_front() {
                None => {
                    return self.end(Outcome::Returned(Ok(())));
                },
                Some(step) => {
                    assert(self.rest() == rest.drop_first());
                    match step {
                        Step::Ask(request, refusal) => {
                            self.phase = Phase::Awaiting(refusal);
                            return Progress::Asked(request);
                        },
                        Step::AskAndReport(request, granted, refused) => {
                            self.phase = Phase::Reporting(granted, refused);
                            return Progress::Asked(request);
                        },
                        Step::Tell(request) => {
                            self.phase = Phase::Telling;
                            return Progress::Asked(request);
                        },
                        Step::Save(entry) => ledger::save(env, entry),
                        Step::TogglePause => match storage::get_flag(env, DataKey::Paused.symbol()) {
                            Ok(found) => {
                                let paused = match found {
                                    Some(paused) => !paused,
                                    None => true,
                                };
                                ledger::save(env, Entry::Paused(paused));
                                self.phase = Phase::Telling;
                                return Progress::Asked(Request::Emit(Event::PauseToggled(paused)));
                            },
                            Err(_) => {
                                return self.end(Outcome::Panicked(Trap::ForeignValue));
                            },
                        },
                        Step::RefuseIfInitialized => match storage::get_flag(env, DataKey::Initialized.symbol()) {
                            Ok(found) => {
                                if found == Some(true) {
                                    return self.end(Outcome::Returned(Err(ContractError::AlreadyInitialized)));
                                }
                            },
                            Err(_) => {
                                return self.end(Outcome::Panicked(Trap::ForeignValue));
                            },
                        },
                        Step::Refuse(error) => {
                            return self.end(Outcome::Returned(Err(error)));
                        },
                        Step::KeepAlive => ledger::keep_alive(env),
                    }
                },
            }
        }
    }
}

} // verus!
