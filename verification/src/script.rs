//! Scripts: what an entry point does, step by step.
//!
//! An entry point alternates its own decisions with work that other modules do. It is written
//! down as a script, which an `Invocation` carries out: the steps on storage by itself, every
//! other step by asking for it.
use std::collections::VecDeque;
use vstd::prelude::*;

use crate::ledger::Entry;
use crate::types::{Address, ContractError, Event, ModuleCall, Request, Role};

verus! {

/// How an entry point ends when a request is refused.
#[derive(Clone, Copy, Debug, PartialEq, Eq)]
pub enum Refusal {
    /// It returns the error.
    Return,
    /// It panics with an error of its own.
    PanicWith(ContractError),
    /// It panics with the error.
    Panic,
    /// It panics by unwrapping the error.
    Unwrap,
}

/// One step of an entry point.
#[derive(Debug, PartialEq, Eq)]
pub enum Step {
    /// Ask, and go on only if the request is granted.
    Ask(Request, Refusal),
    /// Ask, publish the first event if the request is granted and the second if it is refused,
    /// and go on only if it is granted.
    AskAndReport(Request, Event, Event),
    /// Ask for something that cannot be refused.
    Tell(Request),
    /// Store a setting.
    Save(Entry),
    /// Store the opposite of the pause flag, and publish its new value.
    TogglePause,
    /// Go on only if the contract is not initialized yet.
    RefuseIfInitialized,
    /// Refuse the call.
    Refuse(ContractError),
    /// Keep the contract instance alive.
    KeepAlive,
}

/// The steps of an entry point, in order.
#[derive(Debug, PartialEq, Eq)]
pub struct Script {
    steps: VecDeque<Step>,
}

impl View for Script {
    type V = Seq<Step>;

    closed spec fn view(&self) -> Seq<Step> {
        self.steps@
    }
}

/// What an entry point asks for before anything else, and what it does once all is granted.
pub struct Plan {
    /// The addresses that have to be valid, in the order in which they are asked for.
    pub addresses: Seq<Address>,
    /// Whether the call is refused while the contract is paused.
    pub pausable: bool,
    /// The role that the call asks for, and of whom.
    pub role: Option<(Address, Role)>,
    /// Whether the entry point panics where the others return an error.
    pub panics: bool,
    /// What the call does once all of this is granted.
    pub effects: Seq<Step>,
}

impl Plan {
    /// How the entry point ends when an address is not valid.
    pub open spec fn on_invalid(self) -> Refusal {
        if self.panics { Refusal::PanicWith(ContractError::InvalidAddress) } else { Refusal::Return }
    }

    /// How the entry point ends when the contract is paused.
    pub open spec fn on_paused(self) -> Refusal {
        if self.panics { Refusal::Unwrap } else { Refusal::Return }
    }

    /// How the entry point ends when the caller lacks the role.
    pub open spec fn on_denied(self) -> Refusal {
        if self.panics { Refusal::Panic } else { Refusal::Return }
    }

    pub open spec fn validations(self) -> Seq<Step> {
        self.addresses.map_values(|address: Address| Step::Ask(Request::ValidateAddress(address), self.on_invalid()))
    }

    pub open spec fn pause_gate(self) -> Seq<Step> {
        if self.pausable { seq![Step::Ask(Request::RequireNotPaused, self.on_paused())] } else { seq![] }
    }

    pub open spec fn role_gate(self) -> Seq<Step> {
        match self.role {
            Some((caller, role)) => seq![Step::Ask(Request::RequireRole(caller, role), self.on_denied())],
            None => seq![],
        }
    }

    /// All that has to be granted: the addresses, then the pause gate, then the role.
    pub open spec fn gates(self) -> Seq<Step> {
        self.validations() + self.pause_gate() + self.role_gate()
    }

    pub open spec fn script(self) -> Seq<Step> {
        self.gates() + self.effects
    }
}

impl Script {
    pub(crate) fn new() -> (script: Script)
        ensures
            script@ == Seq::<Step>::empty(),
    {
        Script { steps: VecDeque::new() }
    }

    pub(crate) fn push(&mut self, step: Step)
        ensures
            final(self)@ == old(self)@.push(step),
    {
        self.steps.push_back(step);
    }

    pub(crate) fn into_steps(self) -> (steps: VecDeque<Step>)
        ensures
            steps@ == self@,
    {
        self.steps
    }

    /// Appends the steps of another script.
    pub(crate) fn append(&mut self, other: Script)
        ensures
            final(self)@ == old(self)@ + other@,
    {
        let mut other = other;
        self.steps.append(&mut other.steps);
    }

    pub(crate) fn validate_address(&mut self, address: Address)
        ensures
            final(self)@ == old(self)@.push(Step::Ask(Request::ValidateAddress(address), Refusal::Return)),
    {
        self.push(Step::Ask(Request::ValidateAddress(address), Refusal::Return));
    }

    pub(crate) fn require_not_paused(&mut self)
        ensures
            final(self)@ == old(self)@.push(Step::Ask(Request::RequireNotPaused, Refusal::Return)),
    {
        self.push(Step::Ask(Request::RequireNotPaused, Refusal::Return));
    }

    pub(crate) fn require_role(&mut self, caller: Address, role: Role)
        ensures
            final(self)@ == old(self)@.push(Step::Ask(Request::RequireRole(caller, role), Refusal::Return)),
    {
        self.push(Step::Ask(Request::RequireRole(caller, role), Refusal::Return));
    }

    pub(crate) fn call(&mut self, call: ModuleCall)
        ensures
            final(self)@ == old(self)@.push(Step::Ask(Request::Module(call), Refusal::Return)),
    {
        self.push(Step::Ask(Request::Module(call), Refusal::Return));
    }

    pub(crate) fn tell(&mut self, call: ModuleCall)
        ensures
            final(self)@ == old(self)@.push(Step::Tell(Request::Module(call))),
    {
        self.push(Step::Tell(Request::Module(call)));
    }

    pub(crate) fn emit(&mut self, event: Event)
        ensures
            final(self)@ == old(self)@.push(Step::Tell(Request::Emit(event))),
    {
        self.push(Step::Tell(Request::Emit(event)));
    }

    pub(crate) fn save(&mut self, entry: Entry)
        ensures
            final(self)@ == old(self)@.push(Step::Save(entry)),
    {
        self.push(Step::Save(entry));
    }
}

} // verus!
