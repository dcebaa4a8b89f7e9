//! What each entry point is for: what it asks for and of whom, what it stores, what it publishes and
//! what it answers, for all arguments, all ledgers and all answers.
//!
//! Keys and values are spoken of here as they stand in storage.
use vstd::prelude::*;

use crate::entry::{
    admin_in, history_in, paused_in, snapshot_in, weight_threshold_in, withdrawal_timelock_in,
};
use crate::invocation::{advance, asked, Outcome, Phase, Trap};
use crate::laws::{founded, law_batch_of_one};
use crate::ledger::{DataKey, Entry, Ledger};
use crate::plans;
use crate::plans::batch;
use crate::script::{Refusal, Step};
use crate::storage::{as_flag, xdr_of, Element, Part, Value};
use crate::trace::{granted, ledger_after, lemma_asks_in_turn, perform, run, Answer, Asking, Trace};
use crate::types::{Address, BatchCall, ContractError, Event, ModuleCall, Request, Role};

verus! {

/// The call asks for these requests one after the other, and for each only once those before it are
/// granted. The first that is refused ends the call: its error is what the call returns, nothing
/// else is asked for, and the ledger is left as it is.
pub open spec fn insists_on(
    trace: Trace,
    requests: Seq<Request>,
    ledger: Ledger,
    answers: Seq<Answer>,
) -> bool {
    &&& forall|i: int|
        0 <= i < requests.len() && granted(i, answers) ==> i < trace.asked.len() && trace.asked[i] == (Asking {
            request: #[trigger] requests[i],
            ledger: ledger_after(i, ledger, answers),
        })
    &&& forall|i: int|
        0 <= i < requests.len() && i < answers.len() && granted(i, answers) && (
        #[trigger] answers[i]).reply is Err ==> {
            &&& trace.asked.len() == i + 1
            &&& trace.end == Some(Outcome::Returned(Err(answers[i].reply->Err_0)))
            &&& trace.ledger == answers[i].ledger
        }
    &&& answers.len() < requests.len() && granted(answers.len() as int, answers) ==> {
        &&& trace.asked.len() == answers.len() + 1
        &&& trace.end is None
    }
}

/// The call has asked for `n` requests and no more, and returns without an error, with this ledger.
pub open spec fn comes_back(trace: Trace, n: nat, ledger: Ledger) -> bool {
    &&& trace.asked.len() == n
    &&& trace.succeeded()
    &&& trace.ledger == ledger
}

/// The call has asked for `n` requests and no more, and ends so, with this ledger.
pub open spec fn ends(trace: Trace, n: nat, outcome: Outcome, ledger: Ledger) -> bool {
    &&& trace.asked.len() == n
    &&& trace.end == Some(outcome)
    &&& trace.ledger == ledger
}

/// The call insists on these requests, asks for nothing else and stores nothing. Once all are
/// granted, it returns without an error: the answer to the last is the answer of the call.
pub open spec fn asks_for_exactly(
    trace: Trace,
    requests: Seq<Request>,
    ledger: Ledger,
    answers: Seq<Answer>,
) -> bool {
    &&& insists_on(trace, requests, ledger, answers)
    &&& granted(requests.len() as int, answers) ==> comes_back(
        trace,
        requests.len(),
        ledger_after(requests.len() as int, ledger, answers),
    )
}

/// After `n` requests the call asks, with this ledger, for one event to be published. With that it
/// returns without an error, whatever the answer is.
pub open spec fn publishes(trace: Trace, n: nat, event: Event, ledger: Ledger, answers: Seq<Answer>) -> bool {
    &&& trace.asked.len() == n + 1
    &&& trace.asked[n as int] == (Asking { request: Request::Emit(event), ledger })
    &&& answers.len() == n ==> trace.end is None
    &&& answers.len() > n ==> trace.succeeded() && trace.ledger == answers[n as int].ledger
}

/// The ledger with this value under the key that has this symbol alone. All else is as before.
pub open spec fn with(ledger: Ledger, name: Seq<char>, value: Value) -> Ledger {
    Ledger { entries: ledger.entries.insert(seq![Part::Symbol(name)], value), ..ledger }
}

proof fn lemma_insists(
    requests: Seq<Request>,
    rest: Seq<Step>,
    steps: Seq<Step>,
    ledger: Ledger,
    answers: Seq<Answer>,
)
    requires
        steps.len() == requests.len() + rest.len(),
        forall|i: int| 0 <= i < requests.len() ==> #[trigger] steps[i] == Step::Ask(requests[i], Refusal::Return),
        forall|i: int| 0 <= i < rest.len() ==> steps[requests.len() + i] == #[trigger] rest[i],
    ensures
        insists_on(perform(steps, ledger, answers), requests, ledger, answers),
        granted(requests.len() as int, answers) ==> ({
            let trace = perform(steps, ledger, answers);
            let n = requests.len() as int;
            let later = perform(rest, ledger_after(n, ledger, answers), answers.skip(n));
            &&& trace.asked.len() == n + later.asked.len()
            &&& trace.asked.skip(n) == later.asked
            &&& trace.end == later.end
            &&& trace.ledger == later.ledger
        }),
{
    let refusals = Seq::new(requests.len(), |i: int| Refusal::Return);
    lemma_asks_in_turn(requests, refusals, rest, steps, ledger, answers);
}

proof fn lemma_exact(requests: Seq<Request>, steps: Seq<Step>, ledger: Ledger, answers: Seq<Answer>)
    requires
        steps.len() == requests.len(),
        forall|i: int| 0 <= i < requests.len() ==> #[trigger] steps[i] == Step::Ask(requests[i], Refusal::Return),
    ensures
        asks_for_exactly(perform(steps, ledger, answers), requests, ledger, answers),
{
    lemma_insists(requests, seq![], steps, ledger, answers);
}

proof fn lemma_published(
    requests: Seq<Request>,
    event: Event,
    steps: Seq<Step>,
    ledger: Ledger,
    answers: Seq<Answer>,
)
    requires
        steps.len() == requests.len() + 1,
        forall|i: int| 0 <= i < requests.len() ==> #[trigger] steps[i] == Step::Ask(requests[i], Refusal::Return),
        steps[requests.len() as int] == Step::Tell(Request::Emit(event)),
    ensures
        insists_on(perform(steps, ledger, answers), requests, ledger, answers),
        granted(requests.len() as int, answers) ==> publishes(
            perform(steps, ledger, answers),
            requests.len(),
            event,
            ledger_after(requests.len() as int, ledger, answers),
            answers,
        ),
{
    let rest = seq![Step::Tell(Request::Emit(event))];
    lemma_insists(requests, rest, steps, ledger, answers);
    lemma_one_more(requests.len(), rest, Request::Emit(event), steps, ledger, answers);
}

/// A script that goes on, after its first `n` requests, with steps that come to one request which
/// cannot be refused, and then end.
proof fn lemma_one_more(
    n: nat,
    rest: Seq<Step>,
    request: Request,
    steps: Seq<Step>,
    ledger: Ledger,
    answers: Seq<Answer>,
)
    requires
        rest.len() == 1 && rest[0] == Step::Tell(request) || rest.len() == 2 && rest[0] is Save && rest[1]
            == Step::Tell(request),
        granted(n as int, answers) ==> ({
            let trace = perform(steps, ledger, answers);
            let later = perform(rest, ledger_after(n as int, ledger, answers), answers.skip(n as int));
            &&& trace.asked.len() == n + later.asked.len()
            &&& trace.asked.skip(n as int) == later.asked
            &&& trace.end == later.end
            &&& trace.ledger == later.ledger
        }),
    ensures
        granted(n as int, answers) ==> ({
            let trace = perform(steps, ledger, answers);
            let before = ledger_after(n as int, ledger, answers);
            let stored = if rest.len() == 2 { before.save(rest[0]->Save_0) } else { before };
            &&& trace.asked.len() == n + 1
            &&& trace.asked[n as int] == (Asking { request, ledger: stored })
            &&& answers.len() == n ==> trace.end is None
            &&& answers.len() > n ==> trace.succeeded() && trace.ledger == answers[n as int].ledger
        }),
{
    if granted(n as int, answers) {
        let trace = perform(steps, ledger, answers);
        let replies = answers.skip(n as int);
        let later = perform(rest, ledger_after(n as int, ledger, answers), replies);
        reveal_with_fuel(run, 2);
        reveal_with_fuel(advance, 2);
        if rest.len() == 2 {
            assert(rest.drop_first()[0] == rest[1]);
            assert(rest.drop_first().drop_first().len() == 0);
        } else {
            assert(rest.drop_first().len() == 0);
        }
        assert(trace.asked[n as int] == trace.asked.skip(n as int)[0]);
        if answers.len() > n {
            assert(replies[0] == answers[n as int]);
        }
    }
}

proof fn lemma_stored_and_published(
    requests: Seq<Request>,
    entry: Entry,
    event: Event,
    steps: Seq<Step>,
    ledger: Ledger,
    answers: Seq<Answer>,
)
    requires
        steps.len() == requests.len() + 2,
        forall|i: int| 0 <= i < requests.len() ==> #[trigger] steps[i] == Step::Ask(requests[i], Refusal::Return),
        steps[requests.len() as int] == Step::Save(entry),
        steps[requests.len() as int + 1] == Step::Tell(Request::Emit(event)),
    ensures
        insists_on(perform(steps, ledger, answers), requests, ledger, answers),
        granted(requests.len() as int, answers) ==> publishes(
            perform(steps, ledger, answers),
            requests.len(),
            event,
            ledger_after(requests.len() as int, ledger, answers).save(entry),
            answers,
        ),
{
    let rest = seq![Step::Save(entry), Step::Tell(Request::Emit(event))];
    lemma_insists(requests, rest, steps, ledger, answers);
    lemma_one_more(requests.len(), rest, Request::Emit(event), steps, ledger, answers);
}

proof fn lemma_stored(
    requests: Seq<Request>,
    entry: Entry,
    steps: Seq<Step>,
    ledger: Ledger,
    answers: Seq<Answer>,
)
    requires
        steps.len() == requests.len() + 1,
        forall|i: int| 0 <= i < requests.len() ==> #[trigger] steps[i] == Step::Ask(requests[i], Refusal::Return),
        steps[requests.len() as int] == Step::Save(entry),
    ensures
        insists_on(perform(steps, ledger, answers), requests, ledger, answers),
        granted(requests.len() as int, answers) ==> comes_back(
            perform(steps, ledger, answers),
            requests.len(),
            ledger_after(requests.len() as int, ledger, answers).save(entry),
        ),
{
    let rest = seq![Step::Save(entry)];
    lemma_insists(requests, rest, steps, ledger, answers);
    reveal_with_fuel(advance, 2);
    assert(rest.drop_first().len() == 0);
}

/// Pausing needs a valid admin who holds `EmergencyManager`, and no more. It stores the pause flag as set
/// and publishes that.
pub proof fn law_pause(admin: Address, ledger: Ledger, answers: Seq<Answer>)
    ensures
        ({
            let trace = perform(plans::pause(admin).script(), ledger, answers);
            let requests = seq![
                Request::ValidateAddress(admin),
                Request::RequireRole(admin, Role::EmergencyManager),
            ];
            let before = ledger_after(2, ledger, answers);
            &&& insists_on(trace, requests, ledger, answers)
            &&& granted(2, answers) ==> publishes(
                trace,
                2,
                Event::PauseToggled(true),
                with(before, "Paused"@, Value::Flag(true)),
                answers,
            )
        }),
{
    let requests = seq![
        Request::ValidateAddress(admin),
        Request::RequireRole(admin, Role::EmergencyManager),
    ];
    let steps = plans::pause(admin).script();
    lemma_stored_and_published(requests, Entry::Paused(true), Event::PauseToggled(true), steps, ledger, answers);
}

/// Ending the pause needs a valid admin who holds `EmergencyManager`, and no more. It stores the pause
/// flag as cleared and publishes that.
pub proof fn law_unpause(admin: Address, ledger: Ledger, answers: Seq<Answer>)
    ensures
        ({
            let trace = perform(plans::unpause(admin).script(), ledger, answers);
            let requests = seq![
                Request::ValidateAddress(admin),
                Request::RequireRole(admin, Role::EmergencyManager),
            ];
            let before = ledger_after(2, ledger, answers);
            &&& insists_on(trace, requests, ledger, answers)
            &&& granted(2, answers) ==> publishes(
                trace,
                2,
                Event::PauseToggled(false),
                with(before, "Paused"@, Value::Flag(false)),
                answers,
            )
        }),
{
    let requests = seq![
        Request::ValidateAddress(admin),
        Request::RequireRole(admin, Role::EmergencyManager),
    ];
    let steps = plans::unpause(admin).script();
    lemma_stored_and_published(requests, Entry::Paused(false), Event::PauseToggled(false), steps, ledger, answers);
}

/// A guardian is added for a valid `GuardianManager`, not while paused, and that is published once the
/// guardians' module has done it.
pub proof fn law_add_guardian(admin: Address, guardian: Address, ledger: Ledger, answers: Seq<Answer>)
    ensures
        ({
            let trace = perform(plans::add_guardian(admin, guardian).script(), ledger, answers);
            let requests = seq![
                Request::ValidateAddress(admin),
                Request::ValidateAddress(guardian),
                Request::RequireNotPaused,
                Request::RequireRole(admin, Role::GuardianManager),
                Request::Module(ModuleCall::AddGuardian(admin, guardian)),
            ];
            &&& insists_on(trace, requests, ledger, answers)
            &&& granted(5, answers) ==> publishes(
                trace,
                5,
                Event::GuardianAdded(admin, guardian),
                ledger_after(5, ledger, answers),
                answers,
            )
        }),
{
    let requests = seq![
        Request::ValidateAddress(admin),
        Request::ValidateAddress(guardian),
        Request::RequireNotPaused,
        Request::RequireRole(admin, Role::GuardianManager),
        Request::Module(ModuleCall::AddGuardian(admin, guardian)),
    ];
    let steps = plans::add_guardian(admin, guardian).script();
    lemma_published(requests, Event::GuardianAdded(admin, guardian), steps, ledger, answers);
}

/// A guardian is removed for a valid `GuardianManager`, not while paused, and that is published once the
/// guardians' module has done it.
pub proof fn law_remove_guardian(admin: Address, guardian: Address, ledger: Ledger, answers: Seq<Answer>)
    ensures
        ({
            let trace = perform(plans::remove_guardian(admin, guardian).script(), ledger, answers);
            let requests = seq![
                Request::ValidateAddress(admin),
                Request::ValidateAddress(guardian),
                Request::RequireNotPaused,
                Request::RequireRole(admin, Role::GuardianManager),
                Request::Module(ModuleCall::RemoveGuardian(admin, guardian)),
            ];
            &&& insists_on(trace, requests, ledger, answers)
            &&& granted(5, answers) ==> publishes(
                trace,
                5,
                Event::GuardianRemoved(admin, guardian),
                ledger_after(5, ledger, answers),
                answers,
            )
        }),
{
    let requests = seq![
        Request::ValidateAddress(admin),
        Request::ValidateAddress(guardian),
        Request::RequireNotPaused,
        Request::RequireRole(admin, Role::GuardianManager),
        Request::Module(ModuleCall::RemoveGuardian(admin, guardian)),
    ];
    let steps = plans::remove_guardian(admin, guardian).script();
    lemma_published(requests, Event::GuardianRemoved(admin, guardian), steps, ledger, answers);
}

/// A guardian is given exactly this score for a valid `GuardianManager`, not while paused, and that is
/// published once the reputation module has done it.
pub proof fn law_set_reputation(
    admin: Address,
    guardian: Address,
    score: u64,
    ledger: Ledger,
    answers: Seq<Answer>,
)
    ensures
        ({
            let trace = perform(plans::set_reputation(admin, guardian, score).script(), ledger, answers);
            let requests = seq![
                Request::ValidateAddress(admin),
                Request::ValidateAddress(guardian),
                Request::RequireNotPaused,
                Request::RequireRole(admin, Role::GuardianManager),
                Request::Module(ModuleCall::SetReputation(admin, guardian, score)),
            ];
            &&& insists_on(trace, requests, ledger, answers)
            &&& granted(5, answers) ==> publishes(
                trace,
                5,
                Event::ReputationSet(admin, guardian, score),
                ledger_after(5, ledger, answers),
                answers,
            )
        }),
{
    let requests = seq![
        Request::ValidateAddress(admin),
        Request::ValidateAddress(guardian),
        Request::RequireNotPaused,
        Request::RequireRole(admin, Role::GuardianManager),
        Request::Module(ModuleCall::SetReputation(admin, guardian, score)),
    ];
    let steps = plans::set_reputation(admin, guardian, score).script();
    lemma_published(requests, Event::ReputationSet(admin, guardian, score), steps, ledger, answers);
}

/// Exactly this amount is locked for exactly this guardian, whose address has to be valid. The answer of
/// the token locks is the answer of the call.
pub proof fn law_lock_tokens(guardian: Address, amount: i128, ledger: Ledger, answers: Seq<Answer>)
    ensures
        ({
            let trace = perform(plans::lock_tokens(guardian, amount).script(), ledger, answers);
            let requests = seq![
                Request::ValidateAddress(guardian),
                Request::Module(ModuleCall::LockTokens(guardian, amount)),
            ];
            asks_for_exactly(trace, requests, ledger, answers)
        }),
{
    let requests = seq![
        Request::ValidateAddress(guardian),
        Request::Module(ModuleCall::LockTokens(guardian, amount)),
    ];
    let steps = plans::lock_tokens(guardian, amount).script();
    lemma_exact(requests, steps, ledger, answers);
}

/// The withdrawal is requested for exactly this guardian, whose address has to be valid. The answer of
/// the token locks is the answer of the call.
pub proof fn law_request_unlock(guardian: Address, ledger: Ledger, answers: Seq<Answer>)
    ensures
        ({
            let trace = perform(plans::request_unlock(guardian).script(), ledger, answers);
            let requests = seq![
                Request::ValidateAddress(guardian),
                Request::Module(ModuleCall::RequestUnlock(guardian)),
            ];
            asks_for_exactly(trace, requests, ledger, answers)
        }),
{
    let requests = seq![
        Request::ValidateAddress(guardian),
        Request::Module(ModuleCall::RequestUnlock(guardian)),
    ];
    let steps = plans::request_unlock(guardian).script();
    lemma_exact(requests, steps, ledger, answers);
}

/// The tokens are withdrawn for exactly this guardian, whose address has to be valid. The answer of the
/// token locks is the answer of the call.
pub proof fn law_unlock_tokens(guardian: Address, ledger: Ledger, answers: Seq<Answer>)
    ensures
        ({
            let trace = perform(plans::unlock_tokens(guardian).script(), ledger, answers);
            let requests = seq![
                Request::ValidateAddress(guardian),
                Request::Module(ModuleCall::UnlockTokens(guardian)),
            ];
            asks_for_exactly(trace, requests, ledger, answers)
        }),
{
    let requests = seq![
        Request::ValidateAddress(guardian),
        Request::Module(ModuleCall::UnlockTokens(guardian)),
    ];
    let steps = plans::unlock_tokens(guardian).script();
    lemma_exact(requests, steps, ledger, answers);
}

/// Exactly this amount goes to exactly this recipient, for a valid `EmergencyManager`, paused or not. The
/// answer of the token locks is the answer of the call.
pub proof fn law_emergency_recover(
    admin: Address,
    recipient: Address,
    amount: i128,
    ledger: Ledger,
    answers: Seq<Answer>,
)
    ensures
        ({
            let trace = perform(plans::emergency_recover(admin, recipient, amount).script(), ledger, answers);
            let requests = seq![
                Request::ValidateAddress(admin),
                Request::ValidateAddress(recipient),
                Request::RequireRole(admin, Role::EmergencyManager),
                Request::Module(ModuleCall::EmergencyRecover(admin, recipient, amount)),
            ];
            asks_for_exactly(trace, requests, ledger, answers)
        }),
{
    let requests = seq![
        Request::ValidateAddress(admin),
        Request::ValidateAddress(recipient),
        Request::RequireRole(admin, Role::EmergencyManager),
        Request::Module(ModuleCall::EmergencyRecover(admin, recipient, amount)),
    ];
    let steps = plans::emergency_recover(admin, recipient, amount).script();
    lemma_exact(requests, steps, ledger, answers);
}

/// Exactly this guardian resigns, whose address has to be valid. The answer of the token locks is the
/// answer of the call.
pub proof fn law_resign_guardian(guardian: Address, ledger: Ledger, answers: Seq<Answer>)
    ensures
        ({
            let trace = perform(plans::resign_guardian(guardian).script(), ledger, answers);
            let requests = seq![
                Request::ValidateAddress(guardian),
                Request::Module(ModuleCall::ResignGuardian(guardian)),
            ];
            asks_for_exactly(trace, requests, ledger, answers)
        }),
{
    let requests = seq![
        Request::ValidateAddress(guardian),
        Request::Module(ModuleCall::ResignGuardian(guardian)),
    ];
    let steps = plans::resign_guardian(guardian).script();
    lemma_exact(requests, steps, ledger, answers);
}

/// The weight threshold is stored for a valid `ConfigManager`, not while paused, and published.
pub proof fn law_set_weight_threshold(admin: Address, threshold: u64, ledger: Ledger, answers: Seq<Answer>)
    ensures
        ({
            let trace = perform(plans::set_weight_threshold(admin, threshold).script(), ledger, answers);
            let requests = seq![
                Request::ValidateAddress(admin),
                Request::RequireNotPaused,
                Request::RequireRole(admin, Role::ConfigManager),
            ];
            let before = ledger_after(3, ledger, answers);
            &&& insists_on(trace, requests, ledger, answers)
            &&& granted(3, answers) ==> publishes(
                trace,
                3,
                Event::ThresholdSet(admin, threshold),
                with(before, "WeightThreshold"@, Value::Count(threshold)),
                answers,
            )
        }),
{
    let requests = seq![
        Request::ValidateAddress(admin),
        Request::RequireNotPaused,
        Request::RequireRole(admin, Role::ConfigManager),
    ];
    let steps = plans::set_weight_threshold(admin, threshold).script();
    let event = Event::ThresholdSet(admin, threshold);
    lemma_stored_and_published(requests, Entry::WeightThreshold(threshold), event, steps, ledger, answers);
}

/// The treasury is stored for a valid `ConfigManager`, not while paused.
pub proof fn law_set_treasury_address(admin: Address, treasury: Address, ledger: Ledger, answers: Seq<Answer>)
    ensures
        ({
            let trace = perform(plans::set_treasury_address(admin, treasury).script(), ledger, answers);
            let requests = seq![
                Request::ValidateAddress(admin),
                Request::ValidateAddress(treasury),
                Request::RequireNotPaused,
                Request::RequireRole(admin, Role::ConfigManager),
            ];
            let before = ledger_after(4, ledger, answers);
            &&& insists_on(trace, requests, ledger, answers)
            &&& granted(4, answers) ==> comes_back(
                trace,
                4,
                with(before, "TreasuryAddress"@, Value::Account(treasury)),
            )
        }),
{
    let requests = seq![
        Request::ValidateAddress(admin),
        Request::ValidateAddress(treasury),
        Request::RequireNotPaused,
        Request::RequireRole(admin, Role::ConfigManager),
    ];
    let steps = plans::set_treasury_address(admin, treasury).script();
    lemma_stored(requests, Entry::TreasuryAddress(treasury), steps, ledger, answers);
}

/// Exactly the one given task is registered with exactly the given votes, for a valid `TaskManager`, not while
/// paused. The answer of the tasks' module is the answer of the call.
pub proof fn law_register_task(
    admin: Address,
    task_id: u64,
    min_votes_required: u32,
    ledger: Ledger,
    answers: Seq<Answer>,
)
    ensures
        ({
            let trace = perform(plans::register_task(admin, task_id, min_votes_required).script(), ledger, answers);
            let requests = seq![
                Request::ValidateAddress(admin),
                Request::RequireNotPaused,
                Request::RequireRole(admin, Role::TaskManager),
                Request::Module(ModuleCall::RegisterTasks(admin, [task_id], min_votes_required)),
            ];
            asks_for_exactly(trace, requests, ledger, answers)
        }),
{
    let requests = seq![
        Request::ValidateAddress(admin),
        Request::RequireNotPaused,
        Request::RequireRole(admin, Role::TaskManager),
        Request::Module(ModuleCall::RegisterTasks(admin, [task_id], min_votes_required)),
    ];
    let steps = plans::register_task(admin, task_id, min_votes_required).script();
    lemma_exact(requests, steps, ledger, answers);
}

/// Exactly the given task is cancelled, for a valid `TaskManager`, not while paused. The answer of the tasks'
/// module is the answer of the call.
pub proof fn law_cancel_task(admin: Address, task_id: u64, ledger: Ledger, answers: Seq<Answer>)
    ensures
        ({
            let trace = perform(plans::cancel_task(admin, task_id).script(), ledger, answers);
            let requests = seq![
                Request::ValidateAddress(admin),
                Request::RequireNotPaused,
                Request::RequireRole(admin, Role::TaskManager),
                Request::Module(ModuleCall::CancelTask(admin, task_id)),
            ];
            asks_for_exactly(trace, requests, ledger, answers)
        }),
{
    let requests = seq![
        Request::ValidateAddress(admin),
        Request::RequireNotPaused,
        Request::RequireRole(admin, Role::TaskManager),
        Request::Module(ModuleCall::CancelTask(admin, task_id)),
    ];
    let steps = plans::cancel_task(admin, task_id).script();
    lemma_exact(requests, steps, ledger, answers);
}

/// Exactly the given task is purged, for a valid `TaskManager`, not while paused. The answer of the tasks'
/// module is the answer of the call.
pub proof fn law_purge_task(admin: Address, task_id: u64, ledger: Ledger, answers: Seq<Answer>)
    ensures
        ({
            let trace = perform(plans::purge_task(admin, task_id).script(), ledger, answers);
            let requests = seq![
                Request::ValidateAddress(admin),
                Request::RequireNotPaused,
                Request::RequireRole(admin, Role::TaskManager),
                Request::Module(ModuleCall::PurgeTask(admin, task_id)),
            ];
            asks_for_exactly(trace, requests, ledger, answers)
        }),
{
    let requests = seq![
        Request::ValidateAddress(admin),
        Request::RequireNotPaused,
        Request::RequireRole(admin, Role::TaskManager),
        Request::Module(ModuleCall::PurgeTask(admin, task_id)),
    ];
    let steps = plans::purge_task(admin, task_id).script();
    lemma_exact(requests, steps, ledger, answers);
}

/// The vote is cast on exactly the given task for exactly this guardian, whose address has to be valid. The
/// answer of the votes' module is the answer of the call.
pub proof fn law_vote(guardian: Address, task_id: u64, ledger: Ledger, answers: Seq<Answer>)
    ensures
        ({
            let trace = perform(plans::vote(guardian, task_id).script(), ledger, answers);
            let requests = seq![
                Request::ValidateAddress(guardian),
                Request::Module(ModuleCall::ProcessVote(guardian, task_id)),
            ];
            asks_for_exactly(trace, requests, ledger, answers)
        }),
{
    let requests = seq![
        Request::ValidateAddress(guardian),
        Request::Module(ModuleCall::ProcessVote(guardian, task_id)),
    ];
    let steps = plans::vote(guardian, task_id).script();
    lemma_exact(requests, steps, ledger, answers);
}

/// The votes are cast on exactly the given tasks for exactly this guardian, whose address has to be valid.
/// The answer of the votes' module is the answer of the call.
pub proof fn law_vote_batch(guardian: Address, task_ids: Vec<u64>, ledger: Ledger, answers: Seq<Answer>)
    ensures
        ({
            let trace = perform(plans::vote_batch(guardian, task_ids).script(), ledger, answers);
            let requests = seq![
                Request::ValidateAddress(guardian),
                Request::Module(ModuleCall::ProcessVoteBatch(guardian, task_ids)),
            ];
            asks_for_exactly(trace, requests, ledger, answers)
        }),
{
    let requests = seq![
        Request::ValidateAddress(guardian),
        Request::Module(ModuleCall::ProcessVoteBatch(guardian, task_ids)),
    ];
    let steps = plans::vote_batch(guardian, task_ids).script();
    lemma_exact(requests, steps, ledger, answers);
}

/// Exactly the given task is archived, for a valid `TaskManager`, not while paused, and that is published once
/// the archive has it.
pub proof fn law_archive_task(admin: Address, task_id: u64, ledger: Ledger, answers: Seq<Answer>)
    ensures
        ({
            let trace = perform(plans::archive_task(admin, task_id).script(), ledger, answers);
            let requests = seq![
                Request::ValidateAddress(admin),
                Request::RequireNotPaused,
                Request::RequireRole(admin, Role::TaskManager),
                Request::Module(ModuleCall::ArchiveTask(task_id)),
            ];
            &&& insists_on(trace, requests, ledger, answers)
            &&& granted(4, answers) ==> publishes(
                trace,
                4,
                Event::TaskArchived(task_id),
                ledger_after(4, ledger, answers),
                answers,
            )
        }),
{
    let requests = seq![
        Request::ValidateAddress(admin),
        Request::RequireNotPaused,
        Request::RequireRole(admin, Role::TaskManager),
        Request::Module(ModuleCall::ArchiveTask(task_id)),
    ];
    let steps = plans::archive_task(admin, task_id).script();
    lemma_published(requests, Event::TaskArchived(task_id), steps, ledger, answers);
}

/// The failure is reported by exactly this reporter, whose address has to be valid. The answer of the
/// circuit breaker is the answer of the call.
pub proof fn law_record_failure(reporter: Address, ledger: Ledger, answers: Seq<Answer>)
    ensures
        ({
            let trace = perform(plans::record_failure(reporter).script(), ledger, answers);
            let requests = seq![
                Request::ValidateAddress(reporter),
                Request::Module(ModuleCall::RecordFailure(reporter)),
            ];
            asks_for_exactly(trace, requests, ledger, answers)
        }),
{
    let requests = seq![
        Request::ValidateAddress(reporter),
        Request::Module(ModuleCall::RecordFailure(reporter)),
    ];
    let steps = plans::record_failure(reporter).script();
    lemma_exact(requests, steps, ledger, answers);
}

/// The circuit breaker is reset for a valid `EmergencyManager`, paused or not, and that is published once
/// the circuit breaker has done it.
pub proof fn law_reset_circuit_breaker(admin: Address, ledger: Ledger, answers: Seq<Answer>)
    ensures
        ({
            let trace = perform(plans::reset_circuit_breaker(admin).script(), ledger, answers);
            let requests = seq![
                Request::ValidateAddress(admin),
                Request::RequireRole(admin, Role::EmergencyManager),
                Request::Module(ModuleCall::ResetCircuitBreaker(admin)),
            ];
            &&& insists_on(trace, requests, ledger, answers)
            &&& granted(3, answers) ==> publishes(
                trace,
                3,
                Event::CircuitBreakerReset(admin),
                ledger_after(3, ledger, answers),
                answers,
            )
        }),
{
    let requests = seq![
        Request::ValidateAddress(admin),
        Request::RequireRole(admin, Role::EmergencyManager),
        Request::Module(ModuleCall::ResetCircuitBreaker(admin)),
    ];
    let steps = plans::reset_circuit_breaker(admin).script();
    lemma_published(requests, Event::CircuitBreakerReset(admin), steps, ledger, answers);
}

/// Exactly these signers and exactly this quorum are handed to the upgrades' module, whose answer is the
/// answer of the call.
pub proof fn law_set_upgrade_signers(
    admin: Address,
    signers: Vec<Address>,
    threshold: u32,
    ledger: Ledger,
    answers: Seq<Answer>,
)
    ensures
        ({
            let trace = perform(plans::set_upgrade_signers(admin, signers, threshold).script(), ledger, answers);
            let requests = seq![
                Request::Module(ModuleCall::SetUpgradeSigners(admin, signers, threshold)),
            ];
            asks_for_exactly(trace, requests, ledger, answers)
        }),
{
    let requests = seq![
        Request::Module(ModuleCall::SetUpgradeSigners(admin, signers, threshold)),
    ];
    let steps = plans::set_upgrade_signers(admin, signers, threshold).script();
    lemma_exact(requests, steps, ledger, answers);
}

/// Exactly this code is proposed by exactly this signer. The answer of the upgrades' module is the answer
/// of the call.
pub proof fn law_propose_upgrade(
    signer: Address,
    new_wasm_hash: [u8; 32],
    ledger: Ledger,
    answers: Seq<Answer>,
)
    ensures
        ({
            let trace = perform(plans::propose_upgrade(signer, new_wasm_hash).script(), ledger, answers);
            let requests = seq![
                Request::Module(ModuleCall::ProposeUpgrade(signer, new_wasm_hash)),
            ];
            asks_for_exactly(trace, requests, ledger, answers)
        }),
{
    let requests = seq![
        Request::Module(ModuleCall::ProposeUpgrade(signer, new_wasm_hash)),
    ];
    let steps = plans::propose_upgrade(signer, new_wasm_hash).script();
    lemma_exact(requests, steps, ledger, answers);
}

/// The upgrade is approved by exactly this signer. The answer of the upgrades' module is the answer of the
/// call.
pub proof fn law_approve_upgrade(signer: Address, ledger: Ledger, answers: Seq<Answer>)
    ensures
        ({
            let trace = perform(plans::approve_upgrade(signer).script(), ledger, answers);
            let requests = seq![
                Request::Module(ModuleCall::ApproveUpgrade(signer)),
            ];
            asks_for_exactly(trace, requests, ledger, answers)
        }),
{
    let requests = seq![
        Request::Module(ModuleCall::ApproveUpgrade(signer)),
    ];
    let steps = plans::approve_upgrade(signer).script();
    lemma_exact(requests, steps, ledger, answers);
}

/// The upgrade is carried out by the upgrades' module, whose answer is the answer of the call.
pub proof fn law_execute_upgrade(ledger: Ledger, answers: Seq<Answer>)
    ensures
        ({
            let trace = perform(plans::execute_upgrade().script(), ledger, answers);
            let requests = seq![
                Request::Module(ModuleCall::ExecuteUpgrade),
            ];
            asks_for_exactly(trace, requests, ledger, answers)
        }),
{
    let requests = seq![
        Request::Module(ModuleCall::ExecuteUpgrade),
    ];
    let steps = plans::execute_upgrade().script();
    lemma_exact(requests, steps, ledger, answers);
}

/// The upgrade is cancelled by exactly this admin. The answer of the upgrades' module is the answer of the
/// call.
pub proof fn law_cancel_upgrade(admin: Address, ledger: Ledger, answers: Seq<Answer>)
    ensures
        ({
            let trace = perform(plans::cancel_upgrade(admin).script(), ledger, answers);
            let requests = seq![
                Request::Module(ModuleCall::CancelUpgrade(admin)),
            ];
            asks_for_exactly(trace, requests, ledger, answers)
        }),
{
    let requests = seq![
        Request::Module(ModuleCall::CancelUpgrade(admin)),
    ];
    let steps = plans::cancel_upgrade(admin).script();
    lemma_exact(requests, steps, ledger, answers);
}

/// A snapshot is recorded unless the contract is paused. The answer of the snapshots' module is the answer
/// of the call.
pub proof fn law_record_snapshot(ledger: Ledger, answers: Seq<Answer>)
    ensures
        ({
            let trace = perform(plans::record_snapshot().script(), ledger, answers);
            let requests = seq![
                Request::RequireNotPaused,
                Request::Module(ModuleCall::RecordSnapshot),
            ];
            asks_for_exactly(trace, requests, ledger, answers)
        }),
{
    let requests = seq![
        Request::RequireNotPaused,
        Request::Module(ModuleCall::RecordSnapshot),
    ];
    let steps = plans::record_snapshot().script();
    lemma_exact(requests, steps, ledger, answers);
}

/// Exactly this role is granted to exactly this target by exactly this caller, where both addresses are
/// valid. The answer of the roles' module is the answer of the call.
pub proof fn law_grant_role(
    caller: Address,
    target: Address,
    role: Role,
    ledger: Ledger,
    answers: Seq<Answer>,
)
    ensures
        ({
            let trace = perform(plans::grant_role(caller, target, role).script(), ledger, answers);
            let requests = seq![
                Request::ValidateAddress(caller),
                Request::ValidateAddress(target),
                Request::Module(ModuleCall::GrantRole(caller, target, role)),
            ];
            asks_for_exactly(trace, requests, ledger, answers)
        }),
{
    let requests = seq![
        Request::ValidateAddress(caller),
        Request::ValidateAddress(target),
        Request::Module(ModuleCall::GrantRole(caller, target, role)),
    ];
    let steps = plans::grant_role(caller, target, role).script();
    lemma_exact(requests, steps, ledger, answers);
}

/// Exactly this role is revoked from exactly this target by exactly this caller, where both addresses are
/// valid. The answer of the roles' module is the answer of the call.
pub proof fn law_revoke_role(
    caller: Address,
    target: Address,
    role: Role,
    ledger: Ledger,
    answers: Seq<Answer>,
)
    ensures
        ({
            let trace = perform(plans::revoke_role(caller, target, role).script(), ledger, answers);
            let requests = seq![
                Request::ValidateAddress(caller),
                Request::ValidateAddress(target),
                Request::Module(ModuleCall::RevokeRole(caller, target, role)),
            ];
            asks_for_exactly(trace, requests, ledger, answers)
        }),
{
    let requests = seq![
        Request::ValidateAddress(caller),
        Request::ValidateAddress(target),
        Request::Module(ModuleCall::RevokeRole(caller, target, role)),
    ];
    let steps = plans::revoke_role(caller, target, role).script();
    lemma_exact(requests, steps, ledger, answers);
}

/// The storage is migrated for a valid `Admin`, paused or not. The answer of the migration is the answer
/// of the call.
pub proof fn law_migrate_storage(admin: Address, ledger: Ledger, answers: Seq<Answer>)
    ensures
        ({
            let trace = perform(plans::migrate_storage(admin).script(), ledger, answers);
            let requests = seq![
                Request::ValidateAddress(admin),
                Request::RequireRole(admin, Role::Admin),
                Request::Module(ModuleCall::Migrate),
            ];
            asks_for_exactly(trace, requests, ledger, answers)
        }),
{
    let requests = seq![
        Request::ValidateAddress(admin),
        Request::RequireRole(admin, Role::Admin),
        Request::Module(ModuleCall::Migrate),
    ];
    let steps = plans::migrate_storage(admin).script();
    lemma_exact(requests, steps, ledger, answers);
}
/// Toggling the pause needs a valid admin who holds `EmergencyManager`, and no more. It stores the
/// opposite of the stored flag, where none counts as cleared, and publishes that. It panics where
/// something else than a flag is stored.
pub proof fn law_toggle_pause(admin: Address, ledger: Ledger, answers: Seq<Answer>)
    ensures
        ({
            let trace = perform(plans::toggle_pause(admin).script(), ledger, answers);
            let requests = seq![
                Request::ValidateAddress(admin),
                Request::RequireRole(admin, Role::EmergencyManager),
            ];
            let before = ledger_after(2, ledger, answers);
            &&& insists_on(trace, requests, ledger, answers)
            &&& granted(2, answers) ==> match before.entries.get(seq![Part::Symbol("Paused"@)]) {
                None => publishes(
                    trace,
                    2,
                    Event::PauseToggled(true),
                    with(before, "Paused"@, Value::Flag(true)),
                    answers,
                ),
                Some(Value::Flag(paused)) => publishes(
                    trace,
                    2,
                    Event::PauseToggled(!paused),
                    with(before, "Paused"@, Value::Flag(!paused)),
                    answers,
                ),
                Some(_) => ends(trace, 2, Outcome::Panicked(Trap::ForeignValue), before),
            }
        }),
{
    let requests = seq![Request::ValidateAddress(admin), Request::RequireRole(admin, Role::EmergencyManager)];
    let steps = plans::toggle_pause(admin).script();
    let rest = seq![Step::TogglePause];
    lemma_insists(requests, rest, steps, ledger, answers);
    if granted(2, answers) {
        let trace = perform(steps, ledger, answers);
        reveal_with_fuel(run, 2);
        reveal_with_fuel(advance, 2);
        assert(rest.drop_first().len() == 0);
        if trace.asked.len() > 2 {
            assert(trace.asked[2] == trace.asked.skip(2)[0]);
        }
        if answers.len() > 2 {
            assert(answers.skip(2)[0] == answers[2]);
        }
    }
}

/// The fee is set for a valid `ConfigManager`, not while paused. Once that is granted, a fee of at
/// most 1000 basis points is stored, and any higher one is refused with `InvalidConfig`.
pub proof fn law_set_fee_bps(admin: Address, bps: u32, ledger: Ledger, answers: Seq<Answer>)
    ensures
        ({
            let trace = perform(plans::set_fee_bps(admin, bps).script(), ledger, answers);
            let requests = seq![
                Request::ValidateAddress(admin),
                Request::RequireNotPaused,
                Request::RequireRole(admin, Role::ConfigManager),
            ];
            let before = ledger_after(3, ledger, answers);
            &&& insists_on(trace, requests, ledger, answers)
            &&& granted(3, answers) && bps <= 1000 ==> comes_back(
                trace,
                3,
                with(before, "FeeBps"@, Value::Rate(bps)),
            )
            &&& granted(3, answers) && bps > 1000 ==> ends(
                trace,
                3,
                Outcome::Returned(Err(ContractError::InvalidConfig)),
                before,
            )
        }),
{
    let requests = seq![
        Request::ValidateAddress(admin),
        Request::RequireNotPaused,
        Request::RequireRole(admin, Role::ConfigManager),
    ];
    let steps = plans::set_fee_bps(admin, bps).script();
    if bps <= 1000 {
        lemma_stored(requests, Entry::FeeBps(bps), steps, ledger, answers);
    } else {
        lemma_insists(requests, seq![Step::Refuse(ContractError::InvalidConfig)], steps, ledger, answers);
    }
}

/// The vault is stored for a valid `ConfigManager`, not while paused, and published. The call
/// returns no error: where an address is not valid it panics with `InvalidAddress`, where the
/// contract is paused it unwraps the error, and where the role is lacking it panics with the error.
pub proof fn law_set_vault_address(admin: Address, vault: Address, ledger: Ledger, answers: Seq<Answer>)
    ensures
        ({
            let trace = perform(plans::set_vault_address(admin, vault).script(), ledger, answers);
            let requests = seq![
                Request::ValidateAddress(admin),
                Request::ValidateAddress(vault),
                Request::RequireNotPaused,
                Request::RequireRole(admin, Role::ConfigManager),
            ];
            &&& forall|i: int|
                0 <= i < 4 && granted(i, answers) ==> i < trace.asked.len() && trace.asked[i] == (Asking {
                    request: #[trigger] requests[i],
                    ledger: ledger_after(i, ledger, answers),
                })
            &&& forall|i: int|
                0 <= i < 4 && i < answers.len() && granted(i, answers) && (#[trigger] answers[i]).reply is Err ==> ends(
                    trace,
                    (i + 1) as nat,
                    Outcome::Panicked(
                        if i < 2 {
                            Trap::Coded(ContractError::InvalidAddress)
                        } else if i == 2 {
                            Trap::Unwrapped(answers[i].reply->Err_0)
                        } else {
                            Trap::Coded(answers[i].reply->Err_0)
                        },
                    ),
                    answers[i].ledger,
                )
            &&& answers.len() < 4 && granted(answers.len() as int, answers) ==> {
                &&& trace.asked.len() == answers.len() + 1
                &&& trace.end is None
            }
            &&& granted(4, answers) ==> publishes(
                trace,
                4,
                Event::VaultSet(admin, vault),
                with(answers[3].ledger, "VaultAddress"@, Value::Account(vault)),
                answers,
            )
        }),
{
    let requests = seq![
        Request::ValidateAddress(admin),
        Request::ValidateAddress(vault),
        Request::RequireNotPaused,
        Request::RequireRole(admin, Role::ConfigManager),
    ];
    let refusals = seq![
        Refusal::PanicWith(ContractError::InvalidAddress),
        Refusal::PanicWith(ContractError::InvalidAddress),
        Refusal::Unwrap,
        Refusal::Panic,
    ];
    let event = Request::Emit(Event::VaultSet(admin, vault));
    let rest = seq![Step::Save(Entry::VaultAddress(vault)), Step::Tell(event)];
    let steps = plans::set_vault_address(admin, vault).script();
    lemma_asks_in_turn(requests, refusals, rest, steps, ledger, answers);
    lemma_one_more(4, rest, event, steps, ledger, answers);
}

/// A reward stream is started at exactly this streaming contract for exactly this contributor and
/// task, for a valid `TreasuryManager`, not while paused. The event that is published says whether it
/// was started, and the answer to the start is the answer of the call.
pub proof fn law_start_reward_stream(
    admin: Address,
    drips_address: Address,
    contributor: Address,
    task_id: u64,
    ledger: Ledger,
    answers: Seq<Answer>,
)
    ensures
        ({
            let plan = plans::start_reward_stream(admin, drips_address, contributor, task_id);
            let trace = perform(plan.script(), ledger, answers);
            let requests = seq![
                Request::ValidateAddress(admin),
                Request::ValidateAddress(drips_address),
                Request::ValidateAddress(contributor),
                Request::RequireNotPaused,
                Request::RequireRole(admin, Role::TreasuryManager),
            ];
            &&& insists_on(trace, requests, ledger, answers)
            &&& granted(5, answers) ==> {
                &&& trace.asked.len() > 5
                &&& trace.asked[5] == (Asking {
                    request: Request::Module(ModuleCall::StartDripsStream(drips_address, contributor, task_id)),
                    ledger: answers[4].ledger,
                })
                &&& answers.len() == 5 ==> trace.asked.len() == 6 && trace.end is None
            }
            &&& granted(5, answers) && answers.len() > 5 ==> {
                &&& trace.asked.len() == 7
                &&& trace.asked[6] == (Asking {
                    request: Request::Emit(
                        if answers[5].reply is Ok {
                            Event::RewardStreamStarted(task_id, contributor)
                        } else {
                            Event::RewardStreamFailed(task_id, contributor)
                        },
                    ),
                    ledger: answers[5].ledger,
                })
                &&& answers.len() == 6 ==> trace.end is None
            }
            &&& granted(5, answers) && answers.len() > 6 ==> {
                &&& answers[5].reply is Ok ==> trace.succeeded()
                &&& answers[5].reply matches Err(error) ==> trace.end == Some(Outcome::Returned(Err(error)))
                &&& trace.ledger == answers[6].ledger
            }
        }),
{
    let requests = seq![
        Request::ValidateAddress(admin),
        Request::ValidateAddress(drips_address),
        Request::ValidateAddress(contributor),
        Request::RequireNotPaused,
        Request::RequireRole(admin, Role::TreasuryManager),
    ];
    let steps = plans::start_reward_stream(admin, drips_address, contributor, task_id).script();
    let rest = seq![
        Step::AskAndReport(
            Request::Module(ModuleCall::StartDripsStream(drips_address, contributor, task_id)),
            Event::RewardStreamStarted(task_id, contributor),
            Event::RewardStreamFailed(task_id, contributor),
        ),
    ];
    lemma_insists(requests, rest, steps, ledger, answers);
    lemma_reported(
        5,
        Request::Module(ModuleCall::StartDripsStream(drips_address, contributor, task_id)),
        Event::RewardStreamStarted(task_id, contributor),
        Event::RewardStreamFailed(task_id, contributor),
        steps,
        ledger,
        answers,
    );
}

proof fn lemma_reported(
    n: int,
    request: Request,
    started: Event,
    failed: Event,
    steps: Seq<Step>,
    ledger: Ledger,
    answers: Seq<Answer>,
)
    requires
        0 <= n,
        granted(n, answers) ==> ({
            let trace = perform(steps, ledger, answers);
            let rest = seq![Step::AskAndReport(request, started, failed)];
            let later = perform(rest, ledger_after(n, ledger, answers), answers.skip(n));
            &&& trace.asked.len() == n + later.asked.len()
            &&& trace.asked.skip(n) == later.asked
            &&& trace.end == later.end
            &&& trace.ledger == later.ledger
        }),
    ensures
        ({
            let trace = perform(steps, ledger, answers);
            &&& granted(n, answers) ==> {
                &&& trace.asked.len() > n
                &&& trace.asked[n] == (Asking { request, ledger: ledger_after(n, ledger, answers) })
                &&& answers.len() == n ==> trace.asked.len() == n + 1 && trace.end is None
            }
            &&& granted(n, answers) && answers.len() > n ==> {
                &&& trace.asked.len() == n + 2
                &&& trace.asked[n + 1] == (Asking {
                    request: Request::Emit(if answers[n].reply is Ok { started } else { failed }),
                    ledger: answers[n].ledger,
                })
                &&& answers.len() == n + 1 ==> trace.end is None
            }
            &&& granted(n, answers) && answers.len() > n + 1 ==> {
                &&& answers[n].reply is Ok ==> trace.succeeded()
                &&& answers[n].reply matches Err(error) ==> trace.end == Some(Outcome::Returned(Err(error)))
                &&& trace.ledger == answers[n + 1].ledger
            }
        }),
{
    if granted(n, answers) {
        let trace = perform(steps, ledger, answers);
        let rest = seq![Step::AskAndReport(request, started, failed)];
        let replies = answers.skip(n);
        reveal_with_fuel(run, 3);
        assert(rest.drop_first().len() == 0);
        assert(trace.asked[n] == trace.asked.skip(n)[0]);
        if answers.len() > n {
            assert(replies[0] == answers[n]);
            assert(trace.asked[n + 1] == trace.asked.skip(n)[1]);
        }
        if answers.len() > n + 1 {
            assert(replies.drop_first()[0] == answers[n + 1]);
        }
    }
}

/// Failure reports are restricted, or reopened, as told, for a valid `EmergencyManager`, paused or
/// not, and that is published. Neither the circuit breaker nor the event can refuse.
pub proof fn law_set_trusted_reporters_only(
    admin: Address,
    enabled: bool,
    ledger: Ledger,
    answers: Seq<Answer>,
)
    ensures
        ({
            let trace = perform(plans::set_trusted_reporters_only(admin, enabled).script(), ledger, answers);
            let requests = seq![
                Request::ValidateAddress(admin),
                Request::RequireRole(admin, Role::EmergencyManager),
            ];
            &&& insists_on(trace, requests, ledger, answers)
            &&& granted(2, answers) ==> {
                &&& trace.asked.len() > 2
                &&& trace.asked[2] == (Asking {
                    request: Request::Module(ModuleCall::SetTrustedReportersOnly(enabled)),
                    ledger: answers[1].ledger,
                })
                &&& answers.len() == 2 ==> trace.asked.len() == 3 && trace.end is None
                &&& answers.len() > 2 ==> publishes(
                    trace,
                    3,
                    Event::TrustedReportersOnlySet(admin, enabled),
                    answers[2].ledger,
                    answers,
                )
            }
        }),
{
    let requests = seq![Request::ValidateAddress(admin), Request::RequireRole(admin, Role::EmergencyManager)];
    let steps = plans::set_trusted_reporters_only(admin, enabled).script();
    let rest = seq![
        Step::Tell(Request::Module(ModuleCall::SetTrustedReportersOnly(enabled))),
        Step::Tell(Request::Emit(Event::TrustedReportersOnlySet(admin, enabled))),
    ];
    lemma_insists(requests, rest, steps, ledger, answers);
    if granted(2, answers) {
        let trace = perform(steps, ledger, answers);
        let replies = answers.skip(2);
        reveal_with_fuel(run, 3);
        assert(rest.drop_first()[0] == rest[1]);
        assert(rest.drop_first().drop_first().len() == 0);
        assert(trace.asked[2] == trace.asked.skip(2)[0]);
        if answers.len() > 2 {
            assert(replies[0] == answers[2]);
            assert(trace.asked[3] == trace.asked.skip(2)[1]);
        }
        if answers.len() > 3 {
            assert(replies.drop_first()[0] == answers[3]);
        }
    }
}

/// Exactly this code is handed to the upgrades' module by exactly this admin. That gives no answer, so
/// the call returns without an error.
pub proof fn law_upgrade_contract(
    admin: Address,
    new_wasm_hash: [u8; 32],
    ledger: Ledger,
    answers: Seq<Answer>,
)
    ensures
        ({
            let trace = perform(plans::upgrade_contract(admin, new_wasm_hash).script(), ledger, answers);
            &&& trace.asked == seq![
                Asking { request: Request::Module(ModuleCall::UpgradeContract(admin, new_wasm_hash)), ledger },
            ]
            &&& answers.len() == 0 ==> trace.end is None
            &&& answers.len() > 0 ==> trace.succeeded() && trace.ledger == answers[0].ledger
        }),
{
    let request = Request::Module(ModuleCall::UpgradeContract(admin, new_wasm_hash));
    let steps = plans::upgrade_contract(admin, new_wasm_hash).script();
    assert(steps == seq![Step::Tell(request)]);
    reveal_with_fuel(run, 2);
    assert(steps.drop_first().len() == 0);
}

/// The contract is initialized for a valid admin and a valid token, whoever calls, paused or not.
/// - Where it counts as initialized, the call is refused with `AlreadyInitialized`, and where
///   something else than a flag is stored, it panics.
/// - Else the flag, the admin, the token, the least amount, a cleared pause flag and the admin's role
///   are stored, each under its own key, and nothing else. After that exactly this version is
///   recorded.
/// - After that the instance is kept alive for 100000 ledgers or as long as the network allows, or
///   longer if it already is, and the initialization is published.
pub proof fn law_initialize(
    admin: Address,
    token: Address,
    lock_threshold: i128,
    version: u32,
    ledger: Ledger,
    answers: Seq<Answer>,
)
    ensures
        ({
            let plan = plans::initialize(admin, token, lock_threshold, version);
            let trace = perform(plan.script(), ledger, answers);
            let before = ledger_after(2, ledger, answers);
            let flag = before.entries.get(seq![Part::Symbol("Initialized"@)]);
            &&& insists_on(
                trace,
                seq![Request::ValidateAddress(admin), Request::ValidateAddress(token)],
                ledger,
                answers,
            )
            &&& granted(2, answers) && flag == Some(Value::Flag(true)) ==> ends(
                trace,
                2,
                Outcome::Returned(Err(ContractError::AlreadyInitialized)),
                before,
            )
            &&& granted(2, answers) && flag is Some && flag->0 !is Flag ==> ends(
                trace,
                2,
                Outcome::Panicked(Trap::ForeignValue),
                before,
            )
            &&& granted(2, answers) && (flag is None || flag == Some(Value::Flag(false))) ==> {
                &&& trace.asked.len() > 2
                &&& trace.asked[2].request == Request::Module(ModuleCall::SetVersion(version))
                &&& trace.asked[2].ledger.entries == before.entries
                    .insert(seq![Part::Symbol("Initialized"@)], Value::Flag(true))
                    .insert(seq![Part::Symbol("Admin"@)], Value::Account(admin))
                    .insert(seq![Part::Symbol("TokenAddress"@)], Value::Account(token))
                    .insert(seq![Part::Symbol("LockThreshold"@)], Value::Amount(lock_threshold))
                    .insert(seq![Part::Symbol("Paused"@)], Value::Flag(false))
                    .insert(
                        seq![Part::Symbol("RoleAssignment"@), Part::Account(admin), Part::Variant("Admin"@)],
                        Value::Flag(true),
                    )
                &&& trace.asked[2].ledger.ttl == before.ttl
                &&& answers.len() == 2 ==> trace.asked.len() == 3 && trace.end is None
                &&& answers.len() > 2 ==> {
                    let kept = trace.asked[3].ledger;
                    let limit = answers[2].ledger.max_ttl;
                    let wanted: u32 = if limit < 100_000 { limit } else { 100_000 };
                    &&& publishes(trace, 3, Event::ContractInitialized(admin), kept, answers)
                    &&& kept.entries == answers[2].ledger.entries
                    &&& kept.ttl == if answers[2].ledger.ttl < wanted { wanted } else { answers[2].ledger.ttl }
                }
            }
        }),
{
    let requests = seq![Request::ValidateAddress(admin), Request::ValidateAddress(token)];
    let steps = plans::initialize(admin, token, lock_threshold, version).script();
    let rest = plans::initialize(admin, token, lock_threshold, version).effects;
    lemma_insists(requests, rest, steps, ledger, answers);
    if granted(2, answers) {
        let before = answers[1].ledger;
        match before.at(DataKey::Initialized) {
            Some(Value::Flag(true)) => {},
            Some(Value::Flag(false)) | None => {
                lemma_founding(admin, token, lock_threshold, version, before);
                lemma_founded(admin, token, lock_threshold, version, rest, steps, ledger, answers);
            },
            Some(_) => {},
        }
    }
}

proof fn lemma_founded(
    admin: Address,
    token: Address,
    lock_threshold: i128,
    version: u32,
    rest: Seq<Step>,
    steps: Seq<Step>,
    ledger: Ledger,
    answers: Seq<Answer>,
)
    requires
        granted(2, answers),
        ({
            let trace = perform(steps, ledger, answers);
            let later = perform(rest, answers[1].ledger, answers.skip(2));
            &&& trace.asked.len() == 2 + later.asked.len()
            &&& trace.asked.skip(2) == later.asked
            &&& trace.end == later.end
            &&& trace.ledger == later.ledger
        }),
        advance(rest, answers[1].ledger) == asked(
            Request::Module(ModuleCall::SetVersion(version)),
            Phase::Telling,
            seq![Step::KeepAlive, Step::Tell(Request::Emit(Event::ContractInitialized(admin)))],
            founded(answers[1].ledger, admin, token, lock_threshold),
        ),
    ensures
        ({
            let trace = perform(steps, ledger, answers);
            &&& trace.asked.len() > 2
            &&& trace.asked[2] == (Asking {
                request: Request::Module(ModuleCall::SetVersion(version)),
                ledger: founded(answers[1].ledger, admin, token, lock_threshold),
            })
            &&& answers.len() == 2 ==> trace.asked.len() == 3 && trace.end is None
            &&& answers.len() > 2 ==> publishes(
                trace,
                3,
                Event::ContractInitialized(admin),
                answers[2].ledger.keep_alive(),
                answers,
            )
        }),
{
    let trace = perform(steps, ledger, answers);
    let replies = answers.skip(2);
    reveal_with_fuel(run, 3);
    assert(trace.asked[2] == trace.asked.skip(2)[0]);
    if answers.len() > 2 {
        let last = seq![Step::KeepAlive, Step::Tell(Request::Emit(Event::ContractInitialized(admin)))];
        assert(replies[0] == answers[2]);
        reveal_with_fuel(advance, 2);
        assert(last.drop_first()[0] == last[1]);
        assert(last.drop_first().drop_first().len() == 0);
        assert(trace.asked[3] == trace.asked.skip(2)[1]);
    }
    if answers.len() > 3 {
        assert(replies.drop_first()[0] == answers[3]);
    }
}

proof fn lemma_founding(admin: Address, token: Address, lock_threshold: i128, version: u32, ledger: Ledger)
    requires
        as_flag(ledger.at(DataKey::Initialized)) is Some,
        as_flag(ledger.at(DataKey::Initialized)) != Some(Some(true)),
    ensures
        advance(plans::initialize(admin, token, lock_threshold, version).effects, ledger) == asked(
            Request::Module(ModuleCall::SetVersion(version)),
            Phase::Telling,
            seq![Step::KeepAlive, Step::Tell(Request::Emit(Event::ContractInitialized(admin)))],
            founded(ledger, admin, token, lock_threshold),
        ),
{
    let effects = plans::initialize(admin, token, lock_threshold, version).effects;
    reveal_with_fuel(advance, 8);
    assert(effects.skip(8) == seq![
        Step::KeepAlive,
        Step::Tell(Request::Emit(Event::ContractInitialized(admin))),
    ]);
    let half = effects.drop_first().drop_first().drop_first().drop_first();
    assert(half.drop_first().drop_first().drop_first().drop_first() == effects.skip(8));
}

/// A call in a batch is the entry point of the same name with all of the call's own arguments. The
/// signer who asks for an upgrade to be carried out is the one argument that makes no difference.
pub proof fn law_batched_call_is_its_entry_point(call: BatchCall)
    ensures
        batch(seq![call]) == match call {
            BatchCall::RegisterTask(admin, task_id, votes) => plans::register_task(admin, task_id, votes).script(),
            BatchCall::CancelTask(admin, task_id) => plans::cancel_task(admin, task_id).script(),
            BatchCall::Vote(guardian, task_id) => plans::vote(guardian, task_id).script(),
            BatchCall::AddGuardian(admin, guardian) => plans::add_guardian(admin, guardian).script(),
            BatchCall::RemoveGuardian(admin, guardian) => plans::remove_guardian(admin, guardian).script(),
            BatchCall::SetReputation(admin, guardian, score) => plans::set_reputation(
                admin,
                guardian,
                score,
            ).script(),
            BatchCall::LockTokens(guardian, amount) => plans::lock_tokens(guardian, amount).script(),
            BatchCall::RequestUnlock(guardian) => plans::request_unlock(guardian).script(),
            BatchCall::UnlockTokens(guardian) => plans::unlock_tokens(guardian).script(),
            BatchCall::ResignGuardian(guardian) => plans::resign_guardian(guardian).script(),
            BatchCall::SetWeightThreshold(admin, threshold) => plans::set_weight_threshold(
                admin,
                threshold,
            ).script(),
            BatchCall::SetVaultAddress(admin, vault) => plans::set_vault_address(admin, vault).script(),
            BatchCall::SetUpgradeSigners(admin, signers, threshold) => plans::set_upgrade_signers(
                admin,
                signers,
                threshold,
            ).script(),
            BatchCall::ProposeUpgrade(signer, hash) => plans::propose_upgrade(signer, hash).script(),
            BatchCall::ApproveUpgrade(signer) => plans::approve_upgrade(signer).script(),
            BatchCall::ExecuteUpgrade(_) => plans::execute_upgrade().script(),
            BatchCall::CancelUpgrade(admin) => plans::cancel_upgrade(admin).script(),
            BatchCall::StartRewardStream(admin, drips, contributor, task_id) => plans::start_reward_stream(
                admin,
                drips,
                contributor,
                task_id,
            ).script(),
            BatchCall::TogglePause(admin) => plans::toggle_pause(admin).script(),
            BatchCall::Pause(admin) => plans::pause(admin).script(),
            BatchCall::Unpause(admin) => plans::unpause(admin).script(),
            BatchCall::RecordFailure(reporter) => plans::record_failure(reporter).script(),
            BatchCall::ResetCircuitBreaker(admin) => plans::reset_circuit_breaker(admin).script(),
            BatchCall::EmergencyRecover(admin, recipient, amount) => plans::emergency_recover(
                admin,
                recipient,
                amount,
            ).script(),
            BatchCall::SetFeeBps(admin, bps) => plans::set_fee_bps(admin, bps).script(),
            BatchCall::SetTreasuryAddress(admin, treasury) => plans::set_treasury_address(admin, treasury).script(),
        },
{
    law_batch_of_one(call);
}

/// What a batch of one call asks for, stores and publishes, by the call and its own arguments. The
/// calls that are not told here decide on what they find: `law_toggle_pause`, `law_set_fee_bps`,
/// `law_set_vault_address` and `law_start_reward_stream` say what they do in a batch as well.
pub proof fn law_batched_call(call: BatchCall, ledger: Ledger, answers: Seq<Answer>)
    ensures
        ({
            let trace = perform(batch(seq![call]), ledger, answers);
            match call {
                BatchCall::RegisterTask(admin, task_id, min_votes_required) => {
                    let requests = seq![
                        Request::ValidateAddress(admin),
                        Request::RequireNotPaused,
                        Request::RequireRole(admin, Role::TaskManager),
                        Request::Module(ModuleCall::RegisterTasks(admin, [task_id], min_votes_required)),
                    ];
                    asks_for_exactly(trace, requests, ledger, answers)
                },
                BatchCall::CancelTask(admin, task_id) => {
                    let requests = seq![
                        Request::ValidateAddress(admin),
                        Request::RequireNotPaused,
                        Request::RequireRole(admin, Role::TaskManager),
                        Request::Module(ModuleCall::CancelTask(admin, task_id)),
                    ];
                    asks_for_exactly(trace, requests, ledger, answers)
                },
                BatchCall::Vote(guardian, task_id) => {
                    let requests = seq![
                        Request::ValidateAddress(guardian),
                        Request::Module(ModuleCall::ProcessVote(guardian, task_id)),
                    ];
                    asks_for_exactly(trace, requests, ledger, answers)
                },
                BatchCall::AddGuardian(admin, guardian) => {
                    let requests = seq![
                        Request::ValidateAddress(admin),
                        Request::ValidateAddress(guardian),
                        Request::RequireNotPaused,
                        Request::RequireRole(admin, Role::GuardianManager),
                        Request::Module(ModuleCall::AddGuardian(admin, guardian)),
                    ];
                    let before = ledger_after(5, ledger, answers);
                    &&& insists_on(trace, requests, ledger, answers)
                    &&& granted(5, answers) ==> publishes(
                        trace,
                        5,
                        Event::GuardianAdded(admin, guardian),
                        before,
                        answers,
                    )
                },
                BatchCall::RemoveGuardian(admin, guardian) => {
                    let requests = seq![
                        Request::ValidateAddress(admin),
                        Request::ValidateAddress(guardian),
                        Request::RequireNotPaused,
                        Request::RequireRole(admin, Role::GuardianManager),
                        Request::Module(ModuleCall::RemoveGuardian(admin, guardian)),
                    ];
                    let before = ledger_after(5, ledger, answers);
                    &&& insists_on(trace, requests, ledger, answers)
                    &&& granted(5, answers) ==> publishes(
                        trace,
                        5,
                        Event::GuardianRemoved(admin, guardian),
                        before,
                        answers,
                    )
                },
                BatchCall::SetReputation(admin, guardian, score) => {
                    let requests = seq![
                        Request::ValidateAddress(admin),
                        Request::ValidateAddress(guardian),
                        Request::RequireNotPaused,
                        Request::RequireRole(admin, Role::GuardianManager),
                        Request::Module(ModuleCall::SetReputation(admin, guardian, score)),
                    ];
                    let before = ledger_after(5, ledger, answers);
                    &&& insists_on(trace, requests, ledger, answers)
                    &&& granted(5, answers) ==> publishes(
                        trace,
                        5,
                        Event::ReputationSet(admin, guardian, score),
                        before,
                        answers,
                    )
                },
                BatchCall::LockTokens(guardian, amount) => {
                    let requests = seq![
                        Request::ValidateAddress(guardian),
                        Request::Module(ModuleCall::LockTokens(guardian, amount)),
                    ];
                    asks_for_exactly(trace, requests, ledger, answers)
                },
                BatchCall::RequestUnlock(guardian) => {
                    let requests = seq![
                        Request::ValidateAddress(guardian),
                        Request::Module(ModuleCall::RequestUnlock(guardian)),
                    ];
                    asks_for_exactly(trace, requests, ledger, answers)
                },
                BatchCall::UnlockTokens(guardian) => {
                    let requests = seq![
                        Request::ValidateAddress(guardian),
                        Request::Module(ModuleCall::UnlockTokens(guardian)),
                    ];
                    asks_for_exactly(trace, requests, ledger, answers)
                },
                BatchCall::ResignGuardian(guardian) => {
                    let requests = seq![
                        Request::ValidateAddress(guardian),
                        Request::Module(ModuleCall::ResignGuardian(guardian)),
                    ];
                    asks_for_exactly(trace, requests, ledger, answers)
                },
                BatchCall::SetWeightThreshold(admin, threshold) => {
                    let requests = seq![
                        Request::ValidateAddress(admin),
                        Request::RequireNotPaused,
                        Request::RequireRole(admin, Role::ConfigManager),
                    ];
                    let before = ledger_after(3, ledger, answers);
                    &&& insists_on(trace, requests, ledger, answers)
                    &&& granted(3, answers) ==> publishes(
                        trace,
                        3,
                        Event::ThresholdSet(admin, threshold),
                        with(before, "WeightThreshold"@, Value::Count(threshold)),
                        answers,
                    )
                },
                BatchCall::SetUpgradeSigners(admin, signers, threshold) => {
                    let requests = seq![
                        Request::Module(ModuleCall::SetUpgradeSigners(admin, signers, threshold)),
                    ];
                    asks_for_exactly(trace, requests, ledger, answers)
                },
                BatchCall::ProposeUpgrade(signer, new_wasm_hash) => {
                    let requests = seq![
                        Request::Module(ModuleCall::ProposeUpgrade(signer, new_wasm_hash)),
                    ];
                    asks_for_exactly(trace, requests, ledger, answers)
                },
                BatchCall::ApproveUpgrade(signer) => {
                    let requests = seq![
                        Request::Module(ModuleCall::ApproveUpgrade(signer)),
                    ];
                    asks_for_exactly(trace, requests, ledger, answers)
                },
                BatchCall::ExecuteUpgrade(_) => {
                    let requests = seq![
                        Request::Module(ModuleCall::ExecuteUpgrade),
                    ];
                    asks_for_exactly(trace, requests, ledger, answers)
                },
                BatchCall::CancelUpgrade(admin) => {
                    let requests = seq![
                        Request::Module(ModuleCall::CancelUpgrade(admin)),
                    ];
                    asks_for_exactly(trace, requests, ledger, answers)
                },
                BatchCall::Pause(admin) => {
                    let requests = seq![
                        Request::ValidateAddress(admin),
                        Request::RequireRole(admin, Role::EmergencyManager),
                    ];
                    let before = ledger_after(2, ledger, answers);
                    &&& insists_on(trace, requests, ledger, answers)
                    &&& granted(2, answers) ==> publishes(
                        trace,
                        2,
                        Event::PauseToggled(true),
                        with(before, "Paused"@, Value::Flag(true)),
                        answers,
                    )
                },
                BatchCall::Unpause(admin) => {
                    let requests = seq![
                        Request::ValidateAddress(admin),
                        Request::RequireRole(admin, Role::EmergencyManager),
                    ];
                    let before = ledger_after(2, ledger, answers);
                    &&& insists_on(trace, requests, ledger, answers)
                    &&& granted(2, answers) ==> publishes(
                        trace,
                        2,
                        Event::PauseToggled(false),
                        with(before, "Paused"@, Value::Flag(false)),
                        answers,
                    )
                },
                BatchCall::RecordFailure(reporter) => {
                    let requests = seq![
                        Request::ValidateAddress(reporter),
                        Request::Module(ModuleCall::RecordFailure(reporter)),
                    ];
                    asks_for_exactly(trace, requests, ledger, answers)
                },
                BatchCall::ResetCircuitBreaker(admin) => {
                    let requests = seq![
                        Request::ValidateAddress(admin),
                        Request::RequireRole(admin, Role::EmergencyManager),
                        Request::Module(ModuleCall::ResetCircuitBreaker(admin)),
                    ];
                    let before = ledger_after(3, ledger, answers);
                    &&& insists_on(trace, requests, ledger, answers)
                    &&& granted(3, answers) ==> publishes(
                        trace,
                        3,
                        Event::CircuitBreakerReset(admin),
                        before,
                        answers,
                    )
                },
                BatchCall::EmergencyRecover(admin, recipient, amount) => {
                    let requests = seq![
                        Request::ValidateAddress(admin),
                        Request::ValidateAddress(recipient),
                        Request::RequireRole(admin, Role::EmergencyManager),
                        Request::Module(ModuleCall::EmergencyRecover(admin, recipient, amount)),
                    ];
                    asks_for_exactly(trace, requests, ledger, answers)
                },
                BatchCall::SetTreasuryAddress(admin, treasury) => {
                    let requests = seq![
                        Request::ValidateAddress(admin),
                        Request::ValidateAddress(treasury),
                        Request::RequireNotPaused,
                        Request::RequireRole(admin, Role::ConfigManager),
                    ];
                    let before = ledger_after(4, ledger, answers);
                    &&& insists_on(trace, requests, ledger, answers)
                    &&& granted(4, answers) ==> comes_back(
                        trace,
                        4,
                        with(before, "TreasuryAddress"@, Value::Account(treasury)),
                    )
                },
                _ => true,
            }
        }),
{
    law_batched_call_is_its_entry_point(call);
    match call {
        BatchCall::RegisterTask(admin, task_id, min_votes_required) => law_register_task(
            admin,
            task_id,
            min_votes_required,
            ledger,
            answers,
        ),
        BatchCall::CancelTask(admin, task_id) => law_cancel_task(admin, task_id, ledger, answers),
        BatchCall::Vote(guardian, task_id) => law_vote(guardian, task_id, ledger, answers),
        BatchCall::AddGuardian(admin, guardian) => law_add_guardian(admin, guardian, ledger, answers),
        BatchCall::RemoveGuardian(admin, guardian) => law_remove_guardian(admin, guardian, ledger, answers),
        BatchCall::SetReputation(admin, guardian, score) => law_set_reputation(
            admin,
            guardian,
            score,
            ledger,
            answers,
        ),
        BatchCall::LockTokens(guardian, amount) => law_lock_tokens(guardian, amount, ledger, answers),
        BatchCall::RequestUnlock(guardian) => law_request_unlock(guardian, ledger, answers),
        BatchCall::UnlockTokens(guardian) => law_unlock_tokens(guardian, ledger, answers),
        BatchCall::ResignGuardian(guardian) => law_resign_guardian(guardian, ledger, answers),
        BatchCall::SetWeightThreshold(admin, threshold) => law_set_weight_threshold(
            admin,
            threshold,
            ledger,
            answers,
        ),
        BatchCall::SetUpgradeSigners(admin, signers, threshold) => law_set_upgrade_signers(
            admin,
            signers,
            threshold,
            ledger,
            answers,
        ),
        BatchCall::ProposeUpgrade(signer, new_wasm_hash) => law_propose_upgrade(
            signer,
            new_wasm_hash,
            ledger,
            answers,
        ),
        BatchCall::ApproveUpgrade(signer) => law_approve_upgrade(signer, ledger, answers),
        BatchCall::ExecuteUpgrade(_) => law_execute_upgrade(ledger, answers),
        BatchCall::CancelUpgrade(admin) => law_cancel_upgrade(admin, ledger, answers),
        BatchCall::Pause(admin) => law_pause(admin, ledger, answers),
        BatchCall::Unpause(admin) => law_unpause(admin, ledger, answers),
        BatchCall::RecordFailure(reporter) => law_record_failure(reporter, ledger, answers),
        BatchCall::ResetCircuitBreaker(admin) => law_reset_circuit_breaker(admin, ledger, answers),
        BatchCall::EmergencyRecover(admin, recipient, amount) => law_emergency_recover(
            admin,
            recipient,
            amount,
            ledger,
            answers,
        ),
        BatchCall::SetTreasuryAddress(admin, treasury) => law_set_treasury_address(
            admin,
            treasury,
            ledger,
            answers,
        ),
        _ => {},
    }
}

/// Every key stands in storage under its own name, with its own arguments behind it.
pub proof fn law_keys_stand_under_their_names(key: DataKey)
    ensures
        key.parts() == match key {
            DataKey::Initialized => seq![Part::Symbol("Initialized"@)],
            DataKey::Admin => seq![Part::Symbol("Admin"@)],
            DataKey::TokenAddress => seq![Part::Symbol("TokenAddress"@)],
            DataKey::LockThreshold => seq![Part::Symbol("LockThreshold"@)],
            DataKey::Paused => seq![Part::Symbol("Paused"@)],
            DataKey::WeightThreshold => seq![Part::Symbol("WeightThreshold"@)],
            DataKey::VaultAddress => seq![Part::Symbol("VaultAddress"@)],
            DataKey::FeeBps => seq![Part::Symbol("FeeBps"@)],
            DataKey::TreasuryAddress => seq![Part::Symbol("TreasuryAddress"@)],
            DataKey::AllSnapshots => seq![Part::Symbol("AllSnapshots"@)],
            DataKey::Snapshot(time) => seq![Part::Symbol("Snapshot"@), Part::Number(time)],
            DataKey::WithdrawalTimelock(guardian) => seq![
                Part::Symbol("WithdrawalTimelock"@),
                Part::Account(guardian),
            ],
            DataKey::RoleAssignment(holder, role) => seq![
                Part::Symbol("RoleAssignment"@),
                Part::Account(holder),
                Part::Variant(
                    match role {
                        Role::Admin => "Admin"@,
                        Role::EmergencyManager => "EmergencyManager"@,
                        Role::GuardianManager => "GuardianManager"@,
                        Role::ConfigManager => "ConfigManager"@,
                        Role::TaskManager => "TaskManager"@,
                        Role::TreasuryManager => "TreasuryManager"@,
                    },
                ),
            ],
        },
{
}

/// The admin that is read is the stored one, none where none is stored, and a panic where something
/// else than an address is.
pub proof fn law_get_admin(ledger: Ledger, admin: Address)
    ensures
        admin_in(ledger) == match ledger.entries.get(seq![Part::Symbol("Admin"@)]) {
            None => Ok(None),
            Some(Value::Account(stored)) => Ok(Some(stored)),
            Some(_) => Err(Trap::ForeignValue),
        },
        admin_in(with(ledger, "Admin"@, Value::Account(admin))) == Ok::<Option<Address>, Trap>(Some(admin)),
{
}

/// The pause that is read is the stored one, `false` where none is stored, and a panic where something
/// else than a flag is.
pub proof fn law_is_paused(ledger: Ledger, paused: bool)
    ensures
        paused_in(ledger) == match ledger.entries.get(seq![Part::Symbol("Paused"@)]) {
            None => Ok(false),
            Some(Value::Flag(stored)) => Ok(stored),
            Some(_) => Err(Trap::ForeignValue),
        },
        paused_in(with(ledger, "Paused"@, Value::Flag(paused))) == Ok::<bool, Trap>(paused),
{
}

/// The weight threshold that is read is the stored one, the default where none is stored, and a panic
/// where something else than a count is.
pub proof fn law_get_weight_threshold(ledger: Ledger, default: u64, threshold: u64)
    ensures
        weight_threshold_in(ledger, default) == match ledger.entries.get(seq![Part::Symbol("WeightThreshold"@)]) {
            None => Ok(default),
            Some(Value::Count(stored)) => Ok(stored),
            Some(_) => Err(Trap::ForeignValue),
        },
        weight_threshold_in(with(ledger, "WeightThreshold"@, Value::Count(threshold)), default) == Ok::<u64, Trap>(
            threshold,
        ),
{
}

/// The snapshot history that is read is the stored list, item by item, an empty one where none is
/// stored, and a panic where something else than a list is.
pub proof fn law_get_snapshot_history(ledger: Ledger)
    ensures
        match ledger.entries.get(seq![Part::Symbol("AllSnapshots"@)]) {
            None => history_in(ledger) matches Ok(list) && list.len() == 0,
            Some(Value::List(stored)) => history_in(ledger) == Ok::<Seq<Element>, Trap>(stored),
            Some(_) => history_in(ledger) == Err::<Seq<Element>, Trap>(Trap::ForeignValue),
        },
{
}

/// The snapshot of a time is the one that is stored under exactly that time, and `SnapshotNotFound`
/// where there is none.
pub proof fn law_get_snapshot_at(ledger: Ledger, timestamp: u64)
    ensures
        match ledger.entries.get(seq![Part::Symbol("Snapshot"@), Part::Number(timestamp)]) {
            Some(stored) => snapshot_in(ledger, timestamp) == Ok::<Seq<u8>, ContractError>(xdr_of(stored)),
            None => snapshot_in(ledger, timestamp) == Err::<Seq<u8>, ContractError>(ContractError::SnapshotNotFound),
        },
{
}

/// The timelock of a guardian is the one that is stored under exactly that guardian, none where none is
/// stored, and a panic where something else than a count is.
pub proof fn law_get_withdrawal_timelock(ledger: Ledger, guardian: Address)
    ensures
        withdrawal_timelock_in(ledger, guardian) == match ledger.entries.get(
            seq![Part::Symbol("WithdrawalTimelock"@), Part::Account(guardian)],
        ) {
            None => Ok(None),
            Some(Value::Count(time)) => Ok(Some(time)),
            Some(_) => Err(Trap::ForeignValue),
        },
{
}

} // verus!
