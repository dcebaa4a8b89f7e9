//! What holds of the entry points.
use vstd::prelude::*;

use crate::invocation::{advance, resume, Landing, Outcome, Phase, Progress};
use crate::ledger::{law_setting_reads_back, DataKey, Entry, Ledger};
use crate::plans;
use crate::plans::{batch, batched, steps_of, Call, MAX_FEE_BPS};
use crate::script::{Plan, Step};
use crate::storage::{as_flag, Value};
use crate::trace::{
    all_ask_only, all_preserve, askings, can_be_refused, granted, heeds_refusals,
    law_granted_call_takes_effect, law_invariants_are_kept, law_nothing_else_is_asked,
    law_nothing_happens_before_the_gates_are_granted, law_refusal_ends_the_call,
    law_refused_call_does_nothing, law_steps_follow_each_other, law_success_needs_every_gate, ledger_after,
    modules_preserve, perform, preserves, run, undisturbed, Answer, Asking, Trace,
};
use crate::types::{Address, BatchCall, ContractError, Event, ModuleCall, Request, Role};

verus! {

proof fn lemma_batch_append(first: Seq<BatchCall>, later: Seq<BatchCall>)
    ensures
        batch(first + later) == batch(first) + batch(later),
    decreases later.len(),
{
    if later.len() == 0 {
        assert(first + later == first);
        assert(batch(first) + batch(later) == batch(first));
    } else {
        let calls = first + later;
        assert(calls.drop_last() == first + later.drop_last());
        lemma_batch_append(first, later.drop_last());
        let last = batched(later.last()).script();
        assert(batch(first) + batch(later.drop_last()) + last == batch(first) + (batch(later.drop_last()) + last));
    }
}

/// A batch of one call is that call.
pub proof fn law_batch_of_one(call: BatchCall)
    ensures
        batch(seq![call]) == batched(call).script(),
{
    assert(seq![call].drop_last() == Seq::<BatchCall>::empty());
    assert(batch(Seq::empty()) == Seq::<Step>::empty());
    assert(Seq::<Step>::empty() + batched(call).script() == batched(call).script());
}

/// A batch without calls returns without an error, asks for nothing and leaves the ledger as it is.
pub proof fn law_empty_batch(ledger: Ledger, answers: Seq<Answer>)
    ensures
        perform(batch(seq![]), ledger, answers).succeeded(),
        perform(batch(seq![]), ledger, answers).asked.len() == 0,
        perform(batch(seq![]), ledger, answers).ledger == ledger,
{
}

/// The calls of a batch are carried out in order: the later ones are carried out if and only if
/// every earlier one has returned without an error, and then on the ledger that these have left
/// behind.
pub proof fn law_batch_runs_in_order(
    first: Seq<BatchCall>,
    later: Seq<BatchCall>,
    ledger: Ledger,
    answers: Seq<Answer>,
)
    ensures
        perform(batch(first + later), ledger, answers) == perform(batch(first), ledger, answers).followed_by(
            batch(later),
            answers,
        ),
{
    lemma_batch_append(first, later);
    law_steps_follow_each_other(batch(first), batch(later), ledger, answers);
}

/// What comes of the call at this place in a batch, if it is reached.
pub open spec fn call_in_batch(calls: Seq<BatchCall>, i: int, ledger: Ledger, answers: Seq<Answer>) -> Trace {
    let earlier = perform(batch(calls.take(i)), ledger, answers);
    perform(batched(calls[i]).script(), earlier.ledger, answers.skip(earlier.asked.len() as int))
}

proof fn lemma_batch_at(calls: Seq<BatchCall>, i: int, ledger: Ledger, answers: Seq<Answer>)
    requires
        0 <= i < calls.len(),
    ensures
        perform(batch(calls.take(i + 1)), ledger, answers) == perform(
            batch(calls.take(i)),
            ledger,
            answers,
        ).followed_by(batched(calls[i]).script(), answers),
        perform(batch(calls), ledger, answers) == perform(batch(calls.take(i + 1)), ledger, answers).followed_by(
            batch(calls.skip(i + 1)),
            answers,
        ),
{
    assert(calls.take(i + 1) == calls.take(i) + seq![calls[i]]);
    law_batch_of_one(calls[i]);
    law_batch_runs_in_order(calls.take(i), seq![calls[i]], ledger, answers);
    assert(calls == calls.take(i + 1) + calls.skip(i + 1));
    law_batch_runs_in_order(calls.take(i + 1), calls.skip(i + 1), ledger, answers);
}

/// A batch ends with the first call that does not return without an error, and in the same way:
/// the error of the call is the error of the batch, and no later call is begun.
pub proof fn law_batch_stops_at_the_first_failure(
    calls: Seq<BatchCall>,
    i: int,
    ledger: Ledger,
    answers: Seq<Answer>,
)
    requires
        0 <= i < calls.len(),
        perform(batch(calls.take(i)), ledger, answers).succeeded(),
        !call_in_batch(calls, i, ledger, answers).succeeded(),
    ensures
        perform(batch(calls), ledger, answers) == call_in_batch(calls, i, ledger, answers).after(
            perform(batch(calls.take(i)), ledger, answers).asked,
        ),
{
    lemma_batch_at(calls, i, ledger, answers);
}

/// A batch returns without an error only if each of its calls does. The host undoes all that a call
/// has done if it does not return so: a batch is carried out as a whole or not at all.
pub proof fn law_batch_succeeds_only_as_a_whole(
    calls: Seq<BatchCall>,
    i: int,
    ledger: Ledger,
    answers: Seq<Answer>,
)
    requires
        0 <= i < calls.len(),
        perform(batch(calls), ledger, answers).succeeded(),
    ensures
        perform(batch(calls.take(i)), ledger, answers).succeeded(),
        call_in_batch(calls, i, ledger, answers).succeeded(),
{
    lemma_batch_at(calls, i, ledger, answers);
}

/// Whether every step is of this kind.
pub open spec fn every(steps: Seq<Step>, kind: spec_fn(Step) -> bool) -> bool {
    forall|i: int| 0 <= i < steps.len() ==> kind(#[trigger] steps[i])
}

proof fn lemma_every_in_batch(calls: Seq<BatchCall>, kind: spec_fn(Step) -> bool)
    requires
        forall|i: int| 0 <= i < calls.len() ==> every(batched(#[trigger] calls[i]).script(), kind),
    ensures
        every(batch(calls), kind),
    decreases calls.len(),
{
    if calls.len() > 0 {
        assert(every(batched(calls[calls.len() - 1]).script(), kind));
        lemma_every_in_batch(calls.drop_last(), kind);
    }
}

spec fn heeding() -> spec_fn(Step) -> bool {
    |step: Step| heeds_refusals(step)
}

proof fn lemma_single_heeds_refusals(call: BatchCall)
    ensures
        every(batched(call).script(), heeding()),
{
}

proof fn lemma_call_heeds_refusals(call: Call)
    ensures
        every(steps_of(call), heeding()),
{
    match call {
        Call::Single(single) => lemma_single_heeds_refusals(single),
        Call::Batch(calls) => {
            assert forall|j: int| 0 <= j < calls.len() implies every(
                batched(#[trigger] calls[j]).script(),
                heeding(),
            ) by {
                lemma_single_heeds_refusals(calls[j]);
            }
            lemma_every_in_batch(calls, heeding());
        },
        _ => {},
    }
}

/// The first refusal of a request that can be refused ends the call, be it one call or a batch, and
/// not with success: nothing is asked for any more, and the ledger is left as it is.
pub proof fn law_first_refusal_is_the_end(call: Call, ledger: Ledger, answers: Seq<Answer>, i: int)
    requires
        0 <= i < perform(steps_of(call), ledger, answers).asked.len(),
        i < answers.len(),
        can_be_refused(perform(steps_of(call), ledger, answers).asked[i].request),
        answers[i].reply is Err,
    ensures
        perform(steps_of(call), ledger, answers).asked.len() == i + 1,
        perform(steps_of(call), ledger, answers).end is Some,
        !perform(steps_of(call), ledger, answers).succeeded(),
        perform(steps_of(call), ledger, answers).ledger == answers[i].ledger,
{
    let steps = steps_of(call);
    lemma_call_heeds_refusals(call);
    assert forall|j: int| 0 <= j < steps.len() implies heeds_refusals(#[trigger] steps[j]) by {
        assert(heeding()(steps[j]));
    }
    law_refusal_ends_the_call(steps, ledger, answers, i);
}

spec fn keeping(holds: spec_fn(Ledger) -> bool) -> spec_fn(Step) -> bool {
    |step: Step| preserves(step, holds)
}

proof fn lemma_call_keeps(call: Call, ledger: Ledger, answers: Seq<Answer>, holds: spec_fn(Ledger) -> bool)
    requires
        holds(ledger),
        match call {
            Call::Batch(calls) => forall|j: int|
                0 <= j < calls.len() ==> every(batched(#[trigger] calls[j]).script(), keeping(holds)),
            _ => every(steps_of(call), keeping(holds)),
        },
        modules_preserve(perform(steps_of(call), ledger, answers), answers, holds),
    ensures
        holds(perform(steps_of(call), ledger, answers).ledger),
{
    let steps = steps_of(call);
    if let Call::Batch(calls) = call {
        lemma_every_in_batch(calls, keeping(holds));
    }
    assert forall|j: int| 0 <= j < steps.len() implies preserves(#[trigger] steps[j], holds) by {
        assert(keeping(holds)(steps[j]));
    }
    law_invariants_are_kept(steps, ledger, answers, holds);
}

/// Whether the stored fee, if there is one, is at most the highest.
pub open spec fn fee_within_bounds(ledger: Ledger) -> bool {
    ledger.at(DataKey::FeeBps) matches Some(Value::Rate(bps)) ==> bps <= MAX_FEE_BPS
}

spec fn fee_bound() -> spec_fn(Ledger) -> bool {
    |ledger: Ledger| fee_within_bounds(ledger)
}

proof fn lemma_step_keeps_fee_within_bounds(step: Step)
    requires
        step matches Step::Save(Entry::FeeBps(bps)) ==> bps <= MAX_FEE_BPS,
    ensures
        preserves(step, fee_bound()),
{
    match step {
        Step::Save(entry) => {
            assert forall|ledger: Ledger| fee_bound()(ledger) implies #[trigger] fee_bound()(ledger.save(entry)) by {
                law_setting_reads_back(ledger, entry, DataKey::FeeBps);
            }
        },
        Step::TogglePause => {
            assert forall|ledger: Ledger, paused: bool| fee_bound()(ledger) implies #[trigger] fee_bound()(
                ledger.save(Entry::Paused(paused)),
            ) by {
                law_setting_reads_back(ledger, Entry::Paused(paused), DataKey::FeeBps);
            }
        },
        _ => {},
    }
}

spec fn fair() -> spec_fn(Step) -> bool {
    |step: Step| step matches Step::Save(Entry::FeeBps(bps)) ==> bps <= MAX_FEE_BPS
}

proof fn lemma_single_is_fair(call: BatchCall)
    ensures
        every(batched(call).script(), fair()),
{
}

proof fn lemma_call_is_fair(call: Call)
    requires
        call !is Batch,
    ensures
        every(steps_of(call), fair()),
{
    match call {
        Call::Single(single) => lemma_single_is_fair(single),
        _ => {},
    }
}

proof fn lemma_steps_keep_fee_within_bounds(steps: Seq<Step>)
    requires
        every(steps, fair()),
    ensures
        every(steps, keeping(fee_bound())),
{
    assert forall|k: int| 0 <= k < steps.len() implies keeping(fee_bound())(#[trigger] steps[k]) by {
        assert(fair()(steps[k]));
        lemma_step_keeps_fee_within_bounds(steps[k]);
    }
}

/// No call brings the fee above the highest, as long as no other module does.
pub proof fn law_fee_stays_within_bounds(call: Call, ledger: Ledger, answers: Seq<Answer>)
    requires
        fee_within_bounds(ledger),
        forall|i: int|
            0 <= i < perform(steps_of(call), ledger, answers).asked.len() && i < answers.len() && fee_within_bounds(
                perform(steps_of(call), ledger, answers).asked[i].ledger,
            ) ==> fee_within_bounds((#[trigger] answers[i]).ledger),
    ensures
        fee_within_bounds(perform(steps_of(call), ledger, answers).ledger),
{
    if let Call::Batch(calls) = call {
        assert forall|j: int| 0 <= j < calls.len() implies every(
            batched(#[trigger] calls[j]).script(),
            keeping(fee_bound()),
        ) by {
            lemma_single_is_fair(calls[j]);
            lemma_steps_keep_fee_within_bounds(batched(calls[j]).script());
        }
    } else {
        lemma_call_is_fair(call);
        lemma_steps_keep_fee_within_bounds(steps_of(call));
    }
    lemma_call_keeps(call, ledger, answers, fee_bound());
    assert(fee_bound()(perform(steps_of(call), ledger, answers).ledger));
}

/// A fee above the highest is refused, once every gate is granted, and nothing is stored.
pub proof fn law_fee_above_the_highest_is_refused(
    admin: Address,
    bps: u32,
    ledger: Ledger,
    answers: Seq<Answer>,
)
    requires
        bps > MAX_FEE_BPS,
        granted(3, answers),
    ensures
        perform(plans::set_fee_bps(admin, bps).script(), ledger, answers) == (Trace {
            asked: askings(plans::set_fee_bps(admin, bps).gates(), ledger, answers),
            end: Some(Outcome::Returned(Err(ContractError::InvalidConfig))),
            ledger: answers[2].ledger,
        }),
{
    let plan = plans::set_fee_bps(admin, bps);
    assert(plan.gates().len() == 3);
    law_granted_call_takes_effect(plan, ledger, answers);
}

/// The setting that a call stores, for a call that stores one and does nothing else but to say so.
pub open spec fn setting_of(call: BatchCall) -> Option<Entry> {
    match call {
        BatchCall::SetWeightThreshold(_, threshold) => Some(Entry::WeightThreshold(threshold)),
        BatchCall::SetVaultAddress(_, vault) => Some(Entry::VaultAddress(vault)),
        BatchCall::SetFeeBps(_, bps) => Some(Entry::FeeBps(bps)),
        BatchCall::SetTreasuryAddress(_, treasury) => Some(Entry::TreasuryAddress(treasury)),
        BatchCall::Pause(_) => Some(Entry::Paused(true)),
        BatchCall::Unpause(_) => Some(Entry::Paused(false)),
        _ => None,
    }
}

/// Whether a call is there to change the setting under a key.
pub open spec fn changes(call: Call, key: DataKey) -> bool {
    match call {
        Call::Batch(calls) => exists|i: int| 0 <= i < calls.len() && single_changes(#[trigger] calls[i], key),
        Call::Single(call) => single_changes(call, key),
        Call::Initialize(admin, _, _, _) => match key {
            DataKey::Initialized | DataKey::Admin | DataKey::TokenAddress | DataKey::LockThreshold => true,
            DataKey::Paused => true,
            _ => key == DataKey::RoleAssignment(admin, Role::Admin),
        },
        _ => false,
    }
}

/// The same, for a call that can stand in a batch.
pub open spec fn single_changes(call: BatchCall, key: DataKey) -> bool {
    match setting_of(call) {
        Some(entry) => key == entry.key(),
        None => call is TogglePause && key == DataKey::Paused,
    }
}

spec fn unchanged(key: DataKey, value: Option<Value>) -> spec_fn(Ledger) -> bool {
    |ledger: Ledger| ledger.at(key) == value
}

spec fn leaves_alone(key: DataKey) -> spec_fn(Step) -> bool {
    |step: Step|
        match step {
            Step::Save(entry) => entry.key() != key,
            Step::TogglePause => key != DataKey::Paused,
            _ => true,
        }
}

proof fn lemma_single_leaves_alone(call: BatchCall, key: DataKey)
    requires
        !single_changes(call, key),
    ensures
        every(batched(call).script(), leaves_alone(key)),
{
}

proof fn lemma_call_leaves_alone(call: Call, key: DataKey)
    requires
        call !is Batch,
        !changes(call, key),
    ensures
        every(steps_of(call), leaves_alone(key)),
{
    match call {
        Call::Single(single) => lemma_single_leaves_alone(single, key),
        _ => {},
    }
}

proof fn lemma_steps_leave_alone(steps: Seq<Step>, key: DataKey, value: Option<Value>)
    requires
        every(steps, leaves_alone(key)),
    ensures
        every(steps, keeping(unchanged(key, value))),
{
    let holds = unchanged(key, value);
    assert forall|k: int| 0 <= k < steps.len() implies keeping(holds)(#[trigger] steps[k]) by {
        assert(leaves_alone(key)(steps[k]));
        match steps[k] {
            Step::Save(entry) => {
                assert forall|ledger: Ledger| holds(ledger) implies #[trigger] holds(ledger.save(entry)) by {
                    law_setting_reads_back(ledger, entry, key);
                }
            },
            Step::TogglePause => {
                assert forall|ledger: Ledger, paused: bool| holds(ledger) implies #[trigger] holds(
                    ledger.save(Entry::Paused(paused)),
                ) by {
                    law_setting_reads_back(ledger, Entry::Paused(paused), key);
                }
            },
            _ => {},
        }
    }
}

/// A call leaves every setting alone that it is not there to change, as long as no other module
/// changes it.
pub proof fn law_other_settings_stay(call: Call, key: DataKey, ledger: Ledger, answers: Seq<Answer>)
    requires
        !changes(call, key),
        forall|i: int|
            0 <= i < perform(steps_of(call), ledger, answers).asked.len() && i < answers.len() ==> (
            #[trigger] answers[i]).ledger.at(key) == perform(steps_of(call), ledger, answers).asked[i].ledger.at(key),
    ensures
        perform(steps_of(call), ledger, answers).ledger.at(key) == ledger.at(key),
{
    let holds = unchanged(key, ledger.at(key));
    if let Call::Batch(calls) = call {
        assert forall|j: int| 0 <= j < calls.len() implies every(
            batched(#[trigger] calls[j]).script(),
            keeping(holds),
        ) by {
            lemma_single_leaves_alone(calls[j], key);
            lemma_steps_leave_alone(batched(calls[j]).script(), key, ledger.at(key));
        }
    } else {
        lemma_call_leaves_alone(call, key);
        lemma_steps_leave_alone(steps_of(call), key, ledger.at(key));
    }
    lemma_call_keeps(call, ledger, answers, holds);
    assert(holds(perform(steps_of(call), ledger, answers).ledger));
}

/// Where the modules leave the instance as they find it, the gates of a call leave it so.
proof fn lemma_gates_leave_the_ledger(plan: Plan, ledger: Ledger, answers: Seq<Answer>, n: int)
    requires
        granted(plan.gates().len() as int, answers),
        undisturbed(perform(plan.script(), ledger, answers), answers),
        0 <= n <= plan.gates().len(),
    ensures
        ledger_after(n, ledger, answers) == ledger,
    decreases n,
{
    if n > 0 {
        lemma_gates_leave_the_ledger(plan, ledger, answers, n - 1);
        law_granted_call_takes_effect(plan, ledger, answers);
        let trace = perform(plan.script(), ledger, answers);
        assert(trace.asked[n - 1] == askings(plan.gates(), ledger, answers)[n - 1]);
        assert(answers[n - 1].ledger == trace.asked[n - 1].ledger);
    }
}

proof fn lemma_saving_takes_effect(plan: Plan, entry: Entry, ledger: Ledger, answers: Seq<Answer>)
    requires
        plan.effects.len() > 0,
        plan.effects[0] == Step::Save(entry),
        plan.effects.len() == 1 || plan.effects.len() == 2 && plan.effects[1] is Tell,
        perform(plan.script(), ledger, answers).succeeded(),
        undisturbed(perform(plan.script(), ledger, answers), answers),
    ensures
        perform(plan.script(), ledger, answers).ledger == ledger.save(entry),
{
    let n = plan.gates().len() as int;
    let trace = perform(plan.script(), ledger, answers);
    law_success_needs_every_gate(plan, ledger, answers);
    law_granted_call_takes_effect(plan, ledger, answers);
    lemma_gates_leave_the_ledger(plan, ledger, answers, n);
    reveal_with_fuel(run, 2);
    reveal_with_fuel(advance, 2);
    if plan.effects.len() == 2 {
        assert(plan.effects.drop_first()[0] == plan.effects[1]);
        assert(plan.effects.drop_first().drop_first().len() == 0);
        assert(answers.skip(n)[0] == answers[n]);
        assert(answers[n].ledger == trace.asked[n].ledger);
    }
}

/// A call that stores a setting has stored it once it returns without an error, and has changed
/// nothing else, where the modules leave the instance as they find it.
pub proof fn law_setting_takes_effect(call: BatchCall, entry: Entry, ledger: Ledger, answers: Seq<Answer>)
    requires
        setting_of(call) == Some(entry),
        perform(batched(call).script(), ledger, answers).succeeded(),
        undisturbed(perform(batched(call).script(), ledger, answers), answers),
    ensures
        perform(batched(call).script(), ledger, answers).ledger == ledger.save(entry),
{
    let plan = batched(call);
    if call is SetFeeBps && call->SetFeeBps_1 > MAX_FEE_BPS {
        law_success_needs_every_gate(plan, ledger, answers);
        assert(plan.gates().len() == 3);
        law_fee_above_the_highest_is_refused(call->SetFeeBps_0, call->SetFeeBps_1, ledger, answers);
    } else {
        lemma_saving_takes_effect(plan, entry, ledger, answers);
    }
}

/// Whether the contract counts as paused.
pub open spec fn paused(ledger: Ledger) -> bool {
    as_flag(ledger.at(DataKey::Paused)) == Some(Some(true))
}

/// Toggling the pause inverts it and publishes the new state, where the modules leave the instance
/// as they find it.
pub proof fn law_toggle_inverts_the_pause(admin: Address, ledger: Ledger, answers: Seq<Answer>)
    requires
        perform(plans::toggle_pause(admin).script(), ledger, answers).succeeded(),
        undisturbed(perform(plans::toggle_pause(admin).script(), ledger, answers), answers),
    ensures
        perform(plans::toggle_pause(admin).script(), ledger, answers).ledger == ledger.save(
            Entry::Paused(!paused(ledger)),
        ),
        perform(plans::toggle_pause(admin).script(), ledger, answers).asked.last().request == Request::Emit(
            Event::PauseToggled(!paused(ledger)),
        ),
{
    let plan = plans::toggle_pause(admin);
    let trace = perform(plan.script(), ledger, answers);
    let n = plan.gates().len() as int;
    law_success_needs_every_gate(plan, ledger, answers);
    law_granted_call_takes_effect(plan, ledger, answers);
    lemma_gates_leave_the_ledger(plan, ledger, answers, n);
    reveal_with_fuel(run, 2);
    reveal_with_fuel(advance, 2);
    assert(answers.skip(n)[0] == answers[n]);
    assert(answers[n].ledger == trace.asked[n].ledger);
}

/// Toggling the pause twice brings back the state of before.
pub proof fn law_toggling_twice_restores_the_pause(
    first: Address,
    second: Address,
    ledger: Ledger,
    answers: Seq<Answer>,
    replies: Seq<Answer>,
)
    requires
        perform(plans::toggle_pause(first).script(), ledger, answers).succeeded(),
        undisturbed(perform(plans::toggle_pause(first).script(), ledger, answers), answers),
        ({
            let between = perform(plans::toggle_pause(first).script(), ledger, answers).ledger;
            let trace = perform(plans::toggle_pause(second).script(), between, replies);
            trace.succeeded() && undisturbed(trace, replies)
        }),
    ensures
        ({
            let between = perform(plans::toggle_pause(first).script(), ledger, answers).ledger;
            let after = perform(plans::toggle_pause(second).script(), between, replies).ledger;
            paused(between) != paused(ledger) && paused(after) == paused(ledger)
        }),
{
    let between = perform(plans::toggle_pause(first).script(), ledger, answers).ledger;
    law_toggle_inverts_the_pause(first, ledger, answers);
    law_toggle_inverts_the_pause(second, between, replies);
    law_setting_reads_back(ledger, Entry::Paused(!paused(ledger)), DataKey::Paused);
    law_setting_reads_back(between, Entry::Paused(!paused(between)), DataKey::Paused);
}

/// Pausing pauses the contract and ending the pause ends it, whatever the state of before.
pub proof fn law_pause_and_unpause(admin: Address, ledger: Ledger, answers: Seq<Answer>)
    ensures
        ({
            let trace = perform(plans::pause(admin).script(), ledger, answers);
            trace.succeeded() && undisturbed(trace, answers) ==> paused(trace.ledger)
        }),
        ({
            let trace = perform(plans::unpause(admin).script(), ledger, answers);
            trace.succeeded() && undisturbed(trace, answers) ==> !paused(trace.ledger)
        }),
{
    let trace = perform(plans::pause(admin).script(), ledger, answers);
    if trace.succeeded() && undisturbed(trace, answers) {
        law_setting_takes_effect(BatchCall::Pause(admin), Entry::Paused(true), ledger, answers);
        law_setting_reads_back(ledger, Entry::Paused(true), DataKey::Paused);
    }
    let trace = perform(plans::unpause(admin).script(), ledger, answers);
    if trace.succeeded() && undisturbed(trace, answers) {
        law_setting_takes_effect(BatchCall::Unpause(admin), Entry::Paused(false), ledger, answers);
        law_setting_reads_back(ledger, Entry::Paused(false), DataKey::Paused);
    }
}

/// Whether the contract counts as initialized.
pub open spec fn initialized(ledger: Ledger) -> bool {
    as_flag(ledger.at(DataKey::Initialized)) == Some(Some(true))
}

/// The ledger once the settings of a new contract have been stored.
pub open spec fn founded(ledger: Ledger, admin: Address, token: Address, lock_threshold: i128) -> Ledger {
    ledger
        .save(Entry::Initialized(true))
        .save(Entry::Admin(admin))
        .save(Entry::TokenAddress(token))
        .save(Entry::LockThreshold(lock_threshold))
        .save(Entry::Paused(false))
        .save(Entry::RoleAssignment(admin, Role::Admin, true))
}

/// A contract is initialized once: any further attempt is refused, and changes nothing.
pub proof fn law_initialized_only_once(
    admin: Address,
    token: Address,
    lock_threshold: i128,
    version: u32,
    ledger: Ledger,
    answers: Seq<Answer>,
)
    requires
        granted(2, answers),
        initialized(answers[1].ledger),
    ensures
        perform(plans::initialize(admin, token, lock_threshold, version).script(), ledger, answers) == (Trace {
            asked: askings(plans::initialize(admin, token, lock_threshold, version).gates(), ledger, answers),
            end: Some(Outcome::Returned(Err(ContractError::AlreadyInitialized))),
            ledger: answers[1].ledger,
        }),
{
    let plan = plans::initialize(admin, token, lock_threshold, version);
    assert(plan.gates().len() == 2);
    law_granted_call_takes_effect(plan, ledger, answers);
}

/// A new contract is given its settings first, then its storage version is recorded, then its
/// instance is kept alive, and at last its initialization is published.
pub proof fn law_initialization(
    admin: Address,
    token: Address,
    lock_threshold: i128,
    version: u32,
    ledger: Ledger,
    answers: Seq<Answer>,
)
    requires
        granted(2, answers),
        answers.len() >= 4,
        as_flag(answers[1].ledger.at(DataKey::Initialized)) is Some,
        !initialized(answers[1].ledger),
    ensures
        ({
            let plan = plans::initialize(admin, token, lock_threshold, version);
            let trace = perform(plan.script(), ledger, answers);
            &&& trace.asked == askings(plan.gates(), ledger, answers) + seq![
                Asking {
                    request: Request::Module(ModuleCall::SetVersion(version)),
                    ledger: founded(answers[1].ledger, admin, token, lock_threshold),
                },
                Asking {
                    request: Request::Emit(Event::ContractInitialized(admin)),
                    ledger: answers[2].ledger.keep_alive(),
                },
            ]
            &&& trace.succeeded()
            &&& trace.ledger == answers[3].ledger
        }),
{
    let plan = plans::initialize(admin, token, lock_threshold, version);
    assert(plan.gates().len() == 2);
    law_granted_call_takes_effect(plan, ledger, answers);
    reveal_with_fuel(run, 3);
    reveal_with_fuel(advance, 8);
    assert(answers.skip(2)[0] == answers[2]);
    assert(answers.skip(2).drop_first()[0] == answers[3]);
}

/// What the settings of a new contract read as. All others read as before.
pub proof fn law_new_contract_reads_as_founded(
    ledger: Ledger,
    admin: Address,
    token: Address,
    lock_threshold: i128,
    key: DataKey,
)
    ensures
        founded(ledger, admin, token, lock_threshold).at(key) == match key {
            DataKey::Initialized => Some(Value::Flag(true)),
            DataKey::Admin => Some(Value::Account(admin)),
            DataKey::TokenAddress => Some(Value::Account(token)),
            DataKey::LockThreshold => Some(Value::Amount(lock_threshold)),
            DataKey::Paused => Some(Value::Flag(false)),
            _ => if key == DataKey::RoleAssignment(admin, Role::Admin) {
                Some(Value::Flag(true))
            } else {
                ledger.at(key)
            },
        },
{
    let a = ledger.save(Entry::Initialized(true));
    let b = a.save(Entry::Admin(admin));
    let c = b.save(Entry::TokenAddress(token));
    let d = c.save(Entry::LockThreshold(lock_threshold));
    let e = d.save(Entry::Paused(false));
    law_setting_reads_back(ledger, Entry::Initialized(true), key);
    law_setting_reads_back(a, Entry::Admin(admin), key);
    law_setting_reads_back(b, Entry::TokenAddress(token), key);
    law_setting_reads_back(c, Entry::LockThreshold(lock_threshold), key);
    law_setting_reads_back(d, Entry::Paused(false), key);
    law_setting_reads_back(e, Entry::RoleAssignment(admin, Role::Admin, true), key);
}

/// An initialization that returns without an error leaves an initialized contract behind, as long
/// as no other module clears the flag.
pub proof fn law_initialization_takes_effect(
    admin: Address,
    token: Address,
    lock_threshold: i128,
    version: u32,
    ledger: Ledger,
    answers: Seq<Answer>,
)
    requires
        perform(plans::initialize(admin, token, lock_threshold, version).script(), ledger, answers).succeeded(),
        forall|i: int|
            2 <= i < 4 && i < answers.len() && initialized(
                perform(
                    plans::initialize(admin, token, lock_threshold, version).script(),
                    ledger,
                    answers,
                ).asked[i].ledger,
            ) ==> initialized((#[trigger] answers[i]).ledger),
    ensures
        initialized(
            perform(plans::initialize(admin, token, lock_threshold, version).script(), ledger, answers).ledger,
        ),
{
    let plan = plans::initialize(admin, token, lock_threshold, version);
    let trace = perform(plan.script(), ledger, answers);
    assert(plan.gates().len() == 2);
    law_success_needs_every_gate(plan, ledger, answers);
    if initialized(answers[1].ledger) {
        law_initialized_only_once(admin, token, lock_threshold, version, ledger, answers);
    }
    assert(answers.len() >= 4 && as_flag(answers[1].ledger.at(DataKey::Initialized)) is Some) by {
        law_granted_call_takes_effect(plan, ledger, answers);
        reveal_with_fuel(run, 3);
        reveal_with_fuel(advance, 8);
    }
    law_initialization(admin, token, lock_threshold, version, ledger, answers);
    law_new_contract_reads_as_founded(
        answers[1].ledger,
        admin,
        token,
        lock_threshold,
        DataKey::Initialized,
    );
    assert(trace.asked[2].ledger == founded(answers[1].ledger, admin, token, lock_threshold));
    assert(initialized(answers[2].ledger));
    assert(trace.asked[3].ledger == answers[2].ledger.keep_alive());
    assert(initialized(answers[3].ledger));
}

spec fn founding() -> spec_fn(Ledger) -> bool {
    |ledger: Ledger| initialized(ledger)
}

spec fn never_clears() -> spec_fn(Step) -> bool {
    |step: Step| leaves_alone(DataKey::Initialized)(step) || step == Step::Save(Entry::Initialized(true))
}

proof fn lemma_single_never_clears(call: BatchCall)
    ensures
        every(batched(call).script(), never_clears()),
{
    let steps = batched(call).script();
    lemma_single_leaves_alone(call, DataKey::Initialized);
    assert forall|k: int| 0 <= k < steps.len() implies never_clears()(#[trigger] steps[k]) by {
        assert(leaves_alone(DataKey::Initialized)(steps[k]));
    }
}

proof fn lemma_call_never_clears(call: Call)
    requires
        call !is Batch,
    ensures
        every(steps_of(call), never_clears()),
{
    let steps = steps_of(call);
    match call {
        Call::Single(single) => lemma_single_never_clears(single),
        Call::Initialize(_, _, _, _) => {},
        _ => {
            lemma_call_leaves_alone(call, DataKey::Initialized);
            assert forall|k: int| 0 <= k < steps.len() implies never_clears()(#[trigger] steps[k]) by {
                assert(leaves_alone(DataKey::Initialized)(steps[k]));
            }
        },
    }
}

proof fn lemma_steps_keep_initialized(steps: Seq<Step>)
    requires
        every(steps, never_clears()),
    ensures
        every(steps, keeping(founding())),
{
    let holds = founding();
    assert forall|k: int| 0 <= k < steps.len() implies keeping(holds)(#[trigger] steps[k]) by {
        assert(never_clears()(steps[k]));
        match steps[k] {
            Step::Save(entry) => {
                assert forall|ledger: Ledger| holds(ledger) implies #[trigger] holds(ledger.save(entry)) by {
                    law_setting_reads_back(ledger, entry, DataKey::Initialized);
                }
            },
            Step::TogglePause => {
                assert forall|ledger: Ledger, paused: bool| holds(ledger) implies #[trigger] holds(
                    ledger.save(Entry::Paused(paused)),
                ) by {
                    law_setting_reads_back(ledger, Entry::Paused(paused), DataKey::Initialized);
                }
            },
            _ => {},
        }
    }
}

/// An initialized contract stays initialized, whatever is called, as long as no other module clears
/// the flag.
pub proof fn law_initialization_is_for_good(call: Call, ledger: Ledger, answers: Seq<Answer>)
    requires
        initialized(ledger),
        forall|i: int|
            0 <= i < perform(steps_of(call), ledger, answers).asked.len() && i < answers.len() && initialized(
                perform(steps_of(call), ledger, answers).asked[i].ledger,
            ) ==> initialized((#[trigger] answers[i]).ledger),
    ensures
        initialized(perform(steps_of(call), ledger, answers).ledger),
{
    if let Call::Batch(calls) = call {
        assert forall|j: int| 0 <= j < calls.len() implies every(
            batched(#[trigger] calls[j]).script(),
            keeping(founding()),
        ) by {
            lemma_single_never_clears(calls[j]);
            lemma_steps_keep_initialized(batched(calls[j]).script());
        }
    } else {
        lemma_call_never_clears(call);
        lemma_steps_keep_initialized(steps_of(call));
    }
    lemma_call_keeps(call, ledger, answers, founding());
    assert(founding()(perform(steps_of(call), ledger, answers).ledger));
}

/// The start of a reward stream is reported by the event that fits its outcome, and its answer is
/// the answer of the call.
pub proof fn law_reward_stream_is_reported(
    admin: Address,
    drips_address: Address,
    contributor: Address,
    task_id: u64,
    ledger: Ledger,
    answers: Seq<Answer>,
)
    requires
        granted(5, answers),
        answers.len() >= 7,
    ensures
        ({
            let plan = plans::start_reward_stream(admin, drips_address, contributor, task_id);
            let trace = perform(plan.script(), ledger, answers);
            let event = if answers[5].reply is Ok {
                Event::RewardStreamStarted(task_id, contributor)
            } else {
                Event::RewardStreamFailed(task_id, contributor)
            };
            &&& trace.asked == askings(plan.gates(), ledger, answers) + seq![
                Asking {
                    request: Request::Module(ModuleCall::StartDripsStream(drips_address, contributor, task_id)),
                    ledger: answers[4].ledger,
                },
                Asking { request: Request::Emit(event), ledger: answers[5].ledger },
            ]
            &&& answers[5].reply is Ok ==> trace.succeeded()
            &&& answers[5].reply matches Err(error) ==> trace.end == Some(Outcome::Returned(Err(error)))
            &&& trace.ledger == answers[6].ledger
        }),
{
    let plan = plans::start_reward_stream(admin, drips_address, contributor, task_id);
    assert(plan.gates().len() == 5);
    law_granted_call_takes_effect(plan, ledger, answers);
    reveal_with_fuel(run, 3);
    assert(answers.skip(5)[0] == answers[5]);
    assert(answers.skip(5).drop_first()[0] == answers[6]);
}

spec fn other_than_pause() -> spec_fn(Request) -> bool {
    |request: Request| request != Request::RequireNotPaused
}

/// A call that is not made to stop at the pause never asks whether the contract is paused.
pub proof fn law_unpausable_call_ignores_the_pause(
    call: BatchCall,
    ledger: Ledger,
    answers: Seq<Answer>,
    i: int,
)
    requires
        !batched(call).pausable,
        0 <= i < perform(batched(call).script(), ledger, answers).asked.len(),
    ensures
        perform(batched(call).script(), ledger, answers).asked[i].request != Request::RequireNotPaused,
{
    let steps = batched(call).script();
    assert(all_ask_only(steps, other_than_pause()));
    law_nothing_else_is_asked(steps, ledger, answers, other_than_pause());
    assert(other_than_pause()(perform(steps, ledger, answers).asked[i].request));
}

/// Of the calls that cannot stand in a batch, all but purging and archiving a task and recording a
/// snapshot are open whether the contract is paused or not: they never ask.
pub proof fn law_open_while_paused(call: Call, ledger: Ledger, answers: Seq<Answer>, i: int)
    requires
        call is SetTrustedReportersOnly || call is MigrateStorage || call is Initialize || call is VoteBatch
            || call is UpgradeContract || call is GrantRole || call is RevokeRole,
        0 <= i < perform(steps_of(call), ledger, answers).asked.len(),
    ensures
        perform(steps_of(call), ledger, answers).asked[i].request != Request::RequireNotPaused,
{
    let steps = steps_of(call);
    assert(all_ask_only(steps, other_than_pause()));
    law_nothing_else_is_asked(steps, ledger, answers, other_than_pause());
    assert(other_than_pause()(perform(steps, ledger, answers).asked[i].request));
}

/// The recovery of last resort is open whether the contract is paused or not: it never asks.
pub proof fn law_recovery_ignores_the_pause(
    admin: Address,
    recipient: Address,
    amount: i128,
    ledger: Ledger,
    answers: Seq<Answer>,
    i: int,
)
    requires
        0 <= i < perform(plans::emergency_recover(admin, recipient, amount).script(), ledger, answers).asked.len(),
    ensures
        perform(
            plans::emergency_recover(admin, recipient, amount).script(),
            ledger,
            answers,
        ).asked[i].request != Request::RequireNotPaused,
{
    law_unpausable_call_ignores_the_pause(
        BatchCall::EmergencyRecover(admin, recipient, amount),
        ledger,
        answers,
        i,
    );
}

/// A call that is made to stop at the pause does nothing while the contract is paused: it is
/// refused with the error of the pause gate, or panics on it.
pub proof fn law_pause_stops_the_call(plan: Plan, ledger: Ledger, answers: Seq<Answer>)
    requires
        plan.pausable,
        plan.addresses.len() < answers.len(),
        granted(plan.addresses.len() as int, answers),
        answers[plan.addresses.len() as int].reply is Err,
    ensures
        ({
            let trace = perform(plan.script(), ledger, answers);
            let answer = answers[plan.addresses.len() as int];
            &&& trace.asked.len() == plan.addresses.len() + 1
            &&& trace.asked.last().request == Request::RequireNotPaused
            &&& trace.end == Some(plan.on_paused().outcome(answer.reply->Err_0))
            &&& trace.ledger == answer.ledger
        }),
{
    let i = plan.addresses.len() as int;
    assert(plan.gates()[i] == Step::Ask(Request::RequireNotPaused, plan.on_paused()));
    law_refused_call_does_nothing(plan, ledger, answers, i);
}

/// A call does nothing for a caller who lacks the role: it is refused with the error of the role
/// gate, or panics with it.
pub proof fn law_role_is_needed(plan: Plan, caller: Address, role: Role, ledger: Ledger, answers: Seq<Answer>)
    requires
        plan.role == Some((caller, role)),
        plan.gates().len() <= answers.len(),
        granted(plan.gates().len() - 1, answers),
        answers[plan.gates().len() - 1].reply is Err,
    ensures
        ({
            let trace = perform(plan.script(), ledger, answers);
            let answer = answers[plan.gates().len() - 1];
            &&& trace.asked.len() == plan.gates().len()
            &&& trace.asked.last().request == Request::RequireRole(caller, role)
            &&& trace.end == Some(plan.on_denied().outcome(answer.reply->Err_0))
            &&& trace.ledger == answer.ledger
        }),
{
    let i = plan.gates().len() - 1;
    assert(plan.gates()[i] == Step::Ask(Request::RequireRole(caller, role), plan.on_denied()));
    law_refused_call_does_nothing(plan, ledger, answers, i);
}

spec fn same_as(before: Ledger) -> spec_fn(Ledger) -> bool {
    |ledger: Ledger| ledger == before
}

proof fn lemma_stores_nothing(call: BatchCall, before: Ledger)
    requires
        batched(call).role is None,
    ensures
        all_preserve(batched(call).script(), same_as(before)),
{
}

/// A call changes the ledger only for a caller who was found to hold the role that the call asks
/// for, where the modules leave the instance as they find it.
pub proof fn law_changes_need_a_role(call: BatchCall, ledger: Ledger, answers: Seq<Answer>)
    requires
        undisturbed(perform(batched(call).script(), ledger, answers), answers),
        perform(batched(call).script(), ledger, answers).ledger != ledger,
    ensures
        batched(call).role is Some,
        granted(batched(call).gates().len() as int, answers),
{
    let plan = batched(call);
    let trace = perform(plan.script(), ledger, answers);
    if !granted(plan.gates().len() as int, answers) {
        law_nothing_happens_before_the_gates_are_granted(plan, ledger, answers);
    }
    if plan.role is None {
        lemma_stores_nothing(call, ledger);
        law_invariants_are_kept(plan.script(), ledger, answers, same_as(ledger));
        assert(same_as(ledger)(trace.ledger));
    }
}

spec fn panics_or_goes_on(step: Step) -> bool {
    match step {
        Step::Ask(_, refusal) => refusal !is Return,
        Step::Tell(_) | Step::Save(_) | Step::TogglePause | Step::KeepAlive => true,
        _ => false,
    }
}

spec fn will_not_return_an_error(landing: Landing) -> bool {
    &&& forall|i: int| 0 <= i < landing.rest.len() ==> panics_or_goes_on(#[trigger] landing.rest[i])
    &&& match landing.phase {
        Phase::Awaiting(refusal) => refusal !is Return,
        Phase::Telling => true,
        Phase::Ended(Outcome::Returned(Err(_))) => false,
        Phase::Ended(_) => true,
        _ => false,
    }
    &&& landing.progress matches Progress::Ended(outcome) ==> landing.phase == Phase::Ended(outcome)
}

proof fn lemma_advance_returns_no_error(steps: Seq<Step>, ledger: Ledger)
    requires
        forall|i: int| 0 <= i < steps.len() ==> panics_or_goes_on(#[trigger] steps[i]),
    ensures
        will_not_return_an_error(advance(steps, ledger)),
    decreases steps.len(),
{
    if steps.len() > 0 {
        let later = steps.drop_first();
        assert(panics_or_goes_on(steps[0]));
        match steps[0] {
            Step::Save(entry) => lemma_advance_returns_no_error(later, ledger.save(entry)),
            Step::KeepAlive => lemma_advance_returns_no_error(later, ledger.keep_alive()),
            _ => {},
        }
    }
}

proof fn lemma_run_returns_no_error(landing: Landing, answers: Seq<Answer>)
    requires
        will_not_return_an_error(landing),
    ensures
        run(landing, answers).end matches Some(Outcome::Returned(answer)) ==> answer is Ok,
    decreases answers.len(),
{
    if landing.progress is Asked && answers.len() > 0 {
        let answer = answers[0];
        lemma_advance_returns_no_error(landing.rest, answer.ledger);
        lemma_run_returns_no_error(
            resume(landing.rest, landing.phase, answer.reply, answer.ledger),
            answers.drop_first(),
        );
    }
}

/// Setting the vault never returns an error: it panics instead.
pub proof fn law_vault_is_set_or_panics(admin: Address, vault: Address, ledger: Ledger, answers: Seq<Answer>)
    ensures
        perform(plans::set_vault_address(admin, vault).script(), ledger, answers).end matches Some(
            Outcome::Returned(answer),
        ) ==> answer is Ok,
{
    let steps = plans::set_vault_address(admin, vault).script();
    assert forall|i: int| 0 <= i < steps.len() implies panics_or_goes_on(#[trigger] steps[i]) by {
    }
    lemma_advance_returns_no_error(steps, ledger);
    lemma_run_returns_no_error(advance(steps, ledger), answers);
}

} // verus!
