//! Traces: what comes of a script, given the answers to its requests.
//!
//! A script is carried out by `Invocation::start` and `Invocation::resume`, whose contracts say
//! where each of them comes to stand (`advance`, `resume`). A trace puts them in a row.
use vstd::prelude::*;

use crate::invocation::{advance, ended, resume, Landing, Outcome, Phase, Progress};
use crate::ledger::{Entry, Ledger};
use crate::script::{Plan, Refusal, Step};
use crate::types::{ContractError, Event, ModuleCall, Request};

verus! {

/// The answer to a request, and the ledger as it stands when the answer comes.
pub struct Answer {
    pub reply: Result<(), ContractError>,
    pub ledger: Ledger,
}

/// A request, and the ledger as it stands when it is made.
pub struct Asking {
    pub request: Request,
    pub ledger: Ledger,
}

/// What was asked for, how it ended, and the ledger at last. Without an end, the last request is
/// still unanswered.
#[verifier::ext_equal]
pub struct Trace {
    pub asked: Seq<Asking>,
    pub end: Option<Outcome>,
    pub ledger: Ledger,
}

impl Trace {
    /// The same, after these requests.
    pub open spec fn after(self, asked: Seq<Asking>) -> Trace {
        Trace { asked: asked + self.asked, ..self }
    }

    /// Whether the call returned without an error.
    pub open spec fn succeeded(self) -> bool {
        self.end matches Some(Outcome::Returned(Ok(())))
    }

    /// The trace of a script of which this trace is the first part: where the first part returned
    /// without an error, the other steps follow on the answers that are left.
    pub open spec fn followed_by(self, steps: Seq<Step>, answers: Seq<Answer>) -> Trace {
        if self.succeeded() {
            perform(steps, self.ledger, answers.skip(self.asked.len() as int)).after(self.asked)
        } else {
            self
        }
    }
}

/// What comes of an invocation that stands here.
pub open spec fn run(landing: Landing, answers: Seq<Answer>) -> Trace
    decreases answers.len(),
{
    match landing.progress {
        Progress::Ended(outcome) => Trace { asked: seq![], end: Some(outcome), ledger: landing.ledger },
        Progress::Asked(request) => {
            let asking = Asking { request, ledger: landing.ledger };
            if answers.len() == 0 {
                Trace { asked: seq![asking], end: None, ledger: landing.ledger }
            } else {
                let answer = answers[0];
                run(
                    resume(landing.rest, landing.phase, answer.reply, answer.ledger),
                    answers.drop_first(),
                ).after(seq![asking])
            }
        },
    }
}

/// What comes of a script.
pub open spec fn perform(steps: Seq<Step>, ledger: Ledger, answers: Seq<Answer>) -> Trace {
    run(advance(steps, ledger), answers)
}

/// Whether the modules leave the instance as they find it.
pub open spec fn undisturbed(trace: Trace, answers: Seq<Answer>) -> bool {
    forall|i: int|
        0 <= i < trace.asked.len() && i < answers.len() ==> (#[trigger] answers[i]).ledger == trace.asked[i].ledger
}

/// Where an invocation stands that has more steps to carry out in the end.
spec fn with_more(landing: Landing, steps: Seq<Step>) -> Landing {
    match landing.progress {
        Progress::Asked(_) => Landing { rest: landing.rest + steps, ..landing },
        Progress::Ended(Outcome::Returned(Ok(()))) => advance(steps, landing.ledger),
        Progress::Ended(_) => landing,
    }
}

/// An invocation that has asked for something has not ended.
spec fn sound(landing: Landing) -> bool {
    landing.progress is Asked ==> landing.phase !is Ended
}

proof fn lemma_advance_with_more(first: Seq<Step>, steps: Seq<Step>, ledger: Ledger)
    ensures
        advance(first + steps, ledger) == with_more(advance(first, ledger), steps),
        sound(advance(first, ledger)),
    decreases first.len(),
{
    if first.len() == 0 {
        assert(first + steps == steps);
    } else {
        let later = first.drop_first();
        assert((first + steps).drop_first() == later + steps);
        match first[0] {
            Step::Save(entry) => lemma_advance_with_more(later, steps, ledger.save(entry)),
            Step::KeepAlive => lemma_advance_with_more(later, steps, ledger.keep_alive()),
            Step::RefuseIfInitialized => lemma_advance_with_more(later, steps, ledger),
            _ => {},
        }
    }
}

proof fn lemma_run_with_more(landing: Landing, steps: Seq<Step>, answers: Seq<Answer>)
    requires
        sound(landing),
    ensures
        run(with_more(landing, steps), answers) == run(landing, answers).followed_by(steps, answers),
        run(landing, answers).end is Some ==> run(landing, answers).asked.len() <= answers.len(),
    decreases answers.len(),
{
    match landing.progress {
        Progress::Ended(_) => {
            assert(answers.skip(0) == answers);
            assert(perform(steps, landing.ledger, answers).after(seq![]) == perform(steps, landing.ledger, answers));
        },
        Progress::Asked(request) => {
            if answers.len() > 0 {
                let (answer, later) = (answers[0], answers.drop_first());
                let next = resume(landing.rest, landing.phase, answer.reply, answer.ledger);
                lemma_advance_with_more(landing.rest, steps, answer.ledger);
                assert(resume(landing.rest + steps, landing.phase, answer.reply, answer.ledger) == with_more(
                    next,
                    steps,
                ));
                lemma_run_with_more(next, steps, later);
                let rest = run(next, later);
                if rest.succeeded() {
                    assert(later.skip(rest.asked.len() as int) == answers.skip(1 + rest.asked.len() as int));
                }
            }
        },
    }
}

/// The steps of a script are carried out in order: the later ones are carried out if and only if
/// the earlier ones have come to their end without an error, and then on the ledger that these
/// have left behind.
pub proof fn law_steps_follow_each_other(first: Seq<Step>, steps: Seq<Step>, ledger: Ledger, answers: Seq<Answer>)
    ensures
        perform(first + steps, ledger, answers) == perform(first, ledger, answers).followed_by(steps, answers),
{
    lemma_advance_with_more(first, steps, ledger);
    lemma_run_with_more(advance(first, ledger), steps, answers);
}

/// The requests that these steps make when the earlier ones among them are granted, each with the
/// ledger as it stands then.
pub open spec fn askings(steps: Seq<Step>, ledger: Ledger, answers: Seq<Answer>) -> Seq<Asking> {
    Seq::new(
        steps.len(),
        |i: int| Asking { request: steps[i]->Ask_0, ledger: ledger_after(i, ledger, answers) },
    )
}

/// The ledger as it stands when the first `n` answers have come.
pub open spec fn ledger_after(n: int, ledger: Ledger, answers: Seq<Answer>) -> Ledger {
    if n <= 0 { ledger } else { answers[n - 1].ledger }
}

/// Whether the first `n` requests are answered and granted.
pub open spec fn granted(n: int, answers: Seq<Answer>) -> bool {
    n <= answers.len() && forall|i: int| 0 <= i < n ==> (#[trigger] answers[i]).reply is Ok
}

/// Whether every step asks for something and goes on only if it is granted.
spec fn all_ask(steps: Seq<Step>) -> bool {
    forall|i: int| 0 <= i < steps.len() ==> (#[trigger] steps[i]) is Ask
}

proof fn lemma_granted(asks: Seq<Step>, steps: Seq<Step>, ledger: Ledger, answers: Seq<Answer>)
    requires
        all_ask(asks),
        granted(asks.len() as int, answers),
    ensures
        perform(asks + steps, ledger, answers) == perform(
            steps,
            ledger_after(asks.len() as int, ledger, answers),
            answers.skip(asks.len() as int),
        ).after(askings(asks, ledger, answers)),
    decreases asks.len(),
{
    if asks.len() == 0 {
        assert(asks + steps == steps);
        assert(answers.skip(0) == answers);
        let trace = perform(steps, ledger, answers);
        assert(trace.after(askings(asks, ledger, answers)) == trace);
    } else {
        let (later, replies) = (asks.drop_first(), answers.drop_first());
        assert(asks[0] is Ask);
        assert(answers[0].reply is Ok);
        assert forall|i: int| 0 <= i < later.len() implies (#[trigger] later[i]) is Ask by {
            assert(asks[i + 1] is Ask);
        }
        assert forall|i: int| 0 <= i < later.len() implies (#[trigger] replies[i]).reply is Ok by {
            assert(answers[i + 1].reply is Ok);
        }
        assert((asks + steps).drop_first() == later + steps);
        lemma_granted(later, steps, answers[0].ledger, replies);
        assert(replies.skip(later.len() as int) == answers.skip(asks.len() as int));
        let first = seq![Asking { request: asks[0]->Ask_0, ledger }];
        assert(first + askings(later, answers[0].ledger, replies) == askings(asks, ledger, answers));
        let trace = perform(
            steps,
            ledger_after(asks.len() as int, ledger, answers),
            answers.skip(asks.len() as int),
        );
        assert(first + (askings(later, answers[0].ledger, replies) + trace.asked) == askings(asks, ledger, answers)
            + trace.asked);
    }
}

proof fn lemma_all_gates_ask(plan: Plan)
    ensures
        all_ask(plan.gates()),
{
}

/// Once every gate is granted, a call does what it is there for.
pub proof fn law_granted_call_takes_effect(plan: Plan, ledger: Ledger, answers: Seq<Answer>)
    requires
        granted(plan.gates().len() as int, answers),
    ensures
        perform(plan.script(), ledger, answers) == perform(
            plan.effects,
            ledger_after(plan.gates().len() as int, ledger, answers),
            answers.skip(plan.gates().len() as int),
        ).after(askings(plan.gates(), ledger, answers)),
{
    lemma_all_gates_ask(plan);
    lemma_granted(plan.gates(), plan.effects, ledger, answers);
}

/// A call ends at the first gate that is refused, in the way that belongs to that gate. It has
/// asked for nothing but the gates so far, and it leaves the ledger as it is.
pub proof fn law_refused_call_does_nothing(plan: Plan, ledger: Ledger, answers: Seq<Answer>, i: int)
    requires
        0 <= i < plan.gates().len(),
        i < answers.len(),
        granted(i, answers),
        answers[i].reply is Err,
    ensures
        perform(plan.script(), ledger, answers) == (Trace {
            asked: askings(plan.gates().take(i + 1), ledger, answers),
            end: Some(plan.gates()[i]->Ask_1.outcome(answers[i].reply->Err_0)),
            ledger: answers[i].ledger,
        }),
{
    reveal_with_fuel(run, 2);
    lemma_all_gates_ask(plan);
    let gates = plan.gates();
    let (first, others) = (gates.take(i), gates.skip(i) + plan.effects);
    assert(plan.script() == first + others);
    lemma_granted(first, others, ledger, answers);
    let replies = answers.skip(i);
    assert(others[0] == gates[i] && replies[0] == answers[i]);
    assert(askings(gates.take(i + 1), ledger, answers) == askings(first, ledger, answers) + seq![
        Asking { request: gates[i]->Ask_0, ledger: ledger_after(i, ledger, answers) },
    ]);
}

/// What comes of a script that starts by asking for these requests, each with its refusal, and has
/// other steps after them.
pub proof fn lemma_asks_in_turn(
    requests: Seq<Request>,
    refusals: Seq<Refusal>,
    rest: Seq<Step>,
    steps: Seq<Step>,
    ledger: Ledger,
    answers: Seq<Answer>,
)
    requires
        refusals.len() == requests.len(),
        steps.len() == requests.len() + rest.len(),
        forall|i: int| 0 <= i < requests.len() ==> #[trigger] steps[i] == Step::Ask(requests[i], refusals[i]),
        forall|i: int| 0 <= i < rest.len() ==> steps[requests.len() + i] == #[trigger] rest[i],
    ensures
        ({
            let trace = perform(steps, ledger, answers);
            let n = requests.len() as int;
            &&& forall|i: int|
                0 <= i < n && granted(i, answers) ==> i < trace.asked.len() && trace.asked[i] == (Asking {
                    request: #[trigger] requests[i],
                    ledger: ledger_after(i, ledger, answers),
                })
            &&& forall|i: int|
                0 <= i < n && i < answers.len() && granted(i, answers) && (#[trigger] answers[i]).reply is Err ==> {
                    &&& trace.asked.len() == i + 1
                    &&& trace.end == Some(refusals[i].outcome(answers[i].reply->Err_0))
                    &&& trace.ledger == answers[i].ledger
                }
            &&& answers.len() < n && granted(answers.len() as int, answers) ==> {
                &&& trace.asked.len() == answers.len() + 1
                &&& trace.end is None
            }
            &&& granted(n, answers) ==> {
                let later = perform(rest, ledger_after(n, ledger, answers), answers.skip(n));
                &&& trace.asked.len() == n + later.asked.len()
                &&& trace.asked.skip(n) == later.asked
                &&& trace.end == later.end
                &&& trace.ledger == later.ledger
            }
        }),
{
    let trace = perform(steps, ledger, answers);
    let n = requests.len() as int;
    let asks = steps.take(n);
    assert forall|i: int| 0 <= i < n implies #[trigger] asks[i] == Step::Ask(requests[i], refusals[i]) by {
        assert(steps[i] == Step::Ask(requests[i], refusals[i]));
    }
    assert forall|i: int| 0 <= i < n && granted(i, answers) implies i < trace.asked.len() && trace.asked[i] == (
    Asking { request: #[trigger] requests[i], ledger: ledger_after(i, ledger, answers) }) by {
        lemma_asks_after(asks, rest, steps, ledger, answers, i);
    }
    assert forall|i: int|
        0 <= i < n && i < answers.len() && granted(i, answers) && (#[trigger] answers[i]).reply is Err implies {
        &&& trace.asked.len() == i + 1
        &&& trace.end == Some(refusals[i].outcome(answers[i].reply->Err_0))
        &&& trace.ledger == answers[i].ledger
    } by {
        lemma_asks_after(asks, rest, steps, ledger, answers, i);
        assert(asks[i] == Step::Ask(requests[i], refusals[i]));
    }
    if answers.len() < n && granted(answers.len() as int, answers) {
        lemma_asks_after(asks, rest, steps, ledger, answers, answers.len() as int);
    }
    if granted(n, answers) {
        assert(steps == asks + rest);
        lemma_granted(asks, rest, ledger, answers);
        let later = perform(rest, ledger_after(n, ledger, answers), answers.skip(n));
        assert(trace.asked.skip(n) == later.asked);
    }
}

proof fn lemma_asks_after(
    asks: Seq<Step>,
    rest: Seq<Step>,
    steps: Seq<Step>,
    ledger: Ledger,
    answers: Seq<Answer>,
    i: int,
)
    requires
        all_ask(asks),
        steps.len() == asks.len() + rest.len(),
        asks == steps.take(asks.len() as int),
        0 <= i < asks.len(),
        granted(i, answers),
    ensures
        ({
            let trace = perform(steps, ledger, answers);
            &&& i < trace.asked.len()
            &&& trace.asked[i] == (Asking { request: asks[i]->Ask_0, ledger: ledger_after(i, ledger, answers) })
            &&& i == answers.len() ==> trace.asked.len() == i + 1 && trace.end is None
            &&& i < answers.len() && answers[i].reply is Err ==> {
                &&& trace.asked.len() == i + 1
                &&& trace.end == Some(asks[i]->Ask_1.outcome(answers[i].reply->Err_0))
                &&& trace.ledger == answers[i].ledger
            }
        }),
{
    reveal_with_fuel(run, 2);
    let (first, others) = (asks.take(i), steps.skip(i));
    assert(steps == first + others);
    assert forall|j: int| 0 <= j < first.len() implies (#[trigger] first[j]) is Ask by {
        assert(asks[j] is Ask);
    }
    lemma_granted(first, others, ledger, answers);
    assert(others[0] == asks[i]);
    assert(asks[i] is Ask);
    let replies = answers.skip(i);
    if i < answers.len() {
        assert(replies[0] == answers[i]);
    }
}

proof fn lemma_success_means_granted(asks: Seq<Step>, ledger: Ledger, answers: Seq<Answer>)
    requires
        all_ask(asks),
        perform(asks, ledger, answers).succeeded(),
    ensures
        granted(asks.len() as int, answers),
    decreases asks.len(),
{
    if asks.len() > 0 {
        let (later, replies) = (asks.drop_first(), answers.drop_first());
        assert(asks[0] is Ask);
        reveal_with_fuel(run, 2);
        assert(answers.len() > 0 && answers[0].reply is Ok);
        assert forall|i: int| 0 <= i < later.len() implies (#[trigger] later[i]) is Ask by {
            assert(asks[i + 1] is Ask);
        }
        lemma_success_means_granted(later, answers[0].ledger, replies);
        assert forall|i: int| 0 <= i < asks.len() implies (#[trigger] answers[i]).reply is Ok by {
            if i > 0 {
                assert(replies[i - 1].reply is Ok);
            }
        }
    }
}

/// A call returns without an error only if every gate was granted: every address is valid, the
/// contract is not paused where that matters, and the caller holds the role.
pub proof fn law_success_needs_every_gate(plan: Plan, ledger: Ledger, answers: Seq<Answer>)
    requires
        perform(plan.script(), ledger, answers).succeeded(),
    ensures
        granted(plan.gates().len() as int, answers),
{
    lemma_all_gates_ask(plan);
    law_steps_follow_each_other(plan.gates(), plan.effects, ledger, answers);
    lemma_success_means_granted(plan.gates(), ledger, answers);
}

proof fn lemma_not_granted(asks: Seq<Step>, steps: Seq<Step>, ledger: Ledger, answers: Seq<Answer>)
    requires
        all_ask(asks),
        !granted(asks.len() as int, answers),
        undisturbed(perform(asks + steps, ledger, answers), answers),
    ensures
        perform(asks + steps, ledger, answers).asked.len() <= asks.len(),
        perform(asks + steps, ledger, answers).ledger == ledger,
    decreases asks.len(),
{
    let trace = perform(asks + steps, ledger, answers);
    assert(asks.len() > 0);
    assert(asks[0] is Ask);
    reveal_with_fuel(run, 2);
    if answers.len() > 0 {
        assert(trace.asked[0].ledger == ledger);
        assert(answers[0].ledger == ledger);
        if answers[0].reply is Ok {
            let (later, replies) = (asks.drop_first(), answers.drop_first());
            let rest = perform(later + steps, ledger, replies);
            assert((asks + steps).drop_first() == later + steps);
            assert(trace == rest.after(seq![trace.asked[0]]));
            assert forall|i: int| 0 <= i < later.len() implies (#[trigger] later[i]) is Ask by {
                assert(asks[i + 1] is Ask);
            }
            assert forall|i: int| 0 <= i < rest.asked.len() && i < replies.len() implies (
            #[trigger] replies[i]).ledger == rest.asked[i].ledger by {
                assert(answers[i + 1].ledger == trace.asked[i + 1].ledger);
            }
            if granted(later.len() as int, replies) {
                assert forall|i: int| 0 <= i < asks.len() implies (#[trigger] answers[i]).reply is Ok by {
                    if i > 0 {
                        assert(replies[i - 1].reply is Ok);
                    }
                }
            }
            lemma_not_granted(later, steps, ledger, replies);
        }
    }
}

/// As long as not every gate is granted, a call asks for nothing but its gates and leaves the
/// ledger as it is, where the modules leave the instance as they find it.
pub proof fn law_nothing_happens_before_the_gates_are_granted(plan: Plan, ledger: Ledger, answers: Seq<Answer>)
    requires
        !granted(plan.gates().len() as int, answers),
        undisturbed(perform(plan.script(), ledger, answers), answers),
    ensures
        perform(plan.script(), ledger, answers).asked.len() <= plan.gates().len(),
        perform(plan.script(), ledger, answers).ledger == ledger,
{
    lemma_all_gates_ask(plan);
    lemma_not_granted(plan.gates(), plan.effects, ledger, answers);
}

/// An invocation that has ended stays as it is, whatever it is resumed with.
pub proof fn law_end_is_final(outcome: Outcome, reply: Result<(), ContractError>, before: Ledger, after: Ledger)
    ensures
        resume(ended(outcome, before).rest, ended(outcome, before).phase, reply, after) == ended(outcome, after),
{
}

/// How many answers an invocation that stands here needs at most.
spec fn answers_needed(landing: Landing) -> nat {
    let pending: nat = match landing.phase {
        Phase::Reporting(_, _) => 2,
        Phase::Ended(_) => 0,
        _ => 1,
    };
    2 * landing.rest.len() + pending
}

proof fn lemma_advance_needs(steps: Seq<Step>, ledger: Ledger)
    ensures
        answers_needed(advance(steps, ledger)) <= 2 * steps.len(),
        sound(advance(steps, ledger)),
    decreases steps.len(),
{
    if steps.len() > 0 {
        let later = steps.drop_first();
        match steps[0] {
            Step::Save(entry) => lemma_advance_needs(later, ledger.save(entry)),
            Step::KeepAlive => lemma_advance_needs(later, ledger.keep_alive()),
            Step::RefuseIfInitialized => lemma_advance_needs(later, ledger),
            _ => {},
        }
    }
}

proof fn lemma_run_ends(landing: Landing, answers: Seq<Answer>)
    requires
        sound(landing),
        answers_needed(landing) <= answers.len(),
    ensures
        run(landing, answers).end is Some,
    decreases answers.len(),
{
    if landing.progress is Asked {
        let answer = answers[0];
        lemma_advance_needs(landing.rest, answer.ledger);
        lemma_run_ends(
            resume(landing.rest, landing.phase, answer.reply, answer.ledger),
            answers.drop_first(),
        );
    }
}

/// Every call comes to an end, after two answers for each of its steps at most.
pub proof fn law_every_call_ends(steps: Seq<Step>, ledger: Ledger, answers: Seq<Answer>)
    requires
        2 * steps.len() <= answers.len(),
    ensures
        perform(steps, ledger, answers).end is Some,
{
    lemma_advance_needs(steps, ledger);
    lemma_run_ends(advance(steps, ledger), answers);
}

/// Whether a request can be refused. Events cannot, nor can work that gives no answer. The start of
/// a reward stream is set apart: its refusal is reported.
pub open spec fn can_be_refused(request: Request) -> bool {
    match request {
        Request::Emit(_) => false,
        Request::Module(ModuleCall::SetVersion(_)) => false,
        Request::Module(ModuleCall::SetTrustedReportersOnly(_)) => false,
        Request::Module(ModuleCall::UpgradeContract(_, _)) => false,
        Request::Module(ModuleCall::StartDripsStream(_, _, _)) => false,
        _ => true,
    }
}

/// Whether all that the step asks for without heeding a refusal is what cannot be refused.
pub open spec fn heeds_refusals(step: Step) -> bool {
    match step {
        Step::Tell(request) => !can_be_refused(request),
        Step::AskAndReport(request, _, _) => !can_be_refused(request),
        _ => true,
    }
}

/// Whether all steps do.
pub open spec fn all_heed_refusals(steps: Seq<Step>) -> bool {
    forall|i: int| 0 <= i < steps.len() ==> heeds_refusals(#[trigger] steps[i])
}

spec fn awaits_refusals(landing: Landing) -> bool {
    &&& all_heed_refusals(landing.rest)
    &&& landing.progress matches Progress::Asked(request) ==> can_be_refused(request) ==> landing.phase is Awaiting
}

proof fn lemma_advance_awaits(steps: Seq<Step>, ledger: Ledger)
    requires
        all_heed_refusals(steps),
    ensures
        awaits_refusals(advance(steps, ledger)),
    decreases steps.len(),
{
    if steps.len() > 0 {
        let later = steps.drop_first();
        assert(heeds_refusals(steps[0]));
        match steps[0] {
            Step::Save(entry) => lemma_advance_awaits(later, ledger.save(entry)),
            Step::KeepAlive => lemma_advance_awaits(later, ledger.keep_alive()),
            Step::RefuseIfInitialized => lemma_advance_awaits(later, ledger),
            _ => {},
        }
    }
}

proof fn lemma_run_stops(landing: Landing, answers: Seq<Answer>, i: int)
    requires
        awaits_refusals(landing),
        0 <= i < run(landing, answers).asked.len(),
        i < answers.len(),
        can_be_refused(run(landing, answers).asked[i].request),
        answers[i].reply is Err,
    ensures
        run(landing, answers).asked.len() == i + 1,
        run(landing, answers).end is Some,
        !run(landing, answers).succeeded(),
        run(landing, answers).ledger == answers[i].ledger,
    decreases answers.len(),
{
    let (answer, later) = (answers[0], answers.drop_first());
    let next = resume(landing.rest, landing.phase, answer.reply, answer.ledger);
    lemma_advance_awaits(landing.rest, answer.ledger);
    reveal_with_fuel(run, 2);
    if i > 0 {
        assert(run(landing, answers).asked[i] == run(next, later).asked[i - 1]);
        lemma_run_stops(next, later, i - 1);
    }
}

/// The first refusal of a request that can be refused ends the call, and not with success: nothing
/// is asked for any more, and the ledger is left as it is.
pub proof fn law_refusal_ends_the_call(steps: Seq<Step>, ledger: Ledger, answers: Seq<Answer>, i: int)
    requires
        all_heed_refusals(steps),
        0 <= i < perform(steps, ledger, answers).asked.len(),
        i < answers.len(),
        can_be_refused(perform(steps, ledger, answers).asked[i].request),
        answers[i].reply is Err,
    ensures
        perform(steps, ledger, answers).asked.len() == i + 1,
        perform(steps, ledger, answers).end is Some,
        !perform(steps, ledger, answers).succeeded(),
        perform(steps, ledger, answers).ledger == answers[i].ledger,
{
    lemma_advance_awaits(steps, ledger);
    lemma_run_stops(advance(steps, ledger), answers, i);
}

/// Whether what holds of a ledger still holds once the step is carried out.
pub open spec fn preserves(step: Step, holds: spec_fn(Ledger) -> bool) -> bool {
    match step {
        Step::Save(entry) => forall|ledger: Ledger| holds(ledger) ==> #[trigger] holds(ledger.save(entry)),
        Step::TogglePause => forall|ledger: Ledger, paused: bool|
            holds(ledger) ==> #[trigger] holds(ledger.save(Entry::Paused(paused))),
        Step::KeepAlive => forall|ledger: Ledger| holds(ledger) ==> #[trigger] holds(ledger.keep_alive()),
        _ => true,
    }
}

/// Whether all steps do so.
pub open spec fn all_preserve(steps: Seq<Step>, holds: spec_fn(Ledger) -> bool) -> bool {
    forall|i: int| 0 <= i < steps.len() ==> preserves(#[trigger] steps[i], holds)
}

/// Whether what holds of the ledger at a request still holds when the answer comes.
pub open spec fn modules_preserve(trace: Trace, answers: Seq<Answer>, holds: spec_fn(Ledger) -> bool) -> bool {
    forall|i: int|
        0 <= i < trace.asked.len() && i < answers.len() && holds(trace.asked[i].ledger) ==> holds(
            (#[trigger] answers[i]).ledger,
        )
}

proof fn lemma_advance_preserves(steps: Seq<Step>, ledger: Ledger, holds: spec_fn(Ledger) -> bool)
    requires
        holds(ledger),
        all_preserve(steps, holds),
    ensures
        holds(advance(steps, ledger).ledger),
        all_preserve(advance(steps, ledger).rest, holds),
    decreases steps.len(),
{
    if steps.len() > 0 {
        let later = steps.drop_first();
        assert(preserves(steps[0], holds));
        match steps[0] {
            Step::Save(entry) => lemma_advance_preserves(later, ledger.save(entry), holds),
            Step::KeepAlive => lemma_advance_preserves(later, ledger.keep_alive(), holds),
            Step::RefuseIfInitialized => lemma_advance_preserves(later, ledger, holds),
            _ => {},
        }
    }
}

proof fn lemma_run_preserves(landing: Landing, answers: Seq<Answer>, holds: spec_fn(Ledger) -> bool)
    requires
        holds(landing.ledger),
        all_preserve(landing.rest, holds),
        modules_preserve(run(landing, answers), answers, holds),
    ensures
        holds(run(landing, answers).ledger),
        forall|i: int|
            0 <= i < run(landing, answers).asked.len() ==> holds((#[trigger] run(landing, answers).asked[i]).ledger),
    decreases answers.len(),
{
    if landing.progress is Asked && answers.len() > 0 {
        let (answer, later) = (answers[0], answers.drop_first());
        let next = resume(landing.rest, landing.phase, answer.reply, answer.ledger);
        let trace = run(landing, answers);
        assert(trace.asked[0].ledger == landing.ledger);
        assert(holds(answer.ledger));
        lemma_advance_preserves(landing.rest, answer.ledger, holds);
        assert forall|i: int|
            0 <= i < run(next, later).asked.len() && i < later.len() && holds(
                run(next, later).asked[i].ledger,
            ) implies holds((#[trigger] later[i]).ledger) by {
            assert(trace.asked[i + 1] == run(next, later).asked[i]);
            assert(answers[i + 1] == later[i]);
        }
        lemma_run_preserves(next, later, holds);
        assert forall|i: int| 0 <= i < trace.asked.len() implies holds((#[trigger] trace.asked[i]).ledger) by {
            if i > 0 {
                assert(trace.asked[i] == run(next, later).asked[i - 1]);
            }
        }
    }
}

/// What holds of the ledger at first, and is preserved by every step and every module, holds at
/// every request and at last.
pub proof fn law_invariants_are_kept(
    steps: Seq<Step>,
    ledger: Ledger,
    answers: Seq<Answer>,
    holds: spec_fn(Ledger) -> bool,
)
    requires
        holds(ledger),
        all_preserve(steps, holds),
        modules_preserve(perform(steps, ledger, answers), answers, holds),
    ensures
        holds(perform(steps, ledger, answers).ledger),
        forall|i: int|
            0 <= i < perform(steps, ledger, answers).asked.len() ==> holds(
                (#[trigger] perform(steps, ledger, answers).asked[i]).ledger,
            ),
{
    lemma_advance_preserves(steps, ledger, holds);
    lemma_run_preserves(advance(steps, ledger), answers, holds);
}

/// Whether all that the step can ask for is of this kind.
pub open spec fn asks_only(step: Step, kind: spec_fn(Request) -> bool) -> bool {
    match step {
        Step::Ask(request, _) => kind(request),
        Step::AskAndReport(request, granted, refused) => {
            kind(request) && kind(Request::Emit(granted)) && kind(Request::Emit(refused))
        },
        Step::Tell(request) => kind(request),
        Step::TogglePause => {
            kind(Request::Emit(Event::PauseToggled(true))) && kind(Request::Emit(Event::PauseToggled(false)))
        },
        _ => true,
    }
}

/// Whether all steps do so.
pub open spec fn all_ask_only(steps: Seq<Step>, kind: spec_fn(Request) -> bool) -> bool {
    forall|i: int| 0 <= i < steps.len() ==> asks_only(#[trigger] steps[i], kind)
}

spec fn will_ask_only(landing: Landing, kind: spec_fn(Request) -> bool) -> bool {
    &&& all_ask_only(landing.rest, kind)
    &&& landing.progress matches Progress::Asked(request) ==> kind(request)
    &&& landing.phase matches Phase::Reporting(granted, refused) ==> kind(Request::Emit(granted)) && kind(
        Request::Emit(refused),
    )
}

proof fn lemma_advance_asks_only(steps: Seq<Step>, ledger: Ledger, kind: spec_fn(Request) -> bool)
    requires
        all_ask_only(steps, kind),
    ensures
        will_ask_only(advance(steps, ledger), kind),
    decreases steps.len(),
{
    if steps.len() > 0 {
        let later = steps.drop_first();
        assert(asks_only(steps[0], kind));
        match steps[0] {
            Step::Save(entry) => lemma_advance_asks_only(later, ledger.save(entry), kind),
            Step::KeepAlive => lemma_advance_asks_only(later, ledger.keep_alive(), kind),
            Step::RefuseIfInitialized => lemma_advance_asks_only(later, ledger, kind),
            _ => {},
        }
    }
}

proof fn lemma_run_asks_only(landing: Landing, answers: Seq<Answer>, kind: spec_fn(Request) -> bool)
    requires
        will_ask_only(landing, kind),
    ensures
        forall|i: int|
            0 <= i < run(landing, answers).asked.len() ==> kind((#[trigger] run(landing, answers).asked[i]).request),
    decreases answers.len(),
{
    if landing.progress is Asked && answers.len() > 0 {
        let (answer, later) = (answers[0], answers.drop_first());
        let next = resume(landing.rest, landing.phase, answer.reply, answer.ledger);
        let trace = run(landing, answers);
        lemma_advance_asks_only(landing.rest, answer.ledger, kind);
        lemma_run_asks_only(next, later, kind);
        assert forall|i: int| 0 <= i < trace.asked.len() implies kind((#[trigger] trace.asked[i]).request) by {
            if i > 0 {
                assert(trace.asked[i] == run(next, later).asked[i - 1]);
            }
        }
    }
}

/// A call asks for nothing but what its steps are there to ask for.
pub proof fn law_nothing_else_is_asked(
    steps: Seq<Step>,
    ledger: Ledger,
    answers: Seq<Answer>,
    kind: spec_fn(Request) -> bool,
)
    requires
        all_ask_only(steps, kind),
    ensures
        forall|i: int|
            0 <= i < perform(steps, ledger, answers).asked.len() ==> kind(
                (#[trigger] perform(steps, ledger, answers).asked[i]).request,
            ),
{
    lemma_advance_asks_only(steps, ledger, kind);
    lemma_run_asks_only(advance(steps, ledger), answers, kind);
}

} // verus!
