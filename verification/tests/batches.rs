use soroban_sdk::testutils::{ContractFunctionSet, EnvTestConfig};
use soroban_sdk::{Env, Val};
use vero_core::entry::VeroContract;
use vero_core::invocation::{Invocation, Outcome, Progress, Trap};
use vero_core::script::Script;
use vero_core::types::{Address, BatchCall, ContractError, Event, ModuleCall, Request, Role};

/// A contract without functions, whose storage is empty at first.
struct Blank;

impl ContractFunctionSet for Blank {
    fn call(&self, _: &str, _: Env, _: &[Val]) -> Option<Val> {
        None
    }
}

/// Runs the body inside of an invocation of a blank contract.
fn in_contract(body: impl FnOnce(Env)) {
    let env = Env::new_with_config(EnvTestConfig { capture_snapshot_at_drop: false });
    let id = env.register(Blank, ());
    env.as_contract(&id, || body(env.clone()));
}

/// Carries out a script, and lists its requests.
fn perform(
    env: &Env,
    script: Script,
    mut reply: impl FnMut(&Request) -> Result<(), ContractError>,
) -> (Vec<Request>, Outcome) {
    let mut env = env.clone();
    let mut asked = vec![];
    let (mut invocation, mut progress) = Invocation::start(script, &mut env);
    loop {
        match progress {
            Progress::Ended(outcome) => return (asked, outcome),
            Progress::Asked(request) => {
                let answer = reply(&request);
                asked.push(request);
                progress = invocation.resume(&mut env, answer);
            }
        }
    }
}

const ADMIN: Address = Address::Account([1; 32]);
const GUARDIAN: Address = Address::Account([2; 32]);
const TARGET: Address = Address::Contract([3; 32]);
const DONE: Outcome = Outcome::Returned(Ok(()));

fn grant(_: &Request) -> Result<(), ContractError> {
    Ok(())
}

/// All that the script asks for, where everything is granted.
fn requests(script: Script) -> Vec<Request> {
    let mut requests = vec![];
    in_contract(|env| {
        let (asked, end) = perform(&env, script, grant);
        assert_eq!(end, DONE);
        requests = asked;
    });
    requests
}

#[test]
fn an_empty_batch_succeeds() {
    assert_eq!(requests(VeroContract::batch_execute(vec![])), vec![]);
}

#[test]
fn every_batched_call_is_its_entry_point() {
    let hash = [5; 32];
    let pairs = vec![
        (BatchCall::RegisterTask(ADMIN, 8, 2), VeroContract::register_task(ADMIN, 8, 2)),
        (BatchCall::CancelTask(ADMIN, 8), VeroContract::cancel_task(ADMIN, 8)),
        (BatchCall::Vote(GUARDIAN, 8), VeroContract::vote(GUARDIAN, 8)),
        (BatchCall::AddGuardian(ADMIN, GUARDIAN), VeroContract::add_guardian(ADMIN, GUARDIAN)),
        (BatchCall::RemoveGuardian(ADMIN, GUARDIAN), VeroContract::remove_guardian(ADMIN, GUARDIAN)),
        (BatchCall::SetReputation(ADMIN, GUARDIAN, 5), VeroContract::set_reputation(ADMIN, GUARDIAN, 5)),
        (BatchCall::LockTokens(GUARDIAN, 6), VeroContract::lock_tokens(GUARDIAN, 6)),
        (BatchCall::RequestUnlock(GUARDIAN), VeroContract::request_unlock(GUARDIAN)),
        (BatchCall::UnlockTokens(GUARDIAN), VeroContract::unlock_tokens(GUARDIAN)),
        (BatchCall::ResignGuardian(GUARDIAN), VeroContract::resign_guardian(GUARDIAN)),
        (BatchCall::SetWeightThreshold(ADMIN, 7), VeroContract::set_weight_threshold(ADMIN, 7)),
        (BatchCall::SetVaultAddress(ADMIN, TARGET), VeroContract::set_vault_address(ADMIN, TARGET)),
        (
            BatchCall::SetUpgradeSigners(ADMIN, vec![GUARDIAN], 1),
            VeroContract::set_upgrade_signers(ADMIN, vec![GUARDIAN], 1),
        ),
        (BatchCall::ProposeUpgrade(GUARDIAN, hash), VeroContract::propose_upgrade(GUARDIAN, hash)),
        (BatchCall::ApproveUpgrade(GUARDIAN), VeroContract::approve_upgrade(GUARDIAN)),
        (BatchCall::ExecuteUpgrade(GUARDIAN), VeroContract::execute_upgrade()),
        (BatchCall::CancelUpgrade(ADMIN), VeroContract::cancel_upgrade(ADMIN)),
        (
            BatchCall::StartRewardStream(ADMIN, TARGET, GUARDIAN, 9),
            VeroContract::start_reward_stream(ADMIN, TARGET, GUARDIAN, 9),
        ),
        (BatchCall::TogglePause(ADMIN), VeroContract::toggle_pause(ADMIN)),
        (BatchCall::Pause(ADMIN), VeroContract::pause(ADMIN)),
        (BatchCall::Unpause(ADMIN), VeroContract::unpause(ADMIN)),
        (BatchCall::RecordFailure(GUARDIAN), VeroContract::record_failure(GUARDIAN)),
        (BatchCall::ResetCircuitBreaker(ADMIN), VeroContract::reset_circuit_breaker(ADMIN)),
        (BatchCall::EmergencyRecover(ADMIN, TARGET, 4), VeroContract::emergency_recover(ADMIN, TARGET, 4)),
        (BatchCall::SetFeeBps(ADMIN, 3), VeroContract::set_fee_bps(ADMIN, 3)),
        (BatchCall::SetTreasuryAddress(ADMIN, TARGET), VeroContract::set_treasury_address(ADMIN, TARGET)),
    ];
    assert_eq!(pairs.len(), 26);
    for (call, script) in pairs {
        assert_eq!(VeroContract::batch_execute(vec![call]), script);
    }
}

#[test]
fn calls_are_carried_out_in_order() {
    let mut expected = requests(VeroContract::vote(GUARDIAN, 1));
    expected.extend(requests(VeroContract::cancel_task(ADMIN, 2)));
    expected.extend(requests(VeroContract::vote(GUARDIAN, 1)));
    let calls = vec![BatchCall::Vote(GUARDIAN, 1), BatchCall::CancelTask(ADMIN, 2), BatchCall::Vote(GUARDIAN, 1)];
    assert_eq!(requests(VeroContract::batch_execute(calls)), expected);
}

#[test]
fn a_later_call_sees_what_an_earlier_one_stored() {
    in_contract(|env| {
        let calls = vec![BatchCall::Pause(ADMIN), BatchCall::TogglePause(ADMIN), BatchCall::TogglePause(ADMIN)];
        let (asked, end) = perform(&env, VeroContract::batch_execute(calls), grant);
        assert_eq!(end, DONE);
        let events: Vec<&Request> = asked.iter().filter(|r| matches!(r, Request::Emit(_))).collect();
        assert_eq!(
            events,
            vec![
                &Request::Emit(Event::PauseToggled(true)),
                &Request::Emit(Event::PauseToggled(false)),
                &Request::Emit(Event::PauseToggled(true)),
            ]
        );
        assert_eq!(VeroContract::is_paused(&env), Ok(true));
    });
}

#[test]
fn a_batch_stops_at_the_first_failure_with_its_error() {
    in_contract(|env| {
        let calls = vec![
            BatchCall::SetWeightThreshold(ADMIN, 5),
            BatchCall::Vote(GUARDIAN, 1),
            BatchCall::SetWeightThreshold(ADMIN, 6),
        ];
        let vote = Request::Module(ModuleCall::ProcessVote(GUARDIAN, 1));
        let (asked, end) = perform(&env, VeroContract::batch_execute(calls), |request| {
            if *request == vote {
                Err(ContractError::Other(55))
            } else {
                Ok(())
            }
        });
        assert_eq!(end, Outcome::Returned(Err(ContractError::Other(55))));
        assert_eq!(asked.len(), 6);
        assert_eq!(asked[5], vote);
        assert_eq!(VeroContract::get_weight_threshold(&env, 0), Ok(5));
    });
}

#[test]
fn a_batch_stops_at_an_excessive_fee() {
    in_contract(|env| {
        let calls = vec![BatchCall::SetFeeBps(ADMIN, 1000), BatchCall::SetFeeBps(ADMIN, 1001), BatchCall::Pause(ADMIN)];
        let (asked, end) = perform(&env, VeroContract::batch_execute(calls), grant);
        assert_eq!(end, Outcome::Returned(Err(ContractError::InvalidConfig)));
        assert_eq!(asked.len(), 6);
        assert_eq!(VeroContract::is_paused(&env), Ok(false));
    });
}

#[test]
fn a_batch_stops_at_a_failed_reward_stream_once_it_is_announced() {
    in_contract(|env| {
        let calls = vec![BatchCall::StartRewardStream(ADMIN, TARGET, GUARDIAN, 4), BatchCall::Pause(ADMIN)];
        let start = Request::Module(ModuleCall::StartDripsStream(TARGET, GUARDIAN, 4));
        let (asked, end) = perform(&env, VeroContract::batch_execute(calls), |request| {
            if *request == start {
                Err(ContractError::TaskNotFound)
            } else {
                Ok(())
            }
        });
        assert_eq!(end, Outcome::Returned(Err(ContractError::TaskNotFound)));
        assert_eq!(asked.len(), 7);
        assert_eq!(asked[6], Request::Emit(Event::RewardStreamFailed(4, GUARDIAN)));
        assert_eq!(VeroContract::is_paused(&env), Ok(false));
    });
}

#[test]
fn a_vault_that_cannot_be_set_makes_the_batch_panic() {
    in_contract(|env| {
        let calls = vec![BatchCall::SetVaultAddress(ADMIN, TARGET), BatchCall::Pause(ADMIN)];
        let (asked, end) = perform(&env, VeroContract::batch_execute(calls), |request| match request {
            Request::RequireRole(_, Role::ConfigManager) => Err(ContractError::NotAuthorized),
            _ => Ok(()),
        });
        assert_eq!(end, Outcome::Panicked(Trap::Coded(ContractError::NotAuthorized)));
        assert_eq!(asked.len(), 4);
        assert_eq!(VeroContract::is_paused(&env), Ok(false));
    });
}

#[test]
fn a_batch_changes_only_what_its_calls_change() {
    in_contract(|env| {
        perform(&env, VeroContract::initialize(ADMIN, TARGET, 1, 1), grant);
        perform(&env, VeroContract::pause(ADMIN), grant);
        let calls = vec![BatchCall::SetWeightThreshold(ADMIN, 5), BatchCall::SetFeeBps(ADMIN, 10)];
        let (_, end) = perform(&env, VeroContract::batch_execute(calls), grant);
        assert_eq!(end, DONE);
        assert_eq!(VeroContract::is_paused(&env), Ok(true));
        assert_eq!(VeroContract::get_admin(&env), Ok(Some(ADMIN)));
        assert_eq!(VeroContract::get_weight_threshold(&env, 0), Ok(5));
        let (_, end) = perform(&env, VeroContract::initialize(ADMIN, TARGET, 1, 1), grant);
        assert_eq!(end, Outcome::Returned(Err(ContractError::AlreadyInitialized)));
    });
}
