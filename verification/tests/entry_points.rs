use soroban_sdk::testutils::{ContractFunctionSet, EnvTestConfig};
use soroban_sdk::{Env, Val};
use vero_core::entry::VeroContract;
use vero_core::invocation::{Invocation, Outcome, Progress, Trap};
use vero_core::script::Script;
use vero_core::types::{Address, ContractError, Event, ModuleCall, Request, Role};

/// A contract without functions, whose storage is empty at first.
struct Blank;

impl ContractFunctionSet for Blank {
    fn call(&self, _: &str, _: Env, _: &[Val]) -> Option<Val> {
        None
    }
}

/// Runs the body inside of an invocation of a blank contract.
fn in_contract(body: impl FnOnce(Env)) {
    let env = Env::new_with_config(EnvTestConfig { capture_snapshot_at_drop: false });
    let id = env.register(Blank, ());
    env.as_contract(&id, || body(env.clone()));
}

/// Carries out a script, and lists its requests.
fn perform(
    env: &Env,
    script: Script,
    mut reply: impl FnMut(&Request) -> Result<(), ContractError>,
) -> (Vec<Request>, Outcome) {
    let mut env = env.clone();
    let mut asked = vec![];
    let (mut invocation, mut progress) = Invocation::start(script, &mut env);
    loop {
        match progress {
            Progress::Ended(outcome) => return (asked, outcome),
            Progress::Asked(request) => {
                let answer = reply(&request);
                asked.push(request);
                progress = invocation.resume(&mut env, answer);
            }
        }
    }
}

const ADMIN: Address = Address::Account([1; 32]);
const GUARDIAN: Address = Address::Account([2; 32]);
const TARGET: Address = Address::Contract([3; 32]);
const DONE: Outcome = Outcome::Returned(Ok(()));

fn valid(address: Address) -> Request {
    Request::ValidateAddress(address)
}

fn role(role: Role) -> Request {
    Request::RequireRole(ADMIN, role)
}

/// All that the script asks for, where everything is granted.
fn requests(script: Script) -> Vec<Request> {
    let mut requests = vec![];
    in_contract(|env| {
        let (asked, end) = perform(&env, script, |_| Ok(()));
        assert_eq!(end, DONE);
        requests = asked;
    });
    requests
}

/// What comes of the script where this request is refused with this error.
fn refused(script: Script, request: Request, error: ContractError) -> (usize, Outcome) {
    let mut result = (0, DONE);
    in_contract(|env| {
        let (asked, end) = perform(&env, script, |asked| if *asked == request { Err(error) } else { Ok(()) });
        result = (asked.len(), end);
    });
    result
}

#[test]
fn guardians_are_managed() {
    let gates = [valid(ADMIN), valid(GUARDIAN), Request::RequireNotPaused, role(Role::GuardianManager)];
    let mut expected = Vec::from(gates);
    expected.push(Request::Module(ModuleCall::AddGuardian(ADMIN, GUARDIAN)));
    expected.push(Request::Emit(Event::GuardianAdded(ADMIN, GUARDIAN)));
    assert_eq!(requests(VeroContract::add_guardian(ADMIN, GUARDIAN)), expected);

    let gates = [valid(ADMIN), valid(GUARDIAN), Request::RequireNotPaused, role(Role::GuardianManager)];
    let mut expected = Vec::from(gates);
    expected.push(Request::Module(ModuleCall::RemoveGuardian(ADMIN, GUARDIAN)));
    expected.push(Request::Emit(Event::GuardianRemoved(ADMIN, GUARDIAN)));
    assert_eq!(requests(VeroContract::remove_guardian(ADMIN, GUARDIAN)), expected);

    let gates = [valid(ADMIN), valid(GUARDIAN), Request::RequireNotPaused, role(Role::GuardianManager)];
    let mut expected = Vec::from(gates);
    expected.push(Request::Module(ModuleCall::SetReputation(ADMIN, GUARDIAN, 9)));
    expected.push(Request::Emit(Event::ReputationSet(ADMIN, GUARDIAN, 9)));
    assert_eq!(requests(VeroContract::set_reputation(ADMIN, GUARDIAN, 9)), expected);
}

#[test]
fn guardians_act_for_themselves() {
    let module = |call: ModuleCall| vec![valid(GUARDIAN), Request::Module(call)];
    assert_eq!(
        requests(VeroContract::lock_tokens(GUARDIAN, -4)),
        module(ModuleCall::LockTokens(GUARDIAN, -4))
    );
    assert_eq!(requests(VeroContract::request_unlock(GUARDIAN)), module(ModuleCall::RequestUnlock(GUARDIAN)));
    assert_eq!(requests(VeroContract::unlock_tokens(GUARDIAN)), module(ModuleCall::UnlockTokens(GUARDIAN)));
    assert_eq!(requests(VeroContract::resign_guardian(GUARDIAN)), module(ModuleCall::ResignGuardian(GUARDIAN)));
    assert_eq!(requests(VeroContract::vote(GUARDIAN, 6)), module(ModuleCall::ProcessVote(GUARDIAN, 6)));
    assert_eq!(
        requests(VeroContract::vote_batch(GUARDIAN, vec![6, 5, 6])),
        module(ModuleCall::ProcessVoteBatch(GUARDIAN, vec![6, 5, 6]))
    );
    assert_eq!(requests(VeroContract::record_failure(GUARDIAN)), module(ModuleCall::RecordFailure(GUARDIAN)));
}

#[test]
fn tasks_are_managed() {
    let module = |call: ModuleCall| {
        vec![valid(ADMIN), Request::RequireNotPaused, role(Role::TaskManager), Request::Module(call)]
    };
    assert_eq!(
        requests(VeroContract::register_task(ADMIN, 11, 3)),
        module(ModuleCall::RegisterTasks(ADMIN, [11], 3))
    );
    assert_eq!(requests(VeroContract::cancel_task(ADMIN, 11)), module(ModuleCall::CancelTask(ADMIN, 11)));
    assert_eq!(requests(VeroContract::purge_task(ADMIN, 11)), module(ModuleCall::PurgeTask(ADMIN, 11)));
    let mut expected = module(ModuleCall::ArchiveTask(11));
    expected.push(Request::Emit(Event::TaskArchived(11)));
    assert_eq!(requests(VeroContract::archive_task(ADMIN, 11)), expected);
}

#[test]
fn a_refused_archive_is_not_announced() {
    let archive = Request::Module(ModuleCall::ArchiveTask(11));
    assert_eq!(
        refused(VeroContract::archive_task(ADMIN, 11), archive, ContractError::TaskNotTerminal),
        (4, Outcome::Returned(Err(ContractError::TaskNotTerminal)))
    );
    let purge = Request::Module(ModuleCall::PurgeTask(ADMIN, 11));
    assert_eq!(
        refused(VeroContract::purge_task(ADMIN, 11), purge, ContractError::TaskNotFound),
        (4, Outcome::Returned(Err(ContractError::TaskNotFound)))
    );
}

#[test]
fn failure_reports_hand_on_the_errors_of_the_circuit_breaker() {
    for error in [
        ContractError::UnauthorizedReporter,
        ContractError::ReportRateLimited,
        ContractError::ReporterQuotaExceeded,
        ContractError::Other(99),
    ] {
        let report = Request::Module(ModuleCall::RecordFailure(GUARDIAN));
        assert_eq!(
            refused(VeroContract::record_failure(GUARDIAN), report, error),
            (2, Outcome::Returned(Err(error)))
        );
    }
}

#[test]
fn the_circuit_breaker_is_managed_while_paused() {
    assert_eq!(
        requests(VeroContract::reset_circuit_breaker(ADMIN)),
        vec![
            valid(ADMIN),
            role(Role::EmergencyManager),
            Request::Module(ModuleCall::ResetCircuitBreaker(ADMIN)),
            Request::Emit(Event::CircuitBreakerReset(ADMIN)),
        ]
    );
    assert_eq!(
        requests(VeroContract::set_trusted_reporters_only(ADMIN, true)),
        vec![
            valid(ADMIN),
            role(Role::EmergencyManager),
            Request::Module(ModuleCall::SetTrustedReportersOnly(true)),
            Request::Emit(Event::TrustedReportersOnlySet(ADMIN, true)),
        ]
    );
}

#[test]
fn calls_without_a_pause_gate_go_on_while_paused() {
    let scripts = vec![
        (VeroContract::set_trusted_reporters_only(ADMIN, false), 4),
        (VeroContract::migrate_storage(ADMIN), 3),
        (VeroContract::initialize(ADMIN, TARGET, 1, 1), 4),
        (VeroContract::vote_batch(GUARDIAN, vec![1]), 2),
        (VeroContract::upgrade_contract(ADMIN, [4; 32]), 1),
        (VeroContract::grant_role(ADMIN, TARGET, Role::Admin), 3),
        (VeroContract::revoke_role(ADMIN, TARGET, Role::Admin), 3),
    ];
    for (script, asked) in scripts {
        assert_eq!(refused(script, Request::RequireNotPaused, ContractError::Other(1)), (asked, DONE));
    }
    for script in [VeroContract::purge_task(ADMIN, 1), VeroContract::archive_task(ADMIN, 1)] {
        assert_eq!(
            refused(script, Request::RequireNotPaused, ContractError::Other(1)),
            (2, Outcome::Returned(Err(ContractError::Other(1))))
        );
    }
}

#[test]
fn recovery_is_open_while_paused() {
    assert_eq!(
        requests(VeroContract::emergency_recover(ADMIN, TARGET, 50)),
        vec![
            valid(ADMIN),
            valid(TARGET),
            role(Role::EmergencyManager),
            Request::Module(ModuleCall::EmergencyRecover(ADMIN, TARGET, 50)),
        ]
    );
    assert_eq!(
        refused(VeroContract::emergency_recover(ADMIN, TARGET, 50), Request::RequireNotPaused, ContractError::Other(1)),
        (4, DONE)
    );
}

#[test]
fn a_started_reward_stream_is_announced() {
    assert_eq!(
        requests(VeroContract::start_reward_stream(ADMIN, TARGET, GUARDIAN, 12)),
        vec![
            valid(ADMIN),
            valid(TARGET),
            valid(GUARDIAN),
            Request::RequireNotPaused,
            role(Role::TreasuryManager),
            Request::Module(ModuleCall::StartDripsStream(TARGET, GUARDIAN, 12)),
            Request::Emit(Event::RewardStreamStarted(12, GUARDIAN)),
        ]
    );
}

#[test]
fn a_failed_reward_stream_is_announced_and_refused() {
    in_contract(|env| {
        let start = Request::Module(ModuleCall::StartDripsStream(TARGET, GUARDIAN, 12));
        let (asked, end) = perform(&env, VeroContract::start_reward_stream(ADMIN, TARGET, GUARDIAN, 12), |request| {
            if *request == start {
                Err(ContractError::TaskNotFound)
            } else {
                Ok(())
            }
        });
        assert_eq!(end, Outcome::Returned(Err(ContractError::TaskNotFound)));
        assert_eq!(asked.len(), 7);
        assert_eq!(asked[6], Request::Emit(Event::RewardStreamFailed(12, GUARDIAN)));
    });
}

#[test]
fn a_stream_that_is_refused_at_a_gate_is_not_announced() {
    assert_eq!(
        refused(
            VeroContract::start_reward_stream(ADMIN, TARGET, GUARDIAN, 12),
            role(Role::TreasuryManager),
            ContractError::NotAuthorized
        ),
        (5, Outcome::Returned(Err(ContractError::NotAuthorized)))
    );
}

#[test]
fn upgrades_are_left_to_their_module() {
    let module = |call: ModuleCall| vec![Request::Module(call)];
    let hash = [4; 32];
    assert_eq!(requests(VeroContract::upgrade_contract(ADMIN, hash)), module(ModuleCall::UpgradeContract(ADMIN, hash)));
    assert_eq!(
        requests(VeroContract::set_upgrade_signers(ADMIN, vec![GUARDIAN, TARGET], 2)),
        module(ModuleCall::SetUpgradeSigners(ADMIN, vec![GUARDIAN, TARGET], 2))
    );
    assert_eq!(
        requests(VeroContract::propose_upgrade(GUARDIAN, hash)),
        module(ModuleCall::ProposeUpgrade(GUARDIAN, hash))
    );
    assert_eq!(requests(VeroContract::approve_upgrade(GUARDIAN)), module(ModuleCall::ApproveUpgrade(GUARDIAN)));
    assert_eq!(requests(VeroContract::execute_upgrade()), module(ModuleCall::ExecuteUpgrade));
    assert_eq!(requests(VeroContract::cancel_upgrade(ADMIN)), module(ModuleCall::CancelUpgrade(ADMIN)));
    assert_eq!(
        refused(VeroContract::execute_upgrade(), Request::Module(ModuleCall::ExecuteUpgrade), ContractError::Other(7)),
        (1, Outcome::Returned(Err(ContractError::Other(7))))
    );
}

#[test]
fn an_immediate_upgrade_cannot_be_refused() {
    let upgrade = Request::Module(ModuleCall::UpgradeContract(ADMIN, [4; 32]));
    let script = VeroContract::upgrade_contract(ADMIN, [4; 32]);
    assert_eq!(refused(script, upgrade, ContractError::NotAuthorized), (1, DONE));
}

#[test]
fn snapshots_are_recorded_unless_paused() {
    assert_eq!(
        requests(VeroContract::record_snapshot()),
        vec![Request::RequireNotPaused, Request::Module(ModuleCall::RecordSnapshot)]
    );
    assert_eq!(
        refused(VeroContract::record_snapshot(), Request::RequireNotPaused, ContractError::Other(2)),
        (1, Outcome::Returned(Err(ContractError::Other(2))))
    );
    let record = Request::Module(ModuleCall::RecordSnapshot);
    assert_eq!(
        refused(VeroContract::record_snapshot(), record, ContractError::SnapshotTooLarge),
        (2, Outcome::Returned(Err(ContractError::SnapshotTooLarge)))
    );
}

#[test]
fn roles_are_granted_and_revoked_between_valid_addresses() {
    let grant = ModuleCall::GrantRole(ADMIN, TARGET, Role::TaskManager);
    assert_eq!(
        requests(VeroContract::grant_role(ADMIN, TARGET, Role::TaskManager)),
        vec![valid(ADMIN), valid(TARGET), Request::Module(grant)]
    );
    let revoke = || Request::Module(ModuleCall::RevokeRole(ADMIN, TARGET, Role::Admin));
    assert_eq!(
        requests(VeroContract::revoke_role(ADMIN, TARGET, Role::Admin)),
        vec![valid(ADMIN), valid(TARGET), revoke()]
    );
    assert_eq!(
        refused(
            VeroContract::revoke_role(ADMIN, TARGET, Role::Admin),
            revoke(),
            ContractError::LastAdminRemovalBlocked
        ),
        (3, Outcome::Returned(Err(ContractError::LastAdminRemovalBlocked)))
    );
}

#[test]
fn storage_is_migrated_for_an_admin() {
    assert_eq!(
        requests(VeroContract::migrate_storage(ADMIN)),
        vec![valid(ADMIN), role(Role::Admin), Request::Module(ModuleCall::Migrate)]
    );
}

#[test]
fn every_gate_can_refuse_and_nothing_follows() {
    let script = || VeroContract::add_guardian(ADMIN, GUARDIAN);
    let gates = [valid(ADMIN), valid(GUARDIAN), Request::RequireNotPaused, role(Role::GuardianManager)];
    for (i, gate) in gates.into_iter().enumerate() {
        let error = ContractError::Other(i as u32);
        assert_eq!(refused(script(), gate, error), (i + 1, Outcome::Returned(Err(error))));
    }
}

#[test]
fn setting_the_vault_panics_instead_of_returning_an_error() {
    let script = || VeroContract::set_vault_address(ADMIN, TARGET);
    let invalid = Outcome::Panicked(Trap::Coded(ContractError::InvalidAddress));
    assert_eq!(refused(script(), valid(ADMIN), ContractError::Other(3)), (1, invalid));
    assert_eq!(refused(script(), valid(TARGET), ContractError::Other(3)), (2, invalid));
    assert_eq!(
        refused(script(), Request::RequireNotPaused, ContractError::Other(3)),
        (3, Outcome::Panicked(Trap::Unwrapped(ContractError::Other(3))))
    );
    assert_eq!(
        refused(script(), role(Role::ConfigManager), ContractError::NotAuthorized),
        (4, Outcome::Panicked(Trap::Coded(ContractError::NotAuthorized)))
    );
}

#[test]
fn the_answer_to_an_event_makes_no_difference() {
    let event = Request::Emit(Event::GuardianAdded(ADMIN, GUARDIAN));
    assert_eq!(refused(VeroContract::add_guardian(ADMIN, GUARDIAN), event, ContractError::Other(4)), (6, DONE));
}

#[test]
fn an_ended_call_stays_ended() {
    in_contract(|mut env| {
        let (mut invocation, progress) = Invocation::start(VeroContract::execute_upgrade(), &mut env);
        assert_eq!(progress, Progress::Asked(Request::Module(ModuleCall::ExecuteUpgrade)));
        let end = Progress::Ended(Outcome::Returned(Err(ContractError::NotAuthorized)));
        assert_eq!(invocation.resume(&mut env, Err(ContractError::NotAuthorized)), end);
        assert_eq!(invocation.resume(&mut env, Ok(())), end);
        assert_eq!(invocation.resume(&mut env, Err(ContractError::InvalidAddress)), end);
    });
}
