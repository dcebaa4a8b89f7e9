//! The plan of every entry point: what it asks for, and what it does once that is granted.
use vstd::prelude::*;

use crate::ledger::Entry;
use crate::script::{Plan, Refusal, Step};
use crate::types::{Address, BatchCall, ContractError, Event, ModuleCall, Request, Role};

verus! {

/// The highest fee, in basis points.
pub const MAX_FEE_BPS: u32 = 1000;

/// A module's work, which can be refused.
pub open spec fn call(call: ModuleCall) -> Step {
    Step::Ask(Request::Module(call), Refusal::Return)
}

/// A module's work, which cannot be refused.
pub open spec fn tell(call: ModuleCall) -> Step {
    Step::Tell(Request::Module(call))
}

/// An event.
pub open spec fn emit(event: Event) -> Step {
    Step::Tell(Request::Emit(event))
}

/// A call that asks for nothing but a module's work.
pub open spec fn forwarded(step: Step) -> Plan {
    Plan { addresses: seq![], pausable: false, role: None, panics: false, effects: seq![step] }
}

/// A call of anyone, whose address has to be valid.
pub open spec fn open_to_all(caller: Address, effects: Seq<Step>) -> Plan {
    Plan { addresses: seq![caller], pausable: false, role: None, panics: false, effects }
}

/// A call that is refused while the contract is paused, and to all who lack the role.
pub open spec fn managed(addresses: Seq<Address>, caller: Address, role: Role, effects: Seq<Step>) -> Plan {
    Plan { addresses, pausable: true, role: Some((caller, role)), panics: false, effects }
}

/// A call that is open while the contract is paused, to those who hold the role.
pub open spec fn unpausable(addresses: Seq<Address>, caller: Address, role: Role, effects: Seq<Step>) -> Plan {
    Plan { addresses, pausable: false, role: Some((caller, role)), panics: false, effects }
}

pub open spec fn initialize(admin: Address, token: Address, lock_threshold: i128, version: u32) -> Plan {
    Plan {
        addresses: seq![admin, token],
        pausable: false,
        role: None,
        panics: false,
        effects: seq![
            Step::RefuseIfInitialized,
            Step::Save(Entry::Initialized(true)),
            Step::Save(Entry::Admin(admin)),
            Step::Save(Entry::TokenAddress(token)),
            Step::Save(Entry::LockThreshold(lock_threshold)),
            Step::Save(Entry::Paused(false)),
            Step::Save(Entry::RoleAssignment(admin, Role::Admin, true)),
            tell(ModuleCall::SetVersion(version)),
            Step::KeepAlive,
            emit(Event::ContractInitialized(admin)),
        ],
    }
}

pub open spec fn toggle_pause(admin: Address) -> Plan {
    unpausable(seq![admin], admin, Role::EmergencyManager, seq![Step::TogglePause])
}

pub open spec fn pause(admin: Address) -> Plan {
    unpausable(
        seq![admin],
        admin,
        Role::EmergencyManager,
        seq![Step::Save(Entry::Paused(true)), emit(Event::PauseToggled(true))],
    )
}

pub open spec fn unpause(admin: Address) -> Plan {
    unpausable(
        seq![admin],
        admin,
        Role::EmergencyManager,
        seq![Step::Save(Entry::Paused(false)), emit(Event::PauseToggled(false))],
    )
}

pub open spec fn add_guardian(admin: Address, guardian: Address) -> Plan {
    managed(
        seq![admin, guardian],
        admin,
        Role::GuardianManager,
        seq![call(ModuleCall::AddGuardian(admin, guardian)), emit(Event::GuardianAdded(admin, guardian))],
    )
}

pub open spec fn remove_guardian(admin: Address, guardian: Address) -> Plan {
    managed(
        seq![admin, guardian],
        admin,
        Role::GuardianManager,
        seq![call(ModuleCall::RemoveGuardian(admin, guardian)), emit(Event::GuardianRemoved(admin, guardian))],
    )
}

pub open spec fn set_reputation(admin: Address, guardian: Address, score: u64) -> Plan {
    managed(
        seq![admin, guardian],
        admin,
        Role::GuardianManager,
        seq![
            call(ModuleCall::SetReputation(admin, guardian, score)),
            emit(Event::ReputationSet(admin, guardian, score)),
        ],
    )
}

pub open spec fn lock_tokens(guardian: Address, amount: i128) -> Plan {
    open_to_all(guardian, seq![call(ModuleCall::LockTokens(guardian, amount))])
}

pub open spec fn request_unlock(guardian: Address) -> Plan {
    open_to_all(guardian, seq![call(ModuleCall::RequestUnlock(guardian))])
}

pub open spec fn unlock_tokens(guardian: Address) -> Plan {
    open_to_all(guardian, seq![call(ModuleCall::UnlockTokens(guardian))])
}

pub open spec fn emergency_recover(admin: Address, recipient: Address, amount: i128) -> Plan {
    unpausable(
        seq![admin, recipient],
        admin,
        Role::EmergencyManager,
        seq![call(ModuleCall::EmergencyRecover(admin, recipient, amount))],
    )
}

pub open spec fn resign_guardian(guardian: Address) -> Plan {
    open_to_all(guardian, seq![call(ModuleCall::ResignGuardian(guardian))])
}

pub open spec fn set_weight_threshold(admin: Address, threshold: u64) -> Plan {
    managed(
        seq![admin],
        admin,
        Role::ConfigManager,
        seq![Step::Save(Entry::WeightThreshold(threshold)), emit(Event::ThresholdSet(admin, threshold))],
    )
}

pub open spec fn set_vault_address(admin: Address, vault: Address) -> Plan {
    Plan {
        panics: true,
        ..managed(
            seq![admin, vault],
            admin,
            Role::ConfigManager,
            seq![Step::Save(Entry::VaultAddress(vault)), emit(Event::VaultSet(admin, vault))],
        )
    }
}

pub open spec fn set_fee_bps(admin: Address, bps: u32) -> Plan {
    managed(
        seq![admin],
        admin,
        Role::ConfigManager,
        if bps > MAX_FEE_BPS {
            seq![Step::Refuse(ContractError::InvalidConfig)]
        } else {
            seq![Step::Save(Entry::FeeBps(bps))]
        },
    )
}

pub open spec fn set_treasury_address(admin: Address, treasury: Address) -> Plan {
    managed(
        seq![admin, treasury],
        admin,
        Role::ConfigManager,
        seq![Step::Save(Entry::TreasuryAddress(treasury))],
    )
}

pub open spec fn register_task(admin: Address, task_id: u64, min_votes_required: u32) -> Plan {
    managed(
        seq![admin],
        admin,
        Role::TaskManager,
        seq![call(ModuleCall::RegisterTasks(admin, [task_id], min_votes_required))],
    )
}

pub open spec fn cancel_task(admin: Address, task_id: u64) -> Plan {
    managed(seq![admin], admin, Role::TaskManager, seq![call(ModuleCall::CancelTask(admin, task_id))])
}

pub open spec fn purge_task(admin: Address, task_id: u64) -> Plan {
    managed(seq![admin], admin, Role::TaskManager, seq![call(ModuleCall::PurgeTask(admin, task_id))])
}

pub open spec fn vote(guardian: Address, task_id: u64) -> Plan {
    open_to_all(guardian, seq![call(ModuleCall::ProcessVote(guardian, task_id))])
}

pub open spec fn vote_batch(guardian: Address, task_ids: Vec<u64>) -> Plan {
    open_to_all(guardian, seq![call(ModuleCall::ProcessVoteBatch(guardian, task_ids))])
}

pub open spec fn archive_task(admin: Address, task_id: u64) -> Plan {
    managed(
        seq![admin],
        admin,
        Role::TaskManager,
        seq![call(ModuleCall::ArchiveTask(task_id)), emit(Event::TaskArchived(task_id))],
    )
}

pub open spec fn start_reward_stream(
    admin: Address,
    drips_address: Address,
    contributor: Address,
    task_id: u64,
) -> Plan {
    managed(
        seq![admin, drips_address, contributor],
        admin,
        Role::TreasuryManager,
        seq![Step::AskAndReport(
            Request::Module(ModuleCall::StartDripsStream(drips_address, contributor, task_id)),
            Event::RewardStreamStarted(task_id, contributor),
            Event::RewardStreamFailed(task_id, contributor),
        )],
    )
}

pub open spec fn record_failure(reporter: Address) -> Plan {
    open_to_all(reporter, seq![call(ModuleCall::RecordFailure(reporter))])
}

pub open spec fn set_trusted_reporters_only(admin: Address, enabled: bool) -> Plan {
    unpausable(
        seq![admin],
        admin,
        Role::EmergencyManager,
        seq![
            tell(ModuleCall::SetTrustedReportersOnly(enabled)),
            emit(Event::TrustedReportersOnlySet(admin, enabled)),
        ],
    )
}

pub open spec fn reset_circuit_breaker(admin: Address) -> Plan {
    unpausable(
        seq![admin],
        admin,
        Role::EmergencyManager,
        seq![call(ModuleCall::ResetCircuitBreaker(admin)), emit(Event::CircuitBreakerReset(admin))],
    )
}

pub open spec fn upgrade_contract(admin: Address, new_wasm_hash: [u8; 32]) -> Plan {
    forwarded(tell(ModuleCall::UpgradeContract(admin, new_wasm_hash)))
}

pub open spec fn set_upgrade_signers(admin: Address, signers: Vec<Address>, threshold: u32) -> Plan {
    forwarded(call(ModuleCall::SetUpgradeSigners(admin, signers, threshold)))
}

pub open spec fn propose_upgrade(signer: Address, new_wasm_hash: [u8; 32]) -> Plan {
    forwarded(call(ModuleCall::ProposeUpgrade(signer, new_wasm_hash)))
}

pub open spec fn approve_upgrade(signer: Address) -> Plan {
    forwarded(call(ModuleCall::ApproveUpgrade(signer)))
}

pub open spec fn execute_upgrade() -> Plan {
    forwarded(call(ModuleCall::ExecuteUpgrade))
}

pub open spec fn cancel_upgrade(admin: Address) -> Plan {
    forwarded(call(ModuleCall::CancelUpgrade(admin)))
}

pub open spec fn record_snapshot() -> Plan {
    Plan { pausable: true, ..forwarded(call(ModuleCall::RecordSnapshot)) }
}

pub open spec fn grant_role(caller: Address, target: Address, role: Role) -> Plan {
    Plan { addresses: seq![caller, target], ..forwarded(call(ModuleCall::GrantRole(caller, target, role))) }
}

pub open spec fn revoke_role(caller: Address, target: Address, role: Role) -> Plan {
    Plan { addresses: seq![caller, target], ..forwarded(call(ModuleCall::RevokeRole(caller, target, role))) }
}

pub open spec fn migrate_storage(admin: Address) -> Plan {
    unpausable(seq![admin], admin, Role::Admin, seq![call(ModuleCall::Migrate)])
}

/// The plan of a call in a batch: that of the entry point that the call names.
pub open spec fn batched(call: BatchCall) -> Plan {
    match call {
        BatchCall::RegisterTask(admin, task_id, min_votes) => register_task(admin, task_id, min_votes),
        BatchCall::CancelTask(admin, task_id) => cancel_task(admin, task_id),
        BatchCall::Vote(guardian, task_id) => vote(guardian, task_id),
        BatchCall::AddGuardian(admin, guardian) => add_guardian(admin, guardian),
        BatchCall::RemoveGuardian(admin, guardian) => remove_guardian(admin, guardian),
        BatchCall::SetReputation(admin, guardian, score) => set_reputation(admin, guardian, score),
        BatchCall::LockTokens(guardian, amount) => lock_tokens(guardian, amount),
        BatchCall::RequestUnlock(guardian) => request_unlock(guardian),
        BatchCall::UnlockTokens(guardian) => unlock_tokens(guardian),
        BatchCall::ResignGuardian(guardian) => resign_guardian(guardian),
        BatchCall::SetWeightThreshold(admin, threshold) => set_weight_threshold(admin, threshold),
        BatchCall::SetVaultAddress(admin, vault) => set_vault_address(admin, vault),
        BatchCall::SetUpgradeSigners(admin, signers, threshold) => set_upgrade_signers(admin, signers, threshold),
        BatchCall::ProposeUpgrade(signer, hash) => propose_upgrade(signer, hash),
        BatchCall::ApproveUpgrade(signer) => approve_upgrade(signer),
        BatchCall::ExecuteUpgrade(_) => execute_upgrade(),
        BatchCall::CancelUpgrade(admin) => cancel_upgrade(admin),
        BatchCall::StartRewardStream(admin, drips, contributor, task_id) => start_reward_stream(
            admin,
            drips,
            contributor,
            task_id,
        ),
        BatchCall::TogglePause(admin) => toggle_pause(admin),
        BatchCall::Pause(admin) => pause(admin),
        BatchCall::Unpause(admin) => unpause(admin),
        BatchCall::RecordFailure(reporter) => record_failure(reporter),
        BatchCall::ResetCircuitBreaker(admin) => reset_circuit_breaker(admin),
        BatchCall::EmergencyRecover(admin, recipient, amount) => emergency_recover(admin, recipient, amount),
        BatchCall::SetFeeBps(admin, bps) => set_fee_bps(admin, bps),
        BatchCall::SetTreasuryAddress(admin, treasury) => set_treasury_address(admin, treasury),
    }
}

/// The steps of a batch: those of its calls, one call after the other.
pub open spec fn batch(calls: Seq<BatchCall>) -> Seq<Step>
    decreases calls.len(),
{
    if calls.len() == 0 { seq![] } else { batch(calls.drop_last()) + batched(calls.last()).script() }
}

/// A call of any entry point that acts.
pub enum Call {
    Batch(Seq<BatchCall>),
    /// One of those that can stand in a batch.
    Single(BatchCall),
    Initialize(Address, Address, i128, u32),
    PurgeTask(Address, u64),
    VoteBatch(Address, Vec<u64>),
    ArchiveTask(Address, u64),
    SetTrustedReportersOnly(Address, bool),
    UpgradeContract(Address, [u8; 32]),
    RecordSnapshot,
    GrantRole(Address, Address, Role),
    RevokeRole(Address, Address, Role),
    MigrateStorage(Address),
}

/// The steps of a call.
pub open spec fn steps_of(call: Call) -> Seq<Step> {
    match call {
        Call::Batch(calls) => batch(calls),
        Call::Single(call) => batched(call).script(),
        Call::Initialize(admin, token, lock_threshold, version) => initialize(
            admin,
            token,
            lock_threshold,
            version,
        ).script(),
        Call::PurgeTask(admin, task_id) => purge_task(admin, task_id).script(),
        Call::VoteBatch(guardian, task_ids) => vote_batch(guardian, task_ids).script(),
        Call::ArchiveTask(admin, task_id) => archive_task(admin, task_id).script(),
        Call::SetTrustedReportersOnly(admin, enabled) => set_trusted_reporters_only(admin, enabled).script(),
        Call::UpgradeContract(admin, new_wasm_hash) => upgrade_contract(admin, new_wasm_hash).script(),
        Call::RecordSnapshot => record_snapshot().script(),
        Call::GrantRole(caller, target, role) => grant_role(caller, target, role).script(),
        Call::RevokeRole(caller, target, role) => revoke_role(caller, target, role).script(),
        Call::MigrateStorage(admin) => migrate_storage(admin).script(),
    }
}

} // verus!
