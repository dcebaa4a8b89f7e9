//! The contract's entry points.
//!
//! An entry point that acts is a script, to be carried out by an `Invocation`. One that only reads
//! a setting reads it at once. Where a value of another type is stored than belongs under the
//! setting's key, it hands back the panic that has to follow. It reads what the host holds as seen
//! through the caller's handle, which has to be the only one: whatever may have changed the host,
//! the answer to a request of an `Invocation` among it, has to have taken that handle by `&mut`.
use soroban_sdk::Env;
use vstd::prelude::*;

use crate::invocation::Trap;
use crate::ledger::{ledger_of, DataKey, Entry, Ledger};
use crate::plans;
use crate::plans::MAX_FEE_BPS;
use crate::script::{Refusal, Script, Step};
use crate::storage;
use crate::storage::{as_account, as_count, as_flag, as_list, elements, xdr_of, Element, Value};
use crate::types::{Address, BatchCall, ContractError, Event, Item, ModuleCall, Request, Role};

verus! {

/// The Vero Core contract: voting, tasks, reputation, token locks and upgrades.
pub struct VeroContract;

/// The admin that a ledger names.
pub open spec fn admin_in(ledger: Ledger) -> Result<Option<Address>, Trap> {
    match as_account(ledger.at(DataKey::Admin)) {
        Some(admin) => Ok(admin),
        None => Err(Trap::ForeignValue),
    }
}

/// Whether a ledger counts as that of a paused contract.
pub open spec fn paused_in(ledger: Ledger) -> Result<bool, Trap> {
    match as_flag(ledger.at(DataKey::Paused)) {
        Some(Some(paused)) => Ok(paused),
        Some(None) => Ok(false),
        None => Err(Trap::ForeignValue),
    }
}

/// The weight that a ledger asks of a task.
pub open spec fn weight_threshold_in(ledger: Ledger, default: u64) -> Result<u64, Trap> {
    match as_count(ledger.at(DataKey::WeightThreshold)) {
        Some(Some(threshold)) => Ok(threshold),
        Some(None) => Ok(default),
        None => Err(Trap::ForeignValue),
    }
}

/// The snapshot history in a ledger.
pub open spec fn history_in(ledger: Ledger) -> Result<Seq<Element>, Trap> {
    match as_list(ledger.at(DataKey::AllSnapshots)) {
        Some(Some(list)) => Ok(list),
        Some(None) => Ok(seq![]),
        None => Err(Trap::ForeignValue),
    }
}

/// The snapshot of a time in a ledger, serialized.
pub open spec fn snapshot_in(ledger: Ledger, timestamp: u64) -> Result<Seq<u8>, ContractError> {
    match ledger.at(DataKey::Snapshot(timestamp)) {
        Some(snapshot) => Ok(xdr_of(snapshot)),
        None => Err(ContractError::SnapshotNotFound),
    }
}

/// When the withdrawal of a guardian is due by a ledger.
pub open spec fn withdrawal_timelock_in(ledger: Ledger, guardian: Address) -> Result<Option<u64>, Trap> {
    match as_count(ledger.at(DataKey::WithdrawalTimelock(guardian))) {
        Some(time) => Ok(time),
        None => Err(Trap::ForeignValue),
    }
}

impl VeroContract {
    /// Initializes the contract with its admin, the token to be locked and the least amount to lock.
    ///
    /// Refused with `AlreadyInitialized` if the contract has been initialized before. Stores the
    /// settings, clears the pause flag, grants the admin the `Admin` role, records the storage
    /// version and keeps the instance alive.
    pub fn initialize(admin: Address, token: Address, lock_threshold: i128, version: u32) -> (script: Script)
        ensures
            script@ == plans::initialize(admin, token, lock_threshold, version).script(),
    {
        let mut script = Script::new();
        script.validate_address(admin);
        script.validate_address(token);
        script.push(Step::RefuseIfInitialized);
        script.save(Entry::Initialized(true));
        script.save(Entry::Admin(admin));
        script.save(Entry::TokenAddress(token));
        script.save(Entry::LockThreshold(lock_threshold));
        script.save(Entry::Paused(false));
        script.save(Entry::RoleAssignment(admin, Role::Admin, true));
        script.tell(ModuleCall::SetVersion(version));
        script.push(Step::KeepAlive);
        script.emit(Event::ContractInitialized(admin));
        script
    }

    /// Inverts the pause flag, for an `EmergencyManager`.
    pub fn toggle_pause(admin: Address) -> (script: Script)
        ensures
            script@ == plans::toggle_pause(admin).script(),
    {
        let mut script = Script::new();
        script.validate_address(admin);
        script.require_role(admin, Role::EmergencyManager);
        script.push(Step::TogglePause);
        script
    }

    /// Pauses the contract, for an `EmergencyManager`.
    pub fn pause(admin: Address) -> (script: Script)
        ensures
            script@ == plans::pause(admin).script(),
    {
        let mut script = Script::new();
        script.validate_address(admin);
        script.require_role(admin, Role::EmergencyManager);
        script.save(Entry::Paused(true));
        script.emit(Event::PauseToggled(true));
        script
    }

    /// Ends the pause, for an `EmergencyManager`.
    pub fn unpause(admin: Address) -> (script: Script)
        ensures
            script@ == plans::unpause(admin).script(),
    {
        let mut script = Script::new();
        script.validate_address(admin);
        script.require_role(admin, Role::EmergencyManager);
        script.save(Entry::Paused(false));
        script.emit(Event::PauseToggled(false));
        script
    }

    /// Adds a guardian, for a `GuardianManager`.
    pub fn add_guardian(admin: Address, guardian: Address) -> (script: Script)
        ensures
            script@ == plans::add_guardian(admin, guardian).script(),
    {
        let mut script = Script::new();
        script.validate_address(admin);
        script.validate_address(guardian);
        script.require_not_paused();
        script.require_role(admin, Role::GuardianManager);
        script.call(ModuleCall::AddGuardian(admin, guardian));
        script.emit(Event::GuardianAdded(admin, guardian));
        script
    }

    /// Removes a guardian, for a `GuardianManager`.
    pub fn remove_guardian(admin: Address, guardian: Address) -> (script: Script)
        ensures
            script@ == plans::remove_guardian(admin, guardian).script(),
    {
        let mut script = Script::new();
        script.validate_address(admin);
        script.validate_address(guardian);
        script.require_not_paused();
        script.require_role(admin, Role::GuardianManager);
        script.call(ModuleCall::RemoveGuardian(admin, guardian));
        script.emit(Event::GuardianRemoved(admin, guardian));
        script
    }

    /// Sets a guardian's reputation score, for a `GuardianManager`.
    pub fn set_reputation(admin: Address, guardian: Address, score: u64) -> (script: Script)
        ensures
            script@ == plans::set_reputation(admin, guardian, score).script(),
    {
        let mut script = Script::new();
        script.validate_address(admin);
        script.validate_address(guardian);
        script.require_not_paused();
        script.require_role(admin, Role::GuardianManager);
        script.call(ModuleCall::SetReputation(admin, guardian, score));
        script.emit(Event::ReputationSet(admin, guardian, score));
        script
    }

    /// Locks an amount of a guardian's tokens.
    pub fn lock_tokens(guardian: Address, amount: i128) -> (script: Script)
        ensures
            script@ == plans::lock_tokens(guardian, amount).script(),
    {
        let mut script = Script::new();
        script.validate_address(guardian);
        script.call(ModuleCall::LockTokens(guardian, amount));
        script
    }

    /// Starts the timelock after which a guardian can withdraw.
    pub fn request_unlock(guardian: Address) -> (script: Script)
        ensures
            script@ == plans::request_unlock(guardian).script(),
    {
        let mut script = Script::new();
        script.validate_address(guardian);
        script.call(ModuleCall::RequestUnlock(guardian));
        script
    }

    /// Withdraws a guardian's tokens once the timelock has passed.
    pub fn unlock_tokens(guardian: Address) -> (script: Script)
        ensures
            script@ == plans::unlock_tokens(guardian).script(),
    {
        let mut script = Script::new();
        script.validate_address(guardian);
        script.call(ModuleCall::UnlockTokens(guardian));
        script
    }

    /// Sends tokens of the contract to a recipient, for an `EmergencyManager`.
    ///
    /// The recovery of last resort: it is open while the contract is paused.
    pub fn emergency_recover(admin: Address, recipient: Address, amount: i128) -> (script: Script)
        ensures
            script@ == plans::emergency_recover(admin, recipient, amount).script(),
    {
        let mut script = Script::new();
        script.validate_address(admin);
        script.validate_address(recipient);
        script.require_role(admin, Role::EmergencyManager);
        script.call(ModuleCall::EmergencyRecover(admin, recipient, amount));
        script
    }

    /// Ends a guardian's service and returns its tokens.
    pub fn resign_guardian(guardian: Address) -> (script: Script)
        ensures
            script@ == plans::resign_guardian(guardian).script(),
    {
        let mut script = Script::new();
        script.validate_address(guardian);
        script.call(ModuleCall::ResignGuardian(guardian));
        script
    }

    /// Sets the weight that a task needs, for a `ConfigManager`.
    pub fn set_weight_threshold(admin: Address, threshold: u64) -> (script: Script)
        ensures
            script@ == plans::set_weight_threshold(admin, threshold).script(),
    {
        let mut script = Script::new();
        script.validate_address(admin);
        script.require_not_paused();
        script.require_role(admin, Role::ConfigManager);
        script.save(Entry::WeightThreshold(threshold));
        script.emit(Event::ThresholdSet(admin, threshold));
        script
    }

    /// Sets the vault that payouts come from, for a `ConfigManager`.
    ///
    /// Returns no error: it panics with `InvalidAddress` where an address is not valid, by unwrapping
    /// the error where the contract is paused, and with the error where the role is lacking.
    pub fn set_vault_address(admin: Address, vault: Address) -> (script: Script)
        ensures
            script@ == plans::set_vault_address(admin, vault).script(),
    {
        let mut script = Script::new();
        script.push(
            Step::Ask(Request::ValidateAddress(admin), Refusal::PanicWith(ContractError::InvalidAddress)),
        );
        script.push(
            Step::Ask(Request::ValidateAddress(vault), Refusal::PanicWith(ContractError::InvalidAddress)),
        );
        script.push(Step::Ask(Request::RequireNotPaused, Refusal::Unwrap));
        script.push(Step::Ask(Request::RequireRole(admin, Role::ConfigManager), Refusal::Panic));
        script.save(Entry::VaultAddress(vault));
        script.emit(Event::VaultSet(admin, vault));
        script
    }

    /// Sets the fee in basis points, for a `ConfigManager`.
    ///
    /// Refused with `InvalidConfig` above `MAX_FEE_BPS`.
    pub fn set_fee_bps(admin: Address, bps: u32) -> (script: Script)
        ensures
            script@ == plans::set_fee_bps(admin, bps).script(),
    {
        let mut script = Script::new();
        script.validate_address(admin);
        script.require_not_paused();
        script.require_role(admin, Role::ConfigManager);
        if bps > MAX_FEE_BPS {
            script.push(Step::Refuse(ContractError::InvalidConfig));
        } else {
            script.save(Entry::FeeBps(bps));
        }
        script
    }

    /// Sets the treasury that collects the fees, for a `ConfigManager`.
    pub fn set_treasury_address(admin: Address, treasury: Address) -> (script: Script)
        ensures
            script@ == plans::set_treasury_address(admin, treasury).script(),
    {
        let mut script = Script::new();
        script.validate_address(admin);
        script.validate_address(treasury);
        script.require_not_paused();
        script.require_role(admin, Role::ConfigManager);
        script.save(Entry::TreasuryAddress(treasury));
        script
    }

    /// Registers a task with the votes that it needs, for a `TaskManager`.
    pub fn register_task(admin: Address, task_id: u64, min_votes_required: u32) -> (script: Script)
        ensures
            script@ == plans::register_task(admin, task_id, min_votes_required).script(),
    {
        let mut script = Script::new();
        script.validate_address(admin);
        script.require_not_paused();
        script.require_role(admin, Role::TaskManager);
        script.call(ModuleCall::RegisterTasks(admin, [task_id], min_votes_required));
        script
    }

    /// Cancels an active task, for a `TaskManager`.
    pub fn cancel_task(admin: Address, task_id: u64) -> (script: Script)
        ensures
            script@ == plans::cancel_task(admin, task_id).script(),
    {
        let mut script = Script::new();
        script.validate_address(admin);
        script.require_not_paused();
        script.require_role(admin, Role::TaskManager);
        script.call(ModuleCall::CancelTask(admin, task_id));
        script
    }

    /// Removes a task that is done or cancelled, for a `TaskManager`.
    pub fn purge_task(admin: Address, task_id: u64) -> (script: Script)
        ensures
            script@ == plans::purge_task(admin, task_id).script(),
    {
        let mut script = Script::new();
        script.validate_address(admin);
        script.require_not_paused();
        script.require_role(admin, Role::TaskManager);
        script.call(ModuleCall::PurgeTask(admin, task_id));
        script
    }

    /// Casts a guardian's vote on a task.
    pub fn vote(guardian: Address, task_id: u64) -> (script: Script)
        ensures
            script@ == plans::vote(guardian, task_id).script(),
    {
        let mut script = Script::new();
        script.validate_address(guardian);
        script.call(ModuleCall::ProcessVote(guardian, task_id));
        script
    }

    /// Casts a guardian's votes on several tasks.
    pub fn vote_batch(guardian: Address, task_ids: Vec<u64>) -> (script: Script)
        ensures
            script@ == plans::vote_batch(guardian, task_ids).script(),
    {
        let mut script = Script::new();
        script.validate_address(guardian);
        script.call(ModuleCall::ProcessVoteBatch(guardian, task_ids));
        script
    }

    /// Moves a resolved task to the archive, for a `TaskManager`.
    pub fn archive_task(admin: Address, task_id: u64) -> (script: Script)
        ensures
            script@ == plans::archive_task(admin, task_id).script(),
    {
        let mut script = Script::new();
        script.validate_address(admin);
        script.require_not_paused();
        script.require_role(admin, Role::TaskManager);
        script.call(ModuleCall::ArchiveTask(task_id));
        script.emit(Event::TaskArchived(task_id));
        script
    }

    /// Starts the reward stream of a task for its contributor, for a `TreasuryManager`.
    ///
    /// Whether the stream could be started or not, an event says so.
    pub fn start_reward_stream(
        admin: Address,
        drips_address: Address,
        contributor: Address,
        task_id: u64,
    ) -> (script: Script)
        ensures
            script@ == plans::start_reward_stream(admin, drips_address, contributor, task_id).script(),
    {
        let mut script = Script::new();
        script.validate_address(admin);
        script.validate_address(drips_address);
        script.validate_address(contributor);
        script.require_not_paused();
        script.require_role(admin, Role::TreasuryManager);
        script.push(
            Step::AskAndReport(
                Request::Module(ModuleCall::StartDripsStream(drips_address, contributor, task_id)),
                Event::RewardStreamStarted(task_id, contributor),
                Event::RewardStreamFailed(task_id, contributor),
            ),
        );
        script
    }

    /// Reports a failure to the circuit breaker.
    pub fn record_failure(reporter: Address) -> (script: Script)
        ensures
            script@ == plans::record_failure(reporter).script(),
    {
        let mut script = Script::new();
        script.validate_address(reporter);
        script.call(ModuleCall::RecordFailure(reporter));
        script
    }

    /// Restricts failure reports to trusted monitors, or reopens them, for an `EmergencyManager`.
    pub fn set_trusted_reporters_only(admin: Address, enabled: bool) -> (script: Script)
        ensures
            script@ == plans::set_trusted_reporters_only(admin, enabled).script(),
    {
        let mut script = Script::new();
        script.validate_address(admin);
        script.require_role(admin, Role::EmergencyManager);
        script.tell(ModuleCall::SetTrustedReportersOnly(enabled));
        script.emit(Event::TrustedReportersOnlySet(admin, enabled));
        script
    }

    /// Resets the circuit breaker, for an `EmergencyManager`.
    pub fn reset_circuit_breaker(admin: Address) -> (script: Script)
        ensures
            script@ == plans::reset_circuit_breaker(admin).script(),
    {
        let mut script = Script::new();
        script.validate_address(admin);
        script.require_role(admin, Role::EmergencyManager);
        script.call(ModuleCall::ResetCircuitBreaker(admin));
        script.emit(Event::CircuitBreakerReset(admin));
        script
    }

    /// Replaces the contract's code at once.
    pub fn upgrade_contract(admin: Address, new_wasm_hash: [u8; 32]) -> (script: Script)
        ensures
            script@ == plans::upgrade_contract(admin, new_wasm_hash).script(),
    {
        let mut script = Script::new();
        script.tell(ModuleCall::UpgradeContract(admin, new_wasm_hash));
        script
    }

    /// Names the signers of upgrades and how many have to approve.
    pub fn set_upgrade_signers(admin: Address, signers: Vec<Address>, threshold: u32) -> (script: Script)
        ensures
            script@ == plans::set_upgrade_signers(admin, signers, threshold).script(),
    {
        let mut script = Script::new();
        script.call(ModuleCall::SetUpgradeSigners(admin, signers, threshold));
        script
    }

    /// Proposes new code.
    pub fn propose_upgrade(signer: Address, new_wasm_hash: [u8; 32]) -> (script: Script)
        ensures
            script@ == plans::propose_upgrade(signer, new_wasm_hash).script(),
    {
        let mut script = Script::new();
        script.call(ModuleCall::ProposeUpgrade(signer, new_wasm_hash));
        script
    }

    /// Approves the proposed code.
    pub fn approve_upgrade(signer: Address) -> (script: Script)
        ensures
            script@ == plans::approve_upgrade(signer).script(),
    {
        let mut script = Script::new();
        script.call(ModuleCall::ApproveUpgrade(signer));
        script
    }

    /// Carries out the approved upgrade.
    pub fn execute_upgrade() -> (script: Script)
        ensures
            script@ == plans::execute_upgrade().script(),
    {
        let mut script = Script::new();
        script.call(ModuleCall::ExecuteUpgrade);
        script
    }

    /// Withdraws the proposed code.
    pub fn cancel_upgrade(admin: Address) -> (script: Script)
        ensures
            script@ == plans::cancel_upgrade(admin).script(),
    {
        let mut script = Script::new();
        script.call(ModuleCall::CancelUpgrade(admin));
        script
    }

    /// Records the current state.
    pub fn record_snapshot() -> (script: Script)
        ensures
            script@ == plans::record_snapshot().script(),
    {
        let mut script = Script::new();
        script.require_not_paused();
        script.call(ModuleCall::RecordSnapshot);
        script
    }

    /// Grants a role.
    pub fn grant_role(caller: Address, target: Address, role: Role) -> (script: Script)
        ensures
            script@ == plans::grant_role(caller, target, role).script(),
    {
        let mut script = Script::new();
        script.validate_address(caller);
        script.validate_address(target);
        script.call(ModuleCall::GrantRole(caller, target, role));
        script
    }

    /// Revokes a role.
    pub fn revoke_role(caller: Address, target: Address, role: Role) -> (script: Script)
        ensures
            script@ == plans::revoke_role(caller, target, role).script(),
    {
        let mut script = Script::new();
        script.validate_address(caller);
        script.validate_address(target);
        script.call(ModuleCall::RevokeRole(caller, target, role));
        script
    }

    /// Brings the storage schema to the latest version, for an `Admin`.
    pub fn migrate_storage(admin: Address) -> (script: Script)
        ensures
            script@ == plans::migrate_storage(admin).script(),
    {
        let mut script = Script::new();
        script.validate_address(admin);
        script.require_role(admin, Role::Admin);
        script.call(ModuleCall::Migrate);
        script
    }

    /// The admin, if one is set.
    pub fn get_admin(env: &Env) -> (r: Result<Option<Address>, Trap>)
        ensures
            r == match as_account(ledger_of(*env).at(DataKey::Admin)) {
                Some(admin) => Ok(admin),
                None => Err(Trap::ForeignValue),
            },
            r == admin_in(ledger_of(*env)),
    {
        match storage::get_account(env, DataKey::Admin.symbol()) {
            Ok(admin) => Ok(admin),
            Err(_) => Err(Trap::ForeignValue),
        }
    }

    /// Whether the contract is paused: the pause flag, or `false` where none is stored.
    pub fn is_paused(env: &Env) -> (r: Result<bool, Trap>)
        ensures
            r == match as_flag(ledger_of(*env).at(DataKey::Paused)) {
                Some(Some(paused)) => Ok(paused),
                Some(None) => Ok(false),
                None => Err(Trap::ForeignValue),
            },
            r == paused_in(ledger_of(*env)),
    {
        match storage::get_flag(env, DataKey::Paused.symbol()) {
            Ok(Some(paused)) => Ok(paused),
            Ok(None) => Ok(false),
            Err(_) => Err(Trap::ForeignValue),
        }
    }

    /// The weight that a task needs: the stored one, or the default where none is stored.
    pub fn get_weight_threshold(env: &Env, default: u64) -> (r: Result<u64, Trap>)
        ensures
            r == match as_count(ledger_of(*env).at(DataKey::WeightThreshold)) {
                Some(Some(threshold)) => Ok(threshold),
                Some(None) => Ok(default),
                None => Err(Trap::ForeignValue),
            },
            r == weight_threshold_in(ledger_of(*env), default),
    {
        match storage::get_count(env, DataKey::WeightThreshold.symbol()) {
            Ok(Some(threshold)) => Ok(threshold),
            Ok(None) => Ok(default),
            Err(_) => Err(Trap::ForeignValue),
        }
    }

    /// The times at which snapshots were recorded: the stored list as it is, or an empty one. An item
    /// that is no time is handed out with the others.
    pub fn get_snapshot_history(env: &Env) -> (r: Result<Vec<Item>, Trap>)
        ensures
            match as_list(ledger_of(*env).at(DataKey::AllSnapshots)) {
                Some(Some(list)) => r matches Ok(history) && elements(history@) == list,
                Some(None) => r matches Ok(history) && history@ == Seq::<Item>::empty(),
                None => r == Err::<Vec<Item>, Trap>(Trap::ForeignValue),
            },
            r matches Ok(history) ==> history_in(ledger_of(*env)) == Ok::<Seq<Element>, Trap>(elements(history@)),
            r matches Err(trap) ==> history_in(ledger_of(*env)) == Err::<Seq<Element>, Trap>(trap),
    {
        match storage::get_list(env, DataKey::AllSnapshots.symbol()) {
            Ok(Some(history)) => Ok(history),
            Ok(None) => {
                let history: Vec<Item> = Vec::new();
                assert(elements(history@) == Seq::<Element>::empty());
                Ok(history)
            },
            Err(_) => Err(Trap::ForeignValue),
        }
    }

    /// The snapshot that was recorded at the given time, serialized. Refused with
    /// `SnapshotNotFound` if there is none.
    pub fn get_snapshot_at(env: &Env, timestamp: u64) -> (r: Result<Vec<u8>, ContractError>)
        ensures
            match ledger_of(*env).at(DataKey::Snapshot(timestamp)) {
                Some(Value::Other(serialized)) => r matches Ok(bytes) && bytes@ == serialized && bytes@ == xdr_of(
                    Value::Other(serialized),
                ),
                Some(other) => r matches Ok(bytes) && bytes@ == xdr_of(other),
                None => r == Err::<Vec<u8>, ContractError>(ContractError::SnapshotNotFound),
            },
            r matches Ok(bytes) ==> snapshot_in(ledger_of(*env), timestamp) == Ok::<Seq<u8>, ContractError>(bytes@),
            r matches Err(error) ==> snapshot_in(ledger_of(*env), timestamp) == Err::<Seq<u8>, ContractError>(error),
    {
        match storage::get_xdr_at(env, DataKey::Snapshot(timestamp).symbol(), timestamp) {
            Some(bytes) => Ok(bytes),
            None => Err(ContractError::SnapshotNotFound),
        }
    }

    /// When a guardian's withdrawal is due, if one was requested.
    pub fn get_withdrawal_timelock(env: &Env, guardian: Address) -> (r: Result<Option<u64>, Trap>)
        ensures
            r == match as_count(ledger_of(*env).at(DataKey::WithdrawalTimelock(guardian))) {
                Some(time) => Ok(time),
                None => Err(Trap::ForeignValue),
            },
            r == withdrawal_timelock_in(ledger_of(*env), guardian),
    {
        match storage::get_count_of(env, DataKey::WithdrawalTimelock(guardian).symbol(), guardian) {
            Ok(time) => Ok(time),
            Err(_) => Err(Trap::ForeignValue),
        }
    }

    /// Carries out several calls, one after the other, and stops at the first that fails.
    pub fn batch_execute(calls: Vec<BatchCall>) -> (script: Script)
        ensures
            script@ == plans::batch(calls@),
    {
        let ghost all = calls@;
        let mut script = Script::new();
        for call in iter: calls
            invariant
                iter.seq() == all,
                script@ == plans::batch(all.take(iter.index() as int)),
        {
            proof {
                let done = all.take(iter.index() + 1);
                assert(done.drop_last() == all.take(iter.index() as int));
                assert(done.last() == call);
            }
            script.append(Self::batched(call));
        }
        assert(all.take(all.len() as int) == all);
        script
    }

    /// The entry point that a call in a batch names.
    fn batched(call: BatchCall) -> (script: Script)
        ensures
            script@ == plans::batched(call).script(),
    {
        match call {
            BatchCall::RegisterTask(admin, task_id, min_votes_required) => Self::register_task(
                admin,
                task_id,
                min_votes_required,
            ),
            BatchCall::CancelTask(admin, task_id) => Self::cancel_task(admin, task_id),
            BatchCall::Vote(guardian, task_id) => Self::vote(guardian, task_id),
            BatchCall::AddGuardian(admin, guardian) => Self::add_guardian(admin, guardian),
            BatchCall::RemoveGuardian(admin, guardian) => Self::remove_guardian(admin, guardian),
            BatchCall::SetReputation(admin, guardian, score) => Self::set_reputation(admin, guardian, score),
            BatchCall::LockTokens(guardian, amount) => Self::lock_tokens(guardian, amount),
            BatchCall::RequestUnlock(guardian) => Self::request_unlock(guardian),
            BatchCall::UnlockTokens(guardian) => Self::unlock_tokens(guardian),
            BatchCall::ResignGuardian(guardian) => Self::resign_guardian(guardian),
            BatchCall::SetWeightThreshold(admin, threshold) => Self::set_weight_threshold(admin, threshold),
            BatchCall::SetVaultAddress(admin, vault) => Self::set_vault_address(admin, vault),
            BatchCall::SetUpgradeSigners(admin, signers, threshold) => Self::set_upgrade_signers(
                admin,
                signers,
                threshold,
            ),
            BatchCall::ProposeUpgrade(signer, hash) => Self::propose_upgrade(signer, hash),
            BatchCall::ApproveUpgrade(signer) => Self::approve_upgrade(signer),
            BatchCall::ExecuteUpgrade(_) => Self::execute_upgrade(),
            BatchCall::CancelUpgrade(admin) => Self::cancel_upgrade(admin),
            BatchCall::StartRewardStream(admin, drips, contributor, task_id) => Self::start_reward_stream(
                admin,
                drips,
                contributor,
                task_id,
            ),
            BatchCall::TogglePause(admin) => Self::toggle_pause(admin),
            BatchCall::Pause(admin) => Self::pause(admin),
            BatchCall::Unpause(admin) => Self::unpause(admin),
            BatchCall::RecordFailure(reporter) => Self::record_failure(reporter),
            BatchCall::ResetCircuitBreaker(admin) => Self::reset_circuit_breaker(admin),
            BatchCall::EmergencyRecover(admin, recipient, amount) => Self::emergency_recover(admin, recipient, amount),
            BatchCall::SetFeeBps(admin, bps) => Self::set_fee_bps(admin, bps),
            BatchCall::SetTreasuryAddress(admin, treasury) => Self::set_treasury_address(admin, treasury),
        }
    }
}

} // verus!
