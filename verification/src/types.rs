//! The plain values that the contract's entry points take and hand on.
use vstd::prelude::*;

verus! {

/// A ledger address: an account, by its public key, or a contract, by its hash.
#[derive(Clone, Copy, Debug, PartialEq, Eq)]
pub enum Address {
    Account([u8; 32]),
    Contract([u8; 32]),
}

/// A role that an address can hold.
#[derive(Clone, Copy, Debug, PartialEq, Eq)]
pub enum Role {
    Admin,
    EmergencyManager,
    GuardianManager,
    ConfigManager,
    TaskManager,
    TreasuryManager,
}

/// Why an entry point refuses a call.
#[derive(Clone, Copy, Debug, PartialEq, Eq)]
pub enum ContractError {
    /// The contract has been initialized before.
    AlreadyInitialized,
    /// The caller lacks the role that the call asks for.
    NotAuthorized,
    /// An address is the zero address or the contract itself.
    InvalidAddress,
    /// A setting lies outside of its bounds.
    InvalidConfig,
    /// No snapshot was recorded at the given time.
    SnapshotNotFound,
    /// A collection is too large for a full snapshot.
    SnapshotTooLarge,
    /// There is no such task.
    TaskNotFound,
    /// The task is neither done nor cancelled.
    TaskNotTerminal,
    /// The last admin would lose the role.
    LastAdminRemovalBlocked,
    /// Only trusted monitors may report failures at present.
    UnauthorizedReporter,
    /// The reporter reported a moment ago.
    ReportRateLimited,
    /// The reporter has used up its reports for this window.
    ReporterQuotaExceeded,
    /// An error of another module that the entry points only hand on.
    Other(u32),
}

/// Something that happened, to be published.
#[derive(Clone, Copy, Debug, PartialEq, Eq)]
pub enum Event {
    /// The contract was initialized for this admin.
    ContractInitialized(Address),
    /// The contract is paused from now on, or no longer.
    PauseToggled(bool),
    /// An admin added a guardian.
    GuardianAdded(Address, Address),
    /// An admin removed a guardian.
    GuardianRemoved(Address, Address),
    /// An admin set a guardian's reputation.
    ReputationSet(Address, Address, u64),
    /// An admin set the weight threshold.
    ThresholdSet(Address, u64),
    /// An admin set the vault.
    VaultSet(Address, Address),
    /// A task was archived.
    TaskArchived(u64),
    /// The reward stream of a task was started for a contributor.
    RewardStreamStarted(u64, Address),
    /// The reward stream of a task could not be started for a contributor.
    RewardStreamFailed(u64, Address),
    /// An admin restricted failure reports to trusted monitors, or reopened them.
    TrustedReportersOnlySet(Address, bool),
    /// An admin reset the circuit breaker.
    CircuitBreakerReset(Address),
}

/// A call of one of the contract's other modules, with its arguments.
#[derive(Debug, PartialEq, Eq)]
pub enum ModuleCall {
    /// Guardians: an admin adds one.
    AddGuardian(Address, Address),
    /// Guardians: an admin removes one.
    RemoveGuardian(Address, Address),
    /// Reputation: an admin sets a guardian's score.
    SetReputation(Address, Address, u64),
    /// Token locks: a guardian locks an amount.
    LockTokens(Address, i128),
    /// Token locks: a guardian asks for a withdrawal.
    RequestUnlock(Address),
    /// Token locks: a guardian withdraws.
    UnlockTokens(Address),
    /// Token locks: an admin sends an amount to a recipient.
    EmergencyRecover(Address, Address, i128),
    /// Token locks: a guardian resigns.
    ResignGuardian(Address),
    /// Tasks: an admin registers the listed tasks, with the votes that each needs.
    RegisterTasks(Address, [u64; 1], u32),
    /// Tasks: an admin cancels one.
    CancelTask(Address, u64),
    /// Tasks: an admin purges one.
    PurgeTask(Address, u64),
    /// Tasks: one is moved to the archive.
    ArchiveTask(u64),
    /// Votes: a guardian votes on a task.
    ProcessVote(Address, u64),
    /// Votes: a guardian votes on several tasks.
    ProcessVoteBatch(Address, Vec<u64>),
    /// Rewards: the stream of a contributor for a task is started at a streaming contract.
    StartDripsStream(Address, Address, u64),
    /// Circuit breaker: a reporter has seen a failure.
    RecordFailure(Address),
    /// Circuit breaker: failure reports are restricted to trusted monitors, or reopened.
    SetTrustedReportersOnly(bool),
    /// Circuit breaker: an admin resets it.
    ResetCircuitBreaker(Address),
    /// Storage schema: its version is recorded.
    SetVersion(u32),
    /// Storage schema: it is brought to the latest version.
    Migrate,
    /// Upgrades: an admin replaces the code at once.
    UpgradeContract(Address, [u8; 32]),
    /// Upgrades: an admin names the signers and the quorum.
    SetUpgradeSigners(Address, Vec<Address>, u32),
    /// Upgrades: a signer proposes new code.
    ProposeUpgrade(Address, [u8; 32]),
    /// Upgrades: a signer approves the proposal.
    ApproveUpgrade(Address),
    /// Upgrades: the approved proposal is carried out.
    ExecuteUpgrade,
    /// Upgrades: an admin cancels the proposal.
    CancelUpgrade(Address),
    /// Snapshots: the current state is recorded.
    RecordSnapshot,
    /// Roles: a caller grants a target a role.
    GrantRole(Address, Address, Role),
    /// Roles: a caller revokes a target's role.
    RevokeRole(Address, Address, Role),
}

/// An item of a stored list.
#[derive(Clone, Debug, PartialEq, Eq)]
pub enum Item {
    Count(u64),
    /// A value of any other type, by its XDR serialization.
    Other(Vec<u8>),
}

/// What an entry point asks of the rest of the contract while it runs.
#[derive(Debug, PartialEq, Eq)]
pub enum Request {
    /// Is this an address that the contract may deal with?
    ValidateAddress(Address),
    /// Is the circuit breaker closed?
    RequireNotPaused,
    /// Has this address authorized the call, and does it hold this role?
    RequireRole(Address, Role),
    /// Carry out a module's work.
    Module(ModuleCall),
    /// Publish an event.
    Emit(Event),
}

/// A call that can stand in a batch.
#[derive(Debug, PartialEq, Eq)]
pub enum BatchCall {
    RegisterTask(Address, u64, u32),
    CancelTask(Address, u64),
    Vote(Address, u64),
    AddGuardian(Address, Address),
    RemoveGuardian(Address, Address),
    SetReputation(Address, Address, u64),
    LockTokens(Address, i128),
    RequestUnlock(Address),
    UnlockTokens(Address),
    ResignGuardian(Address),
    SetWeightThreshold(Address, u64),
    SetVaultAddress(Address, Address),
    SetUpgradeSigners(Address, Vec<Address>, u32),
    ProposeUpgrade(Address, [u8; 32]),
    ApproveUpgrade(Address),
    ExecuteUpgrade(Address),
    CancelUpgrade(Address),
    StartRewardStream(Address, Address, Address, u64),
    TogglePause(Address),
    Pause(Address),
    Unpause(Address),
    RecordFailure(Address),
    ResetCircuitBreaker(Address),
    EmergencyRecover(Address, Address, i128),
    SetFeeBps(Address, u32),
    SetTreasuryAddress(Address, Address),
}

} // verus!
