//! The settings that the contract keeps in its instance storage, by key and by type.
use soroban_sdk::Env;
use vstd::prelude::*;

use crate::storage;
use crate::storage::{extended_ttl, instance, instance_ttl, is_symbol, max_ttl, Part, Value};
use crate::types::{Address, Role};

verus! {

/// For how many ledgers the instance is kept alive from its initialization on.
pub const INSTANCE_TTL: u32 = 100_000;

/// The keys of the contract's instance storage.
#[derive(Clone, Copy, Debug, PartialEq, Eq)]
pub enum DataKey {
    Initialized,
    Admin,
    TokenAddress,
    LockThreshold,
    Paused,
    WeightThreshold,
    VaultAddress,
    FeeBps,
    TreasuryAddress,
    AllSnapshots,
    Snapshot(u64),
    WithdrawalTimelock(Address),
    RoleAssignment(Address, Role),
}

/// A setting to be stored: a key with a value of the type that belongs under it.
#[derive(Clone, Copy, Debug, PartialEq, Eq)]
pub enum Entry {
    Initialized(bool),
    Admin(Address),
    TokenAddress(Address),
    LockThreshold(i128),
    Paused(bool),
    WeightThreshold(u64),
    VaultAddress(Address),
    FeeBps(u32),
    TreasuryAddress(Address),
    RoleAssignment(Address, Role, bool),
}

/// What the contract's instance holds, and how long it lives.
pub struct Ledger {
    pub entries: Map<Seq<Part>, Value>,
    pub ttl: u32,
    pub max_ttl: u32,
}

/// The ledger as seen through a handle on the host.
pub open spec fn ledger_of(env: Env) -> Ledger {
    Ledger { entries: instance(env), ttl: instance_ttl(env), max_ttl: max_ttl(env) }
}

impl Role {
    pub open spec fn name(self) -> Seq<char> {
        match self {
            Role::Admin => "Admin"@,
            Role::EmergencyManager => "EmergencyManager"@,
            Role::GuardianManager => "GuardianManager"@,
            Role::ConfigManager => "ConfigManager"@,
            Role::TaskManager => "TaskManager"@,
            Role::TreasuryManager => "TreasuryManager"@,
        }
    }

    fn symbol(self) -> (r: &'static str)
        ensures
            r@ == self.name(),
            is_symbol(r@),
    {
        match self {
            Role::Admin => {
                proof { reveal_strlit("Admin"); }
                "Admin"
            },
            Role::EmergencyManager => {
                proof { reveal_strlit("EmergencyManager"); }
                "EmergencyManager"
            },
            Role::GuardianManager => {
                proof { reveal_strlit("GuardianManager"); }
                "GuardianManager"
            },
            Role::ConfigManager => {
                proof { reveal_strlit("ConfigManager"); }
                "ConfigManager"
            },
            Role::TaskManager => {
                proof { reveal_strlit("TaskManager"); }
                "TaskManager"
            },
            Role::TreasuryManager => {
                proof { reveal_strlit("TreasuryManager"); }
                "TreasuryManager"
            },
        }
    }
}

impl DataKey {
    /// The symbol that the key starts with.
    pub open spec fn name(self) -> Seq<char> {
        match self {
            DataKey::Initialized => "Initialized"@,
            DataKey::Admin => "Admin"@,
            DataKey::TokenAddress => "TokenAddress"@,
            DataKey::LockThreshold => "LockThreshold"@,
            DataKey::Paused => "Paused"@,
            DataKey::WeightThreshold => "WeightThreshold"@,
            DataKey::VaultAddress => "VaultAddress"@,
            DataKey::FeeBps => "FeeBps"@,
            DataKey::TreasuryAddress => "TreasuryAddress"@,
            DataKey::AllSnapshots => "AllSnapshots"@,
            DataKey::Snapshot(_) => "Snapshot"@,
            DataKey::WithdrawalTimelock(_) => "WithdrawalTimelock"@,
            DataKey::RoleAssignment(_, _) => "RoleAssignment"@,
        }
    }

    /// The key as it stands in storage.
    pub open spec fn parts(self) -> Seq<Part> {
        match self {
            DataKey::Snapshot(time) => seq![Part::Symbol(self.name()), Part::Number(time)],
            DataKey::WithdrawalTimelock(guardian) => seq![Part::Symbol(self.name()), Part::Account(guardian)],
            DataKey::RoleAssignment(holder, role) => seq![
                Part::Symbol(self.name()),
                Part::Account(holder),
                Part::Variant(role.name()),
            ],
            _ => seq![Part::Symbol(self.name())],
        }
    }

    pub(crate) fn symbol(self) -> (r: &'static str)
        ensures
            r@ == self.name(),
            is_symbol(r@),
    {
        match self {
            DataKey::Initialized => {
                proof { reveal_strlit("Initialized"); }
                "Initialized"
            },
            DataKey::Admin => {
                proof { reveal_strlit("Admin"); }
                "Admin"
            },
            DataKey::TokenAddress => {
                proof { reveal_strlit("TokenAddress"); }
                "TokenAddress"
            },
            DataKey::LockThreshold => {
                proof { reveal_strlit("LockThreshold"); }
                "LockThreshold"
            },
            DataKey::Paused => {
                proof { reveal_strlit("Paused"); }
                "Paused"
            },
            DataKey::WeightThreshold => {
                proof { reveal_strlit("WeightThreshold"); }
                "WeightThreshold"
            },
            DataKey::VaultAddress => {
                proof { reveal_strlit("VaultAddress"); }
                "VaultAddress"
            },
            DataKey::FeeBps => {
                proof { reveal_strlit("FeeBps"); }
                "FeeBps"
            },
            DataKey::TreasuryAddress => {
                proof { reveal_strlit("TreasuryAddress"); }
                "TreasuryAddress"
            },
            DataKey::AllSnapshots => {
                proof { reveal_strlit("AllSnapshots"); }
                "AllSnapshots"
            },
            DataKey::Snapshot(_) => {
                proof { reveal_strlit("Snapshot"); }
                "Snapshot"
            },
            DataKey::WithdrawalTimelock(_) => {
                proof { reveal_strlit("WithdrawalTimelock"); }
                "WithdrawalTimelock"
            },
            DataKey::RoleAssignment(_, _) => {
                proof { reveal_strlit("RoleAssignment"); }
                "RoleAssignment"
            },
        }
    }
}

impl Entry {
    pub open spec fn key(self) -> DataKey {
        match self {
            Entry::Initialized(_) => DataKey::Initialized,
            Entry::Admin(_) => DataKey::Admin,
            Entry::TokenAddress(_) => DataKey::TokenAddress,
            Entry::LockThreshold(_) => DataKey::LockThreshold,
            Entry::Paused(_) => DataKey::Paused,
            Entry::WeightThreshold(_) => DataKey::WeightThreshold,
            Entry::VaultAddress(_) => DataKey::VaultAddress,
            Entry::FeeBps(_) => DataKey::FeeBps,
            Entry::TreasuryAddress(_) => DataKey::TreasuryAddress,
            Entry::RoleAssignment(holder, role, _) => DataKey::RoleAssignment(holder, role),
        }
    }

    pub open spec fn value(self) -> Value {
        match self {
            Entry::Initialized(done) => Value::Flag(done),
            Entry::Admin(address) => Value::Account(address),
            Entry::TokenAddress(address) => Value::Account(address),
            Entry::LockThreshold(amount) => Value::Amount(amount),
            Entry::Paused(paused) => Value::Flag(paused),
            Entry::WeightThreshold(weight) => Value::Count(weight),
            Entry::VaultAddress(address) => Value::Account(address),
            Entry::FeeBps(bps) => Value::Rate(bps),
            Entry::TreasuryAddress(address) => Value::Account(address),
            Entry::RoleAssignment(_, _, held) => Value::Flag(held),
        }
    }
}

impl Ledger {
    /// What is stored under the key.
    pub open spec fn at(self, key: DataKey) -> Option<Value> {
        self.entries.get(key.parts())
    }

    /// The ledger once the setting has been stored.
    pub open spec fn save(self, entry: Entry) -> Ledger {
        Ledger { entries: self.entries.insert(entry.key().parts(), entry.value()), ..self }
    }

    /// The ledger once the instance has been kept alive.
    pub open spec fn keep_alive(self) -> Ledger {
        Ledger { ttl: extended_ttl(self.ttl, self.max_ttl, INSTANCE_TTL, INSTANCE_TTL), ..self }
    }
}

/// Stores the setting.
pub(crate) fn save(env: &mut Env, entry: Entry)
    ensures
        ledger_of(*final(env)) == ledger_of(*old(env)).save(entry),
{
    match entry {
        Entry::Initialized(done) => storage::set_flag(env, DataKey::Initialized.symbol(), done),
        Entry::Admin(address) => storage::set_account(env, DataKey::Admin.symbol(), address),
        Entry::TokenAddress(address) => storage::set_account(env, DataKey::TokenAddress.symbol(), address),
        Entry::LockThreshold(amount) => storage::set_amount(env, DataKey::LockThreshold.symbol(), amount),
        Entry::Paused(paused) => storage::set_flag(env, DataKey::Paused.symbol(), paused),
        Entry::WeightThreshold(weight) => storage::set_count(env, DataKey::WeightThreshold.symbol(), weight),
        Entry::VaultAddress(address) => storage::set_account(env, DataKey::VaultAddress.symbol(), address),
        Entry::FeeBps(bps) => storage::set_rate(env, DataKey::FeeBps.symbol(), bps),
        Entry::TreasuryAddress(address) => storage::set_account(env, DataKey::TreasuryAddress.symbol(), address),
        Entry::RoleAssignment(holder, role, held) => storage::set_flag_of(
            env,
            DataKey::RoleAssignment(holder, role).symbol(),
            holder,
            role.symbol(),
            held,
        ),
    }
}

/// Keeps the contract instance alive.
pub(crate) fn keep_alive(env: &mut Env)
    ensures
        ledger_of(*final(env)) == ledger_of(*old(env)).keep_alive(),
{
    storage::extend_ttl(env, INSTANCE_TTL, INSTANCE_TTL);
}

/// No two keys share an entry: what is stored under one is never read or overwritten under another.
pub proof fn law_keys_never_collide(a: DataKey, b: DataKey)
    ensures
        a.parts() == b.parts() ==> a == b,
{
    reveal_strlit("Initialized");
    reveal_strlit("Admin");
    reveal_strlit("TokenAddress");
    reveal_strlit("LockThreshold");
    reveal_strlit("Paused");
    reveal_strlit("WeightThreshold");
    reveal_strlit("VaultAddress");
    reveal_strlit("FeeBps");
    reveal_strlit("TreasuryAddress");
    reveal_strlit("AllSnapshots");
    reveal_strlit("Snapshot");
    reveal_strlit("WithdrawalTimelock");
    reveal_strlit("RoleAssignment");
    reveal_strlit("EmergencyManager");
    reveal_strlit("GuardianManager");
    reveal_strlit("ConfigManager");
    reveal_strlit("TaskManager");
    reveal_strlit("TreasuryManager");
    if a.parts() == b.parts() {
        assert(a.parts()[0] == b.parts()[0]);
        assert(a.name().len() == b.name().len() && a.name()[0] == b.name()[0]);
        if a is RoleAssignment && b is RoleAssignment {
            assert(a.parts()[1] == b.parts()[1]);
            assert(a.parts()[2] == b.parts()[2]);
            let (m, n) = (a->RoleAssignment_1.name(), b->RoleAssignment_1.name());
            assert(m.len() == n.len() && m[0] == n[0]);
        }
        if a is Snapshot && b is Snapshot {
            assert(a.parts()[1] == b.parts()[1]);
        }
        if a is WithdrawalTimelock && b is WithdrawalTimelock {
            assert(a.parts()[1] == b.parts()[1]);
        }
    }
}

/// A setting that has been stored reads back as it was stored, and every other setting reads as
/// before.
pub proof fn law_setting_reads_back(ledger: Ledger, entry: Entry, key: DataKey)
    ensures
        ledger.save(entry).at(key) == if key == entry.key() { Some(entry.value()) } else { ledger.at(key) },
{
    law_keys_never_collide(key, entry.key());
}

} // verus!
