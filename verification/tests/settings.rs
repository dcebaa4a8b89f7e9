use soroban_sdk::address_payload::AddressPayload;
use soroban_sdk::testutils::storage::Instance as _;
use soroban_sdk::testutils::{ContractFunctionSet, EnvTestConfig, Ledger as _};
use soroban_sdk::xdr::ToXdr;
use soroban_sdk::{BytesN, Env, IntoVal, Symbol, Val};
use vero_core::entry::VeroContract;
use vero_core::invocation::{Invocation, Outcome, Progress, Trap};
use vero_core::ledger::INSTANCE_TTL;
use vero_core::plans::MAX_FEE_BPS;
use vero_core::script::Script;
use vero_core::types::{Address, ContractError, Event, Item, ModuleCall, Request, Role};

/// A contract without functions, whose storage is empty at first.
struct Blank;

impl ContractFunctionSet for Blank {
    fn call(&self, _: &str, _: Env, _: &[Val]) -> Option<Val> {
        None
    }
}

/// Runs the body inside of an invocation of a blank contract.
fn in_contract(body: impl FnOnce(Env)) {
    let env = Env::new_with_config(EnvTestConfig { capture_snapshot_at_drop: false });
    let id = env.register(Blank, ());
    env.as_contract(&id, || body(env.clone()));
}

/// Carries out a script, and lists its requests.
fn perform(
    env: &Env,
    script: Script,
    mut reply: impl FnMut(&Request) -> Result<(), ContractError>,
) -> (Vec<Request>, Outcome) {
    let mut env = env.clone();
    let mut asked = vec![];
    let (mut invocation, mut progress) = Invocation::start(script, &mut env);
    loop {
        match progress {
            Progress::Ended(outcome) => return (asked, outcome),
            Progress::Asked(request) => {
                let answer = reply(&request);
                asked.push(request);
                progress = invocation.resume(&mut env, answer);
            }
        }
    }
}

const ADMIN: Address = Address::Account([7; 32]);
const TOKEN: Address = Address::Contract([8; 32]);
const OTHER: Address = Address::Contract([9; 32]);
const DONE: Outcome = Outcome::Returned(Ok(()));

fn grant(_: &Request) -> Result<(), ContractError> {
    Ok(())
}

/// The SDK's form of an address.
fn sdk_address(env: &Env, address: Address) -> soroban_sdk::Address {
    let payload = match address {
        Address::Account(key) => AddressPayload::AccountIdPublicKeyEd25519(BytesN::from_array(env, &key)),
        Address::Contract(hash) => AddressPayload::ContractIdHash(BytesN::from_array(env, &hash)),
    };
    soroban_sdk::Address::from_payload(env, payload)
}

fn key(env: &Env, name: &str) -> (Symbol,) {
    (Symbol::new(env, name),)
}

fn stored_address(env: &Env, name: &str) -> Option<soroban_sdk::Address> {
    env.storage().instance().get(&key(env, name))
}

fn stored_flag(env: &Env, name: &str) -> Option<bool> {
    env.storage().instance().get(&key(env, name))
}

#[test]
fn a_new_contract_reads_as_it_was_initialized() {
    in_contract(|env| {
        assert_eq!(VeroContract::get_admin(&env), Ok(None));
        let (asked, end) = perform(&env, VeroContract::initialize(ADMIN, TOKEN, -5, 3), grant);
        assert_eq!(end, DONE);
        assert_eq!(
            asked,
            vec![
                Request::ValidateAddress(ADMIN),
                Request::ValidateAddress(TOKEN),
                Request::Module(ModuleCall::SetVersion(3)),
                Request::Emit(Event::ContractInitialized(ADMIN)),
            ]
        );
        assert_eq!(VeroContract::get_admin(&env), Ok(Some(ADMIN)));
        assert_eq!(VeroContract::is_paused(&env), Ok(false));
        assert_eq!(stored_flag(&env, "Initialized"), Some(true));
        assert_eq!(stored_flag(&env, "Paused"), Some(false));
        assert_eq!(stored_address(&env, "Admin"), Some(sdk_address(&env, ADMIN)));
        assert_eq!(stored_address(&env, "TokenAddress"), Some(sdk_address(&env, TOKEN)));
        let threshold: Option<i128> = env.storage().instance().get(&key(&env, "LockThreshold"));
        assert_eq!(threshold, Some(-5));
        let role = (Symbol::new(&env, "RoleAssignment"), sdk_address(&env, ADMIN), key(&env, "Admin"));
        let held: Option<bool> = env.storage().instance().get(&role);
        assert_eq!(held, Some(true));
        let other = (Symbol::new(&env, "RoleAssignment"), sdk_address(&env, ADMIN), key(&env, "TaskManager"));
        assert!(!env.storage().instance().has(&other));
    });
}

#[test]
fn initialization_keeps_the_instance_alive() {
    in_contract(|env| {
        assert!(env.storage().instance().get_ttl() < INSTANCE_TTL);
        perform(&env, VeroContract::initialize(ADMIN, TOKEN, 1, 1), grant);
        assert_eq!(env.storage().instance().get_ttl(), 100_000);
    });
}

#[test]
fn the_instance_is_kept_alive_no_longer_than_the_network_allows() {
    in_contract(|env| {
        env.ledger().set_max_entry_ttl(50_000);
        perform(&env, VeroContract::initialize(ADMIN, TOKEN, 1, 1), grant);
        assert_eq!(env.storage().instance().get_ttl(), 50_000);
    });
}

#[test]
fn a_longer_life_is_not_cut_short() {
    in_contract(|env| {
        env.storage().instance().extend_ttl(200_000, 200_000);
        perform(&env, VeroContract::initialize(ADMIN, TOKEN, 1, 1), grant);
        assert_eq!(env.storage().instance().get_ttl(), 200_000);
    });
}

#[test]
fn the_settings_are_stored_before_the_version_is_recorded() {
    in_contract(|env| {
        let seen = env.clone();
        let (asked, _) = perform(&env, VeroContract::initialize(ADMIN, TOKEN, 1, 1), |request| {
            match request {
                Request::Module(ModuleCall::SetVersion(_)) => {
                    assert_eq!(stored_flag(&seen, "Initialized"), Some(true));
                    assert_eq!(stored_flag(&seen, "Paused"), Some(false));
                    assert!(seen.storage().instance().get_ttl() < INSTANCE_TTL);
                }
                Request::Emit(_) => assert_eq!(seen.storage().instance().get_ttl(), INSTANCE_TTL),
                _ => assert_eq!(stored_flag(&seen, "Initialized"), None),
            }
            Ok(())
        });
        assert_eq!(asked.len(), 4);
    });
}

#[test]
fn a_contract_is_initialized_only_once() {
    in_contract(|env| {
        perform(&env, VeroContract::initialize(ADMIN, TOKEN, 1, 1), grant);
        let (asked, end) = perform(&env, VeroContract::initialize(OTHER, OTHER, 2, 2), grant);
        assert_eq!(end, Outcome::Returned(Err(ContractError::AlreadyInitialized)));
        assert_eq!(asked, vec![Request::ValidateAddress(OTHER), Request::ValidateAddress(OTHER)]);
        assert_eq!(VeroContract::get_admin(&env), Ok(Some(ADMIN)));
    });
}

#[test]
fn a_cleared_flag_does_not_count_as_initialized() {
    in_contract(|env| {
        env.storage().instance().set(&key(&env, "Initialized"), &false);
        let (_, end) = perform(&env, VeroContract::initialize(ADMIN, TOKEN, 1, 1), grant);
        assert_eq!(end, DONE);
        assert_eq!(stored_flag(&env, "Initialized"), Some(true));
    });
}

#[test]
fn an_invalid_token_leaves_the_contract_uninitialized() {
    in_contract(|env| {
        let (asked, end) = perform(&env, VeroContract::initialize(ADMIN, TOKEN, 1, 1), |request| match request {
            Request::ValidateAddress(TOKEN) => Err(ContractError::InvalidAddress),
            _ => Ok(()),
        });
        assert_eq!(end, Outcome::Returned(Err(ContractError::InvalidAddress)));
        assert_eq!(asked.len(), 2);
        assert_eq!(stored_flag(&env, "Initialized"), None);
        assert_eq!(VeroContract::get_admin(&env), Ok(None));
    });
}

#[test]
fn pausing_sets_the_flag_and_says_so() {
    in_contract(|env| {
        assert_eq!(VeroContract::is_paused(&env), Ok(false));
        let (asked, end) = perform(&env, VeroContract::pause(ADMIN), grant);
        assert_eq!(end, DONE);
        assert_eq!(
            asked,
            vec![
                Request::ValidateAddress(ADMIN),
                Request::RequireRole(ADMIN, Role::EmergencyManager),
                Request::Emit(Event::PauseToggled(true)),
            ]
        );
        assert_eq!(VeroContract::is_paused(&env), Ok(true));
        let (asked, end) = perform(&env, VeroContract::unpause(ADMIN), grant);
        assert_eq!(end, DONE);
        assert_eq!(asked.last(), Some(&Request::Emit(Event::PauseToggled(false))));
        assert_eq!(VeroContract::is_paused(&env), Ok(false));
    });
}

#[test]
fn toggling_inverts_the_pause_and_twice_restores_it() {
    in_contract(|env| {
        let (asked, end) = perform(&env, VeroContract::toggle_pause(ADMIN), grant);
        assert_eq!(end, DONE);
        assert_eq!(
            asked,
            vec![
                Request::ValidateAddress(ADMIN),
                Request::RequireRole(ADMIN, Role::EmergencyManager),
                Request::Emit(Event::PauseToggled(true)),
            ]
        );
        assert_eq!(VeroContract::is_paused(&env), Ok(true));
        let (asked, _) = perform(&env, VeroContract::toggle_pause(OTHER), grant);
        assert_eq!(asked.last(), Some(&Request::Emit(Event::PauseToggled(false))));
        assert_eq!(VeroContract::is_paused(&env), Ok(false));
    });
}

#[test]
fn a_refused_toggle_leaves_the_pause() {
    in_contract(|env| {
        perform(&env, VeroContract::pause(ADMIN), grant);
        let (asked, end) = perform(&env, VeroContract::toggle_pause(OTHER), |request| match request {
            Request::RequireRole(_, _) => Err(ContractError::NotAuthorized),
            _ => Ok(()),
        });
        assert_eq!(end, Outcome::Returned(Err(ContractError::NotAuthorized)));
        assert_eq!(asked.len(), 2);
        assert_eq!(VeroContract::is_paused(&env), Ok(true));
    });
}

#[test]
fn the_weight_threshold_reads_back() {
    in_contract(|env| {
        assert_eq!(VeroContract::get_weight_threshold(&env, 300), Ok(300));
        let (asked, end) = perform(&env, VeroContract::set_weight_threshold(ADMIN, 42), grant);
        assert_eq!(end, DONE);
        assert_eq!(
            asked,
            vec![
                Request::ValidateAddress(ADMIN),
                Request::RequireNotPaused,
                Request::RequireRole(ADMIN, Role::ConfigManager),
                Request::Emit(Event::ThresholdSet(ADMIN, 42)),
            ]
        );
        assert_eq!(VeroContract::get_weight_threshold(&env, 300), Ok(42));
    });
}

#[test]
fn the_fee_is_capped() {
    in_contract(|env| {
        let fee = |env: &Env| -> Option<u32> { env.storage().instance().get(&key(env, "FeeBps")) };
        let gates = vec![
            Request::ValidateAddress(ADMIN),
            Request::RequireNotPaused,
            Request::RequireRole(ADMIN, Role::ConfigManager),
        ];
        assert_eq!(MAX_FEE_BPS, 1000);
        let (asked, end) = perform(&env, VeroContract::set_fee_bps(ADMIN, 1001), grant);
        assert_eq!((asked, end), (gates, Outcome::Returned(Err(ContractError::InvalidConfig))));
        assert_eq!(fee(&env), None);
        let (asked, end) = perform(&env, VeroContract::set_fee_bps(ADMIN, 1000), grant);
        assert_eq!((asked.len(), end), (3, DONE));
        assert_eq!(fee(&env), Some(1000));
        let (_, end) = perform(&env, VeroContract::set_fee_bps(ADMIN, u32::MAX), grant);
        assert_eq!(end, Outcome::Returned(Err(ContractError::InvalidConfig)));
        assert_eq!(fee(&env), Some(1000));
        perform(&env, VeroContract::set_fee_bps(ADMIN, 0), grant);
        assert_eq!(fee(&env), Some(0));
    });
}

#[test]
fn an_excessive_fee_is_refused_for_the_role_first() {
    in_contract(|env| {
        let (_, end) = perform(&env, VeroContract::set_fee_bps(ADMIN, 1001), |request| match request {
            Request::RequireRole(_, _) => Err(ContractError::NotAuthorized),
            _ => Ok(()),
        });
        assert_eq!(end, Outcome::Returned(Err(ContractError::NotAuthorized)));
    });
}

#[test]
fn vault_and_treasury_are_kept_apart() {
    in_contract(|env| {
        let (asked, end) = perform(&env, VeroContract::set_vault_address(ADMIN, TOKEN), grant);
        assert_eq!(end, DONE);
        assert_eq!(
            asked,
            vec![
                Request::ValidateAddress(ADMIN),
                Request::ValidateAddress(TOKEN),
                Request::RequireNotPaused,
                Request::RequireRole(ADMIN, Role::ConfigManager),
                Request::Emit(Event::VaultSet(ADMIN, TOKEN)),
            ]
        );
        assert_eq!(stored_address(&env, "VaultAddress"), Some(sdk_address(&env, TOKEN)));
        assert_eq!(stored_address(&env, "TreasuryAddress"), None);
        let (asked, end) = perform(&env, VeroContract::set_treasury_address(ADMIN, OTHER), grant);
        assert_eq!(end, DONE);
        assert_eq!(
            asked,
            vec![
                Request::ValidateAddress(ADMIN),
                Request::ValidateAddress(OTHER),
                Request::RequireNotPaused,
                Request::RequireRole(ADMIN, Role::ConfigManager),
            ]
        );
        assert_eq!(stored_address(&env, "VaultAddress"), Some(sdk_address(&env, TOKEN)));
        assert_eq!(stored_address(&env, "TreasuryAddress"), Some(sdk_address(&env, OTHER)));
        assert_eq!(VeroContract::get_admin(&env), Ok(None));
    });
}

#[test]
fn the_snapshot_history_is_read_in_order() {
    in_contract(|env| {
        assert_eq!(VeroContract::get_snapshot_history(&env), Ok(vec![]));
        let times = soroban_sdk::Vec::from_array(&env, [30u64, 10, 20]);
        env.storage().instance().set(&key(&env, "AllSnapshots"), &times);
        assert_eq!(VeroContract::get_snapshot_history(&env), Ok(vec![Item::Count(30), Item::Count(10), Item::Count(20)]));
    });
}

#[test]
fn a_snapshot_is_found_by_its_time() {
    in_contract(|env| {
        assert_eq!(VeroContract::get_snapshot_at(&env, 30), Err(ContractError::SnapshotNotFound));
        let snapshot = soroban_sdk::Vec::from_array(&env, [1u32, 2]);
        env.storage().instance().set(&(Symbol::new(&env, "Snapshot"), 30u64), &snapshot);
        let bytes: Vec<u8> = snapshot.to_xdr(&env).iter().collect();
        assert_eq!(VeroContract::get_snapshot_at(&env, 30), Ok(bytes));
        assert_eq!(VeroContract::get_snapshot_at(&env, 31), Err(ContractError::SnapshotNotFound));
    });
}

#[test]
fn a_withdrawal_is_found_by_its_guardian() {
    in_contract(|env| {
        let timelock = (Symbol::new(&env, "WithdrawalTimelock"), sdk_address(&env, OTHER));
        env.storage().instance().set(&timelock, &77u64);
        assert_eq!(VeroContract::get_withdrawal_timelock(&env, OTHER), Ok(Some(77)));
        assert_eq!(VeroContract::get_withdrawal_timelock(&env, ADMIN), Ok(None));
        assert_eq!(VeroContract::get_withdrawal_timelock(&env, Address::Account([9; 32])), Ok(None));
        let timelock = (Symbol::new(&env, "WithdrawalTimelock"), sdk_address(&env, ADMIN));
        env.storage().instance().set(&timelock, &78u64);
        assert_eq!(VeroContract::get_withdrawal_timelock(&env, ADMIN), Ok(Some(78)));
    });
}

#[test]
fn values_of_another_type_are_not_read() {
    in_contract(|env| {
        for name in ["Admin", "Paused", "WeightThreshold", "AllSnapshots", "Initialized"] {
            env.storage().instance().set(&key(&env, name), &5u32);
        }
        let timelock = (Symbol::new(&env, "WithdrawalTimelock"), sdk_address(&env, OTHER));
        env.storage().instance().set(&timelock, &5u32);
        assert_eq!(VeroContract::get_admin(&env), Err(Trap::ForeignValue));
        assert_eq!(VeroContract::is_paused(&env), Err(Trap::ForeignValue));
        assert_eq!(VeroContract::get_weight_threshold(&env, 1), Err(Trap::ForeignValue));
        assert_eq!(VeroContract::get_snapshot_history(&env), Err(Trap::ForeignValue));
        assert_eq!(VeroContract::get_withdrawal_timelock(&env, OTHER), Err(Trap::ForeignValue));
        let (asked, end) = perform(&env, VeroContract::toggle_pause(ADMIN), grant);
        assert_eq!((asked.len(), end), (2, Outcome::Panicked(Trap::ForeignValue)));
        let (asked, end) = perform(&env, VeroContract::initialize(ADMIN, TOKEN, 1, 1), grant);
        assert_eq!((asked.len(), end), (2, Outcome::Panicked(Trap::ForeignValue)));
    });
}

#[test]
fn a_history_is_read_whatever_its_items_are() {
    in_contract(|env| {
        let mut list = soroban_sdk::Vec::<Val>::new(&env);
        list.push_back(true.into());
        list.push_back(u64::MAX.into_val(&env));
        list.push_back(5u32.into());
        list.push_back(5u64.into_val(&env));
        env.storage().instance().set(&key(&env, "AllSnapshots"), &list);
        assert_eq!(
            VeroContract::get_snapshot_history(&env),
            Ok(vec![
                Item::Other(true.to_xdr(&env).iter().collect()),
                Item::Count(u64::MAX),
                Item::Other(5u32.to_xdr(&env).iter().collect()),
                Item::Count(5),
            ])
        );
        let stored: Option<soroban_sdk::Vec<u64>> = env.storage().instance().get(&key(&env, "AllSnapshots"));
        assert_eq!(stored.map(|times| times.len()), Some(4));
    });
}

#[test]
fn an_empty_history_is_stored_or_absent() {
    in_contract(|env| {
        env.storage().instance().set(&key(&env, "AllSnapshots"), &soroban_sdk::Vec::<u64>::new(&env));
        assert_eq!(VeroContract::get_snapshot_history(&env), Ok(vec![]));
    });
}

#[test]
fn large_values_are_stored_whole() {
    in_contract(|env| {
        perform(&env, VeroContract::set_weight_threshold(ADMIN, u64::MAX), grant);
        assert_eq!(VeroContract::get_weight_threshold(&env, 0), Ok(u64::MAX));
        perform(&env, VeroContract::initialize(ADMIN, TOKEN, i128::MIN, 1), grant);
        let threshold: Option<i128> = env.storage().instance().get(&key(&env, "LockThreshold"));
        assert_eq!(threshold, Some(i128::MIN));
    });
}
