//! The contract's instance storage: what it holds, and how it is read and written.
//!
//! `Env` is a handle on the host that runs the contract, and instance storage is a map that the
//! host keeps. The names below (`instance`, `instance_ttl`, `max_ttl`) say what the host holds as
//! seen through a handle between two calls into the host. They speak truly as long as all changes
//! go through that handle, so a caller keeps to one rule: it holds a single handle, and passes it
//! by `&mut` to whatever may change what the host holds. Every function here that changes it takes
//! the handle so. A caller that carries out a request of an `Invocation` takes it for such a change,
//! whatever the request is. A clone of the handle is a second view of the same host, of which the
//! names would not know what was changed through the first: none is made here.
//!
//! All calls are made from within an invocation of the contract; the SDK refuses instance storage
//! elsewhere. The limits that a network sets on an invocation (its budget, the size of the
//! instance) end the invocation from outside of the contract's code.
//!
//! A key is encoded as contract types encode an enum: a vector that starts with the variant's
//! name as a symbol, followed by the variant's fields.
use soroban_sdk::address_payload::AddressPayload;
use soroban_sdk::xdr::ToXdr;
use soroban_sdk::{BytesN, ConversionError, Env, Symbol, TryFromVal, Val};
use vstd::prelude::*;

use crate::types::{Address, Item};

verus! {

/// The SDK's handle on the host.
#[verifier::external_type_specification]
#[verifier::external_body]
pub struct ExEnv(Env);

/// The SDK's answer when a value is not of the type that it is read as.
#[verifier::external_type_specification]
#[verifier::external_body]
pub struct ExConversionError(ConversionError);

/// One part of a storage key.
pub enum Part {
    Symbol(Seq<char>),
    Number(u64),
    Account(Address),
    /// A vector that holds one symbol: an enum's variant without fields.
    Variant(Seq<char>),
}

/// A stored value.
pub enum Value {
    Flag(bool),
    Rate(u32),
    Count(u64),
    Amount(i128),
    Account(Address),
    /// A vector, whatever its items are.
    List(Seq<Element>),
    /// A value of any other type, by its serialization.
    Other(Seq<u8>),
}

/// An item of a stored vector.
pub enum Element {
    Count(u64),
    /// A value of any other type, by its serialization.
    Other(Seq<u8>),
}

impl View for Item {
    type V = Element;

    open spec fn view(&self) -> Element {
        match *self {
            Item::Count(count) => Element::Count(count),
            Item::Other(bytes) => Element::Other(bytes@),
        }
    }
}

/// The elements that these items stand for.
pub open spec fn elements(items: Seq<Item>) -> Seq<Element> {
    items.map_values(|item: Item| item@)
}

/// What the instance storage of the running contract holds under keys that are made of parts. What
/// it holds under other keys is not spoken of.
pub uninterp spec fn instance(env: Env) -> Map<Seq<Part>, Value>;

/// For how many ledgers after the current one the contract instance stays alive.
pub uninterp spec fn instance_ttl(env: Env) -> u32;

/// For how many ledgers after the current one an entry can stay alive at most.
pub uninterp spec fn max_ttl(env: Env) -> u32;

/// The XDR serialization of a stored value.
pub uninterp spec fn xdr_of(value: Value) -> Seq<u8>;

/// Whether the text can be a symbol: at most 32 letters, digits and underscores.
pub open spec fn is_symbol(text: Seq<char>) -> bool {
    &&& text.len() <= 32
    &&& forall|i: int| 0 <= i < text.len() ==> is_symbol_char(#[trigger] text[i])
}

pub open spec fn is_symbol_char(c: char) -> bool {
    'a' <= c <= 'z' || 'A' <= c <= 'Z' || '0' <= c <= '9' || c == '_'
}

/// What reading a flag finds; `None` where something else is stored.
pub open spec fn as_flag(stored: Option<Value>) -> Option<Option<bool>> {
    match stored {
        None => Some(None),
        Some(Value::Flag(flag)) => Some(Some(flag)),
        Some(_) => None,
    }
}

/// What reading a count finds; `None` where something else is stored.
pub open spec fn as_count(stored: Option<Value>) -> Option<Option<u64>> {
    match stored {
        None => Some(None),
        Some(Value::Count(count)) => Some(Some(count)),
        Some(_) => None,
    }
}

/// What reading an address finds; `None` where something else is stored.
pub open spec fn as_account(stored: Option<Value>) -> Option<Option<Address>> {
    match stored {
        None => Some(None),
        Some(Value::Account(address)) => Some(Some(address)),
        Some(_) => None,
    }
}

/// What reading a list finds; `None` where something else is stored.
pub open spec fn as_list(stored: Option<Value>) -> Option<Option<Seq<Element>>> {
    match stored {
        None => Some(None),
        Some(Value::List(list)) => Some(Some(list)),
        Some(_) => None,
    }
}

/// How long an entry that would stay alive for `ttl` ledgers stays alive once it has been asked
/// to stay for `extend_to` where no more than `threshold` are left.
pub open spec fn extended_ttl(ttl: u32, max_ttl: u32, threshold: u32, extend_to: u32) -> u32 {
    let wanted = if extend_to <= max_ttl { extend_to } else { max_ttl };
    if ttl <= threshold && ttl < wanted { wanted } else { ttl }
}

/// Reads a flag with `Instance::get`, and converts it with `bool::try_from_val`: finds nothing
/// where the key is absent, and fails where a value of another type is stored.
#[verifier::external_body]
pub(crate) fn get_flag(env: &Env, name: &str) -> (r: Result<Option<bool>, ConversionError>)
    requires
        is_symbol(name@),
    ensures
        r matches Ok(found) ==> as_flag(instance(*env).get(seq![Part::Symbol(name@)])) == Some(found),
        r is Err ==> as_flag(instance(*env).get(seq![Part::Symbol(name@)])) is None,
{
    let stored: Option<Val> = env.storage().instance().get(&(Symbol::new(env, name),));
    stored.map(|val| bool::try_from_val(env, &val)).transpose()
}

/// Reads a count with `Instance::get`, and converts it with `u64::try_from_val`: finds nothing
/// where the key is absent, and fails where a value of another type is stored.
#[verifier::external_body]
pub(crate) fn get_count(env: &Env, name: &str) -> (r: Result<Option<u64>, ConversionError>)
    requires
        is_symbol(name@),
    ensures
        r matches Ok(found) ==> as_count(instance(*env).get(seq![Part::Symbol(name@)])) == Some(found),
        r is Err ==> as_count(instance(*env).get(seq![Part::Symbol(name@)])) is None,
{
    let stored: Option<Val> = env.storage().instance().get(&(Symbol::new(env, name),));
    Ok(stored.map(|val| u64::try_from_val(env, &val)).transpose()?)
}

/// Reads an address with `Instance::get`, and converts it with `Address::try_from_val` and
/// `Address::to_payload`: finds nothing where the key is absent, and fails where a value of
/// another type, or an address that is neither an account nor a contract, is stored.
#[verifier::external_body]
pub(crate) fn get_account(env: &Env, name: &str) -> (r: Result<Option<Address>, ConversionError>)
    requires
        is_symbol(name@),
    ensures
        r matches Ok(found) ==> as_account(instance(*env).get(seq![Part::Symbol(name@)])) == Some(found),
        r is Err ==> as_account(instance(*env).get(seq![Part::Symbol(name@)])) is None,
{
    let stored: Option<Val> = env.storage().instance().get(&(Symbol::new(env, name),));
    match stored {
        None => Ok(None),
        Some(val) => match soroban_sdk::Address::try_from_val(env, &val)?.to_payload() {
            Some(AddressPayload::AccountIdPublicKeyEd25519(key)) => Ok(Some(Address::Account(key.to_array()))),
            Some(AddressPayload::ContractIdHash(hash)) => Ok(Some(Address::Contract(hash.to_array()))),
            None => Err(ConversionError),
        },
    }
}

/// Reads a list with `Instance::get`, and converts it with `Vec::try_from_val`, which looks at no
/// item: finds nothing where the key is absent, and fails where something else than a vector is
/// stored. The items are handed out in order by `Vec::iter`, each converted with
/// `u64::try_from_val` or, where that fails, serialized with `ToXdr::to_xdr`.
#[verifier::external_body]
pub(crate) fn get_list(env: &Env, name: &str) -> (r: Result<Option<Vec<Item>>, ConversionError>)
    requires
        is_symbol(name@),
    ensures
        r matches Ok(None) ==> as_list(instance(*env).get(seq![Part::Symbol(name@)])) == Some(None::<Seq<Element>>),
        r matches Ok(Some(items)) ==> as_list(instance(*env).get(seq![Part::Symbol(name@)])) == Some(
            Some(elements(items@)),
        ),
        r is Err ==> as_list(instance(*env).get(seq![Part::Symbol(name@)])) is None,
{
    let stored: Option<Val> = env.storage().instance().get(&(Symbol::new(env, name),));
    let list = stored.map(|val| soroban_sdk::Vec::<Val>::try_from_val(env, &val)).transpose()?;
    let plain = |item: Val| match u64::try_from_val(env, &item) {
        Ok(count) => Item::Count(count),
        Err(_) => Item::Other(item.to_xdr(env).iter().collect()),
    };
    Ok(list.map(|items| items.iter().map(plain).collect()))
}

/// Reads, with `Instance::get`, what is stored under a symbol and a number, and serializes it
/// with `ToXdr::to_xdr`: finds nothing where the key is absent. A value that is known by its
/// serialization is handed out as that serialization.
#[verifier::external_body]
pub(crate) fn get_xdr_at(env: &Env, name: &str, number: u64) -> (r: Option<Vec<u8>>)
    requires
        is_symbol(name@),
    ensures
        r is Some <==> instance(*env).contains_key(seq![Part::Symbol(name@), Part::Number(number)]),
        r matches Some(bytes) ==> bytes@ == xdr_of(instance(*env)[seq![Part::Symbol(name@), Part::Number(number)]]),
        r matches Some(bytes) ==> (instance(*env)[seq![Part::Symbol(name@), Part::Number(number)]] matches Value::Other(
            serialized,
        ) ==> bytes@ == serialized),
{
    let stored: Option<Val> = env.storage().instance().get(&(Symbol::new(env, name), number));
    stored.map(|val| val.to_xdr(env).iter().collect())
}

/// Reads, with `Instance::get`, the count that is stored under a symbol and an address, and
/// converts it with `u64::try_from_val`: finds nothing where the key is absent, and fails where a
/// value of another type is stored.
#[verifier::external_body]
pub(crate) fn get_count_of(env: &Env, name: &str, address: Address) -> (r: Result<Option<u64>, ConversionError>)
    requires
        is_symbol(name@),
    ensures
        r matches Ok(found) ==> as_count(
            instance(*env).get(seq![Part::Symbol(name@), Part::Account(address)]),
        ) == Some(found),
        r is Err ==> as_count(instance(*env).get(seq![Part::Symbol(name@), Part::Account(address)])) is None,
{
    let payload = match address {
        Address::Account(key) => AddressPayload::AccountIdPublicKeyEd25519(BytesN::from_array(env, &key)),
        Address::Contract(hash) => AddressPayload::ContractIdHash(BytesN::from_array(env, &hash)),
    };
    let key = (Symbol::new(env, name), soroban_sdk::Address::from_payload(env, payload));
    let stored: Option<Val> = env.storage().instance().get(&key);
    Ok(stored.map(|val| u64::try_from_val(env, &val)).transpose()?)
}

/// Stores a flag under a symbol with `Instance::set`; every other entry stays as it is.
#[verifier::external_body]
pub(crate) fn set_flag(env: &mut Env, name: &str, flag: bool)
    requires
        is_symbol(name@),
    ensures
        instance(*final(env)) == instance(*old(env)).insert(seq![Part::Symbol(name@)], Value::Flag(flag)),
        instance_ttl(*final(env)) == instance_ttl(*old(env)),
        max_ttl(*final(env)) == max_ttl(*old(env)),
{
    env.storage().instance().set(&(Symbol::new(env, name),), &flag);
}

/// Stores a rate under a symbol with `Instance::set`; every other entry stays as it is.
#[verifier::external_body]
pub(crate) fn set_rate(env: &mut Env, name: &str, rate: u32)
    requires
        is_symbol(name@),
    ensures
        instance(*final(env)) == instance(*old(env)).insert(seq![Part::Symbol(name@)], Value::Rate(rate)),
        instance_ttl(*final(env)) == instance_ttl(*old(env)),
        max_ttl(*final(env)) == max_ttl(*old(env)),
{
    env.storage().instance().set(&(Symbol::new(env, name),), &rate);
}

/// Stores a count under a symbol with `Instance::set`; every other entry stays as it is.
#[verifier::external_body]
pub(crate) fn set_count(env: &mut Env, name: &str, count: u64)
    requires
        is_symbol(name@),
    ensures
        instance(*final(env)) == instance(*old(env)).insert(seq![Part::Symbol(name@)], Value::Count(count)),
        instance_ttl(*final(env)) == instance_ttl(*old(env)),
        max_ttl(*final(env)) == max_ttl(*old(env)),
{
    env.storage().instance().set(&(Symbol::new(env, name),), &count);
}

/// Stores an amount under a symbol with `Instance::set`; every other entry stays as it is.
#[verifier::external_body]
pub(crate) fn set_amount(env: &mut Env, name: &str, amount: i128)
    requires
        is_symbol(name@),
    ensures
        instance(*final(env)) == instance(*old(env)).insert(seq![Part::Symbol(name@)], Value::Amount(amount)),
        instance_ttl(*final(env)) == instance_ttl(*old(env)),
        max_ttl(*final(env)) == max_ttl(*old(env)),
{
    env.storage().instance().set(&(Symbol::new(env, name),), &amount);
}

/// Stores an address, made with `Address::from_payload`, under a symbol with `Instance::set`;
/// every other entry stays as it is.
#[verifier::external_body]
pub(crate) fn set_account(env: &mut Env, name: &str, address: Address)
    requires
        is_symbol(name@),
    ensures
        instance(*final(env)) == instance(*old(env)).insert(seq![Part::Symbol(name@)], Value::Account(address)),
        instance_ttl(*final(env)) == instance_ttl(*old(env)),
        max_ttl(*final(env)) == max_ttl(*old(env)),
{
    let payload = match address {
        Address::Account(key) => AddressPayload::AccountIdPublicKeyEd25519(BytesN::from_array(env, &key)),
        Address::Contract(hash) => AddressPayload::ContractIdHash(BytesN::from_array(env, &hash)),
    };
    let value = soroban_sdk::Address::from_payload(env, payload);
    env.storage().instance().set(&(Symbol::new(env, name),), &value);
}

/// Stores a flag under a symbol, an address and a variant's name with `Instance::set`; every other
/// entry stays as it is.
#[verifier::external_body]
pub(crate) fn set_flag_of(env: &mut Env, name: &str, address: Address, variant: &str, flag: bool)
    requires
        is_symbol(name@),
        is_symbol(variant@),
    ensures
        instance(*final(env)) == instance(*old(env)).insert(
            seq![Part::Symbol(name@), Part::Account(address), Part::Variant(variant@)],
            Value::Flag(flag),
        ),
        instance_ttl(*final(env)) == instance_ttl(*old(env)),
        max_ttl(*final(env)) == max_ttl(*old(env)),
{
    let payload = match address {
        Address::Account(key) => AddressPayload::AccountIdPublicKeyEd25519(BytesN::from_array(env, &key)),
        Address::Contract(hash) => AddressPayload::ContractIdHash(BytesN::from_array(env, &hash)),
    };
    let holder = soroban_sdk::Address::from_payload(env, payload);
    let key = (Symbol::new(env, name), holder, (Symbol::new(env, variant),));
    env.storage().instance().set(&key, &flag);
}

/// Extends the life of the contract instance with `Instance::extend_ttl`, up to what the network
/// allows; what is stored stays as it is. The contract's code, whose own life the call extends in
/// the same way, is not spoken of.
#[verifier::external_body]
pub(crate) fn extend_ttl(env: &mut Env, threshold: u32, extend_to: u32)
    requires
        threshold <= extend_to,
    ensures
        instance(*final(env)) == instance(*old(env)),
        instance_ttl(*final(env)) == extended_ttl(
            instance_ttl(*old(env)),
            max_ttl(*old(env)),
            threshold,
            extend_to,
        ),
        max_ttl(*final(env)) == max_ttl(*old(env)),
{
    env.storage().instance().extend_ttl(threshold, extend_to);
}

} // verus!
