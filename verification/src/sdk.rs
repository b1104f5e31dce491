//! The values of the Soroban SDK that the payment managers carry through:
//! addresses, symbols and the weighted recipient map of a split.
//!
//! Nothing in this crate looks inside an [`Address`] or a [`Symbol`]. The only
//! facts taken on trust are that cloning one yields the same value, and that
//! reading a recipient map out twice yields the same entries.

use soroban_sdk::{Address, Symbol};
use vstd::prelude::*;

verus! {

/// `soroban_sdk::Address`, an account or a contract. Opaque: it is stored,
/// copied and handed on, never inspected.
#[verifier::external_type_specification]
#[verifier::external_body]
pub struct ExAddress(soroban_sdk::Address);

/// `soroban_sdk::Symbol`, a short tag. Opaque: it is stored, copied and
/// handed on, never inspected.
#[verifier::external_type_specification]
#[verifier::external_body]
pub struct ExSymbol(soroban_sdk::Symbol);

/// `soroban_sdk::Map`, the host's ordered map. Opaque: what a recipient map
/// holds is known only through [`recipient_entries`].
#[verifier::external_type_specification]
#[verifier::external_body]
#[verifier::reject_recursive_types(K)]
#[verifier::reject_recursive_types(V)]
pub struct ExMap<K, V>(soroban_sdk::Map<K, V>);

/// The entries of a recipient map in the order in which the map yields them
/// (ascending by key), or `None` where some entry of the map is not an
/// address paired with a 128-bit amount.
pub uninterp spec fn recipient_entries(recipients: soroban_sdk::Map<Address, i128>) -> Option<Seq<(Address, i128)>>;

/// Calls `Address::clone`. Trusted: the clone is the same address.
#[verifier::external_body]
pub(crate) fn clone_address(address: &Address) -> (copy: Address)
    ensures
        copy == *address,
{
    address.clone()
}

/// Calls `Symbol::clone`. Trusted: the clone is the same symbol.
#[verifier::external_body]
pub(crate) fn clone_symbol(symbol: &Symbol) -> (copy: Symbol)
    ensures
        copy == *symbol,
{
    symbol.clone()
}

/// Calls `Map::clone`. Trusted: the clone is the same map.
#[verifier::external_body]
pub(crate) fn clone_recipients(recipients: &soroban_sdk::Map<Address, i128>) -> (copy: soroban_sdk::Map<Address, i128>)
    ensures
        copy == *recipients,
{
    recipients.clone()
}

/// Calls `Map::try_iter` and collects what it yields. Trusted: the result is
/// a function of the map alone, namely [`recipient_entries`]; it is `None`
/// exactly when the iterator reports an entry that does not convert.
#[verifier::external_body]
pub(crate) fn read_recipients(recipients: &soroban_sdk::Map<Address, i128>) -> (entries: Option<Vec<(Address, i128)>>)
    ensures
        entries is Some <==> recipient_entries(*recipients) is Some,
        entries matches Some(list) ==> recipient_entries(*recipients) == Some(list@),
{
    recipients.try_iter().collect::<Result<Vec<(Address, i128)>, _>>().ok()
}

} // verus!
