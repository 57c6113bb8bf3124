//! Identities: the addresses of accounts and contracts, and the keys of
//! validators.
//!
//! The library carries Odra's `Address` and Casper's `PublicKey` through as
//! they are. Of an address it only ever asks whether it is the same as
//! another; of a key it asks nothing.

use vstd::prelude::*;
use odra_core::prelude::Address;
use odra_core::casper_types::PublicKey;

verus! {

/// Odra's `Address`: the hash of an account or of a contract package.
#[verifier::external_type_specification]
#[verifier::external_body]
pub struct ExAddress(Address);

/// Casper's `PublicKey`: the key by which a validator is known.
#[verifier::external_type_specification]
#[verifier::external_body]
pub struct ExPublicKey(PublicKey);

/// `==` on `Address` is derived: two addresses are equal when they are the
/// same variant around the same 32 bytes, that is, when they are the same
/// value.
pub assume_specification[ <Address as PartialEq>::eq ](a: &Address, b: &Address) -> (same: bool)
    ensures
        same == (*a == *b),
;

/// `clone` on `Address` is derived for a `Copy` type: the copy is the same
/// value.
pub assume_specification[ <Address as Clone>::clone ](a: &Address) -> (copy: Address)
    ensures
        copy == *a,
;

/// `clone` on `PublicKey` is derived: the copy is the same variant around
/// a copy of the same key, that is, the same value.
pub assume_specification[ <PublicKey as Clone>::clone ](key: &PublicKey) -> (copy: PublicKey)
    ensures
        copy == *key,
;

} // verus!
