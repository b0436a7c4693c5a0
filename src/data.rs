use vstd::prelude::*;

verus! {

#[verifier::external_type_specification]
#[verifier::external_body]
pub struct ExPrincipal(candid::Principal);

#[verifier::external_type_specification]
#[verifier::external_body]
pub struct ExNat(candid::Nat);

#[verifier::external_type_specification]
#[verifier::external_body]
pub struct ExInt(candid::Int);

/// NFT token identifier: an arbitrary-precision natural number.
pub type TokenIdentifier = candid::Nat;

/// Relies on the derived `PartialEq` of `candid::Principal`, which compares the
/// length and the bytes: two principals compare equal exactly when they are the same value.
#[verifier::external_body]
pub(crate) fn principal_eq(a: &candid::Principal, b: &candid::Principal) -> (r: bool)
    ensures
        r == (*a == *b),
{
    a == b
}

/// Relies on the derived `PartialEq` of `candid::Nat` (over a normalised `BigUint`):
/// two naturals compare equal exactly when they are the same number.
#[verifier::external_body]
pub(crate) fn nat_eq(a: &candid::Nat, b: &candid::Nat) -> (r: bool)
    ensures
        r == (*a == *b),
{
    a == b
}

/// Relies on the derived `Clone` of `candid::Nat`: the copy is the same number.
pub assume_specification[ <candid::Nat as Clone>::clone ](a: &candid::Nat) -> (r: candid::Nat)
    ensures
        r == *a,
;

/// Value of a named token property.
///
/// A floating-point value is held as its IEEE-754 bit pattern.
#[derive(Debug)]
pub enum GenericValue {
    BoolContent(bool),
    TextContent(String),
    BlobContent(Vec<u8>),
    Principal(candid::Principal),
    Nat8Content(u8),
    Nat16Content(u16),
    Nat32Content(u32),
    Nat64Content(u64),
    NatContent(candid::Nat),
    Int8Content(i8),
    Int16Content(i16),
    Int32Content(i32),
    Int64Content(i64),
    IntContent(candid::Int),
    FloatContent(u64),
    NestedContent(Vec<(String, GenericValue)>),
}

/// The record of one token. It exists from the mint on and is never removed.
#[derive(Debug)]
pub struct TokenMetadata {
    pub approved_at: Option<u64>,
    pub approved_by: Option<candid::Principal>,
    pub burned_at: Option<u64>,
    pub burned_by: Option<candid::Principal>,
    pub is_burned: bool,
    pub minted_at: u64,
    pub minted_by: candid::Principal,
    pub operator: Option<candid::Principal>,
    pub owner: Option<candid::Principal>,
    pub properties: Vec<(String, GenericValue)>,
    pub token_identifier: TokenIdentifier,
    pub transferred_at: Option<u64>,
    pub transferred_by: Option<candid::Principal>,
}

} // verus!
