//! The mathematical model of the token store: lookups, the indices read off it,
//! and the records that each operation makes of an existing one.
use vstd::prelude::*;

use crate::data::{GenericValue, TokenIdentifier, TokenMetadata};
use crate::event::TxEvent;

verus! {

/// Index of the token with identifier `id` in `s`, if there is one.
pub open spec fn lookup(s: Seq<TokenMetadata>, id: TokenIdentifier) -> Option<int> {
    if exists|i: int| 0 <= i < s.len() && s[i].token_identifier == id {
        Some(choose|i: int| 0 <= i < s.len() && s[i].token_identifier == id)
    } else {
        None
    }
}

/// No two records share an identifier.
pub open spec fn ids_unique(s: Seq<TokenMetadata>) -> bool {
    forall|i: int, j: int|
        0 <= i < s.len() && 0 <= j < s.len() && i != j ==> s[i].token_identifier
            != s[j].token_identifier
}

/// A record is burned exactly when it has no owner, and a burned record has no operator.
pub open spec fn record_consistent(t: TokenMetadata) -> bool {
    &&& t.is_burned <==> t.owner is None
    &&& t.is_burned ==> t.operator is None
}

/// The principal that a record lists as owner, or as single-token operator.
pub open spec fn holder(t: TokenMetadata, by_operator: bool) -> Option<candid::Principal> {
    if by_operator {
        t.operator
    } else {
        t.owner
    }
}

/// Identifiers of the records held by `p`, in the order in which they were minted.
pub open spec fn held_ids(s: Seq<TokenMetadata>, p: candid::Principal, by_operator: bool) -> Seq<
    TokenIdentifier,
>
    decreases s.len(),
{
    if s.len() == 0 {
        Seq::empty()
    } else {
        let rest = held_ids(s.drop_last(), p, by_operator);
        if holder(s.last(), by_operator) == Some(p) {
            rest.push(s.last().token_identifier)
        } else {
            rest
        }
    }
}

/// The records held by `p`, in the order in which they were minted.
pub open spec fn held_records(s: Seq<TokenMetadata>, p: candid::Principal, by_operator: bool) -> Seq<
    TokenMetadata,
>
    decreases s.len(),
{
    if s.len() == 0 {
        Seq::empty()
    } else {
        let rest = held_records(s.drop_last(), p, by_operator);
        if holder(s.last(), by_operator) == Some(p) {
            rest.push(s.last())
        } else {
            rest
        }
    }
}

/// Number of records that are burned.
pub open spec fn burned_count(s: Seq<TokenMetadata>) -> nat
    decreases s.len(),
{
    if s.len() == 0 {
        0
    } else {
        burned_count(s.drop_last()) + if s.last().is_burned {
            1nat
        } else {
            0nat
        }
    }
}

/// Number of records that have an owner: the entries of the owner index.
pub open spec fn owned_count(s: Seq<TokenMetadata>) -> nat
    decreases s.len(),
{
    if s.len() == 0 {
        0
    } else {
        owned_count(s.drop_last()) + if s.last().owner is Some {
            1nat
        } else {
            0nat
        }
    }
}

/// Principals that own at least one record.
pub open spec fn holder_set(s: Seq<TokenMetadata>) -> Set<candid::Principal> {
    Set::new(|p: candid::Principal| exists|i: int| 0 <= i < s.len() && s[i].owner == Some(p))
}

/// An event of operation `op`, made by `caller` at `now`, with the given details.
pub open spec fn event_is(
    e: TxEvent,
    caller: candid::Principal,
    op: Seq<char>,
    now: u64,
    details: Seq<(Seq<char>, GenericValue)>,
) -> bool {
    &&& e.caller == caller
    &&& e.operation@ == op
    &&& e.time == now
    &&& e.details@.len() == details.len()
    &&& forall|k: int|
        0 <= k < details.len() ==> (#[trigger] e.details@[k]).0@ == details[k].0 && e.details@[k].1
            == details[k].1
}

/// `t` after a transfer to `to` made by `by` at `now`: the operator is cleared.
pub open spec fn transferred(
    t: TokenMetadata,
    to: candid::Principal,
    by: candid::Principal,
    now: u64,
) -> TokenMetadata {
    TokenMetadata {
        owner: Some(to),
        operator: None,
        transferred_by: Some(by),
        transferred_at: Some(now),
        ..t
    }
}

/// `t` after `by` made `op` its single-token operator at `now`.
pub open spec fn approved_to(
    t: TokenMetadata,
    op: candid::Principal,
    by: candid::Principal,
    now: u64,
) -> TokenMetadata {
    TokenMetadata { operator: Some(op), approved_by: Some(by), approved_at: Some(now), ..t }
}

/// `t` after `by` burned it at `now`: no owner, no operator, for good.
pub open spec fn burned(t: TokenMetadata, by: candid::Principal, now: u64) -> TokenMetadata {
    TokenMetadata {
        owner: None,
        operator: None,
        is_burned: true,
        burned_by: Some(by),
        burned_at: Some(now),
        ..t
    }
}

pub(crate) proof fn lemma_lookup_at(s: Seq<TokenMetadata>, id: TokenIdentifier, k: int)
    requires
        ids_unique(s),
        0 <= k < s.len(),
        s[k].token_identifier == id,
    ensures
        lookup(s, id) == Some(k),
{
}

pub(crate) proof fn lemma_lookup_absent(s: Seq<TokenMetadata>, id: TokenIdentifier)
    requires
        forall|j: int| 0 <= j < s.len() ==> s[j].token_identifier != id,
    ensures
        lookup(s, id) is None,
{
}

pub(crate) proof fn lemma_lookup_update(s: Seq<TokenMetadata>, i: int, t: TokenMetadata, id: TokenIdentifier)
    requires
        ids_unique(s),
        0 <= i < s.len(),
        t.token_identifier == s[i].token_identifier,
    ensures
        ids_unique(s.update(i, t)),
        lookup(s.update(i, t), id) == lookup(s, id),
        lookup(s.update(i, t), t.token_identifier) == Some(i),
{
    lemma_lookup_at(s, t.token_identifier, i);
    let u = s.update(i, t);
    assert forall|j: int| 0 <= j < s.len() implies u[j].token_identifier
        == s[j].token_identifier by {}
    match lookup(s, id) {
        Some(k) => lemma_lookup_at(u, id, k),
        None => lemma_lookup_absent(u, id),
    }
}

} // verus!
