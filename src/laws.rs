//! Properties that relate several operations of the ledger.
use vstd::prelude::*;

use crate::data::{TokenIdentifier, TokenMetadata};
use crate::ledger::Ledger;
use crate::model::{
    burned, burned_count, held_ids, holder_set, owned_count, record_consistent, transferred,
};

verus! {

/// After a transfer (by the owner or on its behalf) of token `id` to `to`, the owner
/// reported for `id` is `to`, and every other token keeps the owner it had.
pub proof fn law_owner_after_transfer(
    before: Ledger,
    after: Ledger,
    id: TokenIdentifier,
    to: candid::Principal,
    by: candid::Principal,
    now: u64,
    other: TokenIdentifier,
)
    requires
        after.updated(&before, id, transferred(before.token(id).unwrap(), to, by, now)),
    ensures
        after.token(id) matches Some(t) && t.owner == Some(to),
        other != id ==> after.token(other) == before.token(other),
{
}

/// After token `id` is burned, it is still known but has no owner, and every other
/// token keeps the owner it had.
pub proof fn law_owner_after_burn(
    before: Ledger,
    after: Ledger,
    id: TokenIdentifier,
    by: candid::Principal,
    now: u64,
    other: TokenIdentifier,
)
    requires
        after.updated(&before, id, burned(before.token(id).unwrap(), by, now)),
    ensures
        after.token(id) matches Some(t) && t.owner is None && t.is_burned,
        other != id ==> after.token(other) == before.token(other),
{
}

/// Asking twice whether `operator` is approved for all of `owner`'s tokens, with no
/// change in between, gives the same answer.
pub proof fn law_approval_query_stable(
    l: Ledger,
    owner: candid::Principal,
    operator: candid::Principal,
    first: bool,
    second: bool,
)
    requires
        first == l.approved(owner, operator),
        second == l.approved(owner, operator),
    ensures
        first == second,
{
}

/// Starting from an empty log, the transaction ids handed out by successive successful
/// operations are 0, 1, 2, ... in call order: each one is the log length before the
/// call, and each success appends exactly one event.
pub proof fn law_tx_ids_sequential(states: Seq<Ledger>, ids: Seq<u64>)
    requires
        states.len() == ids.len() + 1,
        states[0].tx_seq().len() == 0,
        forall|k: int|
            0 <= k < ids.len() ==> #[trigger] ids[k] == states[k].tx_seq().len()
                && states[k + 1].tx_seq().len() == states[k].tx_seq().len() + 1,
    ensures
        forall|k: int| 0 <= k < ids.len() ==> #[trigger] ids[k] == k,
{
    assert forall|k: int| 0 <= k <= ids.len() implies #[trigger] states[k].tx_seq().len() == k by {
        lemma_log_length(states, ids, k);
    }
    assert forall|k: int| 0 <= k < ids.len() implies #[trigger] ids[k] == k by {
        assert(states[k].tx_seq().len() == k);
    }
}

proof fn lemma_log_length(states: Seq<Ledger>, ids: Seq<u64>, k: int)
    requires
        states.len() == ids.len() + 1,
        states[0].tx_seq().len() == 0,
        forall|j: int|
            0 <= j < ids.len() ==> #[trigger] ids[j] == states[j].tx_seq().len()
                && states[j + 1].tx_seq().len() == states[j].tx_seq().len() + 1,
        0 <= k <= ids.len(),
    ensures
        states[k].tx_seq().len() == k,
    decreases k,
{
    if k > 0 {
        lemma_log_length(states, ids, k - 1);
        assert(ids[k - 1] == states[k - 1].tx_seq().len());
    }
}

proof fn lemma_owned_plus_burned(s: Seq<TokenMetadata>)
    requires
        forall|i: int| 0 <= i < s.len() ==> record_consistent(#[trigger] s[i]),
    ensures
        owned_count(s) + burned_count(s) == s.len(),
    decreases s.len(),
{
    if s.len() > 0 {
        let t = s.drop_last();
        assert forall|i: int| 0 <= i < t.len() implies record_consistent(#[trigger] t[i]) by {
            assert(t[i] == s[i]);
        }
        lemma_owned_plus_burned(t);
        assert(record_consistent(s[s.len() - 1]));
    }
}

/// Sum, over the principals of `hs`, of the number of tokens that each one owns.
pub open spec fn index_size(s: Seq<TokenMetadata>, hs: Seq<candid::Principal>) -> nat
    decreases hs.len(),
{
    if hs.len() == 0 {
        0
    } else {
        index_size(s, hs.drop_last()) + held_ids(s, hs.last(), false).len()
    }
}

proof fn lemma_index_size_step(s: Seq<TokenMetadata>, hs: Seq<candid::Principal>)
    requires
        s.len() > 0,
        hs.no_duplicates(),
    ensures
        index_size(s, hs) == index_size(s.drop_last(), hs) + if s.last().owner is Some
            && hs.contains(s.last().owner.unwrap()) {
            1nat
        } else {
            0nat
        },
    decreases hs.len(),
{
    if hs.len() > 0 {
        let init = hs.drop_last();
        assert(init.no_duplicates());
        lemma_index_size_step(s, init);
        if s.last().owner is Some {
            let o = s.last().owner.unwrap();
            if hs.contains(o) && o != hs.last() {
                let k = choose|k: int| 0 <= k < hs.len() && hs[k] == o;
                assert(init[k] == o);
            }
            if init.contains(o) {
                let k = choose|k: int| 0 <= k < init.len() && init[k] == o;
                assert(hs[k] == o);
                assert(o != hs.last());
            }
            if o == hs.last() {
                assert(hs.contains(o));
                if init.contains(o) {
                    let k = choose|k: int| 0 <= k < init.len() && init[k] == o;
                    assert(hs[k] == hs[hs.len() - 1]);
                }
            }
        }
    }
}

proof fn lemma_index_size_total(s: Seq<TokenMetadata>, hs: Seq<candid::Principal>)
    requires
        hs.no_duplicates(),
        forall|p: candid::Principal| holder_set(s).contains(p) ==> #[trigger] hs.contains(p),
    ensures
        index_size(s, hs) == owned_count(s),
    decreases s.len(),
{
    if s.len() == 0 {
        lemma_index_size_empty(s, hs);
    } else {
        let t = s.drop_last();
        assert forall|p: candid::Principal| holder_set(t).contains(p) implies #[trigger] hs.contains(
            p,
        ) by {
            let j = choose|j: int| 0 <= j < t.len() && #[trigger] t[j].owner == Some(p);
            assert(s[j] == t[j]);
            assert(holder_set(s).contains(p));
        }
        lemma_index_size_total(t, hs);
        lemma_index_size_step(s, hs);
        if s.last().owner is Some {
            assert(s[s.len() - 1].owner == Some(s.last().owner.unwrap()));
            assert(holder_set(s).contains(s.last().owner.unwrap()));
        }
    }
}

proof fn lemma_index_size_empty(s: Seq<TokenMetadata>, hs: Seq<candid::Principal>)
    requires
        s.len() == 0,
    ensures
        index_size(s, hs) == 0,
    decreases hs.len(),
{
    if hs.len() > 0 {
        lemma_index_size_empty(s, hs.drop_last());
    }
}

/// Summed over the principals that own tokens (each listed once), the sizes of their
/// owner-index entries come to the total supply less the burned tokens.
pub proof fn law_owned_supply(l: Ledger, holders: Seq<candid::Principal>)
    requires
        l.wf(),
        holders.no_duplicates(),
        holders.to_set() == holder_set(l.token_seq()),
    ensures
        index_size(l.token_seq(), holders) == l.token_seq().len() - burned_count(l.token_seq()),
        owned_count(l.token_seq()) == l.token_seq().len() - burned_count(l.token_seq()),
{
    lemma_owned_plus_burned(l.token_seq());
    assert forall|p: candid::Principal| holder_set(l.token_seq()).contains(
        p,
    ) implies #[trigger] holders.contains(p) by {
        assert(holders.to_set().contains(p));
    }
    lemma_index_size_total(l.token_seq(), holders);
}

} // verus!
