use vstd::prelude::*;

use crate::canister::{Metadata, NftError, Stats, SupportedInterface};
use crate::data::{nat_eq, principal_eq, GenericValue, TokenIdentifier, TokenMetadata};
use crate::event::TxEvent;
use crate::model::{
    approved_to, burned, event_is, held_ids, held_records, holder_set, lemma_lookup_absent,
    lemma_lookup_at, lemma_lookup_update, lookup, record_consistent, transferred, ids_unique,
};

verus! {

/// The ledger: token store, blanket approvals, transaction log and collection metadata.
///
/// The owner and operator indices are read off the token store, so they always list
/// exactly the records whose owner, or operator, is the principal asked about.
pub struct Ledger {
    metadata: Metadata,
    tokens: Vec<TokenMetadata>,
    approvals: Vec<(candid::Principal, candid::Principal)>,
    transactions: Vec<TxEvent>,
}

impl Ledger {
    /// Every record ever minted, in minting order.
    pub closed spec fn token_seq(&self) -> Seq<TokenMetadata> {
        self.tokens@
    }

    /// The (owner, operator) pairs granted approval for all of the owner's tokens.
    pub closed spec fn approval_seq(&self) -> Seq<(candid::Principal, candid::Principal)> {
        self.approvals@
    }

    /// The transaction log; an event's index is its transaction id.
    pub closed spec fn tx_seq(&self) -> Seq<TxEvent> {
        self.transactions@
    }

    /// The collection metadata.
    pub closed spec fn meta(&self) -> Metadata {
        self.metadata
    }

    /// The custodian set.
    pub open spec fn custodian_seq(&self) -> Seq<candid::Principal> {
        self.meta().custodians@
    }

    /// `p` is a custodian.
    pub open spec fn is_custodian(&self, p: candid::Principal) -> bool {
        self.custodian_seq().contains(p)
    }

    /// The record with identifier `id`, if it was minted.
    pub open spec fn token(&self, id: TokenIdentifier) -> Option<TokenMetadata> {
        match lookup(self.token_seq(), id) {
            Some(i) => Some(self.token_seq()[i]),
            None => None,
        }
    }

    /// `operator` is approved for all of `owner`'s tokens.
    pub open spec fn approved(&self, owner: candid::Principal, operator: candid::Principal) -> bool {
        self.approval_seq().contains((owner, operator))
    }

    /// Well-formedness: unique identifiers, consistent records, no repeated approval,
    /// a non-empty custodian set.
    pub open spec fn wf(&self) -> bool {
        &&& ids_unique(self.token_seq())
        &&& forall|i: int|
            0 <= i < self.token_seq().len() ==> record_consistent(#[trigger] self.token_seq()[i])
        &&& self.approval_seq().no_duplicates()
        &&& self.custodian_seq().len() > 0
    }

    /// Everything but the token store is as in `other`, and one event was appended.
    pub open spec fn logged_after(&self, other: &Ledger) -> bool {
        &&& self.meta() == other.meta()
        &&& self.tx_seq().len() == other.tx_seq().len() + 1
        &&& self.tx_seq().drop_last() =~= other.tx_seq()
    }
}

/// `o` is `Some(p)`.
fn is_principal(o: &Option<candid::Principal>, p: &candid::Principal) -> (r: bool)
    ensures
        r == (*o == Some(*p)),
{
    match o {
        Some(q) => principal_eq(q, p),
        None => false,
    }
}

/// `s` holds `p`.
fn contains_principal(s: &Vec<candid::Principal>, p: &candid::Principal) -> (r: bool)
    ensures
        r == s@.contains(*p),
{
    let mut i: usize = 0;
    while i < s.len()
        invariant
            i <= s.len(),
            forall|j: int| 0 <= j < i ==> s@[j] != *p,
        decreases s.len() - i,
    {
        if principal_eq(&s[i], p) {
            return true;
        }
        i += 1;
    }
    false
}

/// One named detail of an event.
fn detail(key: &str, value: GenericValue) -> (r: (String, GenericValue))
    ensures
        r.0@ == key@,
        r.1 == value,
{
    (key.to_owned(), value)
}

impl Ledger {
    /// A ledger with no tokens, no approvals and an empty log.
    pub fn new(custodians: Vec<candid::Principal>, now: u64) -> (r: Result<Ledger, NftError>)
        ensures
            custodians@.len() == 0 <==> r is Err,
            r matches Ok(l) ==> {
                &&& l.wf()
                &&& l.token_seq().len() == 0
                &&& l.approval_seq().len() == 0
                &&& l.tx_seq().len() == 0
                &&& l.custodian_seq() == custodians@
                &&& l.meta().created_at == now
                &&& l.meta().upgraded_at == now
                &&& l.meta().logo is None
                &&& l.meta().name is None
                &&& l.meta().symbol is None
            },
    {
        if custodians.len() == 0 {
            return Err(NftError::Other("the custodian set cannot be empty".to_owned()));
        }
        let metadata = Metadata {
            created_at: now,
            custodians,
            logo: None,
            name: None,
            symbol: None,
            upgraded_at: now,
        };
        Ok(Ledger { metadata, tokens: Vec::new(), approvals: Vec::new(), transactions: Vec::new() })
    }


    /// Common part of every change of one record: identifiers, other records and the
    /// rest of the state stay as they were.
    pub open spec fn record_changed(&self, other: &Ledger, i: int, t: TokenMetadata) -> bool {
        &&& 0 <= i < other.token_seq().len()
        &&& self.token_seq() == other.token_seq().update(i, t)
        &&& self.approval_seq() == other.approval_seq()
        &&& self.tx_seq() == other.tx_seq()
        &&& self.meta() == other.meta()
        &&& forall|id: TokenIdentifier| #[trigger]
            self.token(id) == if id == t.token_identifier {
                Some(t)
            } else {
                other.token(id)
            }
    }

    /// The record `id` of `other` became `t`, and every other record stayed as it was.
    pub open spec fn updated(&self, other: &Ledger, id: TokenIdentifier, t: TokenMetadata) -> bool {
        &&& exists|i: int|
            lookup(other.token_seq(), id) == Some(i) && self.token_seq() == other.token_seq().update(
                i,
                t,
            )
        &&& self.token(id) == Some(t)
        &&& forall|x: TokenIdentifier| x != id ==> #[trigger] self.token(x) == other.token(x)
    }

    proof fn lemma_updated(&self, mid: &Ledger, other: &Ledger, i: int, id: TokenIdentifier)
        requires
            lookup(other.token_seq(), id) == Some(i),
            mid.record_changed(other, i, mid.token_seq()[i]),
            mid.token_seq()[i].token_identifier == id,
            self.token_seq() == mid.token_seq(),
        ensures
            self.updated(other, id, mid.token_seq()[i]),
            other.token(id) == Some(other.token_seq()[i]),
    {
        assert forall|x: TokenIdentifier| x != id implies #[trigger] self.token(x) == other.token(
            x,
        ) by {
            assert(mid.token(x) == other.token(x));
        }
        assert(mid.token(id) == Some(mid.token_seq()[i]));
    }

    proof fn lemma_record_changed(&self, other: &Ledger, i: int, t: TokenMetadata)
        requires
            other.wf(),
            0 <= i < other.token_seq().len(),
            t.token_identifier == other.token_seq()[i].token_identifier,
            record_consistent(t),
            self.token_seq() == other.token_seq().update(i, t),
            self.approval_seq() == other.approval_seq(),
            self.tx_seq() == other.tx_seq(),
            self.meta() == other.meta(),
        ensures
            self.wf(),
            self.record_changed(other, i, t),
    {
        assert forall|id: TokenIdentifier| #[trigger]
            self.token(id) == if id == t.token_identifier {
                Some(t)
            } else {
                other.token(id)
            } by {
            lemma_lookup_update(other.token_seq(), i, t, id);
        }
    }

    fn set_transferred(&mut self, i: usize, to: candid::Principal, by: candid::Principal, now: u64)
        requires
            old(self).wf(),
            i < old(self).token_seq().len(),
            old(self).token_seq()[i as int].owner is Some,
        ensures
            final(self).wf(),
            final(self).record_changed(
                old(self),
                i as int,
                transferred(old(self).token_seq()[i as int], to, by, now),
            ),
    {
        let ghost before = *self;
        self.tokens[i].owner = Some(to);
        self.tokens[i].operator = None;
        self.tokens[i].transferred_by = Some(by);
        self.tokens[i].transferred_at = Some(now);
        proof {
            let t = transferred(before.tokens@[i as int], to, by, now);
            assert(self.tokens@ =~= before.tokens@.update(i as int, t));
            self.lemma_record_changed(&before, i as int, t);
        }
    }

    fn set_approved(&mut self, i: usize, op: candid::Principal, by: candid::Principal, now: u64)
        requires
            old(self).wf(),
            i < old(self).token_seq().len(),
            old(self).token_seq()[i as int].owner is Some,
        ensures
            final(self).wf(),
            final(self).record_changed(
                old(self),
                i as int,
                approved_to(old(self).token_seq()[i as int], op, by, now),
            ),
    {
        let ghost before = *self;
        self.tokens[i].operator = Some(op);
        self.tokens[i].approved_by = Some(by);
        self.tokens[i].approved_at = Some(now);
        proof {
            let t = approved_to(before.tokens@[i as int], op, by, now);
            assert(self.tokens@ =~= before.tokens@.update(i as int, t));
            self.lemma_record_changed(&before, i as int, t);
        }
    }

    fn set_burned(&mut self, i: usize, by: candid::Principal, now: u64)
        requires
            old(self).wf(),
            i < old(self).token_seq().len(),
        ensures
            final(self).wf(),
            final(self).record_changed(
                old(self),
                i as int,
                burned(old(self).token_seq()[i as int], by, now),
            ),
    {
        let ghost before = *self;
        self.tokens[i].owner = None;
        self.tokens[i].operator = None;
        self.tokens[i].is_burned = true;
        self.tokens[i].burned_by = Some(by);
        self.tokens[i].burned_at = Some(now);
        proof {
            let t = burned(before.tokens@[i as int], by, now);
            assert(self.tokens@ =~= before.tokens@.update(i as int, t));
            self.lemma_record_changed(&before, i as int, t);
        }
    }

    /// Index of the record with identifier `id`.
    fn find_token(&self, id: &TokenIdentifier) -> (r: Option<usize>)
        requires
            self.wf(),
        ensures
            match r {
                Some(i) => lookup(self.token_seq(), *id) == Some(i as int),
                None => lookup(self.token_seq(), *id) is None,
            },
    {
        let mut i: usize = 0;
        while i < self.tokens.len()
            invariant
                self.wf(),
                i <= self.tokens.len(),
                forall|j: int| 0 <= j < i ==> self.tokens@[j].token_identifier != *id,
            decreases self.tokens.len() - i,
        {
            if nat_eq(&self.tokens[i].token_identifier, id) {
                proof {
                    lemma_lookup_at(self.tokens@, *id, i as int);
                }
                return Some(i);
            }
            i += 1;
        }
        proof {
            lemma_lookup_absent(self.tokens@, *id);
        }
        None
    }

    /// Appends an event and returns its transaction id.
    fn append(&mut self, event: TxEvent) -> (r: u64)
        ensures
            r as int == old(self).tx_seq().len(),
            final(self).tx_seq() == old(self).tx_seq().push(event),
            final(self).token_seq() == old(self).token_seq(),
            final(self).approval_seq() == old(self).approval_seq(),
            final(self).meta() == old(self).meta(),
    {
        let id = self.transactions.len() as u64;
        self.transactions.push(event);
        id
    }

    /// Why `mint` would fail, if it would.
    pub open spec fn mint_error(&self, caller: candid::Principal, id: TokenIdentifier) -> Option<
        NftError,
    > {
        if !self.is_custodian(caller) {
            Some(NftError::UnauthorizedOwner)
        } else if self.token(id) is Some {
            Some(NftError::ExistedNFT)
        } else {
            None
        }
    }

    /// Mints token `id` for `to` with the given properties; the caller must be a custodian.
    pub fn mint(
        &mut self,
        caller: candid::Principal,
        to: candid::Principal,
        id: TokenIdentifier,
        properties: Vec<(String, GenericValue)>,
        now: u64,
    ) -> (r: Result<u64, NftError>)
        requires
            old(self).wf(),
        ensures
            final(self).wf(),
            match r {
                Err(e) => {
                    &&& old(self).mint_error(caller, id) == Some(e)
                    &&& *final(self) == *old(self)
                },
                Ok(tx) => {
                    &&& old(self).mint_error(caller, id) is None
                    &&& tx as int == old(self).tx_seq().len()
                    &&& final(self).logged_after(old(self))
                    &&& event_is(
                        final(self).tx_seq().last(),
                        caller,
                        "mint"@,
                        now,
                        seq![
                            ("to"@, GenericValue::Principal(to)),
                            ("token_identifier"@, GenericValue::NatContent(id)),
                        ],
                    )
                    &&& final(self).approval_seq() == old(self).approval_seq()
                    &&& final(self).token_seq() == old(self).token_seq().push(
                        (TokenMetadata {
                            approved_at: None,
                            approved_by: None,
                            burned_at: None,
                            burned_by: None,
                            is_burned: false,
                            minted_at: now,
                            minted_by: caller,
                            operator: None,
                            owner: Some(to),
                            properties,
                            token_identifier: id,
                            transferred_at: None,
                            transferred_by: None,
                        }),
                    )
                    &&& final(self).token(id) == Some(final(self).token_seq().last())
                },
            },
    {
        if !contains_principal(&self.metadata.custodians, &caller) {
            return Err(NftError::UnauthorizedOwner);
        }
        if self.find_token(&id).is_some() {
            return Err(NftError::ExistedNFT);
        }
        let detail_id = id.clone();
        let token = TokenMetadata {
            approved_at: None,
            approved_by: None,
            burned_at: None,
            burned_by: None,
            is_burned: false,
            minted_at: now,
            minted_by: caller,
            operator: None,
            owner: Some(to),
            properties,
            token_identifier: id,
            transferred_at: None,
            transferred_by: None,
        };
        proof {
            lemma_lookup_absent(self.tokens@, id);
        }
        self.tokens.push(token);
        let mut details: Vec<(String, GenericValue)> = Vec::new();
        details.push(detail("to", GenericValue::Principal(to)));
        details.push(detail("token_identifier", GenericValue::NatContent(detail_id)));
        let event = TxEvent { caller, details, operation: "mint".to_owned(), time: now };
        let tx = self.append(event);
        proof {
            lemma_lookup_at(self.tokens@, id, self.tokens@.len() - 1);
        }
        Ok(tx)
    }

    /// Why `transfer` would fail, if it would.
    pub open spec fn transfer_error(
        &self,
        caller: candid::Principal,
        to: candid::Principal,
        id: TokenIdentifier,
    ) -> Option<NftError> {
        if to == caller {
            Some(NftError::SelfTransfer)
        } else {
            match self.token(id) {
                None => Some(NftError::TokenNotFound),
                Some(t) => if t.owner != Some(caller) {
                    Some(NftError::UnauthorizedOwner)
                } else {
                    None
                },
            }
        }
    }

    /// Sends the caller's token `id` to `to`.
    pub fn transfer(
        &mut self,
        caller: candid::Principal,
        to: candid::Principal,
        id: TokenIdentifier,
        now: u64,
    ) -> (r: Result<u64, NftError>)
        requires
            old(self).wf(),
        ensures
            final(self).wf(),
            match r {
                Err(e) => {
                    &&& old(self).transfer_error(caller, to, id) == Some(e)
                    &&& *final(self) == *old(self)
                },
                Ok(tx) => {
                    &&& old(self).transfer_error(caller, to, id) is None
                    &&& tx as int == old(self).tx_seq().len()
                    &&& final(self).logged_after(old(self))
                    &&& event_is(
                        final(self).tx_seq().last(),
                        caller,
                        "transfer"@,
                        now,
                        seq![
                            ("to"@, GenericValue::Principal(to)),
                            ("token_identifier"@, GenericValue::NatContent(id)),
                        ],
                    )
                    &&& final(self).approval_seq() == old(self).approval_seq()
                    &&& final(self).updated(
                        old(self),
                        id,
                        transferred(old(self).token(id).unwrap(), to, caller, now),
                    )
                },
            },
    {
        if principal_eq(&to, &caller) {
            return Err(NftError::SelfTransfer);
        }
        let i = match self.find_token(&id) {
            None => return Err(NftError::TokenNotFound),
            Some(i) => i,
        };
        if !is_principal(&self.tokens[i].owner, &caller) {
            return Err(NftError::UnauthorizedOwner);
        }
        let ghost before = *self;
        let detail_id = id.clone();
        self.set_transferred(i, to, caller, now);
        let ghost mid = *self;
        let mut details: Vec<(String, GenericValue)> = Vec::new();
        details.push(detail("to", GenericValue::Principal(to)));
        details.push(detail("token_identifier", GenericValue::NatContent(detail_id)));
        let event = TxEvent { caller, details, operation: "transfer".to_owned(), time: now };
        let tx = self.append(event);
        proof {
            self.lemma_updated(&mid, &before, i as int, id);
        }
        Ok(tx)
    }

    /// Why `transfer_from` would fail, if it would.
    pub open spec fn transfer_from_error(
        &self,
        caller: candid::Principal,
        owner: candid::Principal,
        to: candid::Principal,
        id: TokenIdentifier,
    ) -> Option<NftError> {
        if to == owner {
            Some(NftError::SelfTransfer)
        } else {
            match self.token(id) {
                None => Some(NftError::TokenNotFound),
                Some(t) => if !(caller == owner || t.operator == Some(caller) || self.approved(
                    owner,
                    caller,
                )) {
                    Some(NftError::UnauthorizedOperator)
                } else if t.owner != Some(owner) {
                    Some(NftError::OwnerNotFound)
                } else {
                    None
                },
            }
        }
    }

    /// Moves token `id` from `owner` to `to` on behalf of `caller`, who is the owner,
    /// the token's operator, or an operator approved for all of the owner's tokens.
    pub fn transfer_from(
        &mut self,
        caller: candid::Principal,
        owner: candid::Principal,
        to: candid::Principal,
        id: TokenIdentifier,
        now: u64,
    ) -> (r: Result<u64, NftError>)
        requires
            old(self).wf(),
        ensures
            final(self).wf(),
            match r {
                Err(e) => {
                    &&& old(self).transfer_from_error(caller, owner, to, id) == Some(e)
                    &&& *final(self) == *old(self)
                },
                Ok(tx) => {
                    &&& old(self).transfer_from_error(caller, owner, to, id) is None
                    &&& tx as int == old(self).tx_seq().len()
                    &&& final(self).logged_after(old(self))
                    &&& event_is(
                        final(self).tx_seq().last(),
                        caller,
                        "transferFrom"@,
                        now,
                        seq![
                            ("owner"@, GenericValue::Principal(owner)),
                            ("to"@, GenericValue::Principal(to)),
                            ("token_identifier"@, GenericValue::NatContent(id)),
                        ],
                    )
                    &&& final(self).approval_seq() == old(self).approval_seq()
                    &&& final(self).updated(
                        old(self),
                        id,
                        transferred(old(self).token(id).unwrap(), to, caller, now),
                    )
                },
            },
    {
        if principal_eq(&to, &owner) {
            return Err(NftError::SelfTransfer);
        }
        let i = match self.find_token(&id) {
            None => return Err(NftError::TokenNotFound),
            Some(i) => i,
        };
        let authorized = principal_eq(&caller, &owner) || is_principal(
            &self.tokens[i].operator,
            &caller,
        ) || self.find_approval(&owner, &caller).is_some();
        if !authorized {
            return Err(NftError::UnauthorizedOperator);
        }
        if !is_principal(&self.tokens[i].owner, &owner) {
            return Err(NftError::OwnerNotFound);
        }
        let ghost before = *self;
        let detail_id = id.clone();
        self.set_transferred(i, to, caller, now);
        let ghost mid = *self;
        let mut details: Vec<(String, GenericValue)> = Vec::new();
        details.push(detail("owner", GenericValue::Principal(owner)));
        details.push(detail("to", GenericValue::Principal(to)));
        details.push(detail("token_identifier", GenericValue::NatContent(detail_id)));
        let event = TxEvent { caller, details, operation: "transferFrom".to_owned(), time: now };
        let tx = self.append(event);
        proof {
            self.lemma_updated(&mid, &before, i as int, id);
        }
        Ok(tx)
    }

    /// Why `approve` would fail, if it would.
    pub open spec fn approve_error(
        &self,
        caller: candid::Principal,
        operator: candid::Principal,
        id: TokenIdentifier,
    ) -> Option<NftError> {
        match self.token(id) {
            None => Some(NftError::TokenNotFound),
            Some(t) => if t.owner != Some(caller) {
                Some(NftError::UnauthorizedOwner)
            } else if operator == caller {
                Some(NftError::SelfApprove)
            } else {
                None
            },
        }
    }

    /// Makes `operator` the single-token operator of the caller's token `id`.
    pub fn approve(
        &mut self,
        caller: candid::Principal,
        operator: candid::Principal,
        id: TokenIdentifier,
        now: u64,
    ) -> (r: Result<u64, NftError>)
        requires
            old(self).wf(),
        ensures
            final(self).wf(),
            match r {
                Err(e) => {
                    &&& old(self).approve_error(caller, operator, id) == Some(e)
                    &&& *final(self) == *old(self)
                },
                Ok(tx) => {
                    &&& old(self).approve_error(caller, operator, id) is None
                    &&& tx as int == old(self).tx_seq().len()
                    &&& final(self).logged_after(old(self))
                    &&& event_is(
                        final(self).tx_seq().last(),
                        caller,
                        "approve"@,
                        now,
                        seq![
                            ("operator"@, GenericValue::Principal(operator)),
                            ("token_identifier"@, GenericValue::NatContent(id)),
                        ],
                    )
                    &&& final(self).approval_seq() == old(self).approval_seq()
                    &&& final(self).updated(
                        old(self),
                        id,
                        approved_to(old(self).token(id).unwrap(), operator, caller, now),
                    )
                },
            },
    {
        let i = match self.find_token(&id) {
            None => return Err(NftError::TokenNotFound),
            Some(i) => i,
        };
        if !is_principal(&self.tokens[i].owner, &caller) {
            return Err(NftError::UnauthorizedOwner);
        }
        if principal_eq(&operator, &caller) {
            return Err(NftError::SelfApprove);
        }
        let ghost before = *self;
        let detail_id = id.clone();
        self.set_approved(i, operator, caller, now);
        let ghost mid = *self;
        let mut details: Vec<(String, GenericValue)> = Vec::new();
        details.push(detail("operator", GenericValue::Principal(operator)));
        details.push(detail("token_identifier", GenericValue::NatContent(detail_id)));
        let event = TxEvent { caller, details, operation: "approve".to_owned(), time: now };
        let tx = self.append(event);
        proof {
            self.lemma_updated(&mid, &before, i as int, id);
        }
        Ok(tx)
    }

    /// Why `burn` would fail, if it would.
    pub open spec fn burn_error(&self, caller: candid::Principal, id: TokenIdentifier) -> Option<
        NftError,
    > {
        match self.token(id) {
            None => Some(NftError::TokenNotFound),
            Some(t) => if t.owner != Some(caller) {
                Some(NftError::UnauthorizedOwner)
            } else {
                None
            },
        }
    }

    /// Burns the caller's token `id`: it keeps its record and counts towards the supply,
    /// but has no owner from now on.
    pub fn burn(&mut self, caller: candid::Principal, id: TokenIdentifier, now: u64) -> (r: Result<
        u64,
        NftError,
    >)
        requires
            old(self).wf(),
        ensures
            final(self).wf(),
            match r {
                Err(e) => {
                    &&& old(self).burn_error(caller, id) == Some(e)
                    &&& *final(self) == *old(self)
                },
                Ok(tx) => {
                    &&& old(self).burn_error(caller, id) is None
                    &&& tx as int == old(self).tx_seq().len()
                    &&& final(self).logged_after(old(self))
                    &&& event_is(
                        final(self).tx_seq().last(),
                        caller,
                        "burn"@,
                        now,
                        seq![("token_identifier"@, GenericValue::NatContent(id))],
                    )
                    &&& final(self).approval_seq() == old(self).approval_seq()
                    &&& final(self).updated(
                        old(self),
                        id,
                        burned(old(self).token(id).unwrap(), caller, now),
                    )
                },
            },
    {
        let i = match self.find_token(&id) {
            None => return Err(NftError::TokenNotFound),
            Some(i) => i,
        };
        if !is_principal(&self.tokens[i].owner, &caller) {
            return Err(NftError::UnauthorizedOwner);
        }
        let ghost before = *self;
        let detail_id = id.clone();
        self.set_burned(i, caller, now);
        let ghost mid = *self;
        let mut details: Vec<(String, GenericValue)> = Vec::new();
        details.push(detail("token_identifier", GenericValue::NatContent(detail_id)));
        let event = TxEvent { caller, details, operation: "burn".to_owned(), time: now };
        let tx = self.append(event);
        proof {
            self.lemma_updated(&mid, &before, i as int, id);
        }
        Ok(tx)
    }

    /// Index of the approval of `operator` for all of `owner`'s tokens.
    fn find_approval(&self, owner: &candid::Principal, operator: &candid::Principal) -> (r: Option<
        usize,
    >)
        ensures
            match r {
                Some(k) => k < self.approval_seq().len() && self.approval_seq()[k as int] == (
                    *owner,
                    *operator,
                ),
                None => !self.approval_seq().contains((*owner, *operator)),
            },
    {
        let mut k: usize = 0;
        while k < self.approvals.len()
            invariant
                k <= self.approvals.len(),
                forall|j: int| 0 <= j < k ==> self.approvals@[j] != (*owner, *operator),
            decreases self.approvals.len() - k,
        {
            if principal_eq(&self.approvals[k].0, owner) && principal_eq(
                &self.approvals[k].1,
                operator,
            ) {
                return Some(k);
            }
            k += 1;
        }
        None
    }

    /// Whether `operator` may move every token of `owner`.
    pub fn is_approved_for_all(&self, owner: candid::Principal, operator: candid::Principal) -> (r:
        bool)
        ensures
            r == self.approved(owner, operator),
    {
        self.find_approval(&owner, &operator).is_some()
    }

    /// Grants or withdraws `operator`'s right to move every token of the caller.
    pub fn set_approval_for_all(
        &mut self,
        caller: candid::Principal,
        operator: candid::Principal,
        approved: bool,
        now: u64,
    ) -> (r: Result<u64, NftError>)
        requires
            old(self).wf(),
        ensures
            final(self).wf(),
            (r is Err) <==> operator == caller,
            match r {
                Err(e) => {
                    &&& e == NftError::SelfApprove
                    &&& *final(self) == *old(self)
                },
                Ok(tx) => {
                    &&& tx as int == old(self).tx_seq().len()
                    &&& final(self).logged_after(old(self))
                    &&& event_is(
                        final(self).tx_seq().last(),
                        caller,
                        "approveAll"@,
                        now,
                        seq![
                            ("operator"@, GenericValue::Principal(operator)),
                            ("is_approved"@, GenericValue::BoolContent(approved)),
                        ],
                    )
                    &&& final(self).token_seq() == old(self).token_seq()
                    &&& forall|o: candid::Principal, p: candid::Principal| #[trigger]
                        final(self).approved(o, p) == if o == caller && p == operator {
                            approved
                        } else {
                            old(self).approved(o, p)
                        }
                },
            },
    {
        if principal_eq(&operator, &caller) {
            return Err(NftError::SelfApprove);
        }
        let ghost before = self.approvals@;
        match self.find_approval(&caller, &operator) {
            Some(k) => {
                if !approved {
                    self.approvals.remove(k);
                    proof {
                        assert forall|o: candid::Principal, p: candid::Principal|
                            self.approvals@.contains((o, p)) == if o == caller && p == operator {
                                false
                            } else {
                                before.contains((o, p))
                            } by {
                            if self.approvals@.contains((o, p)) {
                                let j = choose|j: int|
                                    0 <= j < self.approvals@.len() && self.approvals@[j] == (o, p);
                                if j < k {
                                    assert(before[j] == (o, p));
                                } else {
                                    assert(before[j + 1] == (o, p));
                                }
                            } else if before.contains((o, p)) && (o, p) != (caller, operator) {
                                let j = choose|j: int|
                                    0 <= j < before.len() && before[j] == (o, p);
                                if j < k {
                                    assert(self.approvals@[j] == (o, p));
                                } else {
                                    assert(self.approvals@[j - 1] == (o, p));
                                }
                            }
                        }
                    }
                }
            },
            None => {
                if approved {
                    self.approvals.push((caller, operator));
                    proof {
                        assert forall|o: candid::Principal, p: candid::Principal|
                            self.approvals@.contains((o, p)) == if o == caller && p == operator {
                                true
                            } else {
                                before.contains((o, p))
                            } by {
                            if before.contains((o, p)) {
                                let j = choose|j: int|
                                    0 <= j < before.len() && before[j] == (o, p);
                                assert(self.approvals@[j] == (o, p));
                            }
                            if self.approvals@.contains((o, p)) && (o, p) != (caller, operator) {
                                let j = choose|j: int|
                                    0 <= j < self.approvals@.len() && self.approvals@[j] == (o, p);
                                assert(before[j] == (o, p));
                            }
                            if o == caller && p == operator {
                                assert(self.approvals@[before.len() as int] == (o, p));
                            }
                        }
                    }
                }
            },
        }
        let mut details: Vec<(String, GenericValue)> = Vec::new();
        details.push(detail("operator", GenericValue::Principal(operator)));
        details.push(detail("is_approved", GenericValue::BoolContent(approved)));
        let event = TxEvent { caller, details, operation: "approveAll".to_owned(), time: now };
        let tx = self.append(event);
        Ok(tx)
    }

    /// Identifiers of the tokens that `p` holds, as owner or as operator.
    fn held_identifiers(&self, p: &candid::Principal, by_operator: bool) -> (r: Vec<
        TokenIdentifier,
    >)
        ensures
            r@ == held_ids(self.token_seq(), *p, by_operator),
    {
        let mut r: Vec<TokenIdentifier> = Vec::new();
        let mut i: usize = 0;
        while i < self.tokens.len()
            invariant
                i <= self.tokens.len(),
                r@ == held_ids(self.tokens@.take(i as int), *p, by_operator),
            decreases self.tokens.len() - i,
        {
            let t = &self.tokens[i];
            let h = if by_operator {
                &t.operator
            } else {
                &t.owner
            };
            if is_principal(h, p) {
                r.push(t.token_identifier.clone());
            }
            proof {
                assert(self.tokens@.take(i + 1).drop_last() =~= self.tokens@.take(i as int));
            }
            i += 1;
        }
        proof {
            assert(self.tokens@.take(i as int) =~= self.tokens@);
        }
        r
    }

    /// The records of the tokens that `p` holds, as owner or as operator.
    fn held_metadata(&self, p: &candid::Principal, by_operator: bool) -> (r: Vec<&TokenMetadata>)
        ensures
            r@.len() == held_records(self.token_seq(), *p, by_operator).len(),
            forall|k: int|
                0 <= k < r@.len() ==> *#[trigger] r@[k] == held_records(
                    self.token_seq(),
                    *p,
                    by_operator,
                )[k],
    {
        let mut r: Vec<&TokenMetadata> = Vec::new();
        let mut i: usize = 0;
        while i < self.tokens.len()
            invariant
                i <= self.tokens.len(),
                r@.len() == held_records(self.tokens@.take(i as int), *p, by_operator).len(),
                forall|k: int|
                    0 <= k < r@.len() ==> *#[trigger] r@[k] == held_records(
                        self.tokens@.take(i as int),
                        *p,
                        by_operator,
                    )[k],
            decreases self.tokens.len() - i,
        {
            let t = &self.tokens[i];
            let h = if by_operator {
                &t.operator
            } else {
                &t.owner
            };
            if is_principal(h, p) {
                r.push(t);
            }
            proof {
                assert(self.tokens@.take(i + 1).drop_last() =~= self.tokens@.take(i as int));
            }
            i += 1;
        }
        proof {
            assert(self.tokens@.take(i as int) =~= self.tokens@);
        }
        r
    }

    /// The record of token `id`.
    pub fn token_metadata(&self, id: TokenIdentifier) -> (r: Result<&TokenMetadata, NftError>)
        requires
            self.wf(),
        ensures
            match self.token(id) {
                None => r == Err::<&TokenMetadata, NftError>(NftError::TokenNotFound),
                Some(t) => r matches Ok(m) && *m == t,
            },
    {
        match self.find_token(&id) {
            None => Err(NftError::TokenNotFound),
            Some(i) => Ok(&self.tokens[i]),
        }
    }

    /// The owner of token `id`: `None` once it is burned.
    pub fn owner_of(&self, id: TokenIdentifier) -> (r: Result<Option<candid::Principal>, NftError>)
        requires
            self.wf(),
        ensures
            match self.token(id) {
                None => r == Err::<Option<candid::Principal>, NftError>(NftError::TokenNotFound),
                Some(t) => r == Ok::<Option<candid::Principal>, NftError>(t.owner),
            },
    {
        match self.find_token(&id) {
            None => Err(NftError::TokenNotFound),
            Some(i) => Ok(self.tokens[i].owner),
        }
    }

    /// The single-token operator of token `id`, if it has one.
    pub fn operator_of(&self, id: TokenIdentifier) -> (r: Result<
        Option<candid::Principal>,
        NftError,
    >)
        requires
            self.wf(),
        ensures
            match self.token(id) {
                None => r == Err::<Option<candid::Principal>, NftError>(NftError::TokenNotFound),
                Some(t) => r == Ok::<Option<candid::Principal>, NftError>(t.operator),
            },
    {
        match self.find_token(&id) {
            None => Err(NftError::TokenNotFound),
            Some(i) => Ok(self.tokens[i].operator),
        }
    }

    /// How many tokens `owner` holds; an owner of none is not known.
    pub fn balance_of(&self, owner: candid::Principal) -> (r: Result<u64, NftError>)
        ensures
            ({
                let n = held_ids(self.token_seq(), owner, false).len();
                if n == 0 {
                    r == Err::<u64, NftError>(NftError::OwnerNotFound)
                } else {
                    r == Ok::<u64, NftError>(n as u64)
                }
            }),
    {
        let ids = self.held_identifiers(&owner, false);
        if ids.len() == 0 {
            Err(NftError::OwnerNotFound)
        } else {
            Ok(ids.len() as u64)
        }
    }

    /// Identifiers of the tokens that `owner` holds, in minting order.
    pub fn owner_token_identifiers(&self, owner: candid::Principal) -> (r: Result<
        Vec<TokenIdentifier>,
        NftError,
    >)
        ensures
            ({
                let ids = held_ids(self.token_seq(), owner, false);
                match r {
                    Err(e) => ids.len() == 0 && e == NftError::OwnerNotFound,
                    Ok(v) => ids.len() > 0 && v@ == ids,
                }
            }),
    {
        let ids = self.held_identifiers(&owner, false);
        if ids.len() == 0 {
            Err(NftError::OwnerNotFound)
        } else {
            Ok(ids)
        }
    }

    /// Identifiers of the tokens whose single-token operator is `operator`, in minting order.
    pub fn operator_token_identifiers(&self, operator: candid::Principal) -> (r: Result<
        Vec<TokenIdentifier>,
        NftError,
    >)
        ensures
            ({
                let ids = held_ids(self.token_seq(), operator, true);
                match r {
                    Err(e) => ids.len() == 0 && e == NftError::OperatorNotFound,
                    Ok(v) => ids.len() > 0 && v@ == ids,
                }
            }),
    {
        let ids = self.held_identifiers(&operator, true);
        if ids.len() == 0 {
            Err(NftError::OperatorNotFound)
        } else {
            Ok(ids)
        }
    }

    /// Records of the tokens that `owner` holds, in minting order.
    pub fn owner_token_metadata(&self, owner: candid::Principal) -> (r: Result<
        Vec<&TokenMetadata>,
        NftError,
    >)
        ensures
            ({
                let recs = held_records(self.token_seq(), owner, false);
                match r {
                    Err(e) => recs.len() == 0 && e == NftError::OwnerNotFound,
                    Ok(v) => recs.len() > 0 && v@.len() == recs.len() && forall|k: int|
                        0 <= k < recs.len() ==> *#[trigger] v@[k] == recs[k],
                }
            }),
    {
        let recs = self.held_metadata(&owner, false);
        if recs.len() == 0 {
            Err(NftError::OwnerNotFound)
        } else {
            Ok(recs)
        }
    }

    /// Records of the tokens whose single-token operator is `operator`, in minting order.
    pub fn operator_token_metadata(&self, operator: candid::Principal) -> (r: Result<
        Vec<&TokenMetadata>,
        NftError,
    >)
        ensures
            ({
                let recs = held_records(self.token_seq(), operator, true);
                match r {
                    Err(e) => recs.len() == 0 && e == NftError::OperatorNotFound,
                    Ok(v) => recs.len() > 0 && v@.len() == recs.len() && forall|k: int|
                        0 <= k < recs.len() ==> *#[trigger] v@[k] == recs[k],
                }
            }),
    {
        let recs = self.held_metadata(&operator, true);
        if recs.len() == 0 {
            Err(NftError::OperatorNotFound)
        } else {
            Ok(recs)
        }
    }

    /// The event with transaction id `tx`.
    pub fn transaction(&self, tx: u64) -> (r: Result<&TxEvent, NftError>)
        ensures
            tx < self.tx_seq().len() ==> (r matches Ok(e) && *e == self.tx_seq()[tx as int]),
            tx >= self.tx_seq().len() ==> r == Err::<&TxEvent, NftError>(NftError::TxNotFound),
    {
        if tx < self.transactions.len() as u64 {
            Ok(&self.transactions[tx as usize])
        } else {
            Err(NftError::TxNotFound)
        }
    }

    /// Number of events in the log.
    pub fn total_transactions(&self) -> (r: u64)
        ensures
            r == self.tx_seq().len(),
    {
        self.transactions.len() as u64
    }

    /// Number of tokens ever minted, burned ones included.
    pub fn total_supply(&self) -> (r: u64)
        ensures
            r == self.token_seq().len(),
    {
        self.tokens.len() as u64
    }

    /// Number of distinct principals that own at least one token.
    pub fn total_unique_holders(&self) -> (r: u64)
        ensures
            r == holder_set(self.token_seq()).len(),
    {
        let mut hs: Vec<candid::Principal> = Vec::new();
        let mut i: usize = 0;
        while i < self.tokens.len()
            invariant
                i <= self.tokens.len(),
                hs@.no_duplicates(),
                hs@.len() <= i,
                forall|p: candid::Principal|
                    hs@.contains(p) <==> #[trigger] holder_set(self.tokens@.take(i as int)).contains(
                        p,
                    ),
            decreases self.tokens.len() - i,
        {
            let ghost prev = hs@;
            if let Some(o) = &self.tokens[i].owner {
                if !contains_principal(&hs, o) {
                    hs.push(*o);
                }
            }
            proof {
                let t0 = self.tokens@.take(i as int);
                let t1 = self.tokens@.take(i + 1);
                assert forall|p: candid::Principal|
                    hs@.contains(p) <==> #[trigger] holder_set(t1).contains(p) by {
                    if hs@.contains(p) && !prev.contains(p) {
                        assert(t1[i as int].owner == Some(p));
                    }
                    if prev.contains(p) {
                        assert(holder_set(t0).contains(p));
                        let j = choose|j: int| 0 <= j < t0.len() && #[trigger] t0[j].owner == Some(p);
                        assert(t1[j] == t0[j]);
                        let k = choose|k: int| 0 <= k < prev.len() && prev[k] == p;
                        assert(hs@[k] == p);
                    }
                    if holder_set(t1).contains(p) {
                        let j = choose|j: int| 0 <= j < t1.len() && #[trigger] t1[j].owner == Some(p);
                        if j < i {
                            assert(t0[j] == t1[j]);
                            assert(holder_set(t0).contains(p));
                        } else if !prev.contains(p) {
                            assert(hs@[hs@.len() - 1] == p);
                        }
                    }
                }
            }
            i += 1;
        }
        proof {
            assert(self.tokens@.take(i as int) =~= self.tokens@);
            assert(hs@.to_set() =~= holder_set(self.tokens@));
            hs@.unique_seq_to_set();
        }
        hs.len() as u64
    }

    /// The figures of the ledger, with the cycle balance that the caller supplies.
    pub fn stats(&self, cycles: u64) -> (r: Stats)
        ensures
            r.cycles == cycles,
            r.total_supply == self.token_seq().len(),
            r.total_transactions == self.tx_seq().len(),
            r.total_unique_holders == holder_set(self.token_seq()).len(),
    {
        Stats {
            cycles,
            total_supply: self.total_supply(),
            total_transactions: self.total_transactions(),
            total_unique_holders: self.total_unique_holders(),
        }
    }

    /// The collection metadata.
    pub fn metadata(&self) -> (r: &Metadata)
        ensures
            *r == self.meta(),
    {
        &self.metadata
    }

    /// The logo, if one was set.
    pub fn logo(&self) -> (r: &Option<String>)
        ensures
            *r == self.meta().logo,
    {
        &self.metadata.logo
    }

    /// The collection name, if one was set.
    pub fn name(&self) -> (r: &Option<String>)
        ensures
            *r == self.meta().name,
    {
        &self.metadata.name
    }

    /// The collection symbol, if one was set.
    pub fn symbol(&self) -> (r: &Option<String>)
        ensures
            *r == self.meta().symbol,
    {
        &self.metadata.symbol
    }

    /// The principals allowed to mint and to administer the collection.
    pub fn custodians(&self) -> (r: &Vec<candid::Principal>)
        ensures
            r@ == self.custodian_seq(),
    {
        &self.metadata.custodians
    }

    /// Sets the logo; the caller must be a custodian.
    pub fn set_logo(&mut self, caller: candid::Principal, logo: String) -> (r: Result<(), NftError>)
        requires
            old(self).wf(),
        ensures
            final(self).wf(),
            match r {
                Err(e) => !old(self).is_custodian(caller) && e == NftError::UnauthorizedOwner
                    && *final(self) == *old(self),
                Ok(_) => old(self).is_custodian(caller) && final(self).meta() == (Metadata {
                    logo: Some(logo),
                    ..old(self).meta()
                }) && final(self).token_seq() == old(self).token_seq() && final(self).approval_seq()
                    == old(self).approval_seq() && final(self).tx_seq() == old(self).tx_seq(),
            },
    {
        if !contains_principal(&self.metadata.custodians, &caller) {
            return Err(NftError::UnauthorizedOwner);
        }
        self.metadata.logo = Some(logo);
        Ok(())
    }

    /// Sets the name; the caller must be a custodian.
    pub fn set_name(&mut self, caller: candid::Principal, name: String) -> (r: Result<(), NftError>)
        requires
            old(self).wf(),
        ensures
            final(self).wf(),
            match r {
                Err(e) => !old(self).is_custodian(caller) && e == NftError::UnauthorizedOwner
                    && *final(self) == *old(self),
                Ok(_) => old(self).is_custodian(caller) && final(self).meta() == (Metadata {
                    name: Some(name),
                    ..old(self).meta()
                }) && final(self).token_seq() == old(self).token_seq() && final(self).approval_seq()
                    == old(self).approval_seq() && final(self).tx_seq() == old(self).tx_seq(),
            },
    {
        if !contains_principal(&self.metadata.custodians, &caller) {
            return Err(NftError::UnauthorizedOwner);
        }
        self.metadata.name = Some(name);
        Ok(())
    }

    /// Sets the symbol; the caller must be a custodian.
    pub fn set_symbol(&mut self, caller: candid::Principal, symbol: String) -> (r: Result<
        (),
        NftError,
    >)
        requires
            old(self).wf(),
        ensures
            final(self).wf(),
            match r {
                Err(e) => !old(self).is_custodian(caller) && e == NftError::UnauthorizedOwner
                    && *final(self) == *old(self),
                Ok(_) => old(self).is_custodian(caller) && final(self).meta() == (Metadata {
                    symbol: Some(symbol),
                    ..old(self).meta()
                }) && final(self).token_seq() == old(self).token_seq() && final(self).approval_seq()
                    == old(self).approval_seq() && final(self).tx_seq() == old(self).tx_seq(),
            },
    {
        if !contains_principal(&self.metadata.custodians, &caller) {
            return Err(NftError::UnauthorizedOwner);
        }
        self.metadata.symbol = Some(symbol);
        Ok(())
    }

    /// Replaces the custodian set; the caller must be a custodian, and the new set
    /// must not be empty, since an empty one would leave nobody able to administer.
    pub fn set_custodians(&mut self, caller: candid::Principal, custodians: Vec<candid::Principal>) -> (r:
        Result<(), NftError>)
        requires
            old(self).wf(),
        ensures
            final(self).wf(),
            (r is Ok) <==> (old(self).is_custodian(caller) && custodians@.len() > 0),
            !old(self).is_custodian(caller) ==> r == Err::<(), NftError>(NftError::UnauthorizedOwner),
            old(self).is_custodian(caller) && custodians@.len() == 0 ==> r matches Err(
                NftError::Other(_),
            ),
            r is Err ==> *final(self) == *old(self),
            r is Ok ==> final(self).meta() == (Metadata { custodians, ..old(self).meta() })
                && final(self).token_seq() == old(self).token_seq() && final(self).approval_seq()
                == old(self).approval_seq() && final(self).tx_seq() == old(self).tx_seq(),
    {
        if !contains_principal(&self.metadata.custodians, &caller) {
            return Err(NftError::UnauthorizedOwner);
        }
        if custodians.len() == 0 {
            return Err(NftError::Other("the custodian set cannot be empty".to_owned()));
        }
        self.metadata.custodians = custodians;
        Ok(())
    }

    /// The interfaces that this ledger implements.
    pub fn supported_interfaces(&self) -> (r: Vec<SupportedInterface>)
        ensures
            r@ == seq![
                SupportedInterface::Approval,
                SupportedInterface::Burn,
                SupportedInterface::Mint,
                SupportedInterface::TransactionHistory,
            ],
    {
        let mut r: Vec<SupportedInterface> = Vec::new();
        r.push(SupportedInterface::Approval);
        r.push(SupportedInterface::Burn);
        r.push(SupportedInterface::Mint);
        r.push(SupportedInterface::TransactionHistory);
        proof {
            assert(r@ =~= seq![
                SupportedInterface::Approval,
                SupportedInterface::Burn,
                SupportedInterface::Mint,
                SupportedInterface::TransactionHistory,
            ]);
        }
        r
    }
}

} // verus!
