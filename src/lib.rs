//! A registry of non-fungible tokens: an owned ledger state with its token store,
//! ownership and operator indices, blanket approvals and an append-only
//! transaction log, each operation validated before anything is changed.

mod canister;
mod data;
mod event;
mod laws;
mod ledger;
mod model;

pub use canister::{Metadata, NftError, Stats, SupportedInterface};
pub use data::{GenericValue, TokenIdentifier, TokenMetadata};
pub use event::TxEvent;
pub use ledger::Ledger;
pub use laws::{
    index_size, law_approval_query_stable, law_owned_supply, law_owner_after_burn,
    law_owner_after_transfer, law_tx_ids_sequential,
};
pub use model::{
    approved_to, burned, burned_count, event_is, held_ids, held_records, holder, holder_set,
    ids_unique, lookup, owned_count, record_consistent, transferred,
};
