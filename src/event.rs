use vstd::prelude::*;

use crate::data::GenericValue;

verus! {

/// One completed state-changing operation of the ledger.
#[derive(Debug)]
pub struct TxEvent {
    pub caller: candid::Principal,
    pub details: Vec<(String, GenericValue)>,
    pub operation: String,
    pub time: u64,
}

} // verus!
