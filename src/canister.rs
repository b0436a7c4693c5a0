use vstd::prelude::*;

verus! {

/// Collection-wide metadata.
#[derive(Clone, Debug)]
pub struct Metadata {
    pub created_at: u64,
    pub custodians: Vec<candid::Principal>,
    pub logo: Option<String>,
    pub name: Option<String>,
    pub symbol: Option<String>,
    pub upgraded_at: u64,
}

/// Figures derived from the ledger state.
#[derive(Clone, Debug)]
pub struct Stats {
    pub cycles: u64,
    pub total_supply: u64,
    pub total_transactions: u64,
    pub total_unique_holders: u64,
}

/// Interfaces that a registry may support.
#[derive(PartialEq, Eq, Debug, Clone, Copy, Structural)]
pub enum SupportedInterface {
    Approval,
    Burn,
    Mint,
    TransactionHistory,
}

/// Business errors of the ledger operations.
#[derive(Debug, Clone, PartialEq, Eq)]
pub enum NftError {
    SelfTransfer,
    TokenNotFound,
    TxNotFound,
    SelfApprove,
    OperatorNotFound,
    UnauthorizedOwner,
    UnauthorizedOperator,
    ExistedNFT,
    OwnerNotFound,
    Other(String),
}

} // verus!
