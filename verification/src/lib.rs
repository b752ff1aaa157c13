//! A tip-accounting ledger: balances are accumulated under a composite key
//! (server, reference type, reference id, token identifier), later reassigned
//! to a verified payee and disbursed through asynchronous external transfers.
//!
//! All ledger logic lives here and is verified.  The host environment (caller
//! identity, attached deposits, promise dispatch and promise outcomes) is out
//! of scope: every operation takes those as plain arguments and states in its
//! contract exactly how the ledger changes for each possible outcome.

use vstd::prelude::*;

pub mod account;
pub mod contract;
pub mod format;
pub mod laws;
pub mod pagination;
pub mod store;
pub mod strings;
pub mod types;
pub mod views;

verus! {

/// Reasons a ledger operation is rejected.  Validation and not-found errors
/// are returned synchronously with no state mutated; `TokenNotFound` is the
/// fatal signal a resolution handler reports when the external leg failed.
#[derive(Clone, Copy, Debug, PartialEq, Eq, Structural)]
pub enum TippingError {
    OnlyForNear,
    InsufficientBalance,
    TipsMustMoreThanMinimum,
    TipsBalanceNotExists,
    ReceiverNotExists,
    NothingToClaimed,
    Unauthorized,
    UnauthorizedAdmin,
    FailedParseTxFee,
    NotAnAccountId,
    TokenNotFound,
    ResultCountMismatch,
}

impl TippingError {
    /// The wording each rejection is reported with.
    pub open spec fn spec_message(self) -> Seq<char> {
        match self {
            TippingError::OnlyForNear => "OnlyForNear"@,
            TippingError::InsufficientBalance => "InsufficientBalance"@,
            TippingError::TipsMustMoreThanMinimum => "TipsMustMoreThanMinimum"@,
            TippingError::TipsBalanceNotExists => "TipsBalanceNotExists"@,
            TippingError::ReceiverNotExists => "ReceiverNotExists"@,
            TippingError::NothingToClaimed => "NothingToClaimed"@,
            TippingError::Unauthorized => "Unauthorized"@,
            TippingError::UnauthorizedAdmin => "UnauthorizedAdmin"@,
            TippingError::FailedParseTxFee => "FailedParseTxFee"@,
            TippingError::NotAnAccountId => "NotAnAccountId"@,
            TippingError::TokenNotFound => "TokenNotFound"@,
            TippingError::ResultCountMismatch => "ResultCountMismatch"@,
        }
    }

    pub fn message(&self) -> (r: &'static str)
        ensures
            r@ == self.spec_message(),
    {
        match self {
            TippingError::OnlyForNear => "OnlyForNear",
            TippingError::InsufficientBalance => "InsufficientBalance",
            TippingError::TipsMustMoreThanMinimum => "TipsMustMoreThanMinimum",
            TippingError::TipsBalanceNotExists => "TipsBalanceNotExists",
            TippingError::ReceiverNotExists => "ReceiverNotExists",
            TippingError::NothingToClaimed => "NothingToClaimed",
            TippingError::Unauthorized => "Unauthorized",
            TippingError::UnauthorizedAdmin => "UnauthorizedAdmin",
            TippingError::FailedParseTxFee => "FailedParseTxFee",
            TippingError::NotAnAccountId => "NotAnAccountId",
            TippingError::TokenNotFound => "TokenNotFound",
            TippingError::ResultCountMismatch => "ResultCountMismatch",
        }
    }
}

} // verus!
