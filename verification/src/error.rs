//! The failures a caller of the router can be told of.

use vstd::prelude::*;

verus! {

/// Every failure the router itself reports.
#[derive(Clone, Copy, Debug, PartialEq, Eq, Structural)]
pub enum MyErrorCode {
    ContractIsPaused,
    NotProfitable,
    ArithmeticError,
    UnauthorizedAccess,
    InvalidTokenAccount,
    InsufficientAccounts,
    InvalidDexType,
    TokenAccountNotFound,
    MintAccountNotFound,
    PDAAccountNotFound,
    AccountNotFound,
    InvalidProgramId,
    CpiError,
    AssociatedAccountNotFound,
}

impl MyErrorCode {
    /// The text shown to a caller for each failure.
    pub open spec fn message_text(self) -> Seq<char> {
        match self {
            MyErrorCode::ContractIsPaused => "Contract is paused by the admin."@,
            MyErrorCode::NotProfitable => "Final profitability check failed. Not enough wSOL returned."@,
            MyErrorCode::ArithmeticError => "An arithmetic operation overflowed."@,
            MyErrorCode::UnauthorizedAccess => "Unauthorized access. Only owner can perform this operation."@,
            MyErrorCode::InvalidTokenAccount => "Invalid token account mint does not match expected token mint."@,
            MyErrorCode::InsufficientAccounts => "Not enough remaining accounts provided."@,
            MyErrorCode::InvalidDexType => "Invalid DEX type specified."@,
            MyErrorCode::TokenAccountNotFound => "Token account not found in remaining accounts."@,
            MyErrorCode::MintAccountNotFound => "Mint account not found in remaining accounts."@,
            MyErrorCode::PDAAccountNotFound => "PDA account not found in remaining accounts."@,
            MyErrorCode::AccountNotFound => "Required account not found in remaining accounts."@,
            MyErrorCode::InvalidProgramId => "Invalid program ID format."@,
            MyErrorCode::CpiError => "CPI call failed."@,
            MyErrorCode::AssociatedAccountNotFound => "Associated token account not found in remaining accounts."@,
        }
    }

    /// The message of this failure.
    pub fn message(&self) -> (text: &'static str)
        ensures
            text@ == self.message_text(),
    {
        match self {
            MyErrorCode::ContractIsPaused => "Contract is paused by the admin.",
            MyErrorCode::NotProfitable => "Final profitability check failed. Not enough wSOL returned.",
            MyErrorCode::ArithmeticError => "An arithmetic operation overflowed.",
            MyErrorCode::UnauthorizedAccess => "Unauthorized access. Only owner can perform this operation.",
            MyErrorCode::InvalidTokenAccount => "Invalid token account mint does not match expected token mint.",
            MyErrorCode::InsufficientAccounts => "Not enough remaining accounts provided.",
            MyErrorCode::InvalidDexType => "Invalid DEX type specified.",
            MyErrorCode::TokenAccountNotFound => "Token account not found in remaining accounts.",
            MyErrorCode::MintAccountNotFound => "Mint account not found in remaining accounts.",
            MyErrorCode::PDAAccountNotFound => "PDA account not found in remaining accounts.",
            MyErrorCode::AccountNotFound => "Required account not found in remaining accounts.",
            MyErrorCode::InvalidProgramId => "Invalid program ID format.",
            MyErrorCode::CpiError => "CPI call failed.",
            MyErrorCode::AssociatedAccountNotFound => "Associated token account not found in remaining accounts.",
        }
    }
}

} // verus!
