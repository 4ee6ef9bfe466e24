use vstd::prelude::*;

verus! {

/// Why a transition was refused. A refused transition leaves every record as
/// it was.
#[derive(Clone, Copy, Debug, PartialEq, Eq, Structural)]
pub enum CustomError {
    /// The requested amount is zero.
    InvalidAmount,
    /// The withdrawal exceeds the recorded balance.
    InsufficientStake,
    /// A ledger field would leave the 64-bit range, or the reward divisor
    /// is zero.
    MathOverflow,
    /// The token program refused the transfer.
    TransferFailure,
    /// The mint cannot be made: the claim names a token other than the
    /// pool's reward token, in which case the token program is not asked,
    /// or the token program refused the mint.
    MintFailure,
    /// The caller is not the owner of the stake record.
    AuthorizationFailure,
}

impl CustomError {
    /// The text shown to a caller for this error.
    pub open spec fn spec_message(self) -> Seq<char> {
        match self {
            CustomError::InvalidAmount => "Invalid amount."@,
            CustomError::InsufficientStake => "Insufficient staked balance."@,
            CustomError::MathOverflow => "Math overflow."@,
            CustomError::TransferFailure => "Token transfer failed."@,
            CustomError::MintFailure => "Reward mint failed."@,
            CustomError::AuthorizationFailure => "Caller does not own the stake record."@,
        }
    }

    /// A stable, readable classification of the error.
    pub fn message(&self) -> (text: String)
        ensures
            text@ == self.spec_message(),
    {
        match self {
            CustomError::InvalidAmount => "Invalid amount.".to_string(),
            CustomError::InsufficientStake => "Insufficient staked balance.".to_string(),
            CustomError::MathOverflow => "Math overflow.".to_string(),
            CustomError::TransferFailure => "Token transfer failed.".to_string(),
            CustomError::MintFailure => "Reward mint failed.".to_string(),
            CustomError::AuthorizationFailure => "Caller does not own the stake record.".to_string(),
        }
    }
}

} // verus!
