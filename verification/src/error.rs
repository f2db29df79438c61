//! Why a request is refused.

use vstd::prelude::*;

verus! {

/// Why a fixed-point operation has no result.
#[derive(Clone, Copy, Debug, PartialEq, Eq, Structural)]
pub enum MathError {
    MulDownOverflow,
    DivDownByZero,
    DivDownOverflow,
    DivUpByZero,
    DivUpOverflow,
    ComplementOutOfRange,
}

impl MathError {
    /// The words for this refusal.
    pub open spec fn text(self) -> Seq<char> {
        match self {
            MathError::MulDownOverflow => "FixedPoint::mul_down overflow"@,
            MathError::DivDownByZero => "FixedPoint::div_down by zero"@,
            MathError::DivDownOverflow => "FixedPoint::div_down overflow"@,
            MathError::DivUpByZero => "FixedPoint::div_up by zero"@,
            MathError::DivUpOverflow => "FixedPoint::div_up overflow"@,
            MathError::ComplementOutOfRange => "FixedPoint::complement out of range"@,
        }
    }

    /// Says in words what went wrong.
    pub fn message(&self) -> (words: String)
        ensures
            words@ == self.text(),
    {
        match self {
            MathError::MulDownOverflow => "FixedPoint::mul_down overflow".to_string(),
            MathError::DivDownByZero => "FixedPoint::div_down by zero".to_string(),
            MathError::DivDownOverflow => "FixedPoint::div_down overflow".to_string(),
            MathError::DivUpByZero => "FixedPoint::div_up by zero".to_string(),
            MathError::DivUpOverflow => "FixedPoint::div_up overflow".to_string(),
            MathError::ComplementOutOfRange => "FixedPoint::complement out of range".to_string(),
        }
    }
}

/// Why the connector refuses a request.
#[derive(Clone, Copy, Debug, PartialEq, Eq, Structural)]
pub enum AmmError {
    /// The account does not have the length of a v4 pool account.
    UnsupportedLayout,
    /// The account does not begin with the tag of a pool account.
    WrongDiscriminator,
    /// The account claims more tokens than it has room for.
    TooManyTokens,
    /// The amount is too small to bear a fee.
    ZeroFee,
    /// The fee rate asks for more than the amount.
    FeeExceedsAmount,
    /// The sale would go over the selloff cap.
    SelloffCapExceeded,
    /// The fee takes the whole amount.
    NothingAfterFee,
    /// The curve has no price.
    CurveRefused,
    /// The pool or its swaps are disabled.
    PoolDisabled,
    /// A quote for nothing was requested.
    ZeroAmount,
    /// The pool does not hold the token to be sold.
    InputMintNotInPool,
    /// The pool does not hold the token to be bought.
    OutputMintNotInPool,
    /// A token was to be sold for itself.
    SameMint,
    /// Neither the amount nor a smaller one that was tried has a price.
    NoViableQuote,
    /// The fetched accounts lack the pool.
    PoolAccountMissing,
    /// The pool does not hold the token to be swapped.
    SourceMintNotInPool,
    /// The pool does not hold the token to swap to.
    DestinationMintNotInPool,
    /// No active slot has the place of the token paid in.
    TokenInIndexOutOfBounds,
    /// No active slot has the place of the token paid out.
    TokenOutIndexOutOfBounds,
}

impl AmmError {
    /// The words for this refusal.
    pub open spec fn text(self) -> Seq<char> {
        match self {
            AmmError::UnsupportedLayout => "PoolState: not a v4 account (v3 pools must migrate)"@,
            AmmError::WrongDiscriminator => "PoolState: not a pool account"@,
            AmmError::TooManyTokens => "PoolState: token_count out of range"@,
            AmmError::ZeroFee => "apply_swap_fee: fee = 0"@,
            AmmError::FeeExceedsAmount => "apply_swap_fee: fee exceeds amount"@,
            AmmError::SelloffCapExceeded => "CubeAmm: max selloff exceeded"@,
            AmmError::NothingAfterFee => "CubeAmm: amount_in_after_fee = 0"@,
            AmmError::CurveRefused => "CubeAmm: curve refuses the amount"@,
            AmmError::PoolDisabled => "CubeAmm: pool disabled / swaps disabled"@,
            AmmError::ZeroAmount => "CubeAmm: zero amount"@,
            AmmError::InputMintNotInPool => "CubeAmm: input mint not in pool"@,
            AmmError::OutputMintNotInPool => "CubeAmm: output mint not in pool"@,
            AmmError::SameMint => "CubeAmm: input == output mint"@,
            AmmError::NoViableQuote => "CubeAmm: no viable quote at any sub-amount"@,
            AmmError::PoolAccountMissing => "CubeAmm: pool account missing from update map"@,
            AmmError::SourceMintNotInPool => "CubeAmm: source mint not in pool"@,
            AmmError::DestinationMintNotInPool => "CubeAmm: destination mint not in pool"@,
            AmmError::TokenInIndexOutOfBounds => "token_in_index OOB"@,
            AmmError::TokenOutIndexOutOfBounds => "token_out_index OOB"@,
        }
    }

    /// Says in words what went wrong.
    pub fn message(&self) -> (words: String)
        ensures
            words@ == self.text(),
    {
        match self {
            AmmError::UnsupportedLayout => "PoolState: not a v4 account (v3 pools must migrate)".to_string(),
            AmmError::WrongDiscriminator => "PoolState: not a pool account".to_string(),
            AmmError::TooManyTokens => "PoolState: token_count out of range".to_string(),
            AmmError::ZeroFee => "apply_swap_fee: fee = 0".to_string(),
            AmmError::FeeExceedsAmount => "apply_swap_fee: fee exceeds amount".to_string(),
            AmmError::SelloffCapExceeded => "CubeAmm: max selloff exceeded".to_string(),
            AmmError::NothingAfterFee => "CubeAmm: amount_in_after_fee = 0".to_string(),
            AmmError::CurveRefused => "CubeAmm: curve refuses the amount".to_string(),
            AmmError::PoolDisabled => "CubeAmm: pool disabled / swaps disabled".to_string(),
            AmmError::ZeroAmount => "CubeAmm: zero amount".to_string(),
            AmmError::InputMintNotInPool => "CubeAmm: input mint not in pool".to_string(),
            AmmError::OutputMintNotInPool => "CubeAmm: output mint not in pool".to_string(),
            AmmError::SameMint => "CubeAmm: input == output mint".to_string(),
            AmmError::NoViableQuote => "CubeAmm: no viable quote at any sub-amount".to_string(),
            AmmError::PoolAccountMissing => "CubeAmm: pool account missing from update map".to_string(),
            AmmError::SourceMintNotInPool => "CubeAmm: source mint not in pool".to_string(),
            AmmError::DestinationMintNotInPool => "CubeAmm: destination mint not in pool".to_string(),
            AmmError::TokenInIndexOutOfBounds => "token_in_index OOB".to_string(),
            AmmError::TokenOutIndexOutOfBounds => "token_out_index OOB".to_string(),
        }
    }
}

} // verus!
