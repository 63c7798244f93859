use vstd::prelude::*;
use crate::errors::ArenaError;

verus! {

/// Name length cap, in characters.
pub const MAX_NAME_LEN: usize = 32;

/// Strategy description length cap, in characters.
pub const MAX_STRATEGY_LEN: usize = 64;

/// Cap on the number of skill tags.
pub const MAX_SKILLS: usize = 8;

/// Risk tolerance scale ceiling.
pub const MAX_RISK_TOLERANCE: u8 = 10;

/// Drawdown bound ceiling: 100% in basis points.
pub const MAX_DRAWDOWN_BPS: u16 = 10000;

/// Trade size bound ceiling: 50% in basis points.
pub const MAX_TRADE_SIZE_BPS: u16 = 5000;

/// Creator fee ceiling: 30% in basis points.
pub const MAX_CREATOR_FEE_BPS: u16 = 3000;

/// The first registration parameter bound violated, checked in a fixed
/// order, or `None` when every parameter is in range.
pub open spec fn registration_error(
    name: Seq<char>,
    strategy: Seq<char>,
    skills_len: nat,
    risk_tolerance: u8,
    max_drawdown_bps: u16,
    max_trade_size_bps: u16,
    creator_fee_bps: u16,
) -> Option<ArenaError> {
    if name.len() > MAX_NAME_LEN {
        Some(ArenaError::InputTooLong)
    } else if strategy.len() > MAX_STRATEGY_LEN {
        Some(ArenaError::InputTooLong)
    } else if skills_len > MAX_SKILLS {
        Some(ArenaError::TooManyItems)
    } else if risk_tolerance > MAX_RISK_TOLERANCE {
        Some(ArenaError::InvalidRiskTolerance)
    } else if max_drawdown_bps > MAX_DRAWDOWN_BPS {
        Some(ArenaError::InvalidBasisPoints)
    } else if max_trade_size_bps > MAX_TRADE_SIZE_BPS {
        Some(ArenaError::InvalidBasisPoints)
    } else if creator_fee_bps > MAX_CREATOR_FEE_BPS {
        Some(ArenaError::FeeTooHigh)
    } else {
        None
    }
}

/// Bounds-checks the registration parameters, failing fast on the first
/// violation in the documented order.
pub fn validate_registration(
    name: &String,
    strategy: &String,
    skills: &Vec<String>,
    risk_tolerance: u8,
    max_drawdown_bps: u16,
    max_trade_size_bps: u16,
    creator_fee_bps: u16,
) -> (r: Result<(), ArenaError>)
    ensures
        ({
            let verdict = registration_error(
                name@,
                strategy@,
                skills@.len(),
                risk_tolerance,
                max_drawdown_bps,
                max_trade_size_bps,
                creator_fee_bps,
            );
            match r {
                Ok(()) => verdict is None,
                Err(e) => verdict == Some(e),
            }
        }),
{
    if name.as_str().unicode_len() > MAX_NAME_LEN {
        Err(ArenaError::InputTooLong)
    } else if strategy.as_str().unicode_len() > MAX_STRATEGY_LEN {
        Err(ArenaError::InputTooLong)
    } else if skills.len() > MAX_SKILLS {
        Err(ArenaError::TooManyItems)
    } else if risk_tolerance > MAX_RISK_TOLERANCE {
        Err(ArenaError::InvalidRiskTolerance)
    } else if max_drawdown_bps > MAX_DRAWDOWN_BPS {
        Err(ArenaError::InvalidBasisPoints)
    } else if max_trade_size_bps > MAX_TRADE_SIZE_BPS {
        Err(ArenaError::InvalidBasisPoints)
    } else if creator_fee_bps > MAX_CREATOR_FEE_BPS {
        Err(ArenaError::FeeTooHigh)
    } else {
        Ok(())
    }
}

} // verus!
