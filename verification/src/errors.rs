use vstd::prelude::*;

verus! {

/// Every way an operation on the pool can fail. Each precondition is checked
/// before any mutation, so a failing operation has no observable side effect.
#[derive(Clone, Copy, Debug, PartialEq, Eq, Structural)]
pub enum ArenaError {
    /// A name or description exceeds its maximum length.
    InputTooLong,
    /// More skill tags than the record can hold.
    TooManyItems,
    /// Risk tolerance outside 0..=10.
    InvalidRiskTolerance,
    /// A basis-points parameter outside its allowed range.
    InvalidBasisPoints,
    /// Creator fee above the 30% cap.
    FeeTooHigh,
    /// A deposit or withdrawal of zero.
    ZeroAmount,
    /// Deposit attempted on a halted agent.
    AgentInactive,
    /// Not enough principal, an empty pool, or a payout that would break
    /// the vault's reserve floor.
    InsufficientFunds,
    /// Caller is not the agent's authority.
    Unauthorized,
    /// A checked addition exceeded the native integer width.
    MathOverflow,
    /// The record to create already exists.
    AlreadyExists,
    /// The agent, position or vault addressed does not exist.
    NotFound,
}

impl ArenaError {
    /// A human-readable description, for hosts that surface errors as text.
    pub fn message(&self) -> &'static str {
        match self {
            ArenaError::InputTooLong => "input exceeds maximum length",
            ArenaError::TooManyItems => "too many items",
            ArenaError::InvalidRiskTolerance => "risk tolerance must be between 0 and 10",
            ArenaError::InvalidBasisPoints => "invalid basis points value",
            ArenaError::FeeTooHigh => "creator fee cannot exceed 30%",
            ArenaError::ZeroAmount => "amount must be greater than zero",
            ArenaError::AgentInactive => "agent is not currently active",
            ArenaError::InsufficientFunds => "insufficient funds",
            ArenaError::Unauthorized => "unauthorized action",
            ArenaError::MathOverflow => "math overflow",
            ArenaError::AlreadyExists => "record already exists",
            ArenaError::NotFound => "record not found",
        }
    }
}

} // verus!
