use vstd::prelude::*;

verus! {

/// Why an operation of the lottery was rejected. A rejected operation leaves
/// every record as it was.
#[derive(Clone, Copy, Debug, PartialEq, Eq, Structural)]
pub enum CharityLotteryError {
    /// The draw cannot advance yet.
    NotTimeYet,
    /// A common number lies outside 1..=64.
    InvalidCommonNumber1,
    /// Two common numbers are equal.
    InvalidCommonNumber2,
    /// The special number lies outside 1..=32.
    InvalidSpecialNumber,
    /// The winning numbers belong to another draw than the ticket.
    InvalidDrawNumber,
    /// The ticket has been settled before.
    AlreadyChecked,
    /// The record exists already.
    AlreadyInitialized,
    /// A counter or a balance would exceed its range.
    Overflow,
    /// The prize pool holds less than the prize.
    InsufficientPool,
}

} // verus!
