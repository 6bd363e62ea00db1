//! The charity token and the projects that it supports.

use crate::error::CharityLotteryError;
use vstd::prelude::*;

verus! {

/// The decimals of the charity token.
pub const CHARITY_DECIMALS: u8 = 6;

/// A charity project that holders of the charity token can support.
#[derive(Clone, Debug, PartialEq, Eq)]
pub struct CharityProject {
    /// The key of the account that published the project.
    pub creator: [u8; 32],
    pub project_name: String,
    pub description: String,
}

/// Ten to the power of `exponent`.
pub open spec fn pow10(exponent: nat) -> nat
    decreases exponent,
{
    if exponent == 0 {
        1
    } else {
        10 * pow10((exponent - 1) as nat)
    }
}

/// A higher power of ten is not smaller.
pub proof fn lemma_pow10_increases(low: nat, high: nat)
    requires
        low <= high,
    ensures
        1 <= pow10(low) <= pow10(high),
    decreases high,
{
    if low < high {
        lemma_pow10_increases(low, (high - 1) as nat);
    } else if low > 0 {
        lemma_pow10_increases((low - 1) as nat, (high - 1) as nat);
    }
}

/// `tokens` whole tokens in the base units of a token with `decimals`
/// decimals. The power of ten has to fit 64 bits, and so has the product.
pub open spec fn base_units(tokens: u64, decimals: u8) -> Result<u64, CharityLotteryError> {
    if pow10(decimals as nat) > u64::MAX || tokens * pow10(decimals as nat) > u64::MAX {
        Err(CharityLotteryError::Overflow)
    } else {
        Ok((tokens * pow10(decimals as nat)) as u64)
    }
}

/// Ten to the power of `decimals`, where it fits 64 bits.
pub fn power_of_ten(decimals: u8) -> (power: Option<u64>)
    ensures
        power == if pow10(decimals as nat) <= u64::MAX {
            Some(pow10(decimals as nat) as u64)
        } else {
            None
        },
{
    let mut power: u64 = 1;
    let mut exponent: u8 = 0;
    while exponent < decimals
        invariant
            exponent <= decimals,
            power == pow10(exponent as nat),
        decreases decimals - exponent,
    {
        match power.checked_mul(10) {
            Some(next) => {
                power = next;
            },
            None => {
                proof {
                    lemma_pow10_increases((exponent + 1) as nat, decimals as nat);
                }
                return None;
            },
        }
        exponent += 1;
    }
    Some(power)
}

/// Converts whole tokens to base units.
pub fn token_amount(tokens: u64, decimals: u8) -> (amount: Result<u64, CharityLotteryError>)
    ensures
        amount == base_units(tokens, decimals),
{
    match power_of_ten(decimals) {
        Some(power) => match tokens.checked_mul(power) {
            Some(amount) => Ok(amount),
            None => Err(CharityLotteryError::Overflow),
        },
        None => Err(CharityLotteryError::Overflow),
    }
}

/// The record of a project that `creator` publishes under a name and with a
/// description.
pub fn publish_charity_project(creator: [u8; 32], project_name: String, description: String) -> (project:
    CharityProject)
    ensures
        project == (CharityProject { creator, project_name, description }),
{
    CharityProject { creator, project_name, description }
}

/// The base units of charity token that a supporter of a project transfers
/// for `amount` whole tokens.
pub fn support_charity_project(amount: u64) -> (transfer: Result<u64, CharityLotteryError>)
    ensures
        transfer == base_units(amount, CHARITY_DECIMALS),
        transfer == if amount * 1_000_000 <= u64::MAX {
            Ok::<u64, CharityLotteryError>((amount * 1_000_000) as u64)
        } else {
            Err(CharityLotteryError::Overflow)
        },
{
    proof {
        lemma_million();
    }
    token_amount(amount, CHARITY_DECIMALS)
}

/// Ten to the power of the charity token's decimals is a million.
pub proof fn lemma_million()
    ensures
        pow10(CHARITY_DECIMALS as nat) == 1_000_000,
{
    reveal_with_fuel(pow10, 7);
}

} // verus!
