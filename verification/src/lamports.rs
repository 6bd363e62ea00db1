//! What a purchase costs, in lamports.

use vstd::prelude::*;

verus! {

/// The lamports that the buyer of one ticket pays, by receiver.
#[derive(Clone, Copy, Debug, PartialEq, Eq, Structural)]
pub struct PurchaseCharges {
    /// To the guide who led the buyer to the lottery.
    pub guide: u64,
    /// To the prize pool.
    pub prize_pool: u64,
    /// To the mint of the charity token.
    pub charity_mint: u64,
}

/// The charges of one ticket: a thousandth of a SOL to the guide, two to the
/// prize pool and one to the mint.
pub open spec fn ticket_charges() -> PurchaseCharges {
    PurchaseCharges { guide: 1_000_000, prize_pool: 2_000_000, charity_mint: 1_000_000 }
}

/// Trusted: reads `solana_program::native_token::LAMPORTS_PER_SOL`, which the
/// crate defines as the constant 1_000_000_000 (10^9 lamports in one SOL).
#[verifier::external_body]
fn lamports_per_sol() -> (lamports: u64)
    ensures
        lamports == 1_000_000_000,
{
    solana_program::native_token::LAMPORTS_PER_SOL
}

/// The charges of one ticket.
pub fn purchase_charges() -> (charges: PurchaseCharges)
    ensures
        charges == ticket_charges(),
{
    let milli_sol: u64 = lamports_per_sol() / 1000;
    PurchaseCharges { guide: 1 * milli_sol, prize_pool: 2 * milli_sol, charity_mint: 1 * milli_sol }
}

} // verus!
