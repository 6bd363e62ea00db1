//! Tickets and their purchase.

use crate::charity::{base_units, token_amount};
use crate::draw::DrawNumberRecorder;
use crate::error::CharityLotteryError;
use crate::lamports::{purchase_charges, ticket_charges, PurchaseCharges};
use crate::pool::{credited, pool_after, PoolEvent, PrizePool};
use std::collections::HashSet;
use vstd::prelude::*;

verus! {

broadcast use vstd::std_specs::hash::group_hash_axioms;

/// A purchase: the buyer's combination, bound to the draw that was current
/// when it was bought, and whether it has been settled.
#[derive(Clone, Copy, Debug, PartialEq, Eq)]
pub struct LotteryTicket {
    /// The key of the buyer.
    pub owner: [u8; 32],
    pub draw_number: u64,
    pub is_checked: bool,
    pub common_numbers: [u8; 5],
    pub special_number: u8,
}

/// What a purchase gives: the ticket, what the buyer is charged in lamports,
/// and the base units of charity token minted to the buyer.
#[derive(Clone, Copy, Debug, PartialEq, Eq)]
pub struct TicketPurchase {
    pub ticket: LotteryTicket,
    pub charges: PurchaseCharges,
    pub minted_tokens: u64,
}

/// A common number that a buyer may choose.
pub open spec fn is_common_number(number: u8) -> bool {
    1 <= number <= 64
}

/// A special number that a buyer may choose.
pub open spec fn is_special_number(number: u8) -> bool {
    1 <= number <= 32
}

/// Why a buyer's numbers are refused, if they are: first for a common number
/// out of range, then for a repeated common number, then for the special
/// number.
pub open spec fn refusal(common: Seq<u8>, special: u8) -> Option<CharityLotteryError> {
    if exists|i: int| 0 <= i < common.len() && !is_common_number(common[i]) {
        Some(CharityLotteryError::InvalidCommonNumber1)
    } else if !common.no_duplicates() {
        Some(CharityLotteryError::InvalidCommonNumber2)
    } else if !is_special_number(special) {
        Some(CharityLotteryError::InvalidSpecialNumber)
    } else {
        None
    }
}

impl LotteryTicket {
    /// A ticket as a purchase makes it: five pairwise distinct common
    /// numbers from 1 to 64 and a special number from 1 to 32.
    pub open spec fn wf(&self) -> bool {
        refusal(self.common_numbers@, self.special_number) is None
    }
}

/// What the purchase of a ticket comes to: an unsettled ticket for the draw
/// `draw_number` with the buyer's numbers, the charges and one whole charity
/// token, or the reason why nothing is bought.
pub open spec fn purchase(
    owner: [u8; 32],
    common_number: [u8; 5],
    special_number: u8,
    draw_number: u64,
    total_prize: u64,
    mint_decimals: u8,
) -> Result<TicketPurchase, CharityLotteryError> {
    match refusal(common_number@, special_number) {
        Some(reason) => Err(reason),
        None => match (credited(total_prize), base_units(1, mint_decimals)) {
            (Some(_), Ok(minted_tokens)) => Ok(
                TicketPurchase {
                    ticket: LotteryTicket {
                        owner,
                        draw_number,
                        is_checked: false,
                        common_numbers: common_number,
                        special_number,
                    },
                    charges: ticket_charges(),
                    minted_tokens,
                },
            ),
            _ => Err(CharityLotteryError::Overflow),
        },
    }
}

/// Whether a number occurs twice among the five.
pub fn has_duplicates(arr: &[u8; 5]) -> (duplicates: bool)
    ensures
        duplicates == !arr@.no_duplicates(),
{
    let mut set: HashSet<u8> = HashSet::new();

    let mut i: usize = 0;
    while i < 5
        invariant
            i <= 5,
            forall|value: u8|
                set@.contains(value) <==> exists|k: int| 0 <= k < i && arr@[k] == value,
            forall|a: int, b: int| 0 <= a < b < i ==> arr@[a] != arr@[b],
        decreases 5 - i,
    {
        let num: u8 = arr[i];
        if !set.insert(num) {
            return true;
        }
        i += 1;
    }
    return false;
}

/// Buys a ticket for the current draw: checks the buyer's numbers, credits
/// the pool with the contribution of one purchase and gives the ticket, the
/// charges and the tokens to mint. Where nothing is bought the pool stays as
/// it is.
pub fn buy_lottery_ticket(
    owner: [u8; 32],
    common_number: [u8; 5],
    special_number: u8,
    recorder: &DrawNumberRecorder,
    prize_pool: &mut PrizePool,
    mint_decimals: u8,
) -> (result: Result<TicketPurchase, CharityLotteryError>)
    ensures
        result == purchase(
            owner,
            common_number,
            special_number,
            recorder.draw_number,
            old(prize_pool).total_prize,
            mint_decimals,
        ),
        match result {
            Ok(bought) => {
                &&& bought.ticket.wf()
                &&& !bought.ticket.is_checked
                &&& credited(old(prize_pool).total_prize) == Some(final(prize_pool).total_prize)
                &&& final(prize_pool).total_prize == pool_after(
                    old(prize_pool).total_prize,
                    PoolEvent::Purchase,
                )
            },
            Err(_) => *final(prize_pool) == *old(prize_pool),
        },
{
    let mut i: usize = 0;
    while i < 5
        invariant
            i <= 5,
            forall|k: int| 0 <= k < i ==> is_common_number(common_number@[k]),
        decreases 5 - i,
    {
        let num: u8 = common_number[i];
        if !(num >= 1 && num <= 64) {
            return Err(CharityLotteryError::InvalidCommonNumber1);
        }
        i += 1;
    }
    if has_duplicates(&common_number) {
        return Err(CharityLotteryError::InvalidCommonNumber2);
    }
    if !(special_number >= 1 && special_number <= 32) {
        return Err(CharityLotteryError::InvalidSpecialNumber);
    }
    let minted_tokens: u64 = match token_amount(1, mint_decimals) {
        Ok(amount) => amount,
        Err(_) => {
            return Err(CharityLotteryError::Overflow);
        },
    };
    match prize_pool.deposit() {
        Ok(()) => {},
        Err(_) => {
            return Err(CharityLotteryError::Overflow);
        },
    }
    let ticket = LotteryTicket {
        owner,
        draw_number: recorder.draw_number,
        is_checked: false,
        common_numbers: common_number,
        special_number,
    };
    Ok(TicketPurchase { ticket, charges: purchase_charges(), minted_tokens })
}

} // verus!
