//! The prize pool: one running balance, credited by every purchase and
//! debited by every winning settlement, and the payout tiers.

use crate::error::CharityLotteryError;
use vstd::prelude::*;

verus! {

/// Lamports that one payout unit is worth.
pub const PRIZE_UNIT: u64 = 1_000_000;

/// Lamports that one purchase adds to the pool.
pub const TICKET_CONTRIBUTION: u64 = 2_000_000;

/// The winning count that stands for the whole pool.
pub const JACKPOT: u64 = u64::MAX;

/// The balance of the prize pool in lamports.
#[derive(Clone, Copy, Debug, PartialEq, Eq, Structural)]
pub struct PrizePool {
    pub total_prize: u64,
}

/// How a ticket was settled, with the lamports paid to its owner.
#[derive(Clone, Copy, Debug, PartialEq, Eq, Structural)]
pub enum Settlement {
    /// The ticket wins nothing.
    NoWin,
    /// The ticket wins a fixed prize.
    Prize { amount: u64 },
    /// The ticket wins the pool as it stood.
    Jackpot { amount: u64 },
}

impl Settlement {
    /// The lamports that the settlement pays.
    pub open spec fn spec_amount(&self) -> u64 {
        match *self {
            Settlement::NoWin => 0,
            Settlement::Prize { amount } => amount,
            Settlement::Jackpot { amount } => amount,
        }
    }

    /// The lamports that the settlement pays.
    #[verifier::when_used_as_spec(spec_amount)]
    pub fn amount(&self) -> (amount: u64)
        ensures
            amount == self.spec_amount(),
    {
        match self {
            Settlement::NoWin => 0,
            Settlement::Prize { amount } => *amount,
            Settlement::Jackpot { amount } => *amount,
        }
    }
}

/// The payout tier in units for `common` matching common numbers and a
/// special number that matches or not; `JACKPOT` for the whole pool and 0
/// for any pair that wins nothing.
pub open spec fn winning_count(common: int, special: bool) -> u64 {
    if special {
        if common == 0 || common == 1 {
            8
        } else if common == 2 {
            32
        } else if common == 3 {
            200
        } else if common == 4 {
            100_000
        } else if common == 5 {
            JACKPOT
        } else {
            0
        }
    } else {
        if common == 3 {
            32
        } else if common == 4 {
            200
        } else if common == 5 {
            200_000
        } else {
            0
        }
    }
}

/// The balance after a purchase, where it fits the pool.
pub open spec fn credited(total_prize: u64) -> Option<u64> {
    if total_prize + TICKET_CONTRIBUTION <= u64::MAX {
        Some((total_prize + TICKET_CONTRIBUTION) as u64)
    } else {
        None
    }
}

/// What a winning count of `count` units draws from a pool of
/// `total_prize`: nothing for 0, the pool for `JACKPOT`, else `count` units,
/// which the pool must hold.
pub open spec fn payout(count: u64, total_prize: u64) -> Result<Settlement, CharityLotteryError> {
    if count == 0 {
        Ok(Settlement::NoWin)
    } else if count == JACKPOT {
        Ok(Settlement::Jackpot { amount: total_prize })
    } else if count * PRIZE_UNIT > total_prize {
        Err(CharityLotteryError::InsufficientPool)
    } else {
        Ok(Settlement::Prize { amount: (count * PRIZE_UNIT) as u64 })
    }
}

/// The payout tier for `common` matching common numbers and the special
/// number matching or not.
pub fn get_winning_count(common: &usize, special: &bool) -> (count: u64)
    ensures
        count == winning_count(*common as int, *special),
{
    match (*common, *special) {
        (0, true) => 8,
        (1, true) => 8,
        (2, true) => 32,
        (3, false) => 32,
        (3, true) => 200,
        (4, false) => 200,
        (4, true) => 100_000,
        (5, false) => 200_000,
        (5, true) => u64::MAX,
        _ => 0,
    }
}

/// Creates the pool in an empty place, with nothing in it. A place that
/// holds a pool keeps it.
pub fn initialize_prize_pool(place: &mut Option<PrizePool>) -> (result: Result<
    (),
    CharityLotteryError,
>)
    ensures
        *old(place) is Some ==> result == Err::<(), _>(CharityLotteryError::AlreadyInitialized)
            && *final(place) == *old(place),
        *old(place) is None ==> result is Ok && *final(place) == Some(
            PrizePool { total_prize: 0 },
        ),
{
    if place.is_some() {
        return Err(CharityLotteryError::AlreadyInitialized);
    }
    *place = Some(PrizePool { total_prize: 0 });
    Ok(())
}

impl PrizePool {
    /// Credits the contribution of one purchase. A pool that cannot hold it
    /// stays as it is.
    pub fn deposit(&mut self) -> (result: Result<(), CharityLotteryError>)
        ensures
            match credited(old(self).total_prize) {
                Some(total_prize) => result is Ok && final(self).total_prize == total_prize,
                None => result == Err::<(), _>(CharityLotteryError::Overflow) && *final(self)
                    == *old(self),
            },
            final(self).total_prize == pool_after(old(self).total_prize, PoolEvent::Purchase),
    {
        match self.total_prize.checked_add(TICKET_CONTRIBUTION) {
            Some(total_prize) => {
                self.total_prize = total_prize;
                Ok(())
            },
            None => Err(CharityLotteryError::Overflow),
        }
    }

    /// Pays what a winning count of `count` units draws from the pool. A
    /// fixed prize is debited, the jackpot empties the pool, and a pool that
    /// holds less than the prize stays as it is.
    pub fn pay_out(&mut self, count: u64) -> (result: Result<Settlement, CharityLotteryError>)
        ensures
            result == payout(count, old(self).total_prize),
            match result {
                Ok(settlement) => final(self).total_prize == old(self).total_prize
                    - settlement.amount(),
                Err(_) => *final(self) == *old(self),
            },
            final(self).total_prize == pool_after(
                old(self).total_prize,
                PoolEvent::Settlement { count },
            ),
    {
        if count == 0 {
            Ok(Settlement::NoWin)
        } else if count == JACKPOT {
            let amount: u64 = self.total_prize;
            self.total_prize = 0;
            Ok(Settlement::Jackpot { amount })
        } else {
            match count.checked_mul(PRIZE_UNIT) {
                Some(amount) => {
                    if amount > self.total_prize {
                        Err(CharityLotteryError::InsufficientPool)
                    } else {
                        self.total_prize -= amount;
                        Ok(Settlement::Prize { amount })
                    }
                },
                None => Err(CharityLotteryError::InsufficientPool),
            }
        }
    }
}

/// What is asked of the pool: the credit of a purchase, or the payout of a
/// settlement with a winning count of `count` units.
pub enum PoolEvent {
    Purchase,
    Settlement { count: u64 },
}

/// The balance that an event leaves. An event that is refused leaves the
/// balance as it was.
pub open spec fn pool_after(total_prize: u64, event: PoolEvent) -> u64 {
    match event {
        PoolEvent::Purchase => match credited(total_prize) {
            Some(total) => total,
            None => total_prize,
        },
        PoolEvent::Settlement { count } => match payout(count, total_prize) {
            Ok(settlement) => (total_prize - settlement.amount()) as u64,
            Err(_) => total_prize,
        },
    }
}

/// The balance of a pool that was created empty and has seen `events`.
pub open spec fn balance(events: Seq<PoolEvent>) -> u64
    decreases events.len(),
{
    if events.len() == 0 {
        0
    } else {
        pool_after(balance(events.drop_last()), events.last())
    }
}

/// The lamports that the purchases among `events` have added to the pool.
pub open spec fn contributed(events: Seq<PoolEvent>) -> int
    decreases events.len(),
{
    if events.len() == 0 {
        0
    } else {
        let before = events.drop_last();
        contributed(before) + match events.last() {
            PoolEvent::Purchase => if credited(balance(before)) is Some {
                TICKET_CONTRIBUTION as int
            } else {
                0
            },
            PoolEvent::Settlement { .. } => 0,
        }
    }
}

/// The lamports that the settlements among `events` have paid as fixed
/// prizes.
pub open spec fn prizes_paid(events: Seq<PoolEvent>) -> int
    decreases events.len(),
{
    if events.len() == 0 {
        0
    } else {
        let before = events.drop_last();
        prizes_paid(before) + match events.last() {
            PoolEvent::Purchase => 0,
            PoolEvent::Settlement { count } => match payout(count, balance(before)) {
                Ok(Settlement::Prize { amount }) => amount as int,
                _ => 0,
            },
        }
    }
}

/// The lamports that the settlements among `events` have paid as jackpots,
/// each the balance at its time.
pub open spec fn jackpots_paid(events: Seq<PoolEvent>) -> int
    decreases events.len(),
{
    if events.len() == 0 {
        0
    } else {
        let before = events.drop_last();
        jackpots_paid(before) + match events.last() {
            PoolEvent::Purchase => 0,
            PoolEvent::Settlement { count } => match payout(count, balance(before)) {
                Ok(Settlement::Jackpot { .. }) => balance(before) as int,
                _ => 0,
            },
        }
    }
}

/// After any events the balance is what the purchases have added less what
/// the settlements have paid, as fixed prizes and as jackpots, and it is
/// never below zero.
pub proof fn lemma_pool_foots(events: Seq<PoolEvent>)
    ensures
        balance(events) == contributed(events) - prizes_paid(events) - jackpots_paid(events),
        balance(events) >= 0,
    decreases events.len(),
{
    if events.len() > 0 {
        lemma_pool_foots(events.drop_last());
    }
}

/// A settlement never pays more than the pool holds, and a jackpot pays all
/// of it.
pub proof fn lemma_payout_within_pool(count: u64, total_prize: u64)
    ensures
        payout(count, total_prize) matches Ok(settlement) ==> settlement.amount() <= total_prize,
        payout(count, total_prize) matches Ok(Settlement::Jackpot { amount }) ==> amount
            == total_prize,
{
}

} // verus!
