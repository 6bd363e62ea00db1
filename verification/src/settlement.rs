//! Settling a ticket against the winning numbers of its draw.

use crate::draw::WinningNumbers;
use crate::error::CharityLotteryError;
use crate::pool::{
    get_winning_count, payout, pool_after, winning_count, PoolEvent, PrizePool, Settlement,
};
use crate::ticket::LotteryTicket;
use std::collections::HashSet;
use vstd::prelude::*;

verus! {

broadcast use vstd::std_specs::hash::group_hash_axioms;

/// How many values the two selections share: the size of the intersection
/// of their sets.
pub open spec fn common_matches(first: Seq<u8>, second: Seq<u8>) -> nat {
    first.to_set().intersect(second.to_set()).len()
}

/// What settling `ticket` against `winning` draws from a pool of
/// `total_prize`, or why the ticket is not settled: the numbers belong to
/// another draw, the ticket is settled already, or the pool holds less than
/// the prize.
pub open spec fn settled(
    ticket: LotteryTicket,
    winning: WinningNumbers,
    total_prize: u64,
) -> Result<Settlement, CharityLotteryError> {
    if winning.draw_number != ticket.draw_number {
        Err(CharityLotteryError::InvalidDrawNumber)
    } else if ticket.is_checked {
        Err(CharityLotteryError::AlreadyChecked)
    } else {
        payout(tier(ticket, winning), total_prize)
    }
}

/// The payout tier of `ticket` against `winning`, in units.
pub open spec fn tier(ticket: LotteryTicket, winning: WinningNumbers) -> u64 {
    winning_count(
        common_matches(ticket.common_numbers@, winning.common_numbers@) as int,
        ticket.special_number == winning.special_number,
    )
}

/// The ticket once it is settled.
pub open spec fn checked_off(ticket: LotteryTicket) -> LotteryTicket {
    LotteryTicket { is_checked: true, ..ticket }
}

/// Counts the values that occur in both selections, each value once.
pub fn count_shared_elements(arr1: &[u8; 5], arr2: &[u8; 5]) -> (shared: usize)
    ensures
        shared == common_matches(arr1@, arr2@),
        shared == counted_matches(arr1@, arr2@, 5),
        shared <= 5,
{
    proof {
        lemma_common_matches_counted(arr1@, arr2@);
    }
    let mut set1: HashSet<u8> = HashSet::new();
    let mut i: usize = 0;
    while i < 5
        invariant
            i <= 5,
            forall|value: u8|
                set1@.contains(value) <==> exists|k: int| 0 <= k < i && arr1@[k] == value,
        decreases 5 - i,
    {
        let num: u8 = arr1[i];
        set1.insert(num);
        i += 1;
    }

    let mut both: HashSet<u8> = HashSet::new();
    let mut j: usize = 0;
    while j < 5
        invariant
            j <= 5,
            both@.finite(),
            both@.len() <= j,
            forall|value: u8|
                both@.contains(value) <==> set1@.contains(value) && exists|k: int|
                    0 <= k < j && arr2@[k] == value,
        decreases 5 - j,
    {
        let num: u8 = arr2[j];
        if set1.contains(&num) {
            both.insert(num);
        }
        j += 1;
    }
    assert(both@ =~= arr1@.to_set().intersect(arr2@.to_set()));
    both.len()
}

/// Whether `value` is one of the first `n` entries of `numbers`.
pub open spec fn among(numbers: Seq<u8>, n: int, value: u8) -> bool
    decreases n,
{
    n > 0 && (numbers[n - 1] == value || among(numbers, n - 1, value))
}

/// How many of the first `n` entries of `first` occur in `second` and have
/// not occurred in `first` before.
pub open spec fn counted_matches(first: Seq<u8>, second: Seq<u8>, n: int) -> nat
    decreases n,
{
    if n <= 0 {
        0
    } else {
        let new_match = !among(first, n - 1, first[n - 1]) && among(
            second,
            second.len() as int,
            first[n - 1],
        );
        counted_matches(first, second, n - 1) + if new_match {
            1nat
        } else {
            0nat
        }
    }
}

/// `among` says that the value is found at one of the first `n` places.
pub proof fn lemma_among(numbers: Seq<u8>, n: int, value: u8)
    ensures
        among(numbers, n, value) <==> exists|k: int| 0 <= k < n && numbers[k] == value,
    decreases n,
{
    if n > 0 {
        lemma_among(numbers, n - 1, value);
    }
}

/// The values that the first `n` entries of `first` share with `second`
/// are finitely many, and `counted_matches` counts them.
pub proof fn lemma_counted_prefix(first: Seq<u8>, second: Seq<u8>, n: int)
    requires
        0 <= n <= first.len(),
    ensures
        first.take(n).to_set().intersect(second.to_set()).finite(),
        first.take(n).to_set().intersect(second.to_set()).len() == counted_matches(
            first,
            second,
            n,
        ),
    decreases n,
{
    let shared = first.take(n).to_set().intersect(second.to_set());
    if n == 0 {
        assert(shared =~= Set::<u8>::empty());
    } else {
        lemma_counted_prefix(first, second, n - 1);
        let value = first[n - 1];
        let shorter = first.take(n - 1);
        let longer = first.take(n);
        let before = shorter.to_set().intersect(second.to_set());
        lemma_among(first, n - 1, value);
        lemma_among(second, second.len() as int, value);
        assert(shorter.contains(value) <==> among(first, n - 1, value)) by {
            if shorter.contains(value) {
                let k = choose|k: int| 0 <= k < shorter.len() && shorter[k] == value;
                assert(first[k] == value);
            }
            if among(first, n - 1, value) {
                let k = choose|k: int| 0 <= k < n - 1 && first[k] == value;
                assert(shorter[k] == value);
            }
        }
        assert forall|other: u8| longer.contains(other) <==> other == value || shorter.contains(
            other,
        ) by {
            if longer.contains(other) {
                let k = choose|k: int| 0 <= k < longer.len() && longer[k] == other;
                if k < n - 1 {
                    assert(shorter[k] == other);
                }
            }
            if shorter.contains(other) {
                let k = choose|k: int| 0 <= k < shorter.len() && shorter[k] == other;
                assert(longer[k] == other);
            }
            if other == value {
                assert(longer[n - 1] == other);
            }
        }
        if second.contains(value) {
            assert(shared =~= before.insert(value));
        } else {
            assert(shared =~= before);
        }
    }
}

/// The number of shared values can be counted entry by entry.
pub proof fn lemma_common_matches_counted(first: Seq<u8>, second: Seq<u8>)
    ensures
        common_matches(first, second) == counted_matches(first, second, first.len() as int),
        common_matches(first, second) <= first.len(),
{
    lemma_counted_prefix(first, second, first.len() as int);
    assert(first.take(first.len() as int) =~= first);
    lemma_counted_bound(first, second, first.len() as int);
}

/// No more values are counted than entries are read.
pub proof fn lemma_counted_bound(first: Seq<u8>, second: Seq<u8>, n: int)
    ensures
        counted_matches(first, second, n) <= if n < 0 { 0 } else { n },
    decreases n,
{
    if n > 0 {
        lemma_counted_bound(first, second, n - 1);
    }
}

/// Settles a ticket against the winning numbers of its draw: pays the prize
/// of its tier out of the pool and marks the ticket as settled. Numbers of
/// another draw, a ticket settled before and a pool that holds less than
/// the prize leave the ticket and the pool as they are.
pub fn check_ticket_numbers(
    lottery_ticket: &mut LotteryTicket,
    winning_numbers: &WinningNumbers,
    prize_pool: &mut PrizePool,
) -> (result: Result<Settlement, CharityLotteryError>)
    ensures
        result == settled(*old(lottery_ticket), *winning_numbers, old(prize_pool).total_prize),
        winning_numbers.draw_number != old(lottery_ticket).draw_number ==> result == Err::<
            Settlement,
            _,
        >(CharityLotteryError::InvalidDrawNumber),
        winning_numbers.draw_number == old(lottery_ticket).draw_number && old(
            lottery_ticket,
        ).is_checked ==> result == Err::<Settlement, _>(CharityLotteryError::AlreadyChecked),
        old(lottery_ticket).is_checked ==> final(lottery_ticket).is_checked,
        old(lottery_ticket).wf() ==> final(lottery_ticket).wf(),
        match result {
            Ok(settlement) => {
                &&& *final(lottery_ticket) == checked_off(*old(lottery_ticket))
                &&& final(prize_pool).total_prize == old(prize_pool).total_prize
                    - settlement.amount()
                &&& settlement is Jackpot ==> final(prize_pool).total_prize == 0
                &&& final(prize_pool).total_prize == pool_after(
                    old(prize_pool).total_prize,
                    PoolEvent::Settlement { count: tier(*old(lottery_ticket), *winning_numbers) },
                )
            },
            Err(_) => {
                &&& *final(lottery_ticket) == *old(lottery_ticket)
                &&& *final(prize_pool) == *old(prize_pool)
            },
        },
{
    if lottery_ticket.draw_number != winning_numbers.draw_number {
        return Err(CharityLotteryError::InvalidDrawNumber);
    }
    if lottery_ticket.is_checked {
        return Err(CharityLotteryError::AlreadyChecked);
    }
    let win_common_amounts: usize = count_shared_elements(
        &lottery_ticket.common_numbers,
        &winning_numbers.common_numbers,
    );
    let is_win_special: bool = lottery_ticket.special_number == winning_numbers.special_number;

    let count: u64 = get_winning_count(&win_common_amounts, &is_win_special);
    let settlement = prize_pool.pay_out(count)?;

    lottery_ticket.is_checked = true;

    Ok(settlement)
}

/// A ticket is settled once: after a settlement, a second one against the
/// winning numbers of the ticket's draw is refused with `AlreadyChecked`,
/// whatever the pool holds by then.
pub proof fn lemma_settled_once(
    ticket: LotteryTicket,
    winning: WinningNumbers,
    total_prize: u64,
    again: WinningNumbers,
    later_prize: u64,
)
    requires
        settled(ticket, winning, total_prize) is Ok,
        again.draw_number == ticket.draw_number,
    ensures
        settled(checked_off(ticket), again, later_prize) == Err::<Settlement, _>(
            CharityLotteryError::AlreadyChecked,
        ),
{
}

/// Winning numbers of another draw settle no ticket, settled or not.
pub proof fn lemma_other_draw_refused(
    ticket: LotteryTicket,
    winning: WinningNumbers,
    total_prize: u64,
)
    requires
        winning.draw_number != ticket.draw_number,
    ensures
        settled(ticket, winning, total_prize) == Err::<Settlement, _>(
            CharityLotteryError::InvalidDrawNumber,
        ),
{
}

} // verus!
