//! Winning numbers from a seed.
//!
//! A seed of 32 bytes is scanned once from left to right. The first phase
//! collects five distinct common numbers, the second phase takes the special
//! number from what is left of the seed.

use std::collections::HashSet;
use vstd::prelude::*;

verus! {

broadcast use vstd::std_specs::hash::group_hash_axioms;

/// How many bytes a seed has.
pub const SEED_LEN: usize = 32;

/// How many common numbers a combination has.
pub const COMMON_COUNT: usize = 5;

/// The values that a scan of the first `n` bytes of `seed` accepts, in the
/// order in which they are first seen. A byte stands for its residue modulo
/// 64; the residue 0 and a residue seen before are passed over. The scan is
/// not cut off at five values here.
pub open spec fn accepted(seed: Seq<u8>, n: int) -> Seq<u8>
    decreases n,
{
    if n <= 0 {
        Seq::empty()
    } else {
        let before = accepted(seed, n - 1);
        let value = seed[n - 1] % 64;
        if value != 0 && !before.contains(value) {
            before.push(value)
        } else {
            before
        }
    }
}

/// How many of the first `n` bytes of `seed` the first phase reads: it stops
/// right after the byte that gives the fifth value.
pub open spec fn scanned(seed: Seq<u8>, n: int) -> int
    decreases n,
{
    if n <= 0 {
        0
    } else if accepted(seed, n - 1).len() >= COMMON_COUNT {
        scanned(seed, n - 1)
    } else {
        n
    }
}

/// The common numbers of a seed: the first five accepted values, or five
/// zeros where the whole seed gives fewer than five.
pub open spec fn drawn_common_numbers(seed: Seq<u8>) -> Seq<u8> {
    let all = accepted(seed, seed.len() as int);
    if all.len() >= COMMON_COUNT {
        all.subrange(0, COMMON_COUNT as int)
    } else {
        seq![0u8, 0u8, 0u8, 0u8, 0u8]
    }
}

/// The residue modulo 32 of the first byte at or after `from` whose residue
/// is not 0, or 0 where there is no such byte.
pub open spec fn first_special(seed: Seq<u8>, from: int) -> u8
    decreases seed.len() - from,
{
    if from < 0 || from >= seed.len() {
        0
    } else if seed[from] % 32 != 0 {
        seed[from] % 32
    } else {
        first_special(seed, from + 1)
    }
}

/// The special number of a seed: taken from the bytes that the first phase
/// has not read.
pub open spec fn drawn_special_number(seed: Seq<u8>) -> u8 {
    first_special(seed, scanned(seed, seed.len() as int))
}

/// Five common numbers as a draw can give them: pairwise distinct values
/// from 1 to 63, or five zeros.
pub open spec fn is_drawn_combination(common: Seq<u8>) -> bool {
    &&& common.len() == COMMON_COUNT
    &&& {
        ||| forall|i: int| 0 <= i < common.len() ==> common[i] == 0
        ||| {
            &&& forall|i: int| 0 <= i < common.len() ==> 1 <= #[trigger] common[i] <= 63
            &&& forall|i: int, j: int|
                0 <= i < j < common.len() ==> common[i] != common[j]
        }
    }
}

/// Accepted values are pairwise distinct and lie between 1 and 63.
pub proof fn lemma_accepted_distinct(seed: Seq<u8>, n: int)
    ensures
        accepted(seed, n).no_duplicates(),
        forall|i: int| 0 <= i < accepted(seed, n).len() ==> 1 <= #[trigger] accepted(seed, n)[i] <= 63,
        accepted(seed, n).len() <= if n < 0 { 0 } else { n },
    decreases n,
{
    if n > 0 {
        lemma_accepted_distinct(seed, n - 1);
    }
}

/// A value is accepted from the first `n` bytes exactly when it is not 0 and
/// is the residue modulo 64 of one of them.
pub proof fn lemma_accepted_values(seed: Seq<u8>, n: int, value: u8)
    ensures
        accepted(seed, n).contains(value) <==> value != 0 && exists|k: int|
            0 <= k < n && seed[k] % 64 == value,
    decreases n,
{
    if n > 0 {
        lemma_accepted_values(seed, n - 1, value);
        let before = accepted(seed, n - 1);
        let last = seed[n - 1] % 64;
        if last != 0 && !before.contains(last) {
            let after = before.push(last);
            assert(after[before.len() as int] == last);
            if before.contains(value) {
                let at = choose|at: int| 0 <= at < before.len() && before[at] == value;
                assert(after[at] == value);
            }
        }
    }
}

/// A longer scan keeps what a shorter scan has accepted and adds to its end.
pub proof fn lemma_accepted_prefix(seed: Seq<u8>, n: int, m: int)
    requires
        n <= m,
    ensures
        accepted(seed, n).len() <= accepted(seed, m).len(),
        accepted(seed, m).subrange(0, accepted(seed, n).len() as int) == accepted(seed, n),
    decreases m - n,
{
    if n < m && m > 0 {
        lemma_accepted_prefix(seed, n, m - 1);
    }
}

/// The first phase stops at the fifth value: before every byte that it reads
/// fewer than five values are accepted, and where it leaves bytes of the
/// first `n` unread, what it has read gives exactly five.
pub proof fn lemma_scanned_to_fifth(seed: Seq<u8>, n: int)
    ensures
        0 <= scanned(seed, n) <= if n < 0 { 0 } else { n },
        forall|k: int| 0 <= k < scanned(seed, n) ==> accepted(seed, k).len() < COMMON_COUNT,
        accepted(seed, scanned(seed, n)).len() <= COMMON_COUNT,
        scanned(seed, n) < n ==> accepted(seed, scanned(seed, n)).len() == COMMON_COUNT,
        accepted(seed, n).len() >= COMMON_COUNT ==> accepted(seed, scanned(seed, n)).len()
            == COMMON_COUNT,
    decreases n,
{
    if n > 0 {
        lemma_scanned_to_fifth(seed, n - 1);
        if accepted(seed, n - 1).len() < COMMON_COUNT {
            assert forall|k: int| 0 <= k < n implies accepted(seed, k).len() < COMMON_COUNT by {
                lemma_accepted_prefix(seed, k, n - 1);
            }
        }
    }
}

/// Once five values are accepted the first phase reads no further byte.
pub proof fn lemma_scanned_stops(seed: Seq<u8>, k: int, m: int)
    requires
        k <= m,
        accepted(seed, k).len() >= COMMON_COUNT,
    ensures
        scanned(seed, m) == scanned(seed, k),
    decreases m - k,
{
    if k < m {
        lemma_accepted_prefix(seed, k, m - 1);
        lemma_scanned_stops(seed, k, m - 1);
    }
}

/// Whatever the seed, the common numbers are five pairwise distinct values
/// from 1 to 63 or the five zeros, never a part of a set nor a set with a
/// repeated value, and the special number is at most 31.
pub proof fn lemma_drawn_numbers_canonical(seed: Seq<u8>)
    ensures
        is_drawn_combination(drawn_common_numbers(seed)),
        drawn_special_number(seed) <= 31,
{
    lemma_accepted_distinct(seed, seed.len() as int);
    lemma_first_special_bound(seed, scanned(seed, seed.len() as int));
}

/// The special number found from any position is at most 31.
pub proof fn lemma_first_special_bound(seed: Seq<u8>, from: int)
    ensures
        first_special(seed, from) <= 31,
    decreases seed.len() - from,
{
    if 0 <= from < seed.len() && seed[from] % 32 == 0 {
        lemma_first_special_bound(seed, from + 1);
    }
}

/// Two seeds that agree byte for byte give the same winning numbers.
pub proof fn lemma_drawn_numbers_deterministic(first: Seq<u8>, second: Seq<u8>)
    requires
        first.len() == second.len(),
        forall|i: int| 0 <= i < first.len() ==> first[i] == second[i],
    ensures
        drawn_common_numbers(first) == drawn_common_numbers(second),
        drawn_special_number(first) == drawn_special_number(second),
{
    assert(first =~= second);
}

/// Derives the winning numbers of a draw from its seed: the common numbers
/// and the special number.
pub fn find_winning_numbers(data: &[u8; 32]) -> (numbers: ([u8; 5], u8))
    ensures
        numbers.0@ == drawn_common_numbers(data@),
        numbers.1 == drawn_special_number(data@),
        is_drawn_combination(numbers.0@),
        numbers.1 <= 31,
{
    let mut common_numbers: Vec<u8> = Vec::new();
    let mut special_number: u8 = 0;
    let mut seen_numbers: HashSet<u8> = HashSet::new();

    let mut iteration: usize = 0;
    while iteration < SEED_LEN
        invariant_except_break
            common_numbers@.len() < COMMON_COUNT,
            scanned(data@, iteration as int) == iteration,
        invariant
            iteration <= SEED_LEN,
            data@.len() == SEED_LEN,
            common_numbers@ == accepted(data@, iteration as int),
            forall|value: u8| seen_numbers@.contains(value) <==> common_numbers@.contains(value),
        ensures
            common_numbers@.len() <= COMMON_COUNT,
            common_numbers@.len() == COMMON_COUNT || iteration == SEED_LEN,
            scanned(data@, SEED_LEN as int) == iteration,
        decreases SEED_LEN - iteration,
    {
        let num_mod64: u8 = data[iteration] % 64;

        if !seen_numbers.contains(&num_mod64) && num_mod64 != 0 {
            let ghost before = common_numbers@;
            common_numbers.push(num_mod64);
            seen_numbers.insert(num_mod64);
            assert forall|value: u8| seen_numbers@.contains(value) <==> common_numbers@.contains(
                value,
            ) by {
                if before.contains(value) {
                    let at = choose|at: int| 0 <= at < before.len() && before[at] == value;
                    assert(common_numbers@[at] == value);
                }
                if value == num_mod64 {
                    assert(common_numbers@[before.len() as int] == value);
                }
            }

            if common_numbers.len() == COMMON_COUNT {
                iteration += 1;
                proof {
                    lemma_scanned_stops(data@, iteration as int, SEED_LEN as int);
                }
                break ;
            }
        }
        iteration += 1;
    }

    proof {
        lemma_accepted_prefix(data@, iteration as int, SEED_LEN as int);
        lemma_drawn_numbers_canonical(data@);
    }
    let common_numbers_array: [u8; 5] = if common_numbers.len() == COMMON_COUNT {
        [
            common_numbers[0],
            common_numbers[1],
            common_numbers[2],
            common_numbers[3],
            common_numbers[4],
        ]
    } else {
        [0, 0, 0, 0, 0]
    };

    let mut i: usize = iteration;
    while i < SEED_LEN
        invariant_except_break
            special_number == 0,
            first_special(data@, i as int) == first_special(data@, iteration as int),
        invariant
            iteration <= i <= SEED_LEN,
            data@.len() == SEED_LEN,
        ensures
            special_number == first_special(data@, iteration as int),
        decreases SEED_LEN - i,
    {
        if data[i] % 32 != 0 {
            special_number += data[i] % 32;
            break ;
        }
        i += 1;
    }

    (common_numbers_array, special_number)
}

/// Where the seed starts in the record of recent hashes.
pub const SEED_OFFSET: usize = 17;

/// Takes the seed of a draw out of the record of recent hashes: the 32 bytes
/// that start at `SEED_OFFSET`. A record too short to hold them gives no
/// seed.
pub fn sample_seed(recent_hashes: &[u8]) -> (seed: Option<[u8; 32]>)
    ensures
        seed is Some <==> recent_hashes@.len() >= SEED_OFFSET + SEED_LEN,
        seed matches Some(bytes) ==> bytes@ == recent_hashes@.subrange(
            SEED_OFFSET as int,
            SEED_OFFSET + SEED_LEN,
        ),
{
    if recent_hashes.len() < SEED_OFFSET + SEED_LEN {
        return None;
    }
    let mut bytes: [u8; 32] = [0u8; 32];
    let mut i: usize = 0;
    while i < SEED_LEN
        invariant
            i <= SEED_LEN,
            recent_hashes@.len() >= SEED_OFFSET + SEED_LEN,
            forall|k: int| 0 <= k < i ==> bytes@[k] == recent_hashes@[SEED_OFFSET + k],
        decreases SEED_LEN - i,
    {
        bytes[i] = recent_hashes[SEED_OFFSET + i];
        i += 1;
    }
    Some(bytes)
}

} // verus!
