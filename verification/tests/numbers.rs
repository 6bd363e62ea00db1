use charity_lottery::numbers::{SEED_LEN, SEED_OFFSET};
use charity_lottery::{find_winning_numbers, sample_seed};

fn seed_with(prefix: &[u8]) -> [u8; 32] {
    let mut seed = [0u8; 32];
    seed[..prefix.len()].copy_from_slice(prefix);
    seed
}

fn is_drawn_combination(common: &[u8; 5]) -> bool {
    if common.iter().all(|&c| c == 0) {
        return true;
    }
    for i in 0..5 {
        if common[i] < 1 || common[i] > 63 {
            return false;
        }
        for j in (i + 1)..5 {
            if common[i] == common[j] {
                return false;
            }
        }
    }
    true
}

#[test]
fn skips_zero_residues_and_repeats() {
    let mut seed = [0u8; 32];
    seed[0] = 64;
    seed[1] = 0;
    seed[2] = 65;
    for i in 3..32 {
        seed[i] = (i - 2) as u8;
    }
    assert_eq!(&seed[..8], &[64, 0, 65, 1, 2, 3, 4, 5]);
    let (common, special) = find_winning_numbers(&seed);
    assert_eq!(common, [1, 2, 3, 4, 5]);
    // the first phase ends with the byte 5; the byte after it is 6
    assert_eq!(special, 6);
}

#[test]
fn all_zero_seed_gives_the_fallback() {
    let (common, special) = find_winning_numbers(&[0u8; 32]);
    assert_eq!(common, [0, 0, 0, 0, 0]);
    assert_eq!(special, 0);
}

#[test]
fn fewer_than_five_values_give_the_fallback() {
    let mut seed = [0u8; 32];
    for i in 0..32 {
        seed[i] = (i % 4) as u8 + 1;
    }
    let (common, special) = find_winning_numbers(&seed);
    assert_eq!(common, [0, 0, 0, 0, 0]);
    // the first phase has read the whole seed, nothing is left for the second
    assert_eq!(special, 0);
}

#[test]
fn four_values_and_multiples_of_64_give_the_fallback() {
    let seed = seed_with(&[10, 20, 30, 40, 64, 128, 192, 10, 20]);
    let (common, special) = find_winning_numbers(&seed);
    assert_eq!(common, [0, 0, 0, 0, 0]);
    assert_eq!(special, 0);
}

#[test]
fn special_number_skips_multiples_of_32() {
    let seed = seed_with(&[1, 2, 3, 4, 5, 32, 64, 96, 0, 33, 7]);
    let (common, special) = find_winning_numbers(&seed);
    assert_eq!(common, [1, 2, 3, 4, 5]);
    assert_eq!(special, 1);
}

#[test]
fn special_number_is_zero_when_nothing_is_left() {
    let mut seed = [1u8; 32];
    seed[1] = 2;
    seed[2] = 3;
    seed[3] = 4;
    seed[31] = 5;
    let (common, special) = find_winning_numbers(&seed);
    assert_eq!(common, [1, 2, 3, 4, 5]);
    assert_eq!(special, 0);
}

#[test]
fn special_number_is_zero_when_the_rest_are_multiples_of_32() {
    let mut seed = [32u8; 32];
    seed[0] = 9;
    seed[1] = 8;
    seed[2] = 7;
    seed[3] = 6;
    seed[4] = 5;
    seed[20] = 224;
    let (common, special) = find_winning_numbers(&seed);
    assert_eq!(common, [9, 8, 7, 6, 5]);
    assert_eq!(special, 0);
}

#[test]
fn residues_are_taken_modulo_64_and_32() {
    let seed = seed_with(&[255, 128, 129, 193, 130, 200, 77, 224, 255, 1]);
    let (common, special) = find_winning_numbers(&seed);
    assert_eq!(common, [63, 1, 2, 8, 13]);
    assert_eq!(special, 31);
}

#[test]
fn values_come_in_the_order_first_seen() {
    let seed = seed_with(&[5, 4, 5, 3, 4, 2, 3, 1, 40]);
    let (common, special) = find_winning_numbers(&seed);
    assert_eq!(common, [5, 4, 3, 2, 1]);
    assert_eq!(special, 8);
}

#[test]
fn same_seed_same_numbers() {
    let seed = seed_with(&[200, 17, 17, 99, 64, 3, 250, 31, 32, 95]);
    let first = find_winning_numbers(&seed);
    let second = find_winning_numbers(&seed);
    assert_eq!(first, second);
    let copy = seed;
    assert_eq!(find_winning_numbers(&copy), first);
}

#[test]
fn every_seed_gives_five_distinct_numbers_or_the_fallback() {
    let mut state: u64 = 0x2545_f491_4f6c_dd1d;
    for _ in 0..2000 {
        let mut seed = [0u8; 32];
        for byte in seed.iter_mut() {
            state = state
                .wrapping_mul(6364136223846793005)
                .wrapping_add(1442695040888963407);
            // some seeds of few values, so that the fallback is reached too
            *byte = if state & 0x100_0000 == 0 {
                (state >> 33) as u8
            } else {
                ((state >> 33) % 5) as u8
            };
        }
        let (common, special) = find_winning_numbers(&seed);
        assert!(is_drawn_combination(&common));
        assert!(special <= 31);
        assert_eq!(find_winning_numbers(&seed), (common, special));
    }
}

#[test]
fn seed_is_taken_at_its_offset() {
    assert_eq!(SEED_OFFSET, 17);
    assert_eq!(SEED_LEN, 32);
    let record: Vec<u8> = (0..100u8).collect();
    let seed = sample_seed(&record).unwrap();
    let expected: Vec<u8> = (17..49u8).collect();
    assert_eq!(seed.to_vec(), expected);
}

#[test]
fn seed_needs_49_bytes() {
    let record: Vec<u8> = (0..49u8).collect();
    assert!(sample_seed(&record).is_some());
    assert_eq!(sample_seed(&record).unwrap()[31], 48);
    assert_eq!(sample_seed(&record[..48]), None);
    assert_eq!(sample_seed(&[]), None);
}
