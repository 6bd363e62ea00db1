use charity_lottery::{
    buy_lottery_ticket, check_ticket_numbers, increase_draw_number,
    initialize_draw_number_recorder, initialize_prize_pool, new_winning_numbers, sample_seed,
    CharityLotteryError, Settlement,
};

fn recent_hashes(first: u8) -> Vec<u8> {
    (0..80u8).map(|i| first.wrapping_add(i)).collect()
}

#[test]
fn a_draw_from_start_to_settlement() {
    let mut recorder_place = None;
    let mut pool_place = None;
    initialize_draw_number_recorder(&mut recorder_place, 300).unwrap();
    initialize_prize_pool(&mut pool_place).unwrap();
    let mut recorder = recorder_place.unwrap();
    let mut pool = pool_place.unwrap();

    increase_draw_number(&mut recorder, 301).unwrap();
    assert_eq!(recorder.draw_number, 1);

    // bytes 17.. of the record: 18, 19, 20, 21, 22, 23, ..
    let seed = sample_seed(&recent_hashes(1)).unwrap();
    assert_eq!(&seed[..6], &[18, 19, 20, 21, 22, 23]);
    let mut numbers_place = None;
    new_winning_numbers(&mut numbers_place, &recorder, &seed).unwrap();
    let numbers = numbers_place.unwrap();
    assert_eq!(numbers.draw_number, 1);
    assert_eq!(numbers.common_numbers, [18, 19, 20, 21, 22]);
    assert_eq!(numbers.special_number, 23);

    let mut winner =
        buy_lottery_ticket([1u8; 32], [18, 19, 20, 40, 41], 23, &recorder, &mut pool, 6)
            .unwrap()
            .ticket;
    let mut loser =
        buy_lottery_ticket([2u8; 32], [1, 2, 3, 4, 5], 6, &recorder, &mut pool, 6)
            .unwrap()
            .ticket;
    let mut lucky =
        buy_lottery_ticket([3u8; 32], [22, 21, 20, 19, 18], 23, &recorder, &mut pool, 6)
            .unwrap()
            .ticket;
    assert_eq!(pool.total_prize, 6_000_000);

    // three common numbers and the special number: 200 units, more than the pool holds
    assert_eq!(
        check_ticket_numbers(&mut winner, &numbers, &mut pool),
        Err(CharityLotteryError::InsufficientPool)
    );
    assert!(!winner.is_checked);
    assert_eq!(pool.total_prize, 6_000_000);

    assert_eq!(check_ticket_numbers(&mut loser, &numbers, &mut pool), Ok(Settlement::NoWin));
    assert!(loser.is_checked);

    assert_eq!(
        check_ticket_numbers(&mut lucky, &numbers, &mut pool),
        Ok(Settlement::Jackpot { amount: 6_000_000 })
    );
    assert_eq!(pool.total_prize, 0);
    assert_eq!(
        check_ticket_numbers(&mut lucky, &numbers, &mut pool),
        Err(CharityLotteryError::AlreadyChecked)
    );
}

#[test]
fn a_ticket_of_an_earlier_draw_meets_only_its_own_numbers() {
    let mut recorder_place = None;
    initialize_draw_number_recorder(&mut recorder_place, 10).unwrap();
    let mut recorder = recorder_place.unwrap();
    let mut pool_place = None;
    initialize_prize_pool(&mut pool_place).unwrap();
    let mut pool = pool_place.unwrap();

    increase_draw_number(&mut recorder, 10).unwrap();
    let mut ticket =
        buy_lottery_ticket([9u8; 32], [18, 19, 20, 21, 22], 23, &recorder, &mut pool, 6)
            .unwrap()
            .ticket;
    assert_eq!(ticket.draw_number, 1);

    increase_draw_number(&mut recorder, 11).unwrap();
    let seed = sample_seed(&recent_hashes(1)).unwrap();
    let mut second_place = None;
    new_winning_numbers(&mut second_place, &recorder, &seed).unwrap();
    let second = second_place.unwrap();
    assert_eq!(second.draw_number, 2);
    assert_eq!(second.common_numbers, ticket.common_numbers);

    assert_eq!(
        check_ticket_numbers(&mut ticket, &second, &mut pool),
        Err(CharityLotteryError::InvalidDrawNumber)
    );
    assert!(!ticket.is_checked);
    assert_eq!(pool.total_prize, 2_000_000);
}
