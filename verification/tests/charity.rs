use charity_lottery::charity::{power_of_ten, token_amount, CHARITY_DECIMALS};
use charity_lottery::{
    publish_charity_project, support_charity_project, CharityLotteryError, CharityProject,
};

#[test]
fn project_keeps_what_was_published() {
    let project = publish_charity_project(
        [3u8; 32],
        String::from("Clean water"),
        String::from("Wells for three villages"),
    );
    assert_eq!(
        project,
        CharityProject {
            creator: [3u8; 32],
            project_name: String::from("Clean water"),
            description: String::from("Wells for three villages"),
        }
    );
}

#[test]
fn support_is_counted_in_millionths() {
    assert_eq!(CHARITY_DECIMALS, 6);
    assert_eq!(support_charity_project(0), Ok(0));
    assert_eq!(support_charity_project(1), Ok(1_000_000));
    assert_eq!(support_charity_project(250), Ok(250_000_000));
    assert_eq!(
        support_charity_project(18_446_744_073_709),
        Ok(18_446_744_073_709_000_000)
    );
}

#[test]
fn support_beyond_64_bits_is_refused() {
    assert_eq!(
        support_charity_project(18_446_744_073_710),
        Err(CharityLotteryError::Overflow)
    );
    assert_eq!(support_charity_project(u64::MAX), Err(CharityLotteryError::Overflow));
}

#[test]
fn powers_of_ten() {
    assert_eq!(power_of_ten(0), Some(1));
    assert_eq!(power_of_ten(1), Some(10));
    assert_eq!(power_of_ten(6), Some(1_000_000));
    assert_eq!(power_of_ten(19), Some(10_000_000_000_000_000_000));
    assert_eq!(power_of_ten(20), None);
    assert_eq!(power_of_ten(255), None);
}

#[test]
fn token_amounts() {
    assert_eq!(token_amount(3, 2), Ok(300));
    assert_eq!(token_amount(1, 19), Ok(10_000_000_000_000_000_000));
    assert_eq!(token_amount(2, 19), Err(CharityLotteryError::Overflow));
    assert_eq!(token_amount(0, 20), Err(CharityLotteryError::Overflow));
    assert_eq!(token_amount(u64::MAX, 0), Ok(u64::MAX));
}
