//! A periodic lottery ledger: a draw counter that advances by epochs, winning numbers
//! derived from a 32-byte seed, tickets bound to a draw, and a shared prize
//! pool that settles tickets under fixed payout tiers.

pub mod charity;
pub mod draw;
pub mod error;
pub mod lamports;
pub mod numbers;
pub mod pool;
pub mod settlement;
pub mod ticket;

pub use charity::{publish_charity_project, support_charity_project, CharityProject};
pub use draw::{
    increase_draw_number, initialize_draw_number_recorder, new_winning_numbers,
    DrawNumberRecorder, WinningNumbers,
};
pub use error::CharityLotteryError;
pub use numbers::{find_winning_numbers, sample_seed};
pub use lamports::{purchase_charges, PurchaseCharges};
pub use pool::{get_winning_count, initialize_prize_pool, PrizePool, Settlement};
pub use settlement::{check_ticket_numbers, count_shared_elements};
pub use ticket::{buy_lottery_ticket, has_duplicates, LotteryTicket, TicketPurchase};
