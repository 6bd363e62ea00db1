//! The draw counter, which advances by epochs, and the winning numbers of a
//! draw.

use crate::error::CharityLotteryError;
use crate::numbers::{
    drawn_common_numbers, drawn_special_number, find_winning_numbers, is_drawn_combination,
};
use vstd::prelude::*;

verus! {

/// The number of the current draw and the epoch in which it began.
#[derive(Clone, Copy, Debug, PartialEq, Eq, Structural)]
pub struct DrawNumberRecorder {
    pub draw_number: u64,
    pub epoch: u64,
}

/// The winning numbers of one draw. A record is written once and not
/// changed afterwards.
#[derive(Clone, Copy, Debug, PartialEq, Eq)]
pub struct WinningNumbers {
    /// The draw that the numbers belong to.
    pub draw_number: u64,
    pub common_numbers: [u8; 5],
    pub special_number: u8,
}

impl WinningNumbers {
    /// Numbers as a draw gives them: five pairwise distinct common numbers
    /// from 1 to 63 or five zeros, and a special number of at most 31, where
    /// 0 says that the seed gave none.
    pub open spec fn wf(&self) -> bool {
        &&& is_drawn_combination(self.common_numbers@)
        &&& self.special_number <= 31
    }
}

/// The recorder as it is created: no draw yet, and the epoch of its creation.
pub open spec fn fresh_recorder(now_epoch: u64) -> DrawNumberRecorder {
    DrawNumberRecorder { draw_number: 0, epoch: now_epoch }
}

/// When a draw may begin: the epoch that follows `now_epoch` lies after the
/// epoch of the last advance.
pub open spec fn may_advance(recorder: DrawNumberRecorder, now_epoch: u64) -> bool {
    now_epoch + 1 > recorder.epoch
}

/// What an advance at `now_epoch` makes of `recorder`: the next draw, begun
/// at `now_epoch`, or the reason why the recorder stays as it is.
pub open spec fn advanced(recorder: DrawNumberRecorder, now_epoch: u64) -> Result<
    DrawNumberRecorder,
    CharityLotteryError,
> {
    if !may_advance(recorder, now_epoch) {
        Err(CharityLotteryError::NotTimeYet)
    } else if recorder.draw_number == u64::MAX {
        Err(CharityLotteryError::Overflow)
    } else {
        Ok(DrawNumberRecorder { draw_number: (recorder.draw_number + 1) as u64, epoch: now_epoch })
    }
}

/// The winning numbers that `seed` gives to the draw `draw_number`.
pub open spec fn is_drawn_from(numbers: WinningNumbers, draw_number: u64, seed: Seq<u8>) -> bool {
    &&& numbers.draw_number == draw_number
    &&& numbers.common_numbers@ == drawn_common_numbers(seed)
    &&& numbers.special_number == drawn_special_number(seed)
}

/// Creates the recorder in an empty place, at draw 0 and the epoch
/// `now_epoch`. A place that holds a recorder keeps it.
pub fn initialize_draw_number_recorder(
    place: &mut Option<DrawNumberRecorder>,
    now_epoch: u64,
) -> (result: Result<(), CharityLotteryError>)
    ensures
        *old(place) is Some ==> result == Err::<(), _>(CharityLotteryError::AlreadyInitialized)
            && *final(place) == *old(place),
        *old(place) is None ==> result is Ok && *final(place) == Some(fresh_recorder(now_epoch)),
{
    if place.is_some() {
        return Err(CharityLotteryError::AlreadyInitialized);
    }
    *place = Some(DrawNumberRecorder { draw_number: 0, epoch: now_epoch });
    Ok(())
}

/// Begins the next draw at `now_epoch` where a draw may begin and the
/// counter has room; else the recorder is left as it is.
pub fn increase_draw_number(recorder: &mut DrawNumberRecorder, now_epoch: u64) -> (result: Result<
    (),
    CharityLotteryError,
>)
    ensures
        match advanced(*old(recorder), now_epoch) {
            Ok(next) => result is Ok && *final(recorder) == next,
            Err(reason) => result == Err::<(), _>(reason) && *final(recorder) == *old(recorder),
        },
{
    // need `now_epoch > recorder.epoch`
    // test `now_epoch + 1 > recorder.epoch`
    if !(now_epoch as u128 + 1 > recorder.epoch as u128) {
        return Err(CharityLotteryError::NotTimeYet);
    }
    match recorder.draw_number.checked_add(1) {
        Some(next) => {
            recorder.epoch = now_epoch;
            recorder.draw_number = next;
            Ok(())
        },
        None => Err(CharityLotteryError::Overflow),
    }
}

/// Writes the winning numbers of the current draw into an empty place: the
/// numbers that `seed` gives, under the recorder's draw number. A place that
/// holds numbers keeps them.
pub fn new_winning_numbers(
    place: &mut Option<WinningNumbers>,
    recorder: &DrawNumberRecorder,
    seed: &[u8; 32],
) -> (result: Result<(), CharityLotteryError>)
    ensures
        *old(place) is Some ==> result == Err::<(), _>(CharityLotteryError::AlreadyInitialized)
            && *final(place) == *old(place),
        *old(place) is None ==> result is Ok && match *final(place) {
            Some(numbers) => is_drawn_from(numbers, recorder.draw_number, seed@) && numbers.wf(),
            None => false,
        },
{
    if place.is_some() {
        return Err(CharityLotteryError::AlreadyInitialized);
    }
    let (common_numbers, special_number) = find_winning_numbers(seed);
    *place = Some(
        WinningNumbers { draw_number: recorder.draw_number, common_numbers, special_number },
    );
    Ok(())
}

/// An advance at an epoch before the epoch of the last advance is refused
/// with `NotTimeYet`, whatever the counter holds.
pub proof fn lemma_too_early(recorder: DrawNumberRecorder, now_epoch: u64)
    requires
        now_epoch + 1 <= recorder.epoch,
    ensures
        advanced(recorder, now_epoch) == Err::<DrawNumberRecorder, _>(
            CharityLotteryError::NotTimeYet,
        ),
{
}

/// After an advance at `first_epoch`, an advance at an earlier epoch is
/// refused with `NotTimeYet` and leaves the recorder as the first advance
/// left it.
pub proof fn lemma_second_advance_refused(
    recorder: DrawNumberRecorder,
    first_epoch: u64,
    second_epoch: u64,
)
    requires
        advanced(recorder, first_epoch) is Ok,
        second_epoch < first_epoch,
    ensures
        advanced(advanced(recorder, first_epoch)->Ok_0, second_epoch) == Err::<
            DrawNumberRecorder,
            _,
        >(CharityLotteryError::NotTimeYet),
{
    lemma_too_early(advanced(recorder, first_epoch)->Ok_0, second_epoch);
}

/// After an advance at `first_epoch`, a draw may begin again in that same
/// epoch or later: such an advance is never refused with `NotTimeYet`.
pub proof fn lemma_second_advance_allowed(
    recorder: DrawNumberRecorder,
    first_epoch: u64,
    second_epoch: u64,
)
    requires
        advanced(recorder, first_epoch) is Ok,
        second_epoch >= first_epoch,
    ensures
        may_advance(advanced(recorder, first_epoch)->Ok_0, second_epoch),
        advanced(advanced(recorder, first_epoch)->Ok_0, second_epoch) != Err::<
            DrawNumberRecorder,
            _,
        >(CharityLotteryError::NotTimeYet),
{
}

/// A successful advance raises the draw number by exactly one.
pub proof fn lemma_advance_by_one(recorder: DrawNumberRecorder, now_epoch: u64)
    requires
        advanced(recorder, now_epoch) is Ok,
    ensures
        advanced(recorder, now_epoch)->Ok_0.draw_number == recorder.draw_number + 1,
        advanced(recorder, now_epoch)->Ok_0.epoch == now_epoch,
{
}

} // verus!
