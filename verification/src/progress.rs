//! Progress reports: what a phase of a run and a whole sweep send while
//! they work. A report is a share in hundredths of a percent.

use vstd::prelude::*;
use std::sync::mpsc::Receiver;
use std::sync::mpsc::Sender;
use crate::fixed::PERCENT_SCALE;

verus! {

/// The sending half of a channel of the standard library. Nothing is
/// stated of what it holds.
#[verifier::external_type_specification]
#[verifier::external_body]
#[verifier::reject_recursive_types(T)]
pub struct ExSender<T>(Sender<T>);

/// The receiving half of a channel of the standard library. Nothing is
/// stated of what it holds.
#[verifier::external_type_specification]
#[verifier::external_body]
#[verifier::reject_recursive_types(T)]
pub struct ExReceiver<T>(Receiver<T>);

/// A phase reports again once it has gone this many candles past its last
/// report.
pub const REPORT_EVERY: usize = 1000;

/// Half of the whole, in hundredths of a percent: the share of one phase.
pub const HALF: u32 = 5000;

/// The part of a phase that is done, as a share of half a run: `done` out
/// of `total` candles give `done / total` of 50 %, rounded down.
pub open spec fn phase_share(done: int, total: int) -> int {
    if total <= 0 || done < 0 {
        0
    } else if done >= total {
        HALF as int
    } else {
        done * HALF / total
    }
}

pub fn phase_progress(done: usize, total: usize) -> (share: u32)
    ensures
        share == phase_share(done as int, total as int),
        share <= HALF,
{
    if total == 0 {
        0
    } else if done >= total {
        HALF
    } else {
        let scaled: u128 = (done as u128) * (HALF as u128);
        let share: u128 = scaled / (total as u128);
        assert(share <= HALF) by (nonlinear_arith)
            requires
                share == (done * HALF) / (total as int),
                0 <= done < total,
                HALF == 5000,
        {
            vstd::arithmetic::div_mod::lemma_div_is_ordered(
                done * 5000,
                total * 5000,
                total as int,
            );
            vstd::arithmetic::div_mod::lemma_div_multiples_vanish(5000, total as int);
        }
        share as u32
    }
}

/// The progress of a sweep of `total` runs of which `completed` are done
/// and the current one stands at `progress`, which counts as 100 % at most:
/// the mean over all runs, rounded down, and 100 % when no run is left.
pub open spec fn overall_share(progress: int, completed: int, total: int) -> int {
    let current = if progress > PERCENT_SCALE {
        PERCENT_SCALE as int
    } else {
        progress
    };
    if total <= 0 || completed >= total {
        PERCENT_SCALE as int
    } else {
        (current + completed * PERCENT_SCALE) / total
    }
}

pub fn overall_progress(progress: u32, completed: usize, total: usize) -> (share: u32)
    ensures
        share == overall_share(progress as int, completed as int, total as int),
        share <= PERCENT_SCALE,
{
    if total == 0 || completed >= total {
        10_000
    } else {
        let progress: u32 = if progress > 10_000 {
            10_000
        } else {
            progress
        };
        let sum: u128 = (progress as u128) + (completed as u128) * 10_000;
        let share: u128 = sum / (total as u128);
        assert(share <= 10_000) by {
            assert(sum <= total * 10_000) by (nonlinear_arith)
                requires
                    sum == progress + completed * 10_000,
                    progress <= 10_000,
                    completed < total,
            ;
            vstd::arithmetic::div_mod::lemma_div_is_ordered(
                sum as int,
                total * 10_000,
                total as int,
            );
            vstd::arithmetic::div_mod::lemma_div_multiples_vanish(10_000, total as int);
        }
        share as u32
    }
}

/// `Sender::send` of the standard library, on a channel of shares. The
/// value is handed to the channel; that the receiver is gone is not an
/// error here, and nothing is stated of the call.
#[verifier::external_body]
pub(crate) fn send_share(tracker: &Sender<u32>, share: u32) {
    let _ = tracker.send(share);
}

/// `Sender::send` of the standard library, on a channel of pairs of a
/// share and the number of the sweep. Nothing is stated of the call.
#[verifier::external_body]
pub(crate) fn send_sweep_share(tracker: &Sender<(u32, usize)>, share: u32, id: usize) {
    let _ = tracker.send((share, id));
}

/// `channel` of the standard library: a new channel of shares, as its two
/// halves. Nothing is stated of them.
#[verifier::external_body]
pub(crate) fn share_channel() -> (halves: (Sender<u32>, Receiver<u32>)) {
    std::sync::mpsc::channel()
}

/// `Receiver::try_recv` of the standard library: the next share that waits
/// in the channel, or `None` where none waits or the channel is closed. It
/// does not block. Nothing is stated of the share.
#[verifier::external_body]
pub(crate) fn next_share(receiver: &Receiver<u32>) -> (share: Option<u32>) {
    receiver.try_recv().ok()
}

/// Reports a share where there is somebody to report to.
pub(crate) fn report(tracker: Option<&Sender<u32>>, share: u32) {
    match tracker {
        Some(sender) => send_share(sender, share),
        None => {},
    }
}

/// Hands on what a run has reported, at most `budget` reports, each as the
/// share of the whole sweep that it makes when `completed` of `total` runs
/// are done.
pub(crate) fn relay(
    receiver: &Receiver<u32>,
    tracker: &Sender<(u32, usize)>,
    id: usize,
    completed: usize,
    total: usize,
    budget: usize,
) {
    let mut left: usize = budget;
    while left > 0
        decreases left,
    {
        match next_share(receiver) {
            Some(share) => {
                send_sweep_share(tracker, overall_progress(share, completed, total), id);
            },
            None => {
                return ;
            },
        }
        left -= 1;
    }
}

} // verus!
