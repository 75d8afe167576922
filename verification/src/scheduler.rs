//! The revalidation scheduler: a small state machine deciding, per block,
//! whether a full revalidation pass over the queue is due.
//!
//! The status progresses `NotScheduled -> Scheduled -> InProgress` and is
//! returned to `NotScheduled` only by an explicit [`TxPoolRevalidationStatus::clear`],
//! issued once the revalidation pass it stood for has completed (or by the
//! empty-queue short-circuit of the light maintainer). Firing is amortized:
//! a pass triggers on whichever of "enough wall time" or "enough blocks"
//! elapses first, rather than on every block.

use vstd::prelude::*;

verus! {

/// The status of in-queue transaction revalidation.
#[derive(Clone, Copy, Debug)]
pub enum TxPoolRevalidationStatus {
    /// No revalidation pass is scheduled.
    NotScheduled,
    /// A pass is scheduled for the given instant (milliseconds) and/or the
    /// given block number, whichever is reached first.
    Scheduled(Option<u64>, Option<u64>),
    /// A pass is running; nothing fires until it completes and clears.
    InProgress,
}

/// `x + y`, held at `u64::MAX` where the mathematical sum exceeds it.
pub open spec fn saturating_add_spec(x: u64, y: u64) -> u64 {
    if x + y > u64::MAX {
        u64::MAX
    } else {
        (x + y) as u64
    }
}

/// The deadline a period arms relative to `base`: none when no period is
/// configured.
pub open spec fn scheduled_at(base: u64, period: Option<u64>) -> Option<u64> {
    match period {
        Some(p) => Some(saturating_add_spec(base, p)),
        None => None,
    }
}

/// Whether a scheduled pass is due: the time deadline (if set) has been
/// reached, or the block deadline (if set) has been reached.
pub open spec fn revalidation_due(
    at_time: Option<u64>,
    at_block: Option<u64>,
    block: u64,
    now: u64,
) -> bool {
    (match at_time {
        Some(t) => now >= t,
        None => false,
    }) || (match at_block {
        Some(b) => block >= b,
        None => false,
    })
}

/// What [`TxPoolRevalidationStatus::is_required`] returns in state `st`.
pub open spec fn step_returns(
    st: TxPoolRevalidationStatus,
    block: u64,
    time_period: Option<u64>,
    block_period: Option<u64>,
    now: u64,
) -> bool {
    match st {
        TxPoolRevalidationStatus::NotScheduled => false,
        TxPoolRevalidationStatus::Scheduled(at_time, at_block) => revalidation_due(
            at_time,
            at_block,
            block,
            now,
        ),
        TxPoolRevalidationStatus::InProgress => false,
    }
}

/// The state [`TxPoolRevalidationStatus::is_required`] leaves behind in
/// state `st`.
pub open spec fn step_state(
    st: TxPoolRevalidationStatus,
    block: u64,
    time_period: Option<u64>,
    block_period: Option<u64>,
    now: u64,
) -> TxPoolRevalidationStatus {
    match st {
        TxPoolRevalidationStatus::NotScheduled => TxPoolRevalidationStatus::Scheduled(
            scheduled_at(now, time_period),
            scheduled_at(block, block_period),
        ),
        TxPoolRevalidationStatus::Scheduled(at_time, at_block) => {
            if revalidation_due(at_time, at_block, block, now) {
                TxPoolRevalidationStatus::InProgress
            } else {
                st
            }
        },
        TxPoolRevalidationStatus::InProgress => TxPoolRevalidationStatus::InProgress,
    }
}

/// `x + y`, held at `u64::MAX` on overflow.
fn saturating_add(x: u64, y: u64) -> (r: u64)
    ensures
        r == saturating_add_spec(x, y),
{
    if x > u64::MAX - y {
        u64::MAX
    } else {
        x + y
    }
}

impl TxPoolRevalidationStatus {
    /// Called when a revalidation pass has completed (or when an empty queue
    /// makes any scheduled pass moot): the schedule returns to idle.
    pub fn clear(&mut self)
        ensures
            *final(self) == TxPoolRevalidationStatus::NotScheduled,
    {
        *self = TxPoolRevalidationStatus::NotScheduled;
    }

    /// Decides whether a revalidation pass is required at block `block`,
    /// given the configured periods and the current time `now` (ms).
    ///
    /// From idle, the call only arms the schedule (deadlines saturate at
    /// `u64::MAX`) and never itself triggers. From a scheduled state it
    /// triggers exactly when a stored deadline has been reached, moving to
    /// `InProgress`; the periods passed here are then ignored. While a pass
    /// is in progress nothing triggers until [`Self::clear`].
    pub fn is_required(
        &mut self,
        block: u64,
        revalidate_time_period: Option<u64>,
        revalidate_block_period: Option<u64>,
        now: u64,
    ) -> (required: bool)
        ensures
            required == step_returns(
                *old(self),
                block,
                revalidate_time_period,
                revalidate_block_period,
                now,
            ),
            *final(self) == step_state(
                *old(self),
                block,
                revalidate_time_period,
                revalidate_block_period,
                now,
            ),
    {
        match *self {
            TxPoolRevalidationStatus::NotScheduled => {
                let at_time = match revalidate_time_period {
                    Some(period) => Some(saturating_add(now, period)),
                    None => None,
                };
                let at_block = match revalidate_block_period {
                    Some(period) => Some(saturating_add(block, period)),
                    None => None,
                };
                *self = TxPoolRevalidationStatus::Scheduled(at_time, at_block);
                false
            },
            TxPoolRevalidationStatus::Scheduled(at_time, at_block) => {
                let time_due = match at_time {
                    Some(at) => now >= at,
                    None => false,
                };
                let block_due = match at_block {
                    Some(at) => block >= at,
                    None => false,
                };
                let required = time_due || block_due;
                if required {
                    *self = TxPoolRevalidationStatus::InProgress;
                }
                required
            },
            TxPoolRevalidationStatus::InProgress => false,
        }
    }
}

/// A schedule that can never fire under disabled periods: idle, or armed
/// with no deadline at all.
pub open spec fn schedule_disabled(st: TxPoolRevalidationStatus) -> bool {
    st is NotScheduled || st == TxPoolRevalidationStatus::Scheduled(
        None::<u64>,
        None::<u64>,
    )
}

/// With both periods absent, the schedule is permanently disabled: starting
/// from idle, every call returns `false` and the state never leaves the
/// disabled set. The first idle call arms `Scheduled(None, None)`, which is
/// intentional and must be preserved.
pub proof fn lemma_disabled_schedule_never_fires(
    st: TxPoolRevalidationStatus,
    block: u64,
    now: u64,
)
    requires
        schedule_disabled(st),
    ensures
        !step_returns(st, block, None, None, now),
        schedule_disabled(step_state(st, block, None, None, now)),
{
}

/// With only a time period, arming at `now0` schedules the pass for
/// `now0 + period`; a later call returns `true` exactly when the clock has
/// reached that instant, whatever periods it is handed, and a trigger moves
/// the state to `InProgress`.
pub proof fn lemma_time_period_fires_at_instant(
    block0: u64,
    block1: u64,
    period: u64,
    now0: u64,
    now1: u64,
    time_period1: Option<u64>,
    block_period1: Option<u64>,
)
    requires
        now0 + period <= u64::MAX,
    ensures
        !step_returns(TxPoolRevalidationStatus::NotScheduled, block0, Some(period), None, now0),
        ({
            let armed = step_state(
                TxPoolRevalidationStatus::NotScheduled,
                block0,
                Some(period),
                None,
                now0,
            );
            &&& armed == TxPoolRevalidationStatus::Scheduled(Some((now0 + period) as u64), None::<u64>)
            &&& step_returns(armed, block1, time_period1, block_period1, now1) == (now1 >= now0
                + period)
            &&& (now1 >= now0 + period ==> step_state(
                armed,
                block1,
                time_period1,
                block_period1,
                now1,
            ) is InProgress)
            &&& (now1 < now0 + period ==> step_state(
                armed,
                block1,
                time_period1,
                block_period1,
                now1,
            ) == armed)
        }),
{
}

/// With only a block period, arming at block `block0` schedules the pass for
/// block `block0 + period`; a later call returns `true` exactly when its
/// block has reached that height, whatever periods it is handed.
pub proof fn lemma_block_period_fires_at_height(
    block0: u64,
    block1: u64,
    period: u64,
    now0: u64,
    now1: u64,
    time_period1: Option<u64>,
    block_period1: Option<u64>,
)
    requires
        block0 + period <= u64::MAX,
    ensures
        !step_returns(TxPoolRevalidationStatus::NotScheduled, block0, None, Some(period), now0),
        ({
            let armed = step_state(
                TxPoolRevalidationStatus::NotScheduled,
                block0,
                None,
                Some(period),
                now0,
            );
            &&& armed == TxPoolRevalidationStatus::Scheduled(
                None::<u64>,
                Some((block0 + period) as u64),
            )
            &&& step_returns(armed, block1, time_period1, block_period1, now1) == (block1 >= block0
                + period)
            &&& (block1 >= block0 + period ==> step_state(
                armed,
                block1,
                time_period1,
                block_period1,
                now1,
            ) is InProgress)
            &&& (block1 < block0 + period ==> step_state(
                armed,
                block1,
                time_period1,
                block_period1,
                now1,
            ) == armed)
        }),
{
}

/// A triggered schedule stays silent: once `InProgress`, every call returns
/// `false` and the state is unchanged until an explicit clear. Together with
/// the trigger lemmas this gives "true exactly once, then false until
/// `clear`".
pub proof fn lemma_in_progress_never_fires(
    block: u64,
    time_period: Option<u64>,
    block_period: Option<u64>,
    now: u64,
)
    ensures
        !step_returns(TxPoolRevalidationStatus::InProgress, block, time_period, block_period, now),
        step_state(
            TxPoolRevalidationStatus::InProgress,
            block,
            time_period,
            block_period,
            now,
        ) is InProgress,
{
}

} // verus!
