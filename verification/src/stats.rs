//! Per-user statistics of recorded actions.

use crate::chain::Clock;
use crate::errors::StatsError;
use crate::keys::Pubkey;
use crate::state::{ActionKind, ActionRecorded, UserStats};
use vstd::prelude::*;

verus! {

/// What `init_user_stats` is called with.
#[derive(Clone, Copy, Debug, PartialEq, Eq)]
pub struct InitUserStats {
    pub user: Pubkey,
    pub stats_bump: u8,
}

/// What `record_action` is called with.
#[derive(Clone, Copy, Debug, PartialEq, Eq)]
pub struct RecordAction {
    pub user: Pubkey,
    pub stats: UserStats,
}

impl UserStats {
    /// Every recorded action was of one kind.
    pub open spec fn wf(self) -> bool {
        self.proofs_submitted == self.supplies + self.borrows + self.repays + self.liquidations
    }

    /// How many actions of `kind` were recorded.
    pub open spec fn count(self, kind: ActionKind) -> u64 {
        match kind {
            ActionKind::Supply => self.supplies,
            ActionKind::Borrow => self.borrows,
            ActionKind::Repay => self.repays,
            ActionKind::Liquidation => self.liquidations,
        }
    }
}

/// A user's statistics as they are opened.
pub open spec fn initial_stats(ctx: InitUserStats, clock: Clock) -> UserStats {
    UserStats {
        user: ctx.user,
        created_at: clock.unix_timestamp,
        last_action_at: clock.unix_timestamp,
        proofs_submitted: 0,
        supplies: 0,
        borrows: 0,
        repays: 0,
        liquidations: 0,
        last_health_bps: 0,
        bump: ctx.stats_bump,
    }
}

/// Opens a user's statistics.
pub fn init_user_stats(ctx: &InitUserStats, clock: &Clock) -> (stats: UserStats)
    ensures
        stats == (UserStats {
            user: ctx.user,
            created_at: clock.unix_timestamp,
            last_action_at: clock.unix_timestamp,
            proofs_submitted: 0,
            supplies: 0,
            borrows: 0,
            repays: 0,
            liquidations: 0,
            last_health_bps: 0,
            bump: ctx.stats_bump,
        }),
        stats.wf(),
        stats == initial_stats(*ctx, *clock),
{
    UserStats {
        user: ctx.user,
        created_at: clock.unix_timestamp,
        last_action_at: clock.unix_timestamp,
        proofs_submitted: 0,
        supplies: 0,
        borrows: 0,
        repays: 0,
        liquidations: 0,
        last_health_bps: 0,
        bump: ctx.stats_bump,
    }
}

/// Why an action is not recorded.
pub open spec fn record_refusal(ctx: RecordAction, kind: ActionKind) -> Option<StatsError> {
    if ctx.stats.user != ctx.user {
        Some(StatsError::Unauthorized)
    } else if ctx.stats.proofs_submitted == u64::MAX || ctx.stats.count(kind) == u64::MAX {
        Some(StatsError::Overflow)
    } else {
        None
    }
}

/// One more than `n` where `counts`, and else `n`.
pub open spec fn bumped(n: u64, counts: bool) -> u64 {
    if counts {
        (n + 1) as u64
    } else {
        n
    }
}

/// `stats` with one more action of `kind`. A health of zero is no report.
pub open spec fn with_action(
    stats: UserStats,
    kind: ActionKind,
    health_bps: u16,
    now: i64,
) -> UserStats {
    UserStats {
        last_action_at: now,
        proofs_submitted: (stats.proofs_submitted + 1) as u64,
        supplies: bumped(stats.supplies, kind is Supply),
        borrows: bumped(stats.borrows, kind is Borrow),
        repays: bumped(stats.repays, kind is Repay),
        liquidations: bumped(stats.liquidations, kind is Liquidation),
        last_health_bps: if health_bps > 0 {
            health_bps
        } else {
            stats.last_health_bps
        },
        ..stats
    }
}

/// What recording an action comes to.
pub open spec fn record_outcome(
    ctx: RecordAction,
    kind: ActionKind,
    health_bps: u16,
    clock: Clock,
) -> Result<(UserStats, ActionRecorded), StatsError> {
    match record_refusal(ctx, kind) {
        Some(refusal) => Err(refusal),
        None => Ok(
            (
                with_action(ctx.stats, kind, health_bps, clock.unix_timestamp),
                ActionRecorded { user: ctx.user, kind, health_bps, at: clock.unix_timestamp },
            ),
        ),
    }
}

/// Records one action of the user's own.
pub fn record_action(ctx: &RecordAction, kind: ActionKind, health_bps: u16, clock: &Clock) -> (
recorded: Result<(UserStats, ActionRecorded), StatsError>)
    ensures
        recorded == match record_refusal(*ctx, kind) {
            Some(refusal) => Err(refusal),
            None => Ok(
                (
                    with_action(ctx.stats, kind, health_bps, clock.unix_timestamp),
                    ActionRecorded { user: ctx.user, kind, health_bps, at: clock.unix_timestamp },
                ),
            ),
        },
        recorded == record_outcome(*ctx, kind, health_bps, *clock),
{
    let mut stats = ctx.stats;
    if stats.user != ctx.user {
        return Err(StatsError::Unauthorized);
    }
    stats.last_action_at = clock.unix_timestamp;
    match stats.proofs_submitted.checked_add(1) {
        None => {
            return Err(StatsError::Overflow);
        },
        Some(proofs_submitted) => {
            stats.proofs_submitted = proofs_submitted;
        },
    }
    if health_bps > 0 {
        stats.last_health_bps = health_bps;
    }
    let count: u64 = match kind {
        ActionKind::Supply => stats.supplies,
        ActionKind::Borrow => stats.borrows,
        ActionKind::Repay => stats.repays,
        ActionKind::Liquidation => stats.liquidations,
    };
    let next: u64 = match count.checked_add(1) {
        None => {
            return Err(StatsError::Overflow);
        },
        Some(next) => next,
    };
    match kind {
        ActionKind::Supply => {
            stats.supplies = next;
        },
        ActionKind::Borrow => {
            stats.borrows = next;
        },
        ActionKind::Repay => {
            stats.repays = next;
        },
        ActionKind::Liquidation => {
            stats.liquidations = next;
        },
    }
    let event = ActionRecorded { user: ctx.user, kind, health_bps, at: clock.unix_timestamp };
    Ok((stats, event))
}

/// Recording an action keeps the count of all actions the sum of the counts of
/// each kind; it raises the count of its own kind by one and leaves the others.
pub proof fn law_counts_add_up(
    ctx: RecordAction,
    kind: ActionKind,
    other: ActionKind,
    health_bps: u16,
    now: i64,
)
    requires
        record_refusal(ctx, kind) is None,
        ctx.stats.wf(),
    ensures
        ({
            let after = with_action(ctx.stats, kind, health_bps, now);
            &&& after.wf()
            &&& after.user == ctx.stats.user
            &&& after.created_at == ctx.stats.created_at
            &&& after.count(kind) == ctx.stats.count(kind) + 1
            &&& other != kind ==> after.count(other) == ctx.stats.count(other)
        }),
{
}

/// Statistics are opened for the user as of now, with nothing counted.
pub proof fn law_stats_start_at_nothing(ctx: InitUserStats, clock: Clock)
    ensures
        ({
            let stats = initial_stats(ctx, clock);
            &&& stats.user == ctx.user
            &&& stats.created_at == clock.unix_timestamp
            &&& stats.last_action_at == clock.unix_timestamp
            &&& stats.proofs_submitted == 0
            &&& stats.supplies == 0
            &&& stats.borrows == 0
            &&& stats.repays == 0
            &&& stats.liquidations == 0
            &&& stats.last_health_bps == 0
            &&& stats.bump == ctx.stats_bump
        }),
{
}

/// An action is recorded where the statistics are the user's own and neither
/// count it adds to is full. It adds one to the count of all actions and one to
/// that of its kind, notes the time, and notes the health where one is reported;
/// nothing else changes. The event reports the action as it was handed in.
pub proof fn law_action_counts_once(
    ctx: RecordAction,
    kind: ActionKind,
    health_bps: u16,
    clock: Clock,
)
    ensures
        ({
            let outcome = record_outcome(ctx, kind, health_bps, clock);
            let before = ctx.stats;
            let full = before.proofs_submitted == u64::MAX || match kind {
                ActionKind::Supply => before.supplies == u64::MAX,
                ActionKind::Borrow => before.borrows == u64::MAX,
                ActionKind::Repay => before.repays == u64::MAX,
                ActionKind::Liquidation => before.liquidations == u64::MAX,
            };
            &&& before.user != ctx.user ==> outcome == Err::<(UserStats, ActionRecorded), _>(
                StatsError::Unauthorized,
            )
            &&& before.user == ctx.user && full ==> outcome == Err::<
                (UserStats, ActionRecorded),
                _,
            >(StatsError::Overflow)
            &&& outcome is Ok <==> before.user == ctx.user && !full
            &&& outcome matches Ok((after, event)) ==> {
                &&& after.proofs_submitted == before.proofs_submitted + 1
                &&& after.supplies == before.supplies + (if kind is Supply {
                    1int
                } else {
                    0
                })
                &&& after.borrows == before.borrows + (if kind is Borrow {
                    1int
                } else {
                    0
                })
                &&& after.repays == before.repays + (if kind is Repay {
                    1int
                } else {
                    0
                })
                &&& after.liquidations == before.liquidations + (if kind is Liquidation {
                    1int
                } else {
                    0
                })
                &&& after.last_action_at == clock.unix_timestamp
                &&& health_bps > 0 ==> after.last_health_bps == health_bps
                &&& health_bps == 0 ==> after.last_health_bps == before.last_health_bps
                &&& after.user == before.user
                &&& after.created_at == before.created_at
                &&& after.bump == before.bump
                &&& event.user == ctx.user
                &&& event.kind == kind
                &&& event.health_bps == health_bps
                &&& event.at == clock.unix_timestamp
            }
        }),
{
}

} // verus!
