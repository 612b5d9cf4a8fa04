//! The BIFP badge palette: nine states plus one event. Every symbol maps to a concrete,
//! checkable condition on a trit and its lifecycle context.

use crate::trit::Trit;
use vstd::prelude::*;

verus! {

#[derive(Debug, Clone, Copy, PartialEq, Eq, Structural)]
pub enum Badge {
    /// Freshly entered, no trit computed yet.
    White,
    /// Currently executing in the action queue.
    Brown,
    /// Mid-deliberation, not yet converged.
    Purple,
    /// trit = reject.
    Red,
    /// trit = tend/hold.
    Yellow,
    /// trit = affirm, just landed this round.
    GreenFresh,
    /// trit = affirm, reconfirmed across multiple independent recalls: settled.
    BlueSettled,
    /// Raised by a calibration/audit pass as worth a second look.
    Orange,
    /// Task fully resolved, no further action expected.
    Closed,
    /// Not a status: fires exactly when feedback from the other party revises a prior state.
    CycleEvent,
}

/// Inputs a caller supplies alongside a bare trit, since lifecycle position isn't
/// derivable from a trit and a confidence alone.
#[derive(Debug, Clone, Copy)]
pub struct BadgeContext {
    pub in_progress: bool,
    pub deliberating: bool,
    pub flagged_by_calibration: bool,
    pub closed: bool,
    /// How many independent recalls have reconfirmed this same affirm; more than one
    /// means settled.
    pub reconfirm_count: u32,
    /// True exactly when this flag revises an earlier one because of feedback from the
    /// other party.
    pub is_cycle_event: bool,
}

impl BadgeContext {
    /// No lifecycle condition is set: the badge is the trit's own colour.
    pub open spec fn lifecycle_clear(self) -> bool {
        &&& !self.is_cycle_event
        &&& !self.closed
        &&& !self.flagged_by_calibration
        &&& !self.deliberating
        &&& !self.in_progress
    }
}

impl Default for BadgeContext {
    /// Every condition off and no reconfirmation.
    fn default() -> (c: Self)
        ensures
            !c.in_progress,
            !c.deliberating,
            !c.flagged_by_calibration,
            !c.closed,
            c.reconfirm_count == 0,
            !c.is_cycle_event,
    {
        BadgeContext {
            in_progress: false,
            deliberating: false,
            flagged_by_calibration: false,
            closed: false,
            reconfirm_count: 0,
            is_cycle_event: false,
        }
    }
}

/// The badge of a trit in its context. The lifecycle conditions take precedence in the
/// order cycle event, closed, calibration flag, deliberation, in progress; only when
/// none holds does the trit pick the colour, and an affirm reconfirmed more than once
/// is settled.
pub open spec fn badge_spec(trit: Trit, ctx: BadgeContext) -> Badge {
    if ctx.is_cycle_event {
        Badge::CycleEvent
    } else if ctx.closed {
        Badge::Closed
    } else if ctx.flagged_by_calibration {
        Badge::Orange
    } else if ctx.deliberating {
        Badge::Purple
    } else if ctx.in_progress {
        Badge::Brown
    } else {
        match trit {
            Trit::Reject => Badge::Red,
            Trit::Tend => Badge::Yellow,
            Trit::Affirm => if ctx.reconfirm_count > 1 {
                Badge::BlueSettled
            } else {
                Badge::GreenFresh
            },
        }
    }
}

/// Derives the badge for a trit in its lifecycle context.
pub fn derive(trit: Trit, ctx: BadgeContext) -> (b: Badge)
    ensures
        b == badge_spec(trit, ctx),
        ctx.is_cycle_event ==> b == Badge::CycleEvent,
        !ctx.is_cycle_event && ctx.closed ==> b == Badge::Closed,
        !ctx.is_cycle_event && !ctx.closed && ctx.flagged_by_calibration ==> b == Badge::Orange,
        !ctx.is_cycle_event && !ctx.closed && !ctx.flagged_by_calibration && ctx.deliberating
            ==> b == Badge::Purple,
        !ctx.is_cycle_event && !ctx.closed && !ctx.flagged_by_calibration && !ctx.deliberating
            && ctx.in_progress ==> b == Badge::Brown,
        !ctx.is_cycle_event && !ctx.closed && !ctx.flagged_by_calibration && !ctx.deliberating
            && !ctx.in_progress ==> (trit == Trit::Reject ==> b == Badge::Red) && (trit
            == Trit::Tend ==> b == Badge::Yellow) && (trit == Trit::Affirm
            && ctx.reconfirm_count > 1 ==> b == Badge::BlueSettled) && (trit == Trit::Affirm
            && ctx.reconfirm_count <= 1 ==> b == Badge::GreenFresh),
{
    proof {
        lemma_badge_precedence(trit, ctx);
    }
    if ctx.is_cycle_event {
        return Badge::CycleEvent;
    }
    if ctx.closed {
        return Badge::Closed;
    }
    if ctx.flagged_by_calibration {
        return Badge::Orange;
    }
    if ctx.deliberating {
        return Badge::Purple;
    }
    if ctx.in_progress {
        return Badge::Brown;
    }
    match trit {
        Trit::Reject => Badge::Red,
        Trit::Tend => Badge::Yellow,
        Trit::Affirm => {
            if ctx.reconfirm_count > 1 {
                Badge::BlueSettled
            } else {
                Badge::GreenFresh
            }
        },
    }
}

/// The precedence of the palette: a cycle event first; then closed; then a calibration
/// flag; then deliberation; then in progress (each applying when every condition before
/// it is off); and only with all of them off does the trit choose: red for reject,
/// yellow for tend, blue for an affirm reconfirmed more than once, green otherwise.
pub proof fn lemma_badge_precedence(trit: Trit, ctx: BadgeContext)
    ensures
        ctx.is_cycle_event ==> badge_spec(trit, ctx) == Badge::CycleEvent,
        !ctx.is_cycle_event && ctx.closed ==> badge_spec(trit, ctx) == Badge::Closed,
        !ctx.is_cycle_event && !ctx.closed && ctx.flagged_by_calibration ==> badge_spec(
            trit,
            ctx,
        ) == Badge::Orange,
        !ctx.is_cycle_event && !ctx.closed && !ctx.flagged_by_calibration && ctx.deliberating
            ==> badge_spec(trit, ctx) == Badge::Purple,
        !ctx.is_cycle_event && !ctx.closed && !ctx.flagged_by_calibration && !ctx.deliberating
            && ctx.in_progress ==> badge_spec(trit, ctx) == Badge::Brown,
        !ctx.is_cycle_event && !ctx.closed && !ctx.flagged_by_calibration && !ctx.deliberating
            && !ctx.in_progress ==> (trit == Trit::Reject ==> badge_spec(trit, ctx)
            == Badge::Red) && (trit == Trit::Tend ==> badge_spec(trit, ctx) == Badge::Yellow)
            && (trit == Trit::Affirm && ctx.reconfirm_count > 1 ==> badge_spec(trit, ctx)
            == Badge::BlueSettled) && (trit == Trit::Affirm && ctx.reconfirm_count <= 1
            ==> badge_spec(trit, ctx) == Badge::GreenFresh),
{
}

/// The cycle event overrides everything, and it is the only thing that yields the
/// diamond: the badge is the cycle event exactly when the context marks one.
pub proof fn lemma_cycle_event_exactly_when_marked(trit: Trit, ctx: BadgeContext)
    ensures
        (badge_spec(trit, ctx) == Badge::CycleEvent) <==> ctx.is_cycle_event,
{
}

/// The trit's own colours (red, yellow, green, blue) appear exactly when no lifecycle
/// condition is set, and then they follow the trit: red for reject, yellow for tend,
/// green or blue for affirm.
pub proof fn lemma_trit_colours_only_without_lifecycle(trit: Trit, ctx: BadgeContext)
    ensures
        ({
            let b = badge_spec(trit, ctx);
            (b == Badge::Red || b == Badge::Yellow || b == Badge::GreenFresh || b
                == Badge::BlueSettled) <==> ctx.lifecycle_clear()
        }),
        ctx.lifecycle_clear() ==> (badge_spec(trit, ctx) == Badge::Red <==> trit == Trit::Reject),
        ctx.lifecycle_clear() ==> (badge_spec(trit, ctx) == Badge::Yellow <==> trit == Trit::Tend),
{
}

/// An affirm is settled (blue) exactly when it has been reconfirmed more than once and no
/// lifecycle condition is set; otherwise a clear affirm is fresh (green).
pub proof fn lemma_settled_exactly_when_reconfirmed(trit: Trit, ctx: BadgeContext)
    ensures
        (badge_spec(trit, ctx) == Badge::BlueSettled) <==> (ctx.lifecycle_clear() && trit
            == Trit::Affirm && ctx.reconfirm_count > 1),
        (badge_spec(trit, ctx) == Badge::GreenFresh) <==> (ctx.lifecycle_clear() && trit
            == Trit::Affirm && ctx.reconfirm_count <= 1),
{
}

} // verus!
