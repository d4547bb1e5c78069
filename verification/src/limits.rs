//! How far the limit on open files can be raised.
//!
//! The soft limit on open file descriptors is low by default on some
//! systems. It is raised to the hard limit at startup where that is higher.

use vstd::prelude::*;

verus! {

/// What to do about the limit on open files.
#[derive(Debug, Clone, Copy, PartialEq, Eq, Structural)]
pub enum LimitPlan {
    /// Leave the limit alone; the number is what the caller is told.
    Keep(u64),
    /// Try to raise the soft limit `from` its value `to` the hard limit.
    Raise { from: u64, to: u64 },
}

/// What to do, given the soft and the hard limit, or nothing where they
/// could not be read: the soft limit is raised to the hard limit where it
/// is lower.
pub open spec fn spec_plan(limits: Option<(u64, u64)>) -> LimitPlan {
    match limits {
        None => LimitPlan::Keep(0),
        Some((soft, hard)) => if soft >= hard {
            LimitPlan::Keep(soft)
        } else {
            LimitPlan::Raise { from: soft, to: hard }
        },
    }
}

/// The limit that holds in the end: the new one where it was raised, the
/// old one where raising it failed or was not tried.
pub open spec fn spec_limit_after(plan: LimitPlan, raised: bool) -> u64 {
    match plan {
        LimitPlan::Keep(limit) => limit,
        LimitPlan::Raise { from, to } => if raised {
            to
        } else {
            from
        },
    }
}

/// Decides what to do about the limit on open files, given the soft and the
/// hard limit as `(soft, hard)`, or nothing where they could not be read.
pub fn plan_open_file_limit(limits: Option<(u64, u64)>) -> (plan: LimitPlan)
    ensures
        plan == spec_plan(limits),
{
    match limits {
        None => LimitPlan::Keep(0),
        Some((soft, hard)) => {
            if soft >= hard {
                LimitPlan::Keep(soft)
            } else {
                LimitPlan::Raise { from: soft, to: hard }
            }
        },
    }
}

/// The soft limit that holds once the plan has been carried out; `raised`
/// says whether the limit could be raised.
pub fn limit_after(plan: LimitPlan, raised: bool) -> (limit: u64)
    ensures
        limit == spec_limit_after(plan, raised),
{
    match plan {
        LimitPlan::Keep(limit) => limit,
        LimitPlan::Raise { from, to } => {
            if raised {
                to
            } else {
                from
            }
        },
    }
}

/// The limit never goes down, and where the plan is carried out it reaches
/// the hard limit.
pub proof fn the_limit_never_drops(soft: u64, hard: u64, raised: bool)
    ensures
        spec_limit_after(spec_plan(Some((soft, hard))), raised) >= soft,
        raised && soft < hard ==> spec_limit_after(spec_plan(Some((soft, hard))), raised) == hard,
        soft >= hard ==> spec_limit_after(spec_plan(Some((soft, hard))), raised) == soft,
{
}

} // verus!
