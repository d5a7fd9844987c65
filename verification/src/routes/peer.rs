//! The peer routes.
use vstd::prelude::*;
use crate::case_text::{lowercase, to_lower};
use crate::text::same_text;

verus! {

/// What `/peers/limit/<min_max>/<limit>` does.
#[derive(Debug, Clone, Copy, PartialEq, Eq)]
pub enum LimitPlan {
    /// Set the minimum number of peers.
    SetMin(u8),
    /// Set the maximum number of peers.
    SetMax(u8),
    /// Refuse with this message.
    Refuse(&'static str),
}

pub const INVALID_LIMIT: &'static str = "Invalid Min/Max Limit";
pub const MIN_OVER_MAX: &'static str = "Can't Set Min More Than Max!";
pub const MAX_UNDER_MIN: &'static str = "Can't Set Max Less Than Min!";
pub const INVALID_OPTION: &'static str = "Invalid Min/Max Option";

/// A limit of at least one; a minimum no greater than the current maximum,
/// a maximum no less than the current minimum; "min" and "max" in any case.
pub open spec fn spec_limit_plan(min_max: Seq<char>, limit: u8, current_min: usize, current_max: usize) -> LimitPlan {
    let which = lowercase(min_max);
    if limit < 1 {
        LimitPlan::Refuse(INVALID_LIMIT)
    } else if which == "min"@ {
        if limit > current_max {
            LimitPlan::Refuse(MIN_OVER_MAX)
        } else {
            LimitPlan::SetMin(limit)
        }
    } else if which == "max"@ {
        if limit < current_min {
            LimitPlan::Refuse(MAX_UNDER_MIN)
        } else {
            LimitPlan::SetMax(limit)
        }
    } else {
        LimitPlan::Refuse(INVALID_OPTION)
    }
}

pub fn peer_limit_plan(min_max: &str, limit: u8, current_min: usize, current_max: usize) -> (p: LimitPlan)
    ensures
        p == spec_limit_plan(min_max@, limit, current_min, current_max),
{
    if limit < 1 {
        return LimitPlan::Refuse(INVALID_LIMIT);
    }
    let which = to_lower(min_max);
    if same_text(which.as_str(), "min") {
        if (limit as usize) > current_max {
            LimitPlan::Refuse(MIN_OVER_MAX)
        } else {
            LimitPlan::SetMin(limit)
        }
    } else if same_text(which.as_str(), "max") {
        if (limit as usize) < current_min {
            LimitPlan::Refuse(MAX_UNDER_MIN)
        } else {
            LimitPlan::SetMax(limit)
        }
    } else {
        LimitPlan::Refuse(INVALID_OPTION)
    }
}

} // verus!
