//! Configured rules: an image path scoped to an hour window, a month window
//! and a weather condition.

use vstd::prelude::*;
use crate::weather::Weather;

verus! {

/// One configured scoping entry. The numeric windows are never rejected:
/// every value combination is given a meaning by the wraparound rule of
/// `in_window`.
pub struct Rule {
    pub start_hour: i32,
    pub end_hour: i32,
    pub start_month: i32,
    pub end_month: i32,
    pub condition: Weather,
    pub image_path: String,
}

/// Window containment with wraparound: when `start <= end` the window is the
/// closed interval `[start, end]`; when `start > end` it wraps past the end
/// of the domain and contains every `v` with `v >= start` or `v <= end`.
pub open spec fn in_window(start: int, end: int, v: int) -> bool {
    if start > end {
        start <= v || v <= end
    } else {
        start <= v && v <= end
    }
}

/// A rule covers the slot `(month, hour)` when its month window contains
/// `month` and its hour window contains `hour`.
pub open spec fn rule_covers(r: &Rule, month: int, hour: int) -> bool {
    in_window(r.start_month as int, r.end_month as int, month)
        && in_window(r.start_hour as int, r.end_hour as int, hour)
}

impl Rule {
    /// Decides whether this rule's windows contain the slot `(month, hour)`.
    pub fn covers_slot(&self, month: i32, hour: i32) -> (r: bool)
        ensures
            r == rule_covers(self, month as int, hour as int),
    {
        let month_match = if self.start_month > self.end_month {
            self.start_month <= month || month <= self.end_month
        } else {
            self.start_month <= month && month <= self.end_month
        };
        let hour_match = if self.start_hour > self.end_hour {
            self.start_hour <= hour || hour <= self.end_hour
        } else {
            self.start_hour <= hour && hour <= self.end_hour
        };
        month_match && hour_match
    }
}

} // verus!
