//! How well a course's assignments are kept up: a health level from the
//! number of assignments and the age of the newest one.

use vstd::prelude::*;

verus! {

/// The health level: 0 excellent, 1 good, 2 warning, 3 critical.
pub open spec fn health_level(count: usize, days_since_last: Option<u64>) -> usize {
    if count == 0 {
        3
    } else {
        match days_since_last {
            Some(d) => if d <= 3 {
                0
            } else if d <= 7 {
                1
            } else if d <= 14 {
                2
            } else {
                3
            },
            None => 3,
        }
    }
}

/// The health level of a course with `count` assignments, the newest
/// modified `days_since_last` whole days ago (`None` when the time is not
/// known): no assignments or an unknown time is critical; otherwise up to 3
/// days is excellent, up to 7 good, up to 14 a warning, older critical.
pub fn calculate_assignment_health_status(count: usize, days_since_last: Option<u64>) -> (r: usize)
    ensures
        r == health_level(count, days_since_last),
        r <= 3,
{
    if count == 0 {
        return 3;
    }
    match days_since_last {
        Some(days) => if days <= 3 {
            0
        } else if days <= 7 {
            1
        } else if days <= 14 {
            2
        } else {
            3
        },
        None => 3,
    }
}

/// The sort priority of a health level: the level itself, best first.
pub fn health_status_to_priority(health: usize) -> (r: usize)
    ensures
        r == health,
{
    health
}

} // verus!
