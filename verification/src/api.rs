//! Plain-value records of what the classroom service returns. Every field is
//! optional, as in the service's JSON.

use vstd::prelude::*;

verus! {

/// A course, as listed by the service.
#[derive(Debug, Clone)]
pub struct Course {
    pub id: Option<String>,
    pub name: Option<String>,
}

/// A calendar date with optional parts.
#[derive(Debug, Clone)]
pub struct Date {
    pub year: Option<i32>,
    pub month: Option<i32>,
    pub day: Option<i32>,
}

/// A time of day with optional parts.
#[derive(Debug, Clone)]
pub struct TimeOfDay {
    pub hours: Option<i32>,
    pub minutes: Option<i32>,
    pub seconds: Option<i32>,
    pub nanos: Option<i32>,
}

/// A unit of course work (an assignment).
#[derive(Debug, Clone)]
pub struct CourseWork {
    pub id: Option<String>,
    pub title: Option<String>,
    pub description: Option<String>,
    pub due_date: Option<Date>,
    pub due_time: Option<TimeOfDay>,
}

/// A student's record of progress against one unit of course work. The grade
/// itself is never read, only whether one has been assigned.
#[derive(Debug, Clone)]
pub struct StudentSubmission {
    pub id: Option<String>,
    pub course_work_id: Option<String>,
    pub state: Option<String>,
    pub late: Option<bool>,
    pub has_assigned_grade: bool,
}

} // verus!
