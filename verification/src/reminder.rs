//! The task record and its enumerations.

use vstd::prelude::*;
use crate::clock::{rfc3339_text, to_rfc3339, utc_now, Instant};

verus! {

/// How soon a task wants attention.
#[derive(Debug, Clone, Copy, PartialEq, Eq, Structural)]
pub enum Urgency {
    Now,
    Today,
    Soon,
    Whenever,
}

/// Which of the two lists a pending task lives in.
#[derive(Debug, Clone, Copy, PartialEq, Eq, Structural)]
pub enum ListType {
    Actual,
    Backlog,
}

/// The mathematical value of a [`Reminder`]: integers are unbounded and
/// strings are sequences of characters.
pub struct ReminderView {
    pub id: int,
    pub message: Seq<char>,
    pub urgency: Urgency,
    pub list_type: ListType,
    pub created_at: Seq<char>,
    pub is_completed: bool,
    pub completed_at: Option<Seq<char>>,
    pub sort_order: int,
}

/// One task. A lower `sort_order` means a higher display priority within the
/// task's own list.
#[derive(Debug)]
pub struct Reminder {
    pub id: i64,
    pub message: String,
    pub urgency: Urgency,
    pub list_type: ListType,
    pub created_at: String,
    pub is_completed: bool,
    pub completed_at: Option<String>,
    pub sort_order: i64,
}

/// The view of an optional string.
pub open spec fn opt_string_view(s: Option<String>) -> Option<Seq<char>> {
    match s {
        Some(t) => Some(t@),
        None => None,
    }
}

impl View for Reminder {
    type V = ReminderView;

    open spec fn view(&self) -> ReminderView {
        ReminderView {
            id: self.id as int,
            message: self.message@,
            urgency: self.urgency,
            list_type: self.list_type,
            created_at: self.created_at@,
            is_completed: self.is_completed,
            completed_at: opt_string_view(self.completed_at),
            sort_order: self.sort_order as int,
        }
    }
}

impl Clone for Reminder {
    fn clone(&self) -> (r: Self)
        ensures
            r@ == self@,
    {
        Reminder {
            id: self.id,
            message: self.message.clone(),
            urgency: self.urgency,
            list_type: self.list_type,
            created_at: self.created_at.clone(),
            is_completed: self.is_completed,
            completed_at: clone_opt_string(&self.completed_at),
            sort_order: self.sort_order,
        }
    }
}

/// Copies an optional string.
pub fn clone_opt_string(s: &Option<String>) -> (r: Option<String>)
    ensures
        opt_string_view(r) == opt_string_view(*s),
{
    match s {
        Some(t) => Some(t.clone()),
        None => None,
    }
}

impl Reminder {
    /// What a new reminder created at `created_at` is: not completed, and
    /// without id and place, which the store assigns when it is added.
    pub open spec fn fresh(
        message: Seq<char>,
        urgency: Urgency,
        list_type: ListType,
        created_at: Seq<char>,
    ) -> ReminderView {
        ReminderView {
            id: 0,
            message,
            urgency,
            list_type,
            created_at,
            is_completed: false,
            completed_at: None,
            sort_order: 0,
        }
    }

    /// A new reminder, created at `created_at`.
    pub fn new_at(message: String, urgency: Urgency, list_type: ListType, created_at: String) -> (r:
        Self)
        ensures
            r@ == Self::fresh(message@, urgency, list_type, created_at@),
    {
        Reminder {
            id: 0,
            message,
            urgency,
            list_type,
            created_at,
            is_completed: false,
            completed_at: None,
            sort_order: 0,
        }
    }

    /// A new reminder, created at the time the clock shows.
    pub fn new(message: String, urgency: Urgency, list_type: ListType) -> (r: Self)
        ensures
            exists|now: Instant|
                r@ == Self::fresh(
                    message@,
                    urgency,
                    list_type,
                    #[trigger] rfc3339_text(now.secs, now.nanos),
                ),
    {
        let now = utc_now();
        Self::new_at(message, urgency, list_type, to_rfc3339(now))
    }
}

} // verus!
