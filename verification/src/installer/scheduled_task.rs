//! The core's elevated start at logon: a Task Scheduler task with an
//! at-logon trigger and the highest available run level, the supported way
//! to run elevated at logon without a prompt each time. Talking to the Task
//! Scheduler sits behind [`TaskScheduler`].

use vstd::prelude::*;
use crate::text::concat;

verus! {

/// The task name the core is registered under.
pub const TASK_NAME: &'static str = "OpenDisplay Core";

/// A registration failure.
#[derive(Debug, PartialEq, Eq)]
pub enum ScheduledTaskError {
    /// The Task Scheduler service could not be reached.
    ServiceUnavailable,
    /// The task folder rejected the registration.
    RegistrationRejected { detail: String },
}

impl ScheduledTaskError {
    /// A description of the failure for the user.
    pub fn describe(&self) -> (text: String)
        ensures
            text@ == match *self {
                ScheduledTaskError::ServiceUnavailable => "could not reach the Windows Task Scheduler service"@,
                ScheduledTaskError::RegistrationRejected { detail } => "Task Scheduler rejected the registration: "@
                    + detail@,
            },
    {
        match self {
            ScheduledTaskError::ServiceUnavailable => String::from_str("could not reach the Windows Task Scheduler service"),
            ScheduledTaskError::RegistrationRejected { detail } => concat(
                "Task Scheduler rejected the registration: ",
                detail.as_str(),
            ),
        }
    }
}

/// "Register a task named `task_name` that runs `executable_path` at logon
/// with the highest available run level".
pub trait TaskScheduler {
    /// Whether registering `task_name` for `executable_path` may give `r`.
    /// A scheduler that says no more allows every result.
    closed spec fn may_register(&self, task_name: Seq<char>, executable_path: Seq<char>, r: Result<(), ScheduledTaskError>) -> bool {
        true
    }

    /// Whether this scheduler keeps the record [`TaskScheduler::registrations`]. One that does
    /// not keeps none.
    closed spec fn keeps_record(&self) -> bool {
        false
    }

    /// Every registration so far, with its name, executable path and
    /// result, in order, where the record is kept.
    closed spec fn registrations(&self) -> Seq<(Seq<char>, Seq<char>, Result<(), ScheduledTaskError>)> {
        Seq::empty()
    }

    fn register_logon_task(&mut self, task_name: &str, executable_path: &str) -> (r: Result<(), ScheduledTaskError>)
        ensures
            old(self).may_register(task_name@, executable_path@, r),
            final(self).keeps_record() == old(self).keeps_record(),
            old(self).keeps_record() ==> final(self).registrations() == old(self).registrations().push((task_name@, executable_path@, r)),
    ;
}

/// Registers the core's executable as the at-logon, highest-run-level task
/// named [`TASK_NAME`], asking the scheduler once: the result is its for that name and
/// `executable_path`.
pub fn register<R: TaskScheduler>(scheduler: &mut R, executable_path: &str) -> (r: Result<(), ScheduledTaskError>)
    ensures
        old(scheduler).may_register(TASK_NAME@, executable_path@, r),
        final(scheduler).keeps_record() == old(scheduler).keeps_record(),
        old(scheduler).keeps_record() ==> final(scheduler).registrations() == old(scheduler).registrations().push((TASK_NAME@, executable_path@, r)),
{
    scheduler.register_logon_task(TASK_NAME, executable_path)
}

} // verus!
