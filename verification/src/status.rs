//! The lifecycle of a job: a small closed set of states, carried on the wire
//! as integer codes.

use vstd::prelude::*;

verus! {

/// Status of a publish or train job. Jobs are created pending, picked up by
/// an agent, and end completed or failed; failed jobs can be reset to
/// pending in bulk.
#[derive(Clone, Copy, PartialEq, Eq, Structural, Debug)]
pub enum JobStatus {
    Pending,
    Running,
    Completed,
    Failed,
}

impl JobStatus {
    /// The integer code a payload or a row carries for this status.
    pub open spec fn code_spec(self) -> i64 {
        match self {
            JobStatus::Pending => 0,
            JobStatus::Running => 1,
            JobStatus::Completed => 2,
            JobStatus::Failed => 3,
        }
    }

    pub fn code(self) -> (r: i64)
        ensures
            r == self.code_spec(),
    {
        match self {
            JobStatus::Pending => 0,
            JobStatus::Running => 1,
            JobStatus::Completed => 2,
            JobStatus::Failed => 3,
        }
    }

    /// The status a given integer code stands for, if any.
    pub open spec fn from_code_spec(code: i64) -> Option<JobStatus> {
        if code == 0 {
            Some(JobStatus::Pending)
        } else if code == 1 {
            Some(JobStatus::Running)
        } else if code == 2 {
            Some(JobStatus::Completed)
        } else if code == 3 {
            Some(JobStatus::Failed)
        } else {
            None
        }
    }

    pub fn from_code(code: i64) -> (r: Option<JobStatus>)
        ensures
            r == Self::from_code_spec(code),
    {
        if code == 0 {
            Some(JobStatus::Pending)
        } else if code == 1 {
            Some(JobStatus::Running)
        } else if code == 2 {
            Some(JobStatus::Completed)
        } else if code == 3 {
            Some(JobStatus::Failed)
        } else {
            None
        }
    }
}

/// Codes round-trip: every status comes back from its own code.
pub proof fn lemma_status_code_round_trip(s: JobStatus)
    ensures
        JobStatus::from_code_spec(s.code_spec()) == Some(s),
{
}

} // verus!
