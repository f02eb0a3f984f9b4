//! The data shown on the tombstone of an ended shared-session conversation, and
//! how a finished cloud agent task refines it.

use vstd::prelude::*;
use crate::text::{string_from, push_str};

verus! {

/// Lifecycle state of a cloud agent task.
#[derive(Clone, Copy, Debug, PartialEq, Eq, Structural)]
pub enum AmbientAgentTaskState {
    Queued,
    InProgress,
    Succeeded,
    Failed,
    Cancelled,
}

/// A status message a task reports.
#[derive(Clone, Debug, PartialEq, Eq)]
pub struct TaskStatusMessage {
    pub message: String,
}

/// An artifact a conversation or task produced.
#[derive(Clone, Debug, PartialEq, Eq)]
pub enum Artifact {
    PullRequest {
        url: String,
        branch: String,
        repo: Option<String>,
        number: Option<u64>,
    },
}

/// What the tombstone reads from a cloud agent task. `run_time` and `credits`
/// are the display texts of the task's run time and credit usage, when the
/// task reports them.
#[derive(Clone, Debug)]
pub struct AmbientAgentTask {
    pub state: AmbientAgentTaskState,
    pub status_message: Option<TaskStatusMessage>,
    pub run_time: Option<String>,
    pub credits: Option<String>,
    pub artifacts: Vec<Artifact>,
}

/// The tombstone's display data.
#[derive(Clone, Debug)]
pub struct TombstoneDisplayData {
    pub run_time: Option<String>,
    pub credits: Option<String>,
    pub is_error: bool,
    pub error_message: Option<String>,
    pub artifacts: Vec<Artifact>,
}

impl Default for TombstoneDisplayData {
    fn default() -> (d: Self)
        ensures
            d.run_time is None,
            d.credits is None,
            !d.is_error,
            d.error_message is None,
            d.artifacts@.len() == 0,
    {
        TombstoneDisplayData { run_time: None, credits: None, is_error: false, error_message: None, artifacts: Vec::new() }
    }
}

/// The failure message of a task: its status message when it failed.
pub open spec fn failure_message(task: AmbientAgentTask) -> Option<String> {
    if task.state == AmbientAgentTaskState::Failed {
        match task.status_message {
            Some(m) => Some(m.message),
            None => None,
        }
    } else {
        None
    }
}

impl TombstoneDisplayData {
    /// Refines the conversation's data with what the finished task reports: the
    /// task's run time and credits replace the conversation's when present, a
    /// failed task's status message becomes the error shown, and the task's
    /// artifacts replace the conversation's when it has any.
    pub fn enrich_from_task(&mut self, task: AmbientAgentTask)
        ensures
            final(self).run_time == if task.run_time is Some { task.run_time } else { old(self).run_time },
            final(self).credits == if task.credits is Some { task.credits } else { old(self).credits },
            final(self).is_error == (old(self).is_error || failure_message(task) is Some),
            final(self).error_message == if failure_message(task) is Some { failure_message(task) } else { old(self).error_message },
            final(self).artifacts@ == if task.artifacts@.len() > 0 { task.artifacts@ } else { old(self).artifacts@ },
    {
        let AmbientAgentTask { state, status_message, run_time, credits, artifacts } = task;
        if run_time.is_some() {
            self.run_time = run_time;
        }
        if credits.is_some() {
            self.credits = credits;
        }
        if state == AmbientAgentTaskState::Failed {
            if let Some(m) = status_message {
                self.is_error = true;
                self.error_message = Some(m.message);
            }
        }
        if artifacts.len() > 0 {
            self.artifacts = artifacts;
        }
    }
}

/// Data whose run time and credits came from the conversation.
pub fn data_with_conversation_values() -> (d: TombstoneDisplayData)
    ensures
        d.run_time matches Some(r) && r@ == "conv run time"@,
        d.credits matches Some(c) && c@ == "conv credits"@,
        !d.is_error,
        d.error_message is None,
        d.artifacts@.len() == 0,
{
    TombstoneDisplayData {
        run_time: Some(string_from("conv run time")),
        credits: Some(string_from("conv credits")),
        ..Default::default()
    }
}

/// A succeeded task that reports neither run time nor credits, and no artifacts.
pub fn task_without_run_time_or_credits() -> (t: AmbientAgentTask)
    ensures
        t.state == AmbientAgentTaskState::Succeeded,
        t.status_message is None,
        t.run_time is None,
        t.credits is None,
        t.artifacts@.len() == 0,
{
    AmbientAgentTask {
        state: AmbientAgentTaskState::Succeeded,
        status_message: None,
        run_time: None,
        credits: None,
        artifacts: Vec::new(),
    }
}

/// A pull request artifact of the `example/repo` repository for `branch`.
pub fn pr_artifact(branch: &str) -> (a: Artifact)
    ensures
        match a {
            Artifact::PullRequest { url, branch: b, repo, number } => {
                &&& url@ == "https://github.com/example/repo/pull/"@ + branch@
                &&& b@ == branch@
                &&& repo matches Some(r) && r@ == "example/repo"@
                &&& number is None
            },
        },
{
    let mut url = string_from("https://github.com/example/repo/pull/");
    push_str(&mut url, branch);
    Artifact::PullRequest {
        url,
        branch: string_from(branch),
        repo: Some(string_from("example/repo")),
        number: None,
    }
}

} // verus!
