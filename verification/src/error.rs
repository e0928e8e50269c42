//! What can go wrong while the command runs on a revision.

use crate::ids::{hex_reads_back, hex_text, reads_as, CommitId};
use vstd::prelude::*;

verus! {

/// How a command ended.
#[derive(Debug, PartialEq, Eq)]
pub struct ExitStatus {
    /// Whether the command reported success.
    pub success: bool,
    /// The status as the operating system words it, such as `exit status: 1`.
    pub text: String,
}

/// What an [`ExitStatus`] holds.
#[verifier::ext_equal]
pub struct StatusModel {
    pub success: bool,
    pub text: Seq<char>,
}

impl View for ExitStatus {
    type V = StatusModel;

    open spec fn view(&self) -> StatusModel {
        StatusModel { success: self.success, text: self.text@ }
    }
}

/// An error of a run. Errors of the system are carried as their text.
#[derive(Debug, PartialEq, Eq)]
pub enum RunError {
    FailedCheckout(String),
    CommandFailure { cmd: String, status: ExitStatus, commit: CommitId },
    Io(String),
    PathCreation { path: String, source: String },
    Lock(String),
    TreeState(String),
    Snapshot(String),
    Backend(String),
}

/// What a [`RunError`] holds.
#[verifier::ext_equal]
pub enum RunErrorModel {
    FailedCheckout(Seq<char>),
    CommandFailure { cmd: Seq<char>, status: StatusModel, commit: Seq<u8> },
    Io(Seq<char>),
    PathCreation { path: Seq<char>, source: Seq<char> },
    Lock(Seq<char>),
    TreeState(Seq<char>),
    Snapshot(Seq<char>),
    Backend(Seq<char>),
}

impl View for RunError {
    type V = RunErrorModel;

    open spec fn view(&self) -> RunErrorModel {
        match self {
            RunError::FailedCheckout(text) => RunErrorModel::FailedCheckout(text@),
            RunError::CommandFailure { cmd, status, commit } => RunErrorModel::CommandFailure {
                cmd: cmd@,
                status: status@,
                commit: commit@,
            },
            RunError::Io(text) => RunErrorModel::Io(text@),
            RunError::PathCreation { path, source } => RunErrorModel::PathCreation {
                path: path@,
                source: source@,
            },
            RunError::Lock(text) => RunErrorModel::Lock(text@),
            RunError::TreeState(text) => RunErrorModel::TreeState(text@),
            RunError::Snapshot(text) => RunErrorModel::Snapshot(text@),
            RunError::Backend(text) => RunErrorModel::Backend(text@),
        }
    }
}

impl RunErrorModel {
    /// The message that the user sees.
    pub open spec fn message(self) -> Seq<char> {
        match self {
            RunErrorModel::FailedCheckout(text) => "Failed to checkout commit: "@ + text,
            RunErrorModel::CommandFailure { cmd, status, commit } => "Command '"@ + cmd
                + "' failed with "@ + status.text + " for commit "@ + hex_text(commit),
            RunErrorModel::Io(text) => text,
            RunErrorModel::PathCreation { path, source } => "Failed to create path "@ + path
                + ": "@ + source,
            RunErrorModel::Lock(text) => "Failed to acquire lock: "@ + text,
            RunErrorModel::TreeState(text) => text,
            RunErrorModel::Snapshot(text) => text,
            RunErrorModel::Backend(text) => text,
        }
    }
}

impl RunError {
    /// The message that the user sees.
    pub fn message(&self) -> (s: String)
        ensures
            s@ == self@.message(),
    {
        match self {
            RunError::FailedCheckout(text) => "Failed to checkout commit: ".to_owned().concat(
                text.as_str(),
            ),
            RunError::CommandFailure { cmd, status, commit } => {
                let mut s = "Command '".to_owned();
                s.append(cmd.as_str());
                s.append("' failed with ");
                s.append(status.text.as_str());
                s.append(" for commit ");
                s.append(commit.hex().as_str());
                s
            },
            RunError::Io(text) => text.clone(),
            RunError::PathCreation { path, source } => {
                let mut s = "Failed to create path ".to_owned();
                s.append(path.as_str());
                s.append(": ");
                s.append(source.as_str());
                s
            },
            RunError::Lock(text) => "Failed to acquire lock: ".to_owned().concat(text.as_str()),
            RunError::TreeState(text) => text.clone(),
            RunError::Snapshot(text) => text.clone(),
            RunError::Backend(text) => text.clone(),
        }
    }
}

/// What a list of errors holds.
pub open spec fn error_models(errors: Seq<RunError>) -> Seq<RunErrorModel> {
    errors.map_values(|e: RunError| e@)
}

/// Every error's message is the text of the system, behind what the run was about to do where the
/// text alone would not tell.
pub proof fn messages_tell_what_went_wrong(error: RunErrorModel)
    ensures
        error matches RunErrorModel::Io(text) ==> error.message() == text,
        error matches RunErrorModel::TreeState(text) ==> error.message() == text,
        error matches RunErrorModel::Snapshot(text) ==> error.message() == text,
        error matches RunErrorModel::Backend(text) ==> error.message() == text,
        error matches RunErrorModel::FailedCheckout(text) ==> error.message()
            == "Failed to checkout commit: "@ + text,
        error matches RunErrorModel::Lock(text) ==> error.message() == "Failed to acquire lock: "@
            + text,
        error matches RunErrorModel::PathCreation { path, source } ==> error.message()
            == "Failed to create path "@ + path + ": "@ + source,
        error matches RunErrorModel::CommandFailure { cmd, status, commit } ==> (exists|
            id: Seq<char>,
        | #[trigger]
            reads_as(id, commit) && error.message() == "Command '"@ + cmd + "' failed with "@
                + status.text + " for commit "@ + id),
{
    if let RunErrorModel::CommandFailure { commit, .. } = error {
        hex_reads_back(commit);
    }
}

} // verus!
