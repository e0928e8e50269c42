//! The command line of a run.

use vstd::prelude::*;

verus! {

/// The revision that a run works on if none is given: the working copy.
pub const DEFAULT_REVISION: &'static str = "@";

/// Run a command across a set of revisions.
///
/// The command is executed in a temporary working copy for each revision. If the command modifies
/// any tracked files, the revision is rewritten with the new content. Descendants are rebased
/// accordingly.
#[derive(Debug, Clone, PartialEq, Eq)]
pub struct RunArgs {
    /// The command to run across all selected revisions.
    pub shell_command: String,
    /// The revisions to change.
    pub revisions: Vec<String>,
    /// A no-op option to match the interface of `git rebase -x`.
    pub _exec: bool,
    /// How many processes should run in parallel (default: number of CPU cores).
    pub jobs: Option<usize>,
    /// Remove cached working copies before running.
    pub clean: bool,
    /// Don't rewrite commits; just run the command and report results.
    pub readonly: bool,
    /// Keep going even if the command fails on some revisions.
    pub keep_going: bool,
}

/// The number of workers: the number that was asked for or, where none or zero was, the number
/// of CPU cores (one, if that is unknown); never more than there are commits.
pub open spec fn worker_count(
    jobs: Option<usize>,
    parallelism: Option<usize>,
    commits: nat,
) -> nat {
    let wanted = match jobs {
        Some(n) if n > 0 => n as nat,
        _ => match parallelism {
            Some(n) => n as nat,
            None => 1,
        },
    };
    if wanted < commits {
        wanted
    } else {
        commits
    }
}

impl RunArgs {
    /// How many workers to start for a number of commits, on a machine with `parallelism` cores.
    pub fn worker_count(&self, parallelism: Option<usize>, commits: usize) -> (n: usize)
        ensures
            n == worker_count(self.jobs, parallelism, commits as nat),
    {
        let wanted: usize = match self.jobs {
            Some(0) | None => match parallelism {
                Some(n) => n,
                None => 1,
            },
            Some(n) => n,
        };
        if wanted < commits {
            wanted
        } else {
            commits
        }
    }
}

/// Zero jobs are as good as none asked for, and there are never more workers than jobs or commits.
pub proof fn workers_are_limited(jobs: Option<usize>, parallelism: Option<usize>, commits: nat)
    ensures
        worker_count(Some(0), parallelism, commits) == worker_count(None, parallelism, commits),
        worker_count(jobs, parallelism, commits) <= commits,
        jobs is Some && jobs->0 > 0 ==> worker_count(jobs, parallelism, commits) <= jobs->0,
{
}

/// There is a worker whenever there is a commit, on any machine with a core.
pub proof fn there_is_a_worker(jobs: Option<usize>, parallelism: Option<usize>, commits: nat)
    requires
        commits > 0,
        parallelism is Some ==> parallelism->0 > 0,
    ensures
        0 < worker_count(jobs, parallelism, commits) <= commits,
{
}

/// Where a positive number of jobs is asked for, the number of workers is the smaller of that and
/// the number of commits, whatever the number of cores. Where none is, or zero, the number of
/// cores stands in its place, and one where that is unknown.
pub proof fn workers_are_the_smaller_number(
    jobs: usize,
    cores: usize,
    parallelism: Option<usize>,
    commits: nat,
)
    ensures
        jobs > 0 && jobs <= commits ==> worker_count(Some(jobs), parallelism, commits) == jobs,
        jobs > 0 && jobs >= commits ==> worker_count(Some(jobs), parallelism, commits) == commits,
        forall|asked: Option<usize>|
            (asked is None || asked->0 == 0) && cores <= commits ==> #[trigger] worker_count(
                asked,
                Some(cores),
                commits,
            ) == cores,
        forall|asked: Option<usize>|
            (asked is None || asked->0 == 0) && cores >= commits ==> #[trigger] worker_count(
                asked,
                Some(cores),
                commits,
            ) == commits,
        forall|asked: Option<usize>|
            (asked is None || asked->0 == 0) && commits >= 1 ==> #[trigger] worker_count(
                asked,
                None,
                commits,
            ) == 1,
{
}

} // verus!
