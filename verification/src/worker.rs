//! The workers' shared state, and how a worker prepares its working copy.

use crate::command::{RunFailure, RunFailureModel};
use crate::error::{error_models, RunError, RunErrorModel};
use crate::ids::{Commit, CommitId, CommitModel};
use crate::state::{MessageModel, TuiMessage};
use crate::text::{decimal, decimal_reads_back, decimal_string, number_of};
use crate::trees::NewTrees;
use vstd::prelude::*;

verus! {

/// What the workers share: the commits still to be done, and the results so far.
pub struct RunState<T> {
    pub commits: Vec<Commit>,
    /// How many of the commits have been handed out.
    pub next: usize,
    /// Whether no further commit is handed out.
    pub should_stop: bool,
    /// Whether the other commits are still done after a failure.
    pub keep_going: bool,
    pub new_trees: NewTrees<T>,
    /// The commits on which the run did not pass.
    pub failed: Vec<CommitId>,
    pub errors: Vec<RunError>,
}

/// What a [`RunState`] holds.
#[verifier::ext_equal]
pub struct RunModel<T> {
    /// The commits still to be done, in order.
    pub queue: Seq<CommitModel>,
    pub should_stop: bool,
    pub keep_going: bool,
    pub new_trees: Map<Seq<u8>, T>,
    pub failed: Seq<Seq<u8>>,
    pub errors: Seq<RunErrorModel>,
}

impl<T> View for RunState<T> {
    type V = RunModel<T>;

    open spec fn view(&self) -> RunModel<T> {
        RunModel {
            queue: commit_models(self.commits@).skip(self.next as int),
            should_stop: self.should_stop,
            keep_going: self.keep_going,
            new_trees: self.new_trees@,
            failed: id_models(self.failed@),
            errors: error_models(self.errors@),
        }
    }
}

/// What a list of commits holds.
pub open spec fn commit_models(commits: Seq<Commit>) -> Seq<CommitModel> {
    commits.map_values(|c: Commit| c@)
}

/// What a list of identifiers holds.
pub open spec fn id_models(ids: Seq<CommitId>) -> Seq<Seq<u8>> {
    ids.map_values(|id: CommitId| id@)
}

/// What a result holds.
pub open spec fn result_model<T>(result: Result<Option<T>, RunFailure<T>>) -> Result<
    Option<T>,
    RunFailureModel<T>,
> {
    match result {
        Ok(tree) => Ok(tree),
        Err(failure) => Err(failure@),
    }
}

/// The new tree of a commit on which the command has ended, given the last one that was seen.
pub open spec fn result_tree<T>(
    result: Result<Option<T>, RunFailureModel<T>>,
    seen: Option<T>,
) -> Option<T> {
    match result {
        Ok(tree) => tree,
        Err(failure) => if failure.new_tree is Some || failure.error is CommandFailure {
            failure.new_tree
        } else {
            seen
        },
    }
}

/// Something that happens to the shared state.
pub enum RunOp<T> {
    /// A worker asks for a commit.
    Next,
    /// The running command has changed a commit's tree.
    Publish(Seq<u8>, T),
    /// The command has ended on a commit.
    Finish(Seq<u8>, Result<Option<T>, RunFailureModel<T>>),
    /// A worker could not prepare its working copy.
    SetupFailed(RunErrorModel),
    /// The results are no longer waited for.
    Stop,
}

impl<T> RunModel<T> {
    /// The state before any worker has started.
    pub open spec fn initial(commits: Seq<CommitModel>, keep_going: bool) -> RunModel<T> {
        RunModel {
            queue: commits,
            should_stop: false,
            keep_going,
            new_trees: Map::empty(),
            failed: seq![],
            errors: seq![],
        }
    }

    /// The commit that a worker gets when it asks for one.
    pub open spec fn handed_out(self) -> Option<CommitModel> {
        if self.should_stop || self.queue.len() == 0 {
            None
        } else {
            Some(self.queue[0])
        }
    }

    /// The trees once the command has ended on a commit: the tree that it left, if that is a new
    /// one. Where an error of the system hides what it left, the last one seen stays.
    pub open spec fn trees_after(
        self,
        id: Seq<u8>,
        result: Result<Option<T>, RunFailureModel<T>>,
    ) -> Map<Seq<u8>, T> {
        match result_tree(result, self.new_trees.get(id)) {
            Some(tree) => self.new_trees.insert(id, tree),
            None => self.new_trees.remove(id),
        }
    }

    /// The state after something has happened.
    pub open spec fn after(self, op: RunOp<T>) -> RunModel<T> {
        match op {
            RunOp::Next => if self.handed_out() is Some {
                RunModel { queue: self.queue.drop_first(), ..self }
            } else {
                self
            },
            RunOp::Publish(id, tree) => RunModel {
                new_trees: self.new_trees.insert(id, tree),
                ..self
            },
            RunOp::Finish(id, Ok(tree)) => RunModel {
                new_trees: self.trees_after(id, Ok(tree)),
                ..self
            },
            RunOp::Finish(id, Err(failure)) => RunModel {
                new_trees: self.trees_after(id, Err(failure)),
                failed: self.failed.push(id),
                should_stop: self.should_stop || !self.keep_going,
                errors: self.errors.push(failure.error),
                ..self
            },
            RunOp::SetupFailed(error) => RunModel {
                should_stop: true,
                errors: self.errors.push(error),
                ..self
            },
            RunOp::Stop => RunModel { should_stop: true, ..self },
        }
    }
}

/// The message that tells the interface how the command ended on a commit.
pub open spec fn finish_message<T>(
    id: Seq<u8>,
    result: Result<Option<T>, RunFailureModel<T>>,
) -> MessageModel {
    match result {
        Ok(tree) => MessageModel::Passed { commit_id: id, modified: tree is Some },
        Err(failure) => MessageModel::Failed { commit_id: id, message: failure.error.message() },
    }
}

impl<T> RunState<T> {
    /// Not more commits are handed out than there are.
    pub open spec fn wf(self) -> bool {
        self.next <= self.commits@.len()
    }

    /// The state before any worker has started.
    pub fn new(commits: Vec<Commit>, keep_going: bool) -> (r: Self)
        ensures
            r.wf(),
            r@ == RunModel::<T>::initial(commit_models(commits@), keep_going),
    {
        let r = RunState {
            commits,
            next: 0,
            should_stop: false,
            keep_going,
            new_trees: NewTrees::new(),
            failed: Vec::new(),
            errors: Vec::new(),
        };
        assert(r@ =~= RunModel::<T>::initial(commit_models(commits@), keep_going));
        r
    }

    /// Hands out the next commit to a worker, unless the run is to stop, and says what to tell
    /// the interface.
    pub fn next_commit(&mut self, worker: usize) -> (r: Option<(Commit, TuiMessage)>)
        requires
            old(self).wf(),
        ensures
            final(self).wf(),
            final(self)@ == old(self)@.after(RunOp::Next),
            match r {
                Some((commit, msg)) => {
                    &&& old(self)@.handed_out() == Some(commit@)
                    &&& msg@ == (MessageModel::Started {
                        commit_id: commit@.id,
                        worker: worker as nat,
                    })
                },
                None => old(self)@.handed_out() is None,
            },
    {
        if self.should_stop || self.next >= self.commits.len() {
            return None;
        }
        let commit = self.commits[self.next].clone();
        self.next = self.next + 1;
        assert(self@.queue =~= old(self)@.queue.drop_first());
        let msg = TuiMessage::Started { commit_id: commit.id.clone(), worker };
        Some((commit, msg))
    }

    /// Stores the tree that the running command has left so far, and says what to tell the
    /// interface, given the diff summary of the tree.
    pub fn publish(&mut self, id: CommitId, tree: T, stat: String) -> (msg: TuiMessage)
        requires
            old(self).wf(),
        ensures
            final(self).wf(),
            final(self)@ == old(self)@.after(RunOp::Publish(id@, tree)),
            msg@ == (MessageModel::DiffStat { commit_id: id@, stat: stat@ }),
    {
        self.new_trees.insert(id.clone(), tree);
        TuiMessage::DiffStat { commit_id: id, stat }
    }

    /// Takes note of how the command ended on a commit, and says what to tell the interface.
    pub fn finish(&mut self, id: CommitId, result: Result<Option<T>, RunFailure<T>>) -> (msg:
        TuiMessage)
        requires
            old(self).wf(),
        ensures
            final(self).wf(),
            final(self)@ == old(self)@.after(RunOp::Finish(id@, result_model(result))),
            msg@ == finish_message(id@, result_model(result)),
    {
        match result {
            Ok(new_tree) => {
                let modified = new_tree.is_some();
                match new_tree {
                    Some(tree) => self.new_trees.insert(id.clone(), tree),
                    None => self.new_trees.remove(&id),
                }
                TuiMessage::Passed { commit_id: id, modified }
            },
            Err(failure) => {
                let message = failure.error.message();
                match failure.new_tree {
                    Some(tree) => self.new_trees.insert(id.clone(), tree),
                    None => if let RunError::CommandFailure { .. } = &failure.error {
                        self.new_trees.remove(&id);
                    },
                }
                assert(self.new_trees@ =~= old(self)@.trees_after(id@, Err(failure@)));
                if !self.keep_going {
                    self.should_stop = true;
                }
                self.failed.push(id.clone());
                self.errors.push(failure.error);
                assert(id_models(self.failed@) =~= id_models(old(self).failed@).push(id@));
                assert(error_models(self.errors@) =~= error_models(old(self).errors@).push(
                    failure.error@,
                ));
                TuiMessage::Failed { commit_id: id, message }
            },
        }
    }

    /// Takes note that a worker could not prepare its working copy.
    pub fn setup_failed(&mut self, error: RunError)
        requires
            old(self).wf(),
        ensures
            final(self).wf(),
            final(self)@ == old(self)@.after(RunOp::SetupFailed(error@)),
    {
        self.should_stop = true;
        self.errors.push(error);
        assert(error_models(self.errors@) =~= error_models(old(self).errors@).push(error@));
    }

    /// Hands out no further commit.
    pub fn stop(&mut self)
        requires
            old(self).wf(),
        ensures
            final(self).wf(),
            final(self)@ == old(self)@.after(RunOp::Stop),
    {
        self.should_stop = true;
    }

    /// The results: the new trees, the commits on which the run did not pass, and the errors.
    pub fn into_results(self) -> (r: (NewTrees<T>, Vec<CommitId>, Vec<RunError>))
        ensures
            r.0@ == self@.new_trees,
            id_models(r.1@) == self@.failed,
            error_models(r.2@) == self@.errors,
    {
        (self.new_trees, self.failed, self.errors)
    }
}

impl<T> RunModel<T> {
    /// The state after a whole history, the oldest first.
    pub open spec fn after_all(self, ops: Seq<RunOp<T>>) -> RunModel<T>
        decreases ops.len(),
    {
        if ops.len() == 0 {
            self
        } else {
            self.after_all(ops.drop_last()).after(ops.last())
        }
    }

    /// The commits that a history has handed out, in order.
    pub open spec fn all_handed_out(self, ops: Seq<RunOp<T>>) -> Seq<CommitModel>
        decreases ops.len(),
    {
        if ops.len() == 0 {
            seq![]
        } else {
            let before = self.all_handed_out(ops.drop_last());
            match (ops.last(), self.after_all(ops.drop_last()).handed_out()) {
                (RunOp::Next, Some(commit)) => before.push(commit),
                _ => before,
            }
        }
    }
}

/// Whatever happens, the commits are handed out once each, in order: those handed out and those
/// still to be done make up the list that the run started with.
pub proof fn commits_are_handed_out_once<T>(start: RunModel<T>, ops: Seq<RunOp<T>>)
    ensures
        start.all_handed_out(ops) + start.after_all(ops).queue == start.queue,
    decreases ops.len(),
{
    if ops.len() == 0 {
        assert(start.all_handed_out(ops) + start.queue =~= start.queue);
    } else {
        let before = ops.drop_last();
        commits_are_handed_out_once(start, before);
        let state = start.after_all(before);
        let given = start.all_handed_out(before);
        if ops.last() is Next && state.handed_out() is Some {
            assert(given.push(state.queue[0]) + state.queue.drop_first() =~= given + state.queue);
        }
    }
}

/// Once the run is to stop, it stays so, and nothing further is handed out.
pub proof fn stopping_is_final<T>(state: RunModel<T>, op: RunOp<T>)
    requires
        state.should_stop,
    ensures
        state.handed_out() is None,
        state.after(op).should_stop,
        state.after(op).queue == state.queue,
{
}

/// A run that keeps going is not stopped by a command that fails; any other run is.
pub proof fn failure_stops_unless_keep_going<T>(
    state: RunModel<T>,
    id: Seq<u8>,
    failure: RunFailureModel<T>,
)
    requires
        !state.should_stop,
    ensures
        state.after(RunOp::Finish(id, Err(failure))).should_stop <==> !state.keep_going,
{
}

/// Whether something stops a run: a failed command, unless the run keeps going, a failed
/// preparation, or the end of waiting.
pub open spec fn stops_run<T>(op: RunOp<T>, keep_going: bool) -> bool {
    match op {
        RunOp::Finish(_, Err(_)) => !keep_going,
        RunOp::SetupFailed(_) => true,
        RunOp::Stop => true,
        _ => false,
    }
}

/// Unless something stops the run, it reaches every commit: once there is none left to hand out,
/// all have been.
pub proof fn every_commit_is_reached<T>(
    commits: Seq<CommitModel>,
    keep_going: bool,
    ops: Seq<RunOp<T>>,
)
    requires
        forall|i: int| 0 <= i < ops.len() ==> !stops_run(#[trigger] ops[i], keep_going),
        RunModel::<T>::initial(commits, keep_going).after_all(ops).handed_out() is None,
    ensures
        RunModel::<T>::initial(commits, keep_going).all_handed_out(ops) == commits,
{
    let start = RunModel::<T>::initial(commits, keep_going);
    lemma_not_stopped(commits, keep_going, ops);
    commits_are_handed_out_once(start, ops);
    assert(start.all_handed_out(ops) + start.after_all(ops).queue =~= start.all_handed_out(ops));
}

proof fn lemma_not_stopped<T>(commits: Seq<CommitModel>, keep_going: bool, ops: Seq<RunOp<T>>)
    requires
        forall|i: int| 0 <= i < ops.len() ==> !stops_run(#[trigger] ops[i], keep_going),
    ensures
        !RunModel::<T>::initial(commits, keep_going).after_all(ops).should_stop,
        RunModel::<T>::initial(commits, keep_going).after_all(ops).keep_going == keep_going,
    decreases ops.len(),
{
    if ops.len() > 0 {
        let before = ops.drop_last();
        assert forall|i: int| 0 <= i < before.len() implies !stops_run(
            #[trigger] before[i],
            keep_going,
        ) by {
            assert(before[i] == ops[i]);
        }
        lemma_not_stopped(commits, keep_going, before);
        assert(!stops_run(ops[ops.len() - 1], keep_going));
    }
}

/// The errors of a history, in the order in which they were noted.
pub open spec fn errors_noted<T>(ops: Seq<RunOp<T>>) -> Seq<RunErrorModel>
    decreases ops.len(),
{
    if ops.len() == 0 {
        seq![]
    } else {
        let before = errors_noted(ops.drop_last());
        match ops.last() {
            RunOp::Finish(_, Err(failure)) => before.push(failure.error),
            RunOp::SetupFailed(error) => before.push(error),
            _ => before,
        }
    }
}

/// The commits on which a history failed, in the order in which that was noted.
pub open spec fn failures_noted<T>(ops: Seq<RunOp<T>>) -> Seq<Seq<u8>>
    decreases ops.len(),
{
    if ops.len() == 0 {
        seq![]
    } else {
        let before = failures_noted(ops.drop_last());
        match ops.last() {
            RunOp::Finish(id, Err(_)) => before.push(id),
            _ => before,
        }
    }
}

/// The commit that something is about, if it is about one.
pub open spec fn commit_of<T>(op: RunOp<T>) -> Option<Seq<u8>> {
    match op {
        RunOp::Publish(id, _) => Some(id),
        RunOp::Finish(id, _) => Some(id),
        _ => None,
    }
}

/// Whether something is about a commit.
pub open spec fn concerns<T>(op: RunOp<T>, id: Seq<u8>) -> bool {
    commit_of(op) == Some(id)
}

/// The new tree of a commit after a history, if it has one.
pub open spec fn last_tree<T>(ops: Seq<RunOp<T>>, id: Seq<u8>) -> Option<T>
    decreases ops.len(),
{
    if ops.len() == 0 {
        None
    } else {
        let before = last_tree(ops.drop_last(), id);
        match ops.last() {
            RunOp::Publish(commit, tree) if commit == id => Some(tree),
            RunOp::Finish(commit, result) if commit == id => result_tree(result, before),
            _ => before,
        }
    }
}

/// After any history, the errors and the failed commits are those that were noted, in order, and
/// the new tree of each commit is the one that the history left it with.
pub proof fn results_record_the_history<T>(
    commits: Seq<CommitModel>,
    keep_going: bool,
    ops: Seq<RunOp<T>>,
)
    ensures
        ({
            let end = RunModel::<T>::initial(commits, keep_going).after_all(ops);
            &&& end.errors == errors_noted(ops)
            &&& end.failed == failures_noted(ops)
            &&& end.keep_going == keep_going
            &&& forall|id: Seq<u8>| #[trigger] end.new_trees.get(id) == last_tree(ops, id)
        }),
    decreases ops.len(),
{
    if ops.len() > 0 {
        results_record_the_history(commits, keep_going, ops.drop_last());
        let start = RunModel::<T>::initial(commits, keep_going);
        let before = start.after_all(ops.drop_last()).new_trees;
        assert forall|id: Seq<u8>| #[trigger]
            start.after_all(ops).new_trees.get(id) == last_tree(ops, id) by {
            assert(before.get(id) == last_tree(ops.drop_last(), id));
        }
    }
}

/// A commit is reported as modified exactly if the run then holds a new tree for it.
pub proof fn modified_is_reported_of_new_trees<T>(
    state: RunModel<T>,
    id: Seq<u8>,
    tree: Option<T>,
)
    ensures
        finish_message(id, Ok::<Option<T>, RunFailureModel<T>>(tree)) == (MessageModel::Passed {
            commit_id: id,
            modified: state.after(RunOp::Finish(id, Ok(tree))).new_trees.contains_key(id),
        }),
{
}

/// Things that happen to different commits may happen in either order: the new trees, the set of
/// failed commits and whether the run is to stop are the same.
pub proof fn order_of_different_commits_does_not_matter<T>(
    state: RunModel<T>,
    a: RunOp<T>,
    b: RunOp<T>,
)
    requires
        commit_of(a) is None || commit_of(a) != commit_of(b),
    ensures
        state.after(a).after(b).new_trees == state.after(b).after(a).new_trees,
        state.after(a).after(b).failed.to_set() == state.after(b).after(a).failed.to_set(),
        state.after(a).after(b).should_stop == state.after(b).after(a).should_stop,
        !(a is Next) && !(b is Next) ==> state.after(a).after(b).queue == state.after(b).after(
            a,
        ).queue,
{
    assert(state.after(a).after(b).new_trees =~= state.after(b).after(a).new_trees);
    lemma_push_order(state.failed, commit_of(a), commit_of(b));
    assert(state.after(a).after(b).failed.to_set() =~= state.after(b).after(a).failed.to_set());
}

proof fn lemma_push_order(ids: Seq<Seq<u8>>, a: Option<Seq<u8>>, b: Option<Seq<u8>>)
    ensures
        a is Some && b is Some ==> ids.push(a->0).push(b->0).to_set() == ids.push(b->0).push(
            a->0,
        ).to_set(),
{
    if a is Some && b is Some {
        let x = ids.push(a->0).push(b->0);
        let y = ids.push(b->0).push(a->0);
        let n = ids.len() as int;
        assert forall|id: Seq<u8>| x.contains(id) == y.contains(id) by {
            if x.contains(id) {
                let i = choose|i: int| 0 <= i < x.len() && x[i] == id;
                let j = if i < n {
                    i
                } else if i == n {
                    n + 1
                } else {
                    n
                };
                assert(y[j] == id);
            }
            if y.contains(id) {
                let i = choose|i: int| 0 <= i < y.len() && y[i] == id;
                let j = if i < n {
                    i
                } else if i == n {
                    n + 1
                } else {
                    n
                };
                assert(x[j] == id);
            }
        }
        assert(x.to_set() =~= y.to_set());
    }
}

/// What of a history is about a commit, in order.
pub open spec fn history_of<T>(ops: Seq<RunOp<T>>, id: Seq<u8>) -> Seq<RunOp<T>>
    decreases ops.len(),
{
    if ops.len() == 0 {
        seq![]
    } else {
        let before = history_of(ops.drop_last(), id);
        if concerns(ops.last(), id) {
            before.push(ops.last())
        } else {
            before
        }
    }
}

/// What becomes of a commit depends on what happened to that commit alone: its new tree, and
/// whether it failed.
pub proof fn commits_do_not_interfere<T>(ops: Seq<RunOp<T>>, id: Seq<u8>)
    ensures
        last_tree(ops, id) == last_tree(history_of(ops, id), id),
        failures_noted(ops).contains(id) <==> failures_noted(history_of(ops, id)).contains(id),
    decreases ops.len(),
{
    if ops.len() > 0 {
        let before = ops.drop_last();
        commits_do_not_interfere(before, id);
        let own = history_of(before, id);
        if concerns(ops.last(), id) {
            assert(own.push(ops.last()).drop_last() =~= own);
        }
        if let RunOp::Finish(commit, Err(_)) = ops.last() {
            lemma_push_contains(failures_noted(before), commit, id);
            lemma_push_contains(failures_noted(own), commit, id);
        }
    }
}

proof fn lemma_push_contains(ids: Seq<Seq<u8>>, last: Seq<u8>, id: Seq<u8>)
    ensures
        ids.push(last).contains(id) <==> ids.contains(id) || last == id,
{
    assert(ids.push(last)[ids.len() as int] == last);
    if ids.contains(id) {
        let i = choose|i: int| 0 <= i < ids.len() && ids[i] == id;
        assert(ids.push(last)[i] == id);
    }
}

/// The name of a worker's directory.
pub open spec fn worker_dir(worker: nat) -> Seq<char> {
    "worker-"@ + decimal(worker)
}

/// The name of a worker's directory, in which it keeps its working copy between runs.
pub fn worker_dir_name(worker: usize) -> (s: String)
    ensures
        s@ == worker_dir(worker as nat),
{
    "worker-".to_owned().concat(decimal_string(worker as u64).as_str())
}

/// Whether cleaning removes the entry of this name; `None` is a name that is not text.
pub open spec fn cleaned_away(name: Option<Seq<char>>) -> bool {
    name != Some("lock"@)
}

/// Whether `--clean` removes an entry of the run directory: everything but the lock file. `None`
/// is a name that is not text.
pub fn is_removed_by_clean(name: Option<String>) -> (r: bool)
    ensures
        r <==> !(name is Some && name->0@ == "lock"@),
        r == cleaned_away(
            match name {
                Some(name) => Some(name@),
                None => None,
            },
        ),
{
    match name {
        Some(name) => {
            let lock = "lock".to_owned();
            !(name == lock)
        },
        None => true,
    }
}

/// How the working copy of a worker is read back.
#[derive(Debug, Clone, Copy, PartialEq, Eq, Structural)]
pub struct SnapshotOptions {
    /// Whether new files are tracked.
    pub track_new_files: bool,
    /// Whether files are tracked even where they are ignored or too large.
    pub force_tracking: bool,
    /// Whether progress is reported.
    pub report_progress: bool,
    /// The largest new file that is tracked, in bytes.
    pub max_new_file_size: u64,
}

/// Every new file of up to 64 MB that is not ignored is tracked.
pub fn make_snapshot_options() -> (r: SnapshotOptions)
    ensures
        r == (SnapshotOptions {
            track_new_files: true,
            force_tracking: false,
            report_progress: false,
            max_new_file_size: 64_000_000,
        }),
{
    SnapshotOptions {
        track_new_files: true,
        force_tracking: false,
        report_progress: false,
        max_new_file_size: 64_000_000,
    }
}

/// How far a worker has come in preparing its working copy.
#[derive(Debug, Clone, Copy, PartialEq, Eq, Structural)]
pub enum SetupPhase {
    CreateWorkingCopy,
    CreateState,
    Probe,
    Finished,
}

/// What came of the last action.
#[derive(Debug, PartialEq, Eq)]
pub enum SetupEvent {
    /// A directory was created, or was there before.
    Created(Result<(), String>),
    /// Whether the state of an earlier run was found.
    Probed(bool),
}

/// What a worker does next.
#[derive(Debug, PartialEq, Eq)]
pub enum SetupAction {
    CreateDir(String),
    /// Look for the state of an earlier run.
    Probe,
    /// Load the state of the earlier run.
    Load,
    /// Start with an empty working copy.
    Init,
    Fail(RunError),
    /// Nothing: the event does not belong to what is under way.
    Ignore,
}

/// What a [`SetupAction`] holds.
pub enum SetupActionModel {
    CreateDir(Seq<char>),
    Probe,
    Load,
    Init,
    Fail(RunErrorModel),
    Ignore,
}

impl View for SetupAction {
    type V = SetupActionModel;

    open spec fn view(&self) -> SetupActionModel {
        match self {
            SetupAction::CreateDir(path) => SetupActionModel::CreateDir(path@),
            SetupAction::Probe => SetupActionModel::Probe,
            SetupAction::Load => SetupActionModel::Load,
            SetupAction::Init => SetupActionModel::Init,
            SetupAction::Fail(error) => SetupActionModel::Fail(error@),
            SetupAction::Ignore => SetupActionModel::Ignore,
        }
    }
}

/// A worker that prepares its working copy.
#[derive(Debug, PartialEq, Eq)]
pub struct WorkerSetup {
    pub working_copy_dir: String,
    pub state_dir: String,
    pub phase: SetupPhase,
}

impl WorkerSetup {
    /// The phase that follows an event, and the action that the event calls for.
    pub open spec fn step(self, event: SetupEvent) -> (SetupPhase, SetupActionModel) {
        match (self.phase, event) {
            (SetupPhase::CreateWorkingCopy, SetupEvent::Created(Ok(_))) => (
                SetupPhase::CreateState,
                SetupActionModel::CreateDir(self.state_dir@),
            ),
            (SetupPhase::CreateWorkingCopy, SetupEvent::Created(Err(text))) => (
                SetupPhase::Finished,
                SetupActionModel::Fail(
                    RunErrorModel::PathCreation { path: self.working_copy_dir@, source: text@ },
                ),
            ),
            (SetupPhase::CreateState, SetupEvent::Created(Ok(_))) => (
                SetupPhase::Probe,
                SetupActionModel::Probe,
            ),
            (SetupPhase::CreateState, SetupEvent::Created(Err(text))) => (
                SetupPhase::Finished,
                SetupActionModel::Fail(
                    RunErrorModel::PathCreation { path: self.state_dir@, source: text@ },
                ),
            ),
            (SetupPhase::Probe, SetupEvent::Probed(found)) => (
                SetupPhase::Finished,
                if found {
                    SetupActionModel::Load
                } else {
                    SetupActionModel::Init
                },
            ),
            (phase, _) => (phase, SetupActionModel::Ignore),
        }
    }

    /// The phase after a whole history of events, the oldest first.
    pub open spec fn phase_after(self, events: Seq<SetupEvent>) -> SetupPhase
        decreases events.len(),
    {
        if events.len() == 0 {
            self.phase
        } else {
            WorkerSetup { phase: self.phase_after(events.drop_last()), ..self }.step(
                events.last(),
            ).0
        }
    }

    /// A worker that is about to prepare its working copy, and the first thing to do.
    pub fn new(working_copy_dir: &str, state_dir: &str) -> (r: (WorkerSetup, SetupAction))
        ensures
            r.0.working_copy_dir@ == working_copy_dir@,
            r.0.state_dir@ == state_dir@,
            r.0.phase == SetupPhase::CreateWorkingCopy,
            r.1@ == SetupActionModel::CreateDir(working_copy_dir@),
    {
        (
            WorkerSetup {
                working_copy_dir: working_copy_dir.to_owned(),
                state_dir: state_dir.to_owned(),
                phase: SetupPhase::CreateWorkingCopy,
            },
            SetupAction::CreateDir(working_copy_dir.to_owned()),
        )
    }

    /// Takes note of what came of the last action and says what to do next.
    pub fn init_or_load_tree_state(&mut self, event: SetupEvent) -> (action: SetupAction)
        ensures
            final(self).phase == old(self).step(event).0,
            action@ == old(self).step(event).1,
            final(self).working_copy_dir == old(self).working_copy_dir,
            final(self).state_dir == old(self).state_dir,
    {
        match (self.phase, event) {
            (SetupPhase::CreateWorkingCopy, SetupEvent::Created(Ok(_))) => {
                self.phase = SetupPhase::CreateState;
                SetupAction::CreateDir(self.state_dir.clone())
            },
            (SetupPhase::CreateWorkingCopy, SetupEvent::Created(Err(source))) => {
                self.phase = SetupPhase::Finished;
                SetupAction::Fail(
                    RunError::PathCreation { path: self.working_copy_dir.clone(), source },
                )
            },
            (SetupPhase::CreateState, SetupEvent::Created(Ok(_))) => {
                self.phase = SetupPhase::Probe;
                SetupAction::Probe
            },
            (SetupPhase::CreateState, SetupEvent::Created(Err(source))) => {
                self.phase = SetupPhase::Finished;
                SetupAction::Fail(RunError::PathCreation { path: self.state_dir.clone(), source })
            },
            (SetupPhase::Probe, SetupEvent::Probed(found)) => {
                self.phase = SetupPhase::Finished;
                if found {
                    SetupAction::Load
                } else {
                    SetupAction::Init
                }
            },
            _ => SetupAction::Ignore,
        }
    }
}

/// The state of an earlier run is loaded exactly where it was found, and an empty working copy is
/// made exactly where it was not, each only once both directories are there.
pub proof fn state_is_loaded_where_it_is_found(
    setup: WorkerSetup,
    events: Seq<SetupEvent>,
    event: SetupEvent,
)
    requires
        setup.phase == SetupPhase::CreateWorkingCopy,
    ensures
        ({
            let now = WorkerSetup { phase: setup.phase_after(events), ..setup };
            let action = now.step(event).1;
            &&& action is Load ==> event == SetupEvent::Probed(true)
            &&& action is Init ==> event == SetupEvent::Probed(false)
            &&& action is Load || action is Init ==> directories_created(events) >= 2
        }),
{
    lemma_directories(setup, events);
}

proof fn lemma_directories(setup: WorkerSetup, events: Seq<SetupEvent>)
    requires
        setup.phase == SetupPhase::CreateWorkingCopy,
    ensures
        setup.phase_after(events) is CreateState ==> directories_created(events) >= 1,
        setup.phase_after(events) is Probe ==> directories_created(events) >= 2,
    decreases events.len(),
{
    if events.len() > 0 {
        lemma_directories(setup, events.drop_last());
    }
}

/// How many directories a history has created.
pub open spec fn directories_created(events: Seq<SetupEvent>) -> nat
    decreases events.len(),
{
    if events.len() == 0 {
        0
    } else {
        directories_created(events.drop_last()) + match events.last() {
            SetupEvent::Created(Ok(_)) => 1nat,
            _ => 0nat,
        }
    }
}

/// A run starts with all commits to be done, and nothing known.
pub proof fn run_starts_with_nothing_known<T>(commits: Seq<CommitModel>, keep_going: bool)
    ensures
        ({
            let start = RunModel::<T>::initial(commits, keep_going);
            &&& start.queue == commits
            &&& start.keep_going == keep_going
            &&& !start.should_stop
            &&& forall|id: Seq<u8>| !(#[trigger] start.new_trees.contains_key(id))
            &&& start.failed.len() == 0 && start.errors.len() == 0
        }),
{
}

/// Commits are handed out from the front, one at a time, as long as the run is not to stop, and
/// that changes nothing else.
pub proof fn commits_are_taken_from_the_front<T>(state: RunModel<T>)
    ensures
        !state.should_stop && state.queue.len() > 0 ==> state.handed_out() == Some(state.queue[0])
            && state.after(RunOp::Next).queue == state.queue.skip(1),
        state.should_stop || state.queue.len() == 0 ==> state.handed_out() is None && state.after(
            RunOp::Next,
        ) == state,
        state.after(RunOp::Next) == (RunModel { queue: state.after(RunOp::Next).queue, ..state }),
{
    if state.queue.len() > 0 {
        assert(state.queue.drop_first() =~= state.queue.skip(1));
    }
}

/// A tree that the running command has left so far is the commit's new tree, and nothing else
/// changes.
pub proof fn published_trees_are_stored<T>(state: RunModel<T>, id: Seq<u8>, tree: T)
    ensures
        ({
            let after = state.after(RunOp::Publish(id, tree));
            &&& after.new_trees == state.new_trees.insert(id, tree)
            &&& after == RunModel { new_trees: after.new_trees, ..state }
        }),
{
}

/// A command that passes leaves its new tree, or none, and nothing else changes.
pub proof fn passing_leaves_the_new_tree<T>(state: RunModel<T>, id: Seq<u8>, tree: T)
    ensures
        ({
            let changed = state.after(RunOp::Finish(id, Ok(Some(tree))));
            let unchanged = state.after(RunOp::Finish(id, Ok(None)));
            &&& changed.new_trees == state.new_trees.insert(id, tree)
            &&& changed == RunModel { new_trees: changed.new_trees, ..state }
            &&& unchanged.new_trees == state.new_trees.remove(id)
            &&& unchanged == RunModel { new_trees: unchanged.new_trees, ..state }
        }),
{
}

/// A failure is noted with its commit, behind the earlier ones, and stops the run unless it keeps
/// going. The tree to show is the one that the command left; where an error of the system hides
/// it, the last one seen.
pub proof fn failures_are_noted<T>(
    state: RunModel<T>,
    id: Seq<u8>,
    failure: RunFailureModel<T>,
)
    ensures
        ({
            let after = state.after(RunOp::Finish(id, Err(failure)));
            &&& after.failed == state.failed.push(id)
            &&& after.errors == state.errors.push(failure.error)
            &&& after.should_stop <==> state.should_stop || !state.keep_going
            &&& after.queue == state.queue && after.keep_going == state.keep_going
            &&& failure.new_tree matches Some(tree) ==> after.new_trees == state.new_trees.insert(
                id,
                tree,
            )
            &&& failure.new_tree is None && failure.error is CommandFailure ==> after.new_trees
                == state.new_trees.remove(id)
            &&& failure.new_tree is None && !(failure.error is CommandFailure) ==> after.new_trees
                == state.new_trees
        }),
{
    let after = state.after(RunOp::Finish(id, Err(failure)));
    if failure.new_tree is None && !(failure.error is CommandFailure) {
        assert(after.new_trees =~= state.new_trees);
    }
}

/// A worker that cannot prepare itself stops the run and is noted as an error of no commit; to
/// stop changes nothing else.
pub proof fn stopping_changes_nothing_else<T>(state: RunModel<T>, error: RunErrorModel)
    ensures
        ({
            let failed = state.after(RunOp::SetupFailed(error));
            let stopped = state.after(RunOp::Stop);
            &&& failed.should_stop && stopped.should_stop
            &&& failed.errors == state.errors.push(error)
            &&& failed == RunModel { should_stop: true, errors: failed.errors, ..state }
            &&& stopped == RunModel { should_stop: true, ..state }
        }),
{
}

/// The interface is told of each end what it was, and on which commit.
pub proof fn ends_are_told<T>(id: Seq<u8>, result: Result<Option<T>, RunFailureModel<T>>)
    ensures
        match result {
            Ok(tree) => finish_message(id, result) matches MessageModel::Passed {
                commit_id,
                modified,
            } && commit_id == id && modified == tree is Some,
            Err(failure) => finish_message(id, result) matches MessageModel::Failed {
                commit_id,
                message,
            } && commit_id == id && message == failure.error.message(),
        },
{
}

/// The directory of a worker tells its number, so that no two workers share one.
pub proof fn workers_share_no_directory(a: nat, b: nat)
    ensures
        worker_dir(a).len() > "worker-"@.len(),
        worker_dir(a).take("worker-"@.len() as int) == "worker-"@,
        number_of(worker_dir(a).skip("worker-"@.len() as int)) == a,
        worker_dir(a) == worker_dir(b) ==> a == b,
{
    let n = "worker-"@.len() as int;
    decimal_reads_back(a);
    decimal_reads_back(b);
    assert(worker_dir(a).take(n) =~= "worker-"@);
    assert(worker_dir(a).skip(n) =~= decimal(a));
    assert(worker_dir(b).skip(n) =~= decimal(b));
}

impl WorkerSetup {
    /// The worker after an event.
    pub open spec fn after_event(self, event: SetupEvent) -> WorkerSetup {
        WorkerSetup { phase: self.step(event).0, ..self }
    }
}

/// A worker makes the directory of its working copy, then that of its state, then looks for an
/// earlier state. A directory that cannot be made is reported by its path.
pub proof fn worker_prepares_its_directories(setup: WorkerSetup, text: String, found: bool)
    requires
        setup.phase is CreateWorkingCopy,
    ensures
        ({
            let made = SetupEvent::Created(Ok(()));
            let denied = SetupEvent::Created(Err(text));
            let probed = SetupEvent::Probed(found);
            let s1 = setup.after_event(made);
            let s2 = s1.after_event(made);
            &&& setup.step(made).1 == SetupActionModel::CreateDir(setup.state_dir@)
            &&& s1.step(made).1 is Probe
            &&& found ==> s2.step(probed).1 is Load
            &&& !found ==> s2.step(probed).1 is Init
            &&& s2.after_event(probed).phase is Finished
            &&& setup.step(denied).1 == SetupActionModel::Fail(
                RunErrorModel::PathCreation { path: setup.working_copy_dir@, source: text@ },
            )
            &&& setup.after_event(denied).phase is Finished
            &&& s1.step(denied).1 == SetupActionModel::Fail(
                RunErrorModel::PathCreation { path: setup.state_dir@, source: text@ },
            )
            &&& s1.after_event(denied).phase is Finished
        }),
{
}

/// A worker that is prepared, or could not be, does nothing more; an event out of turn changes
/// nothing.
pub proof fn setup_ignores_what_is_out_of_turn(setup: WorkerSetup, event: SetupEvent)
    requires
        setup.phase is Finished || (setup.phase is Probe && event is Created) || ((
        setup.phase is CreateWorkingCopy || setup.phase is CreateState) && event is Probed),
    ensures
        setup.step(event).1 is Ignore,
        setup.after_event(event) == setup,
{
}

/// Cleaning removes every worker's directory and whatever else there is, and spares the lock
/// alone.
pub proof fn cleaning_spares_the_lock_alone(name: Seq<char>, worker: nat)
    ensures
        cleaned_away(None),
        cleaned_away(Some(name)) <==> name != "lock"@,
        cleaned_away(Some(worker_dir(worker))),
{
    reveal_strlit("lock");
    reveal_strlit("worker-");
    assert(worker_dir(worker)[0] == 'w');
    assert("lock"@[0] == 'l');
}

/// The commits still to be done are those of the list from the next one on, in order, and the
/// lists of the state are read in order.
pub proof fn shared_state_is_read_in_order<T>(state: RunState<T>, i: int)
    requires
        state.wf(),
    ensures
        state@.queue.len() == state.commits@.len() - state.next,
        0 <= i < state.commits@.len() - state.next ==> state@.queue[i] == state.commits@[state.next
            + i]@,
        state@.failed.len() == state.failed@.len(),
        0 <= i < state.failed@.len() ==> state@.failed[i] == state.failed@[i]@,
        state@.errors.len() == state.errors@.len(),
        0 <= i < state.errors@.len() ==> state@.errors[i] == state.errors@[i]@,
        state@.should_stop == state.should_stop,
        state@.keep_going == state.keep_going,
{
}

} // verus!
