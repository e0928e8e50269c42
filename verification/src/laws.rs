//! What a run guarantees as a whole.

use crate::args::{worker_count, RunArgs};
use crate::error::RunErrorModel;
use crate::ids::CommitModel;
use crate::run::{
    confirmed, count_visit, rewrote_line, CommandErrorModel, Interface, PhaseModel, ResultsModel,
    RunActionModel, RunCommandModel, RunEventModel,
};
use crate::state::TuiOutcome;
use crate::text::decimal;
use crate::worker::{
    commits_do_not_interfere, concerns, failures_noted, history_of, last_tree,
    results_record_the_history, RunModel, RunOp,
};
use vstd::prelude::*;

verus! {

/// A run after a whole history of events, the oldest first.
pub open spec fn run_after<T, E>(run: RunCommandModel, events: Seq<RunEventModel<T, E>>) ->
    RunCommandModel
    decreases events.len(),
{
    if events.len() == 0 {
        run
    } else {
        run_after(run, events.drop_last()).step(events.last()).0
    }
}

/// The options of a run never change.
pub proof fn options_never_change<T, E>(
    run: RunCommandModel,
    events: Seq<RunEventModel<T, E>>,
)
    ensures
        run_after(run, events).args == run.args,
        run_after(run, events).parallelism == run.parallelism,
    decreases events.len(),
{
    if events.len() > 0 {
        options_never_change(run, events.drop_last());
    }
}

proof fn lemma_readonly_phase<T, E>(
    args: RunArgs,
    parallelism: Option<usize>,
    events: Seq<RunEventModel<T, E>>,
)
    requires
        args.readonly,
    ensures
        ({
            let phase = run_after(RunCommandModel::initial(args, parallelism), events).phase;
            phase !is Check && phase !is Rewrite && phase !is Report && phase !is Commit
        }),
    decreases events.len(),
{
    if events.len() > 0 {
        lemma_readonly_phase(args, parallelism, events.drop_last());
        options_never_change(RunCommandModel::initial(args, parallelism), events.drop_last());
    }
}

/// A read-only run rewrites nothing and commits to nothing; for that, it asks of no commit
/// whether it may be rewritten.
pub proof fn readonly_rewrites_nothing<T, E>(
    args: RunArgs,
    parallelism: Option<usize>,
    events: Seq<RunEventModel<T, E>>,
    event: RunEventModel<T, E>,
)
    requires
        args.readonly,
    ensures
        ({
            let run = run_after(RunCommandModel::initial(args, parallelism), events);
            let action = run.step(event).1;
            action !is Rewrite && action !is Commit && action !is CheckRewritable
        }),
{
    lemma_readonly_phase(args, parallelism, events);
    options_never_change(RunCommandModel::initial(args, parallelism), events);
}

/// After its last line, a run only returns.
pub proof fn nothing_follows_the_last_line<T, E>(
    run: RunCommandModel,
    events: Seq<RunEventModel<T, E>>,
    event: RunEventModel<T, E>,
)
    requires
        run.phase is Print || run.phase is Finished,
    ensures
        run_after(run, events).phase is Print || run_after(run, events).phase is Finished,
        ({
            let action = run_after(run, events).step(event).1;
            action is Return || action is Ignore
        }),
    decreases events.len(),
{
    if events.len() > 0 {
        nothing_follows_the_last_line(run, events.drop_last(), events.last());
    }
}

/// Once its results are discarded, a run rewrites nothing and returns nothing but success, or
/// the error of printing its last line.
pub proof fn cancelled_run_rewrites_nothing<T, E>(
    run: RunCommandModel,
    results: ResultsModel<T>,
    events: Seq<RunEventModel<T, E>>,
    event: RunEventModel<T, E>,
)
    requires
        run.phase is Work,
        !confirmed(results.interface),
    ensures
        ({
            let (next, action) = run.step::<T, E>(RunEventModel::Worked(Ok(results)));
            let later = run_after(next, events).step(event).1;
            &&& action is Status
            &&& later is Return || later is Ignore
            &&& later matches RunActionModel::Return(Err(error)) ==> error is Other
        }),
{
    let next = run.step::<T, E>(RunEventModel::Worked(Ok(results))).0;
    nothing_follows_the_last_line(next, events, event);
}

/// A run that has reached its workers has passed the checks: the commits may be rewritten, unless
/// the run is read-only, and the run directory is locked.
pub open spec fn passed_the_checks<T, E>(
    run: RunCommandModel,
    events: Seq<RunEventModel<T, E>>,
) -> bool {
    let past_check = !(run.phase is Resolve || run.phase is Check || run.phase is Print
        || run.phase is Finished);
    let past_lock = past_check && !(run.phase is Load || run.phase is CreateDir
        || run.phase is Lock);
    &&& past_check ==> run.commits.len() > 0
    &&& past_check && !run.args.readonly ==> events.contains(RunEventModel::Checked(Ok(())))
    &&& past_lock ==> events.contains(RunEventModel::Locked(Ok(())))
}

proof fn lemma_passed_the_checks<T, E>(
    args: RunArgs,
    parallelism: Option<usize>,
    events: Seq<RunEventModel<T, E>>,
)
    ensures
        passed_the_checks(run_after(RunCommandModel::initial(args, parallelism), events), events),
    decreases events.len(),
{
    if events.len() > 0 {
        let before = events.drop_last();
        lemma_passed_the_checks(args, parallelism, before);
        assert(events[events.len() - 1] == events.last());
        assert(events.contains(events.last()));
        assert forall|e: RunEventModel<T, E>| #[trigger] before.contains(e) implies events.contains(
            e,
        ) by {
            let i = choose|i: int| 0 <= i < before.len() && before[i] == e;
            assert(events[i] == e);
        }
        match events.last() {
            RunEventModel::Checked(Ok(nothing)) => {
                assert(nothing == ());
            },
            RunEventModel::Locked(Ok(nothing)) => {
                assert(nothing == ());
            },
            _ => {},
        }
    }
}

/// The command is run only if there are commits, if they may be rewritten (or the run is
/// read-only), and under the lock; and then there is a worker to run it, on any machine with a
/// core.
pub proof fn work_follows_the_checks<T, E>(
    args: RunArgs,
    parallelism: Option<usize>,
    events: Seq<RunEventModel<T, E>>,
    event: RunEventModel<T, E>,
)
    requires
        parallelism is Some ==> parallelism->0 > 0,
    ensures
        ({
            let run = run_after(RunCommandModel::initial(args, parallelism), events);
            run.step(event).1 matches RunActionModel::Work(jobs) ==> {
                &&& 0 < jobs <= run.commits.len()
                &&& jobs == worker_count(args.jobs, parallelism, run.commits.len())
                &&& args.readonly || events.push(event).contains(RunEventModel::Checked(Ok(())))
                &&& events.push(event).contains(RunEventModel::Locked(Ok(())))
            }
        }),
{
    let all = events.push(event);
    assert(all.drop_last() =~= events);
    assert(all.last() == event);
    let start = RunCommandModel::initial(args, parallelism);
    lemma_passed_the_checks(args, parallelism, all);
    lemma_passed_the_checks(args, parallelism, events);
    options_never_change(start, events);
    options_never_change(start, all);
}

/// Commits are rewritten only with confirmed results of a run that is not read-only, and with
/// exactly the trees that are kept of them; the count of rewritten commits starts from zero.
pub proof fn rewriting_needs_consent<T, E>(run: RunCommandModel, event: RunEventModel<T, E>)
    ensures
        run.step(event).1 matches RunActionModel::Rewrite(trees, count) ==> {
            &&& event matches RunEventModel::Worked(Ok(results))
            &&& confirmed(results.interface)
            &&& !run.args.readonly
            &&& trees == results.kept_trees()
            &&& count == 0
        },
{
}

/// Immutable commits are not rewritten: nothing is, unless all commits of the run were found to be
/// rewritable before.
pub proof fn immutable_commits_are_not_rewritten<T, E>(
    args: RunArgs,
    parallelism: Option<usize>,
    events: Seq<RunEventModel<T, E>>,
    event: RunEventModel<T, E>,
)
    ensures
        ({
            let run = run_after(RunCommandModel::initial(args, parallelism), events);
            run.step(event).1 is Rewrite ==> events.contains(RunEventModel::Checked(Ok(())))
        }),
{
    lemma_passed_the_checks(args, parallelism, events);
    options_never_change(RunCommandModel::initial(args, parallelism), events);
}

/// The commits of a run are settled once they are resolved: what was checked is what is worked on
/// and rewritten.
pub proof fn commits_are_settled<T, E>(run: RunCommandModel, events: Seq<RunEventModel<T, E>>)
    requires
        !(run.phase is Resolve),
    ensures
        run_after(run, events).commits == run.commits,
        !(run_after(run, events).phase is Resolve),
    decreases events.len(),
{
    if events.len() > 0 {
        commits_are_settled(run, events.drop_last());
    }
}

/// A commit is rewritten exactly if it has a new tree and the run did not fail on it; it then gets
/// that tree.
pub proof fn failed_commits_are_not_rewritten<T>(results: ResultsModel<T>, id: Seq<u8>)
    ensures
        results.kept_trees().contains_key(id) <==> results.new_trees.contains_key(id)
            && !results.failed.contains(id),
        results.kept_trees().contains_key(id) ==> results.kept_trees()[id]
            == results.new_trees[id],
{
}

/// Whether results are those of the workers after a history.
pub open spec fn results_of<T>(
    results: ResultsModel<T>,
    commits: Seq<CommitModel>,
    keep_going: bool,
    ops: Seq<RunOp<T>>,
) -> bool {
    let end = RunModel::<T>::initial(commits, keep_going).after_all(ops);
    results.new_trees == end.new_trees && results.failed == end.failed && results.failures
        == end.errors
}

proof fn lemma_kept_tree<T>(
    results: ResultsModel<T>,
    commits: Seq<CommitModel>,
    keep_going: bool,
    ops: Seq<RunOp<T>>,
    id: Seq<u8>,
)
    requires
        results_of(results, commits, keep_going, ops),
    ensures
        results.kept_trees().get(id) == if failures_noted(ops).contains(id) {
            None
        } else {
            last_tree(ops, id)
        },
{
    results_record_the_history(commits, keep_going, ops);
    assert(results.new_trees.get(id) == last_tree(ops, id));
    failed_commits_are_not_rewritten(results, id);
}

proof fn lemma_failure_is_noted<T>(ops: Seq<RunOp<T>>, at: int)
    requires
        0 <= at < ops.len(),
        ops[at] is Finish,
        ops[at]->Finish_1 is Err,
    ensures
        failures_noted(ops).contains(ops[at]->Finish_0),
    decreases ops.len(),
{
    let id = ops[at]->Finish_0;
    let before = ops.drop_last();
    let noted = failures_noted(before);
    let n = noted.len() as int;
    if at < ops.len() - 1 {
        assert(before[at] == ops[at]);
        lemma_failure_is_noted(before, at);
        let i = choose|i: int| 0 <= i < noted.len() && noted[i] == id;
        assert(failures_noted(ops)[i] == id);
    } else {
        assert(failures_noted(ops)[n] == id);
    }
}

proof fn lemma_noted_failure_happened<T>(ops: Seq<RunOp<T>>, id: Seq<u8>) -> (at: int)
    requires
        failures_noted(ops).contains(id),
    ensures
        0 <= at < ops.len(),
        ops[at] matches RunOp::Finish(commit, Err(_)) && commit == id,
    decreases ops.len(),
{
    let before = ops.drop_last();
    let noted = failures_noted(before);
    let i = choose|i: int| 0 <= i < failures_noted(ops).len() && failures_noted(ops)[i] == id;
    if i < noted.len() {
        assert(noted[i] == id);
        let at = lemma_noted_failure_happened(before, id);
        assert(ops[at] == before[at]);
        at
    } else {
        ops.len() - 1
    }
}

/// Only commits that passed are rewritten: of a commit that is rewritten, no failure of any kind
/// was reported.
pub proof fn only_passing_commits_are_rewritten<T>(
    results: ResultsModel<T>,
    commits: Seq<CommitModel>,
    keep_going: bool,
    ops: Seq<RunOp<T>>,
    id: Seq<u8>,
    at: int,
)
    requires
        results_of(results, commits, keep_going, ops),
        results.kept_trees().contains_key(id),
        0 <= at < ops.len(),
    ensures
        ops[at] matches RunOp::Finish(commit, Err(_)) ==> commit != id,
{
    lemma_kept_tree(results, commits, keep_going, ops, id);
    if ops[at] is Finish && ops[at]->Finish_1 is Err && ops[at]->Finish_0 == id {
        lemma_failure_is_noted(ops, at);
    }
}

proof fn lemma_tree_of_last<T>(ops: Seq<RunOp<T>>, at: int, id: Seq<u8>)
    requires
        0 <= at < ops.len(),
        concerns(ops[at], id),
        forall|j: int| at < j < ops.len() ==> !concerns(#[trigger] ops[j], id),
    ensures
        last_tree(ops, id) == last_tree(ops.take(at + 1), id),
    decreases ops.len(),
{
    let before = ops.drop_last();
    let n = ops.len() - 1;
    if at < n {
        assert(before[at] == ops[at]);
        assert forall|j: int| at < j < before.len() implies !concerns(#[trigger] before[j], id) by {
            assert(before[j] == ops[j]);
        }
        lemma_tree_of_last(before, at, id);
        assert(!concerns(ops[n], id));
        assert(before.take(at + 1) =~= ops.take(at + 1));
    } else {
        assert(ops.take(at + 1) =~= ops);
    }
}

/// A commit on which the run has passed is rewritten exactly if the command left a new tree, and
/// then with that tree, whatever was seen while the command ran.
pub proof fn changes_of_passing_commands_are_kept<T>(
    results: ResultsModel<T>,
    commits: Seq<CommitModel>,
    keep_going: bool,
    ops: Seq<RunOp<T>>,
    at: int,
    id: Seq<u8>,
    tree: Option<T>,
)
    requires
        results_of(results, commits, keep_going, ops),
        0 <= at < ops.len(),
        ops[at] == RunOp::Finish(id, Ok(tree)),
        forall|j: int| at < j < ops.len() ==> !concerns(#[trigger] ops[j], id),
        forall|j: int|
            0 <= j < at ==> !(#[trigger] ops[j] matches RunOp::Finish(commit, Err(_)) && commit
                == id),
    ensures
        results.kept_trees().get(id) == tree,
{
    lemma_kept_tree(results, commits, keep_going, ops, id);
    lemma_tree_of_last(ops, at, id);
    assert(ops.take(at + 1).last() == ops[at]);
    if failures_noted(ops).contains(id) {
        let k = lemma_noted_failure_happened(ops, id);
        assert(concerns(ops[k], id));
    }
}

/// A commit that nothing happened to is not rewritten.
pub proof fn untouched_commits_are_not_rewritten<T>(
    results: ResultsModel<T>,
    commits: Seq<CommitModel>,
    keep_going: bool,
    ops: Seq<RunOp<T>>,
    id: Seq<u8>,
)
    requires
        results_of(results, commits, keep_going, ops),
        forall|i: int| 0 <= i < ops.len() ==> !concerns(#[trigger] ops[i], id),
    ensures
        !results.kept_trees().contains_key(id),
{
    lemma_kept_tree(results, commits, keep_going, ops, id);
    lemma_untouched(ops, id);
}

proof fn lemma_untouched<T>(ops: Seq<RunOp<T>>, id: Seq<u8>)
    requires
        forall|i: int| 0 <= i < ops.len() ==> !concerns(#[trigger] ops[i], id),
    ensures
        last_tree(ops, id) is None,
        history_of(ops, id) == Seq::<RunOp<T>>::empty(),
    decreases ops.len(),
{
    if ops.len() > 0 {
        let before = ops.drop_last();
        assert forall|i: int| 0 <= i < before.len() implies !concerns(#[trigger] before[i], id) by {
            assert(before[i] == ops[i]);
        }
        lemma_untouched(before, id);
        assert(!concerns(ops[ops.len() - 1], id));
    }
}

/// What is rewritten depends on what happened to each commit alone: not on the number of workers,
/// nor on the order in which things happened to different commits.
pub proof fn interleaving_does_not_matter<T>(
    a: ResultsModel<T>,
    commits_a: Seq<CommitModel>,
    keep_going_a: bool,
    ops_a: Seq<RunOp<T>>,
    b: ResultsModel<T>,
    commits_b: Seq<CommitModel>,
    keep_going_b: bool,
    ops_b: Seq<RunOp<T>>,
)
    requires
        results_of(a, commits_a, keep_going_a, ops_a),
        results_of(b, commits_b, keep_going_b, ops_b),
        forall|id: Seq<u8>| #[trigger] history_of(ops_a, id) == history_of(ops_b, id),
    ensures
        a.new_trees == b.new_trees,
        a.kept_trees() == b.kept_trees(),
{
    results_record_the_history(commits_a, keep_going_a, ops_a);
    results_record_the_history(commits_b, keep_going_b, ops_b);
    assert forall|id: Seq<u8>| #[trigger] a.new_trees.get(id) == b.new_trees.get(id) by {
        commits_do_not_interfere(ops_a, id);
        commits_do_not_interfere(ops_b, id);
        assert(history_of(ops_a, id) == history_of(ops_b, id));
    }
    assert forall|id: Seq<u8>| #[trigger] a.kept_trees().get(id) == b.kept_trees().get(id) by {
        lemma_kept_tree(a, commits_a, keep_going_a, ops_a, id);
        lemma_kept_tree(b, commits_b, keep_going_b, ops_b, id);
        commits_do_not_interfere(ops_a, id);
        commits_do_not_interfere(ops_b, id);
        assert(history_of(ops_a, id) == history_of(ops_b, id));
    }
    lemma_same_entries(a.new_trees, b.new_trees);
    lemma_same_entries(a.kept_trees(), b.kept_trees());
}

proof fn lemma_same_entries<T>(a: Map<Seq<u8>, T>, b: Map<Seq<u8>, T>)
    requires
        forall|id: Seq<u8>| #[trigger] a.get(id) == b.get(id),
    ensures
        a == b,
{
    assert forall|id: Seq<u8>| #[trigger]
        a.dom().contains(id) == b.dom().contains(id) && (a.dom().contains(id) ==> a[id]
            == b[id]) by {
        assert(a.get(id) == b.get(id));
    }
    assert(a.dom() =~= b.dom());
    assert(a =~= b);
}

/// Whether a history ends, for a commit, with the command passing and leaving this new tree, and
/// never failed on it. A commit that nothing happened to has none.
pub open spec fn ends_passing<T>(ops: Seq<RunOp<T>>, id: Seq<u8>, tree: Option<T>) -> bool {
    let own = history_of(ops, id);
    &&& !failures_noted(ops).contains(id)
    &&& if own.len() == 0 {
        tree is None
    } else {
        own.last() == RunOp::Finish(id, Ok::<Option<T>, _>(tree))
    }
}

/// Two runs in which the command passes on every commit and leaves the same new trees rewrite the
/// same commits with the same trees, whatever the number of workers, the order of the commits and
/// what was seen while the command ran.
pub proof fn same_outcomes_same_rewrites<T>(
    a: ResultsModel<T>,
    commits_a: Seq<CommitModel>,
    keep_going_a: bool,
    ops_a: Seq<RunOp<T>>,
    b: ResultsModel<T>,
    commits_b: Seq<CommitModel>,
    keep_going_b: bool,
    ops_b: Seq<RunOp<T>>,
    outcome: spec_fn(Seq<u8>) -> Option<T>,
)
    requires
        results_of(a, commits_a, keep_going_a, ops_a),
        results_of(b, commits_b, keep_going_b, ops_b),
        forall|id: Seq<u8>| #[trigger] ends_passing(ops_a, id, outcome(id)),
        forall|id: Seq<u8>| #[trigger] ends_passing(ops_b, id, outcome(id)),
    ensures
        a.kept_trees() == b.kept_trees(),
        forall|id: Seq<u8>| #[trigger] a.kept_trees().get(id) == outcome(id),
{
    assert forall|id: Seq<u8>| #[trigger]
        a.kept_trees().get(id) == outcome(id) && b.kept_trees().get(id) == outcome(id) by {
        assert(ends_passing(ops_a, id, outcome(id)) && ends_passing(ops_b, id, outcome(id)));
        lemma_kept_tree(a, commits_a, keep_going_a, ops_a, id);
        lemma_kept_tree(b, commits_b, keep_going_b, ops_b, id);
        commits_do_not_interfere(ops_a, id);
        commits_do_not_interfere(ops_b, id);
    }
    lemma_same_entries(a.kept_trees(), b.kept_trees());
}

/// Whether a run has reached its workers.
pub open spec fn has_reached_work(run: RunCommandModel) -> bool {
    !(run.phase is Resolve || run.phase is Check || run.phase is Load || run.phase is CreateDir
        || run.phase is Lock || run.phase is Clean)
}

/// Whether two runs do the same with their results: the same command on the same commits, as far
/// along, and alike in whether commits are rewritten and what a failure means.
pub open spec fn alike(a: RunCommandModel, b: RunCommandModel) -> bool {
    &&& a.args.shell_command@ == b.args.shell_command@
    &&& a.args.readonly == b.args.readonly
    &&& a.args.keep_going == b.args.keep_going
    &&& a.commits == b.commits
    &&& a.phase == b.phase
}

/// Once the workers are running, the other options (the number of jobs, cleaning, and the one that
/// does nothing) and the number of cores do not matter: the same events are answered by the same
/// actions.
pub proof fn other_options_do_not_matter<T, E>(
    a: RunCommandModel,
    b: RunCommandModel,
    events: Seq<RunEventModel<T, E>>,
    event: RunEventModel<T, E>,
)
    requires
        alike(a, b),
        has_reached_work(a),
    ensures
        alike(run_after(a, events), run_after(b, events)),
        has_reached_work(run_after(a, events)),
        run_after(a, events).step(event).1 == run_after(b, events).step(event).1,
    decreases events.len(),
{
    if events.len() > 0 {
        let before = events.drop_last();
        other_options_do_not_matter(a, b, before, events.last());
        lemma_alike_step(run_after(a, before), run_after(b, before), events.last());
    }
    lemma_alike_step(run_after(a, events), run_after(b, events), event);
}

proof fn lemma_alike_step<T, E>(
    a: RunCommandModel,
    b: RunCommandModel,
    event: RunEventModel<T, E>,
)
    requires
        alike(a, b),
        has_reached_work(a),
    ensures
        alike(a.step(event).0, b.step(event).0),
        has_reached_work(a.step(event).0),
        a.step(event).1 == b.step(event).1,
{
    if let RunEventModel::Worked(Ok(results)) = event {
        assert(a.conclude::<T, E>(results).1 == b.conclude::<T, E>(results).1);
    }
}

/// A run that keeps going ends in an error of its own only if it could not take the lock: a
/// command that fails does not fail the run.
pub proof fn keeping_going_ignores_failures<T, E>(
    run: RunCommandModel,
    event: RunEventModel<T, E>,
)
    requires
        run.args.keep_going,
    ensures
        run.step(event).1 matches RunActionModel::Return(Err(CommandErrorModel::Run(error)))
            ==> error is Lock,
{
}

/// Whether what went wrong in a run is still to be returned, or has been.
pub open spec fn holds_failures(run: RunCommandModel, failures: Seq<RunErrorModel>) -> bool {
    match run.phase {
        PhaseModel::Rewrite(held) => held == failures,
        PhaseModel::Report(_, held) => held == failures,
        PhaseModel::Commit(held) => held == failures,
        PhaseModel::Finished => true,
        _ => false,
    }
}

proof fn lemma_holds_failures<T, E>(
    run: RunCommandModel,
    failures: Seq<RunErrorModel>,
    events: Seq<RunEventModel<T, E>>,
)
    requires
        holds_failures(run, failures),
        failures.len() > 0,
        !run.args.keep_going,
    ensures
        holds_failures(run_after(run, events), failures),
    decreases events.len(),
{
    options_never_change(run, events);
    if events.len() > 0 {
        lemma_holds_failures(run, failures, events.drop_last());
        options_never_change(run, events.drop_last());
    }
}

/// A run that does not keep going, whose results are used, does not succeed if anything went
/// wrong on a commit; the error that it returns is the first, or one of the surrounding program.
pub proof fn first_failure_is_returned<T, E>(
    run: RunCommandModel,
    results: ResultsModel<T>,
    events: Seq<RunEventModel<T, E>>,
    event: RunEventModel<T, E>,
)
    requires
        run.phase is Work,
        confirmed(results.interface),
        !run.args.readonly,
        !run.args.keep_going,
        results.failures.len() > 0,
    ensures
        ({
            let (next, action) = run.step::<T, E>(RunEventModel::Worked(Ok(results)));
            let later = run_after(next, events).step(event).1;
            &&& action matches RunActionModel::Return(result) ==> result == Err::<
                (),
                CommandErrorModel<E>,
            >(CommandErrorModel::Run(results.failures[0]))
            &&& later matches RunActionModel::Return(result) ==> {
                &&& result matches Err(error)
                &&& error matches CommandErrorModel::Run(first) ==> first == results.failures[0]
            }
        }),
{
    let next = run.step::<T, E>(RunEventModel::Worked(Ok(results))).0;
    lemma_holds_failures(next, results.failures, events);
    options_never_change(next, events);
}

/// A run finishes exactly with the event that makes it return, and then asks for nothing more.
pub proof fn finishing_returns<T, E>(run: RunCommandModel, event: RunEventModel<T, E>)
    ensures
        !(run.phase is Finished) ==> (run.step(event).0.phase is Finished <==> run.step(
            event,
        ).1 is Return),
        run.phase is Finished ==> run.step(event) == (run, RunActionModel::<T, E>::Ignore),
{
}

/// The count after a pass over a list of commits.
pub open spec fn count_after<T>(trees: Map<Seq<u8>, T>, ids: Seq<Seq<u8>>) -> nat
    decreases ids.len(),
{
    if ids.len() == 0 {
        0
    } else {
        count_visit(trees, count_after(trees, ids.drop_last()), ids.last())
    }
}

/// A pass that visits every commit with a new tree once counts the new trees.
pub proof fn count_is_the_number_of_new_trees<T>(trees: Map<Seq<u8>, T>, ids: Seq<Seq<u8>>)
    requires
        ids.no_duplicates(),
        forall|id: Seq<u8>| #[trigger] trees.contains_key(id) ==> ids.contains(id),
    ensures
        trees.dom().finite(),
        count_after(trees, ids) == trees.dom().len(),
    decreases ids.len(),
{
    if ids.len() == 0 {
        assert(trees.dom() =~= Set::empty());
    } else {
        let id = ids.last();
        let before = ids.drop_last();
        let rest = trees.remove(id);
        assert(before.no_duplicates());
        assert forall|k: Seq<u8>| #[trigger] rest.contains_key(k) implies before.contains(k) by {
            assert(trees.contains_key(k));
            let i = choose|i: int| 0 <= i < ids.len() && ids[i] == k;
            assert(before[i] == k);
        }
        count_is_the_number_of_new_trees(rest, before);
        lemma_count_ignores(trees, before, id);
        assert(rest.dom() =~= trees.dom().remove(id));
        if trees.contains_key(id) {
            assert(trees.dom() =~= rest.dom().insert(id));
        } else {
            assert(trees.dom() =~= rest.dom());
        }
    }
}

/// The line that reports the rewritten commits tells their number: a pass that was handed out,
/// counts from zero and visits every commit with a new tree once is reported with the number of
/// new trees.
pub proof fn rewritten_commits_are_reported<T, E>(
    run: RunCommandModel,
    trees: Map<Seq<u8>, T>,
    ids: Seq<Seq<u8>>,
)
    requires
        run.phase is Rewrite,
        ids.no_duplicates(),
        forall|id: Seq<u8>| #[trigger] trees.contains_key(id) ==> ids.contains(id),
        count_after(trees, ids) <= u32::MAX,
    ensures
        run.step::<T, E>(
            RunEventModel::Rewritten(Ok((trees, count_after(trees, ids) as u32))),
        ).1 == RunActionModel::<T, E>::Status(
            rewrote_line(run.args.shell_command@, trees.dom().len() as u32),
        ),
{
    count_is_the_number_of_new_trees(trees, ids);
}

proof fn lemma_count_ignores<T>(trees: Map<Seq<u8>, T>, ids: Seq<Seq<u8>>, id: Seq<u8>)
    requires
        !ids.contains(id),
    ensures
        count_after(trees, ids) == count_after(trees.remove(id), ids),
    decreases ids.len(),
{
    if ids.len() > 0 {
        assert(ids[ids.len() - 1] == ids.last());
        assert(!ids.drop_last().contains(id)) by {
            if ids.drop_last().contains(id) {
                let i = choose|i: int|
                    0 <= i < ids.drop_last().len() && ids.drop_last()[i] == id;
                assert(ids[i] == id);
            }
        }
        lemma_count_ignores(trees, ids.drop_last(), id);
    }
}

/// Whether there is a commit with a new tree on which the run did not fail.
pub open spec fn has_change<T>(results: ResultsModel<T>) -> bool {
    exists|id: Seq<u8>|
        #[trigger] results.new_trees.contains_key(id) && !results.failed.contains(id)
}

/// Whether trees are the new ones of exactly the commits on which the run did not fail.
pub open spec fn are_the_changes<T>(trees: Map<Seq<u8>, T>, results: ResultsModel<T>) -> bool {
    forall|id: Seq<u8>| #[trigger]
        trees.contains_key(id) <==> results.new_trees.contains_key(id) && !results.failed.contains(
            id,
        )
}

/// Whether the user was not asked, or has confirmed.
pub open spec fn is_consent(interface: Interface) -> bool {
    ||| interface == Interface::Text
    ||| interface == Interface::Tui(Some(TuiOutcome::Confirm))
}

/// Consent and a change mean that commits are rewritten, whatever else went wrong and however the
/// run was followed: all commits that have a new tree and did not fail, with those trees, and
/// counted from zero.
pub proof fn confirmed_changes_are_rewritten<T, E>(run: RunCommandModel, results: ResultsModel<T>)
    requires
        run.phase is Work,
        !run.args.readonly,
        is_consent(results.interface),
        has_change(results),
    ensures
        ({
            let (next, action) = run.step::<T, E>(RunEventModel::Worked(Ok(results)));
            &&& action matches RunActionModel::Rewrite(trees, count)
            &&& are_the_changes(trees, results)
            &&& forall|id: Seq<u8>| #[trigger]
                trees.contains_key(id) ==> trees[id] == results.new_trees[id]
            &&& count == 0
            &&& next.phase == PhaseModel::Rewrite(results.failures)
            &&& next == RunCommandModel { phase: next.phase, ..run }
        }),
{
    let id = choose|id: Seq<u8>|
        #[trigger] results.new_trees.contains_key(id) && !results.failed.contains(id);
    assert(results.kept_trees().contains_key(id));
    assert(results.new_trees.contains_key(id));
}

/// Without consent nothing is done with the results, and that is told.
pub proof fn declined_results_are_discarded<T, E>(run: RunCommandModel, results: ResultsModel<T>)
    requires
        run.phase is Work,
        !is_consent(results.interface),
    ensures
        run.step::<T, E>(RunEventModel::Worked(Ok(results))) == (
            RunCommandModel { phase: PhaseModel::Print, ..run },
            RunActionModel::<T, E>::Status("Discarded results (cancelled)."@),
        ),
{
}

/// A read-only run ends by telling the command, the number of commits, and of those how many
/// failed and how many are left.
pub proof fn readonly_run_tells_the_numbers<T, E>(
    run: RunCommandModel,
    results: ResultsModel<T>,
    passed: nat,
)
    requires
        run.phase is Work,
        run.args.readonly,
        is_consent(results.interface),
        passed + results.failures.len() == run.commits.len(),
    ensures
        run.step::<T, E>(RunEventModel::Worked(Ok(results))) == (
            RunCommandModel { phase: PhaseModel::Print, ..run },
            RunActionModel::<T, E>::Status(
                "Ran '"@ + run.args.shell_command@ + "' on "@ + decimal(run.commits.len())
                    + " commit(s) (readonly). "@ + decimal(passed) + " passed, "@ + decimal(
                    results.failures.len(),
                ) + " failed."@,
            ),
        ),
{
}

/// Whether a step ends a run by what went wrong: nothing, a warning if the run keeps going, or
/// the first error.
pub open spec fn settles<T, E>(
    run: RunCommandModel,
    failures: Seq<RunErrorModel>,
    step: (RunCommandModel, RunActionModel<T, E>),
) -> bool {
    let (next, action) = step;
    let end = RunCommandModel { phase: PhaseModel::Finished, ..run };
    let last_line = RunCommandModel { phase: PhaseModel::Print, ..run };
    &&& failures.len() == 0 ==> next == end && action == RunActionModel::<T, E>::Return(Ok(()))
    &&& failures.len() > 0 && run.args.keep_going ==> next == last_line && action
        == RunActionModel::<T, E>::Warn(decimal(failures.len()) + " commit(s) failed."@)
    &&& failures.len() > 0 && !run.args.keep_going ==> next == end && action
        == RunActionModel::<T, E>::Return(Err(CommandErrorModel::Run(failures.first())))
}

/// A run that has nothing to rewrite says so, if nothing went wrong either; and otherwise ends by
/// what went wrong.
pub proof fn run_without_changes_settles<T, E>(run: RunCommandModel, results: ResultsModel<T>)
    requires
        run.phase is Work,
        !run.args.readonly,
        is_consent(results.interface),
        !has_change(results),
    ensures
        ({
            let step = run.step::<T, E>(RunEventModel::Worked(Ok(results)));
            &&& results.failures.len() > 0 ==> settles(run, results.failures, step)
            &&& (exists|id: Seq<u8>| #[trigger] results.new_trees.contains_key(id)) ==> settles(
                run,
                results.failures,
                step,
            )
            &&& results.failures.len() == 0 && (forall|id: Seq<u8>|
                !(#[trigger] results.new_trees.contains_key(id))) ==> step == (
                RunCommandModel { phase: PhaseModel::Print, ..run },
                RunActionModel::<T, E>::Status(
                    "No commits were rewritten (command did not modify any tracked files)."@,
                ),
            )
        }),
{
    assert(results.kept_trees() =~= Map::<Seq<u8>, T>::empty()) by {
        assert forall|id: Seq<u8>| !(#[trigger] results.kept_trees().dom().contains(id)) by {
            if results.kept_trees().contains_key(id) {
                assert(results.new_trees.contains_key(id) && !results.failed.contains(id));
            }
        }
        assert(results.kept_trees().dom() =~= Set::empty());
    }
    if forall|id: Seq<u8>| !(#[trigger] results.new_trees.contains_key(id)) {
        assert(results.new_trees.dom() =~= Set::empty());
        assert(results.new_trees =~= Map::<Seq<u8>, T>::empty());
    }
}

/// A pass that is over is reported by its count and then committed under that count, whatever the
/// options and whatever went wrong; only then is what went wrong looked at.
pub proof fn rewritten_commits_are_committed<T, E>(
    run: RunCommandModel,
    failures: Seq<RunErrorModel>,
    trees: Map<Seq<u8>, T>,
    count: u32,
)
    requires
        run.phase == PhaseModel::Rewrite(failures),
    ensures
        ({
            let cmd = run.args.shell_command@;
            let rewritten = RunEventModel::<T, E>::Rewritten(Ok((trees, count)));
            let printed = RunEventModel::<T, E>::Printed(Ok(()));
            let committed = RunEventModel::<T, E>::Committed(Ok(()));
            let (r1, told) = run.step(rewritten);
            let (r2, commit) = r1.step(printed);
            &&& told == RunActionModel::<T, E>::Status(
                "Rewrote "@ + decimal(count as nat) + " commit(s) with '"@ + cmd + "'."@,
            )
            &&& commit == RunActionModel::<T, E>::Commit(
                "run: rewrite "@ + decimal(count as nat) + " commit(s) with '"@ + cmd + "'"@,
            )
            &&& settles(run, failures, r2.step(committed))
        }),
{
}

proof fn lemma_uncommitted<T, E>(run: RunCommandModel, events: Seq<RunEventModel<T, E>>)
    requires
        run.phase is Rewrite,
        !events.contains(RunEventModel::Committed(Ok(()))),
    ensures
        ({
            let phase = run_after(run, events).phase;
            phase is Rewrite || phase is Report || phase is Commit || phase is Finished
        }),
    decreases events.len(),
{
    if events.len() > 0 {
        let before = events.drop_last();
        let committed = RunEventModel::<T, E>::Committed(Ok(()));
        assert(!before.contains(committed)) by {
            if before.contains(committed) {
                let i = choose|i: int| 0 <= i < before.len() && before[i] == committed;
                assert(events[i] == committed);
            }
        }
        lemma_uncommitted(run, before);
        assert(events[events.len() - 1] == events.last());
        if let RunEventModel::Committed(Ok(nothing)) = events.last() {
            assert(nothing == ());
        }
    }
}

/// A run that has begun to rewrite neither succeeds nor warns before its transaction is finished.
pub proof fn no_success_without_the_transaction<T, E>(
    run: RunCommandModel,
    events: Seq<RunEventModel<T, E>>,
    event: RunEventModel<T, E>,
)
    requires
        run.phase is Rewrite,
        !events.push(event).contains(RunEventModel::Committed(Ok(()))),
    ensures
        ({
            let action = run_after(run, events).step(event).1;
            &&& action != RunActionModel::<T, E>::Return(Ok(()))
            &&& !(action is Warn)
        }),
{
    let all = events.push(event);
    let committed = RunEventModel::<T, E>::Committed(Ok(()));
    assert(!events.contains(committed)) by {
        if events.contains(committed) {
            let i = choose|i: int| 0 <= i < events.len() && events[i] == committed;
            assert(all[i] == committed);
        }
    }
    lemma_uncommitted(run, events);
    assert(all[events.len() as int] == event);
    if let RunEventModel::Committed(Ok(nothing)) = event {
        assert(nothing == ());
    }
}

/// A run begins by resolving the revisions. Unless it is read-only, it then checks the commits.
/// Without commits it says so. With them, it reads the settings, makes its directory, locks it,
/// cleans it if it is asked to, and starts its workers.
pub proof fn run_prepares_in_order<T, E>(
    args: RunArgs,
    parallelism: Option<usize>,
    commits: Seq<CommitModel>,
)
    ensures
        ({
            let start = RunCommandModel::initial(args, parallelism);
            let resolved = RunEventModel::<T, E>::Resolved(Ok(commits));
            let checked = RunEventModel::<T, E>::Checked(Ok(()));
            let loaded = RunEventModel::<T, E>::Loaded(Ok(()));
            let created = RunEventModel::<T, E>::DirCreated(Ok(()));
            let locked = RunEventModel::<T, E>::Locked(Ok(()));
            let cleaned = RunEventModel::<T, E>::Cleaned(Ok(()));
            let r1 = start.step(resolved);
            let r2 = if args.readonly {
                r1
            } else {
                r1.0.step(checked)
            };
            let r3 = r2.0.step(loaded);
            let r4 = r3.0.step(created);
            let r5 = r4.0.step(locked);
            let r6 = if args.clean {
                r5.0.step(cleaned)
            } else {
                r5
            };
            &&& start.phase is Resolve
            &&& !args.readonly ==> r1.1 is CheckRewritable
            &&& r2.0.commits == commits && r2.0.args == args && r2.0.parallelism == parallelism
            &&& commits.len() == 0 ==> r2.0.phase is Print && r2.1 == RunActionModel::<
                T,
                E,
            >::Status("No revisions to run on."@)
            &&& commits.len() > 0 ==> {
                &&& r2.1 is Load && r3.1 is CreateDir && r4.1 is Lock
                &&& args.clean ==> r5.1 is Clean
                &&& r6.1 == RunActionModel::<T, E>::Work(
                    worker_count(args.jobs, parallelism, commits.len()),
                )
                &&& r6.0 == RunCommandModel {
                    args,
                    parallelism,
                    commits,
                    phase: PhaseModel::Work,
                }
            }
        }),
{
}

/// Whether an event is an answer to what is under way in a run.
pub open spec fn run_awaits<T, E>(phase: PhaseModel, event: RunEventModel<T, E>) -> bool {
    ||| phase is Resolve && event is Resolved
    ||| phase is Check && event is Checked
    ||| phase is Load && event is Loaded
    ||| phase is CreateDir && event is DirCreated
    ||| phase is Lock && event is Locked
    ||| phase is Clean && event is Cleaned
    ||| phase is Work && event is Worked
    ||| phase is Rewrite && event is Rewritten
    ||| phase is Report && event is Printed
    ||| phase is Commit && event is Committed
    ||| phase is Print && event is Printed
}

/// The error of the surrounding program that an event brings, if it brings one.
pub open spec fn program_error<T, E>(event: RunEventModel<T, E>) -> Option<E> {
    match event {
        RunEventModel::Resolved(Err(error)) => Some(error),
        RunEventModel::Checked(Err(error)) => Some(error),
        RunEventModel::Loaded(Err(error)) => Some(error),
        RunEventModel::DirCreated(Err(error)) => Some(error),
        RunEventModel::Cleaned(Err(error)) => Some(error),
        RunEventModel::Worked(Err(error)) => Some(error),
        RunEventModel::Rewritten(Err(error)) => Some(error),
        RunEventModel::Committed(Err(error)) => Some(error),
        RunEventModel::Printed(Err(error)) => Some(error),
        _ => None,
    }
}

/// An error of the surrounding program ends the run at once and is its result, as is a lock that
/// cannot be taken. An event that is not awaited changes nothing, and any other is acted on.
pub proof fn program_errors_are_returned<T, E>(
    run: RunCommandModel,
    event: RunEventModel<T, E>,
)
    ensures
        ({
            let (next, action) = run.step(event);
            let end = RunCommandModel { phase: PhaseModel::Finished, ..run };
            &&& run_awaits(run.phase, event) && program_error(event) is Some ==> next == end
                && action == RunActionModel::<T, E>::Return(
                Err(CommandErrorModel::Other(program_error(event)->0)),
            )
            &&& run.phase is Lock ==> (event matches RunEventModel::Locked(Err(text)) ==> next
                == end && action == RunActionModel::<T, E>::Return(
                Err(CommandErrorModel::Run(RunErrorModel::Lock(text))),
            ))
            &&& !run_awaits(run.phase, event) ==> next == run && action is Ignore
            &&& run_awaits(run.phase, event) ==> !(action is Ignore)
        }),
{
}

/// Once the last line is printed, the run has succeeded.
pub proof fn last_line_ends_a_run<T, E>(run: RunCommandModel)
    requires
        run.phase is Print,
    ensures
        run.step::<T, E>(RunEventModel::Printed(Ok(()))) == (
            RunCommandModel { phase: PhaseModel::Finished, ..run },
            RunActionModel::<T, E>::Return(Ok(())),
        ),
{
}

} // verus!
