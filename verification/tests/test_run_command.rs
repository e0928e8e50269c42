//! Whole runs, on a repository, a file system and a shell that live in memory.

use std::collections::BTreeMap;
use std::fmt;

use jj_run::args::{RunArgs, DEFAULT_REVISION};
use jj_run::command::{
    CommandAction, CommandEvent, CommandLine, CommandRun, RunFailure, Snapshot,
};
use jj_run::error::{ExitStatus, RunError};
use jj_run::ids::{ChangeId, Commit, CommitId};
use jj_run::run::{
    report_message, CommandError, Interface, Report, Rewriting, RunAction, RunCommand, RunEvent,
    RunResults,
};
use jj_run::state::TuiMessage;
use jj_run::worker::{worker_dir_name, RunState, SetupAction, SetupEvent, WorkerSetup};

type Tree = BTreeMap<String, String>;

/// How a command of the tests ended.
struct Status(bool);

impl Status {
    fn success(&self) -> bool {
        self.0
    }
}

/// What a command of the tests printed, and how it ended.
struct Output {
    status: Status,
    stdout: String,
    stderr: String,
}

impl Output {
    fn ok(stdout: String) -> Output {
        Output { status: Status(true), stdout, stderr: String::new() }
    }

    fn success(self) -> Output {
        assert!(self.status.success(), "{self}");
        self
    }
}

impl fmt::Display for Output {
    fn fmt(&self, f: &mut fmt::Formatter<'_>) -> fmt::Result {
        f.write_str(&format!("stdout: {}\nstderr: {}", self.stdout, self.stderr))
    }
}

/// A commit of the repository. Each one's parent is the one before it.
struct Stored {
    id: Vec<u8>,
    change_id: Vec<u8>,
    description: String,
    tree: Tree,
}

/// A linear history. The first commit is the root, the last one the working copy.
struct Repo {
    commits: Vec<Stored>,
    made: u8,
}

struct TestEnvironment;

impl TestEnvironment {
    fn default() -> TestEnvironment {
        TestEnvironment
    }

    fn run_jj_in(&self, dir: &str, args: [&str; 3]) -> Output {
        assert_eq!((dir, args), (".", ["git", "init", "repo"]));
        Output::ok(String::new())
    }

    fn work_dir(&self, name: &str) -> WorkDir {
        assert_eq!(name, "repo");
        let mut repo = Repo { commits: Vec::new(), made: 0 };
        repo.commits.push(Stored {
            id: vec![0; 20],
            change_id: vec![0; 16],
            description: String::new(),
            tree: Tree::new(),
        });
        repo.add_child();
        WorkDir { repo: std::cell::RefCell::new(repo) }
    }
}

struct WorkDir {
    repo: std::cell::RefCell<Repo>,
}

impl Repo {
    fn fresh_id(&mut self) -> Vec<u8> {
        self.made += 1;
        let mut id = vec![0xa0; 20];
        id[0] = self.made;
        id
    }

    fn add_child(&mut self) {
        let id = self.fresh_id();
        let mut change_id = vec![0xc0; 16];
        change_id[0] = self.made;
        let tree = self.commits[self.commits.len() - 1].tree.clone();
        self.commits.push(Stored { id, change_id, description: String::new(), tree });
    }

    /// The position of a revision: the root, or the working copy and its ancestors.
    fn position(&self, revision: &str) -> usize {
        if revision == "root()" {
            return 0;
        }
        let parents = revision.strip_prefix('@').unwrap();
        assert!(parents.chars().all(|c| c == '-'));
        self.commits.len() - 1 - parents.len()
    }

    /// The commits of a revision or a range of them, the newest first.
    fn resolve(&self, revisions: &str) -> Vec<usize> {
        let (first, last) = match revisions.split_once("::") {
            Some((first, last)) => (self.position(first), self.position(last)),
            None => (self.position(revisions), self.position(revisions)),
        };
        (first..=last).rev().collect()
    }

    /// Visits the commits from the oldest that is to be rewritten on, and rebases each.
    fn rewrite(&mut self, targets: &[Commit], mut pass: Rewriting<Tree>) -> Rewriting<Tree> {
        let start = self
            .commits
            .iter()
            .position(|c| targets.iter().any(|t| t.id.bytes == c.id))
            .unwrap();
        let mut old_parent = self.commits[start - 1].tree.clone();
        for i in start..self.commits.len() {
            let id = CommitId { bytes: self.commits[i].id.clone() };
            let old_tree = self.commits[i].tree.clone();
            let tree = match pass.visit(&id) {
                Some(tree) => tree.clone(),
                None => rebased(&old_tree, &old_parent, &self.commits[i - 1].tree),
            };
            self.commits[i].tree = tree;
            self.commits[i].id = self.fresh_id();
            old_parent = old_tree;
        }
        pass
    }
}

/// A tree with the changes between its old and its new parent.
fn rebased(tree: &Tree, old_parent: &Tree, new_parent: &Tree) -> Tree {
    let mut result = tree.clone();
    for path in old_parent.keys().chain(new_parent.keys()) {
        if tree.get(path) == old_parent.get(path) {
            match new_parent.get(path) {
                Some(content) => result.insert(path.clone(), content.clone()),
                None => result.remove(path),
            };
        }
    }
    result
}

/// Runs a command line on a tree, and returns its exit code.
fn shell(line: &CommandLine, tree: &mut Tree) -> i32 {
    assert_eq!(line.program, "/bin/sh");
    assert_eq!(line.args.len(), 2);
    assert_eq!(line.args[0], "-c");
    let mut script = line.args[1].clone();
    for (name, value) in &line.env {
        script = script.replace(&format!("${{{name}}}"), value);
    }
    for command in script.split(" && ") {
        let words: Vec<&str> = command.split(' ').collect();
        let code = match words.as_slice() {
            ["true"] => 0,
            ["exit", code] => code.parse().unwrap(),
            ["test", "!", "-f", path] => i32::from(tree.contains_key(*path)),
            ["mv", from, to] => match tree.remove(*from) {
                Some(content) => {
                    tree.insert(to.to_string(), content);
                    0
                }
                None => 1,
            },
            ["tr", "a-z", "A-Z", "<", from, ">", to] => match tree.get(*from).cloned() {
                Some(content) => {
                    tree.insert(to.to_string(), content.to_uppercase());
                    0
                }
                None => 2,
            },
            ["echo", text @ .., ">", to] => {
                tree.insert(to.to_string(), format!("{}\n", text.join(" ")));
                0
            }
            ["echo", ..] => 0,
            other => panic!("unknown command {other:?}"),
        };
        if code != 0 {
            return code;
        }
    }
    0
}

/// Prepares a worker's directories, none of which are there yet.
fn set_up_worker(worker: usize) {
    let dir = worker_dir_name(worker);
    let wc_dir = format!("{dir}/working_copy");
    let state_dir = format!("{dir}/state");
    let (mut setup, mut action) = WorkerSetup::new(&wc_dir, &state_dir);
    let mut created = Vec::new();
    loop {
        let event = match action {
            SetupAction::CreateDir(path) => {
                created.push(path);
                SetupEvent::Created(Ok(()))
            }
            SetupAction::Probe => SetupEvent::Probed(false),
            SetupAction::Init => break,
            other => panic!("unexpected {other:?}"),
        };
        action = setup.init_or_load_tree_state(event);
    }
    assert_eq!(created, [wc_dir, state_dir]);
}

/// The working copy of a worker, which is there for one commit after the other.
struct Copy {
    files: Tree,
    recorded: Tree,
}

impl Copy {
    /// Touches only the files that differ from what was recorded.
    fn check_out(&mut self, tree: &Tree) {
        let paths: Vec<String> = self.recorded.keys().chain(tree.keys()).cloned().collect();
        for path in paths {
            if self.recorded.get(&path) != tree.get(&path) {
                match tree.get(&path) {
                    Some(content) => self.files.insert(path, content.clone()),
                    None => self.files.remove(&path),
                };
            }
        }
        self.recorded = tree.clone();
    }
}

/// Runs the command on one commit.
fn run_one(
    args: &RunArgs,
    commit: &Commit,
    original: &Tree,
    copy: &mut Copy,
    state: &mut RunState<Tree>,
) -> Result<Option<Tree>, RunFailure<Tree>> {
    let (mut run, mut action): (_, CommandAction<Tree>) =
        CommandRun::new(&args.shell_command, commit, false, args.readonly);
    let mut code = None;
    let mut waited = false;
    loop {
        let event = match action {
            CommandAction::Reset => {
                copy.files = copy.recorded.clone();
                CommandEvent::ResetDone(Ok(()))
            }
            CommandAction::CheckOut => {
                copy.check_out(original);
                CommandEvent::CheckedOut(Ok(()))
            }
            CommandAction::Spawn(line) => {
                assert_eq!(&copy.files, original);
                code = Some(shell(&line, &mut copy.files));
                CommandEvent::Spawned(Ok(()))
            }
            // The process is seen once before it ends.
            CommandAction::Wait if !waited => {
                waited = true;
                CommandEvent::Waited(Ok(None))
            }
            CommandAction::Wait => {
                let code = code.unwrap();
                CommandEvent::Waited(Ok(Some(ExitStatus {
                    success: code == 0,
                    text: format!("exit status: {code}"),
                })))
            }
            CommandAction::Snapshot => {
                let tree = copy.files.clone();
                let changed = tree != copy.recorded;
                let differs = &tree != original;
                copy.recorded = tree.clone();
                CommandEvent::Snapshotted(Ok(Snapshot { tree, changed, differs }))
            }
            CommandAction::Publish(tree) => {
                state.publish(commit.id.clone(), tree, String::new());
                CommandEvent::Published
            }
            CommandAction::Sleep => CommandEvent::Slept,
            CommandAction::Join => CommandEvent::Joined,
            CommandAction::Finish(result) => return result,
            CommandAction::Ignore => panic!("an event was ignored"),
        };
        action = run.run_command_on_commit(event);
    }
}

impl WorkDir {
    fn write_file(&self, path: &str, content: &str) {
        let mut repo = self.repo.borrow_mut();
        let last = repo.commits.len() - 1;
        repo.commits[last].tree.insert(path.to_owned(), content.to_owned());
    }

    fn run_jj<const N: usize>(&self, args: [&str; N]) -> Output {
        match args.as_slice() {
            ["commit", "-m", description] => {
                let mut repo = self.repo.borrow_mut();
                let last = repo.commits.len() - 1;
                repo.commits[last].description = description.to_string();
                repo.add_child();
                Output::ok(String::new())
            }
            ["file", "show", path, "-r", revision] => {
                let repo = self.repo.borrow();
                Output::ok(repo.commits[repo.position(revision)].tree[*path].clone())
            }
            ["run", shell_command, options @ ..] => self.run(parse(shell_command, options)),
            other => panic!("unknown command {other:?}"),
        }
    }

    fn run(&self, args: RunArgs) -> Output {
        let mut repo = self.repo.borrow_mut();
        let mut stderr = String::new();
        let (mut run, mut action): (_, RunAction<Tree, String>) =
            RunCommand::new(args.clone(), Some(4));
        loop {
            let event = match action {
                RunAction::Resolve => {
                    let positions = repo.resolve(&run.args.revisions[0]);
                    let commits = positions
                        .iter()
                        .map(|&i| Commit {
                            id: CommitId { bytes: repo.commits[i].id.clone() },
                            change_id: ChangeId { bytes: repo.commits[i].change_id.clone() },
                            description: repo.commits[i].description.clone(),
                        })
                        .collect();
                    RunEvent::Resolved(Ok(commits))
                }
                RunAction::CheckRewritable => {
                    let root = &repo.commits[0].id;
                    if run.commits.iter().any(|c| &c.id.bytes == root) {
                        RunEvent::Checked(Err("The root commit is immutable".to_owned()))
                    } else {
                        RunEvent::Checked(Ok(()))
                    }
                }
                RunAction::Load => RunEvent::Loaded(Ok(())),
                RunAction::CreateDir => RunEvent::DirCreated(Ok(())),
                RunAction::Lock => RunEvent::Locked(Ok(())),
                RunAction::Clean => RunEvent::Cleaned(Ok(())),
                RunAction::Work(jobs) => {
                    RunEvent::Worked(Ok(work(&args, &repo, &run.commits, jobs, &mut stderr)))
                }
                RunAction::Rewrite(pass) => {
                    RunEvent::Rewritten(Ok(repo.rewrite(&run.commits, pass)))
                }
                RunAction::Commit(_) => RunEvent::Committed(Ok(())),
                RunAction::Status(line) => {
                    stderr.push_str(&format!("{line}\n"));
                    RunEvent::Printed(Ok(()))
                }
                RunAction::Warn(line) => {
                    stderr.push_str(&format!("Warning: {line}\n"));
                    RunEvent::Printed(Ok(()))
                }
                RunAction::Return(result) => {
                    let status = Status(result.is_ok());
                    match result {
                        Ok(()) => {}
                        Err(CommandError::Run(error)) => {
                            stderr.push_str(&format!("Error: {}\n", error.message()));
                        }
                        Err(CommandError::Other(error)) => {
                            stderr.push_str(&format!("Error: {error}\n"));
                        }
                    }
                    return Output { status, stdout: String::new(), stderr };
                }
                RunAction::Ignore => panic!("an event was ignored"),
            };
            action = run.cmd_run(event);
        }
    }
}

/// Lets the workers take turns, and reports what they do.
fn work(
    args: &RunArgs,
    repo: &Repo,
    commits: &[Commit],
    jobs: usize,
    stderr: &mut String,
) -> RunResults<Tree> {
    let mut state: RunState<Tree> = RunState::new(commits.to_vec(), args.keep_going);
    let mut messages = Vec::new();
    let mut copies: Vec<Copy> = Vec::new();
    for worker in 0..jobs {
        set_up_worker(worker);
        copies.push(Copy { files: Tree::new(), recorded: Tree::new() });
    }
    let mut worker = 0;
    while let Some((commit, started)) = state.next_commit(worker) {
        messages.push(started);
        let stored = repo.commits.iter().find(|c| c.id == commit.id.bytes).unwrap();
        let result = run_one(args, &commit, &stored.tree, &mut copies[worker], &mut state);
        messages.push(state.finish(commit.id.clone(), result));
        worker = (worker + 1) % jobs;
    }
    messages.push(TuiMessage::AllDone);
    for message in &messages {
        match report_message(message) {
            Report::Print(line) => stderr.push_str(&format!("{line}\n")),
            Report::Skip => {}
            Report::Stop => break,
        }
    }
    state.stop();
    let (new_trees, failed, failures): (_, _, Vec<RunError>) = state.into_results();
    RunResults { interface: Interface::Text, new_trees, failed, failures }
}

/// Reads the options of `run`.
fn parse(shell_command: &str, options: &[&str]) -> RunArgs {
    let mut args = RunArgs {
        shell_command: shell_command.to_owned(),
        revisions: vec![DEFAULT_REVISION.to_owned()],
        _exec: false,
        jobs: None,
        clean: false,
        readonly: false,
        keep_going: false,
    };
    let mut rest = options.iter();
    while let Some(option) = rest.next() {
        match *option {
            "-r" => args.revisions = vec![rest.next().unwrap().to_string()],
            "-j" => args.jobs = Some(rest.next().unwrap().parse().unwrap()),
            "-k" => args.keep_going = true,
            "--readonly" => args.readonly = true,
            other => panic!("unknown option {other}"),
        }
    }
    args
}

#[test]
fn test_run_single_commit() {
    let test_env = TestEnvironment::default();
    test_env.run_jj_in(".", ["git", "init", "repo"]).success();
    let work_dir = test_env.work_dir("repo");

    // Create a commit with a file
    work_dir.write_file("greeting.txt", "hello world");
    work_dir.run_jj(["commit", "-m", "add greeting"]).success();

    // Run a command that uppercases the file
    let output = work_dir.run_jj([
        "run",
        "tr a-z A-Z < greeting.txt > greeting.txt.tmp && mv greeting.txt.tmp greeting.txt",
        "-r",
        "@-",
    ]);
    // Should succeed and rewrite the commit
    assert!(output.status.success(), "jj run should succeed: {output}");
    let stderr = output.stderr.to_string();
    assert!(stderr.contains("Rewrote 1 commit(s)"), "Should rewrite: {stderr}");

    // Verify the file was uppercased in the commit
    let show_output = work_dir.run_jj(["file", "show", "greeting.txt", "-r", "@-"]);
    let content = show_output.stdout.to_string();
    assert!(content.contains("HELLO WORLD"), "Expected HELLO WORLD, got: {:?}", content);
}

#[test]
fn test_run_multiple_commits() {
    let test_env = TestEnvironment::default();
    test_env.run_jj_in(".", ["git", "init", "repo"]).success();
    let work_dir = test_env.work_dir("repo");

    // Create a stack of 3 commits, each with a file
    work_dir.write_file("file.txt", "aaa\n");
    work_dir.run_jj(["commit", "-m", "commit A"]).success();
    work_dir.write_file("file.txt", "bbb\n");
    work_dir.run_jj(["commit", "-m", "commit B"]).success();
    work_dir.write_file("file.txt", "ccc\n");
    work_dir.run_jj(["commit", "-m", "commit C"]).success();

    // Run a command that uppercases the file on all 3 commits
    // @--- is A, @-- is B, @- is C
    let output = work_dir.run_jj([
        "run",
        "tr a-z A-Z < file.txt > file.txt.tmp && mv file.txt.tmp file.txt",
        "-r",
        "@---::@-",
    ]);
    assert!(
        output.status.success(),
        "jj run should succeed.\nstdout: {}\nstderr: {}",
        output.stdout,
        output.stderr
    );
    let stderr = output.stderr.to_string();
    assert!(stderr.contains("Rewrote 3 commit(s)"), "Should rewrite 3: {stderr}");

    // Verify file was uppercased in first and last commit
    let show_a = work_dir.run_jj(["file", "show", "file.txt", "-r", "@---"]);
    assert!(show_a.stdout.to_string().contains("AAA"), "Expected AAA, got: {:?}", show_a.stdout);

    let show_c = work_dir.run_jj(["file", "show", "file.txt", "-r", "@-"]);
    assert!(show_c.stdout.to_string().contains("CCC"), "Expected CCC, got: {:?}", show_c.stdout);
}

#[test]
fn test_run_noop_command() {
    let test_env = TestEnvironment::default();
    test_env.run_jj_in(".", ["git", "init", "repo"]).success();
    let work_dir = test_env.work_dir("repo");

    work_dir.write_file("file.txt", "content");
    work_dir.run_jj(["commit", "-m", "initial"]).success();

    // Run a command that doesn't modify any files
    let output = work_dir.run_jj(["run", "true", "-r", "@-"]);
    assert!(output.status.success(), "should succeed: {output}");
    let stderr = output.stderr.to_string();
    assert!(stderr.contains("No commits were rewritten"), "Should be noop: {stderr}");
}

#[test]
fn test_run_failing_command() {
    let test_env = TestEnvironment::default();
    test_env.run_jj_in(".", ["git", "init", "repo"]).success();
    let work_dir = test_env.work_dir("repo");

    work_dir.write_file("file.txt", "content");
    work_dir.run_jj(["commit", "-m", "initial"]).success();

    // Run a command that fails
    let output = work_dir.run_jj(["run", "exit 1", "-r", "@-"]);
    assert!(!output.status.success(), "should fail: {output}");
    let stderr = output.stderr.to_string();
    assert!(stderr.contains("failed"), "Should report failure: {stderr}");
}

#[test]
fn test_run_on_immutable() {
    let test_env = TestEnvironment::default();
    test_env.run_jj_in(".", ["git", "init", "repo"]).success();
    let work_dir = test_env.work_dir("repo");

    work_dir.write_file("file.txt", "content");
    work_dir.run_jj(["commit", "-m", "initial"]).success();

    // The root commit should be immutable
    let output = work_dir.run_jj(["run", "echo test", "-r", "root()"]);
    assert!(!output.status.success(), "should fail: {output}");
    let stderr = output.stderr.to_string();
    assert!(stderr.contains("immutable"), "Should report immutable: {stderr}");
}

#[test]
fn test_run_env_vars() {
    let test_env = TestEnvironment::default();
    test_env.run_jj_in(".", ["git", "init", "repo"]).success();
    let work_dir = test_env.work_dir("repo");

    work_dir.write_file("file.txt", "placeholder");
    work_dir.run_jj(["commit", "-m", "initial"]).success();

    // Run a command that writes environment variables to the file
    let output = work_dir.run_jj([
        "run",
        "echo change=${JJ_CHANGE} commit=${JJ_COMMIT} > file.txt",
        "-r",
        "@-",
    ]);
    assert!(output.status.success(), "jj run should succeed: {output}");

    // Verify the env vars were written
    let show = work_dir.run_jj(["file", "show", "file.txt", "-r", "@-"]);
    let content = show.stdout.to_string();
    assert!(content.contains("change="), "Should contain JJ_CHANGE: {content}");
    assert!(content.contains("commit="), "Should contain JJ_COMMIT: {content}");
    // The identifiers of the commit that the command ran on.
    assert_eq!(
        content,
        "change=01c0c0c0c0c0c0c0c0c0c0c0c0c0c0c0 \
         commit=01a0a0a0a0a0a0a0a0a0a0a0a0a0a0a0a0a0a0a0\n"
    );
}

#[test]
fn test_run_readonly() {
    let test_env = TestEnvironment::default();
    test_env.run_jj_in(".", ["git", "init", "repo"]).success();
    let work_dir = test_env.work_dir("repo");

    work_dir.write_file("file.txt", "original\n");
    work_dir.run_jj(["commit", "-m", "initial"]).success();

    // Run a command that modifies files, but with --readonly
    let output = work_dir.run_jj([
        "run",
        "tr a-z A-Z < file.txt > file.txt.tmp && mv file.txt.tmp file.txt",
        "-r",
        "@-",
        "--readonly",
    ]);
    assert!(output.status.success(), "should succeed: {output}");
    let stderr = output.stderr.to_string();
    assert!(stderr.contains("readonly"), "Should mention readonly: {stderr}");

    // Verify the commit was NOT rewritten — file should still be lowercase
    let show = work_dir.run_jj(["file", "show", "file.txt", "-r", "@-"]);
    assert!(
        show.stdout.to_string().contains("original"),
        "File should be unchanged: {:?}",
        show.stdout
    );
}

#[test]
fn test_run_keep_going() {
    let test_env = TestEnvironment::default();
    test_env.run_jj_in(".", ["git", "init", "repo"]).success();
    let work_dir = test_env.work_dir("repo");

    // Create a stack where the middle commit will fail
    work_dir.write_file("a.txt", "aaa\n");
    work_dir.run_jj(["commit", "-m", "commit A"]).success();
    work_dir.write_file("b.txt", "bbb\n");
    work_dir.run_jj(["commit", "-m", "commit B"]).success();
    work_dir.write_file("c.txt", "ccc\n");
    work_dir.run_jj(["commit", "-m", "commit C"]).success();

    // Command that fails if b.txt exists (commit B), succeeds otherwise
    let output = work_dir.run_jj(["run", "test ! -f b.txt", "-r", "@---::@-", "-k"]);
    // Should succeed overall (continue mode doesn't fail the command)
    assert!(output.status.success(), "continue mode should not fail: {output}");
    let stderr = output.stderr.to_string();
    assert!(stderr.contains("failed"), "Should report failure: {stderr}");
    // The file is still there in commit C.
    assert!(stderr.contains("Warning: 2 commit(s) failed.\n"), "{stderr}");
}

#[test]
fn test_run_parallel() {
    let test_env = TestEnvironment::default();
    test_env.run_jj_in(".", ["git", "init", "repo"]).success();
    let work_dir = test_env.work_dir("repo");

    // Create a stack of commits
    work_dir.write_file("a.txt", "aaa\n");
    work_dir.run_jj(["commit", "-m", "commit A"]).success();
    work_dir.write_file("b.txt", "bbb\n");
    work_dir.run_jj(["commit", "-m", "commit B"]).success();

    // Run with -j 2
    let output = work_dir.run_jj([
        "run",
        "tr a-z A-Z < a.txt > a.txt.tmp && mv a.txt.tmp a.txt",
        "-r",
        "@--::@-",
        "-j",
        "2",
    ]);
    assert!(output.status.success(), "parallel run should succeed: {output}");
    let stderr = output.stderr.to_string();
    assert!(stderr.contains("Rewrote"), "Should rewrite: {stderr}");
}

#[test]
fn test_run_on_working_copy() {
    let test_env = TestEnvironment::default();
    test_env.run_jj_in(".", ["git", "init", "repo"]).success();
    let work_dir = test_env.work_dir("repo");

    // Create a file in the working copy (no explicit commit)
    work_dir.write_file("file.txt", "hello\n");
    work_dir.run_jj(["commit", "-m", "initial"]).success();

    // Run on @ (the default)
    let output = work_dir.run_jj([
        "run",
        "tr a-z A-Z < file.txt > file.txt.tmp && mv file.txt.tmp file.txt",
    ]);
    // @ is empty so there's nothing to transform
    assert!(output.status.success(), "should succeed: {output}");
}

#[test]
fn a_failed_commit_is_left_alone_and_the_others_are_rewritten() {
    let test_env = TestEnvironment::default();
    let work_dir = test_env.work_dir("repo");
    work_dir.write_file("a.txt", "aaa\n");
    work_dir.run_jj(["commit", "-m", "commit A"]).success();
    work_dir.write_file("b.txt", "bbb\n");
    work_dir.run_jj(["commit", "-m", "commit B"]).success();

    // Changes a.txt everywhere, then fails where b.txt is.
    let command = "tr a-z A-Z < a.txt > a.tmp && mv a.tmp a.txt && test ! -f b.txt";
    let output = work_dir.run_jj(["run", command, "-r", "@--::@-", "-k"]);
    assert!(output.status.success(), "{output}");
    assert!(output.stderr.contains("Rewrote 1 commit(s)"), "{output}");
    assert_eq!(work_dir.run_jj(["file", "show", "a.txt", "-r", "@--"]).stdout, "AAA\n");
    // Commit B is rebased, so it has the new content of its parent.
    assert_eq!(work_dir.run_jj(["file", "show", "a.txt", "-r", "@-"]).stdout, "AAA\n");
    assert_eq!(work_dir.run_jj(["file", "show", "b.txt", "-r", "@-"]).stdout, "bbb\n");
}

#[test]
fn a_failure_stops_the_run_and_is_its_error() {
    let test_env = TestEnvironment::default();
    let work_dir = test_env.work_dir("repo");
    work_dir.write_file("a.txt", "aaa\n");
    work_dir.run_jj(["commit", "-m", "commit A"]).success();
    work_dir.write_file("b.txt", "bbb\n");
    work_dir.run_jj(["commit", "-m", "commit B"]).success();

    let output = work_dir.run_jj(["run", "exit 3", "-r", "@--::@-"]);
    assert!(!output.status.success(), "{output}");
    // The newest commit is first, and the other is not reached.
    assert_eq!(
        output.stderr,
        "  ✗ 02a0a0a0a0a0 Command 'exit 3' failed with exit status: 3 for commit \
         02a0a0a0a0a0a0a0a0a0a0a0a0a0a0a0a0a0a0a0\n\
         Error: Command 'exit 3' failed with exit status: 3 for commit \
         02a0a0a0a0a0a0a0a0a0a0a0a0a0a0a0a0a0a0a0\n"
    );
}

#[test]
fn the_whole_report_of_a_run() {
    let test_env = TestEnvironment::default();
    let work_dir = test_env.work_dir("repo");
    work_dir.write_file("a.txt", "aaa\n");
    work_dir.run_jj(["commit", "-m", "commit A"]).success();

    let output = work_dir.run_jj(["run", "echo hi > a.txt", "-r", "@-"]);
    assert_eq!(
        output.stderr,
        "  ✓ 01a0a0a0a0a0 (modified)\nRewrote 1 commit(s) with 'echo hi > a.txt'.\n"
    );
    let output = work_dir.run_jj(["run", "true", "-r", "@-", "--readonly"]);
    assert_eq!(
        output.stderr,
        "  ✓ 03a0a0a0a0a0\nRan 'true' on 1 commit(s) (readonly). 1 passed, 0 failed.\n"
    );
    let output = work_dir.run_jj(["run", "exit 1", "-r", "root()", "--readonly"]);
    assert!(output.status.success(), "{output}");
    assert!(output.stderr.ends_with("(readonly). 0 passed, 1 failed.\n"), "{output}");
}

#[test]
fn each_commit_starts_from_its_own_files() {
    let test_env = TestEnvironment::default();
    let work_dir = test_env.work_dir("repo");
    work_dir.write_file("a.txt", "aaa\n");
    work_dir.run_jj(["commit", "-m", "commit A"]).success();
    work_dir.write_file("b.txt", "bbb\n");
    work_dir.run_jj(["commit", "-m", "commit B"]).success();

    // The only worker would find the mark of the first commit on the second.
    let command = "test ! -f mark && echo hi > mark && echo hi > a.txt";
    let options = ["run", command, "-r", "@--::@-", "-j", "1", "--readonly"];
    let output = work_dir.run_jj(options);
    assert!(output.stderr.ends_with("(readonly). 2 passed, 0 failed.\n"), "{output}");
    assert_eq!(work_dir.run_jj(["file", "show", "a.txt", "-r", "@-"]).stdout, "aaa\n");
}
