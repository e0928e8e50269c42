//! What the terminal interface shows, and how the workers' messages change it.

use crate::ids::{
    hex_is_hexadecimal, hex_reads_back, hex_text, reads_as, Commit, CommitId, CommitModel,
};
use crate::text::{first_line, first_line_of};
use vstd::prelude::*;
use vstd::utf8::is_ascii_chars;

verus! {

/// A line of output tagged with its source.
#[derive(Debug, Clone, PartialEq, Eq)]
pub enum OutputLine {
    Stdout(Vec<u8>),
    Stderr(Vec<u8>),
}

/// What an [`OutputLine`] holds.
#[verifier::ext_equal]
pub enum OutputLineModel {
    Stdout(Seq<u8>),
    Stderr(Seq<u8>),
}

impl View for OutputLine {
    type V = OutputLineModel;

    open spec fn view(&self) -> OutputLineModel {
        match self {
            OutputLine::Stdout(data) => OutputLineModel::Stdout(data@),
            OutputLine::Stderr(data) => OutputLineModel::Stderr(data@),
        }
    }
}

/// Message from a worker to the interface.
#[derive(Debug, PartialEq, Eq)]
pub enum TuiMessage {
    Started { commit_id: CommitId, worker: usize },
    Output { commit_id: CommitId, line: OutputLine },
    DiffStat { commit_id: CommitId, stat: String },
    Passed { commit_id: CommitId, modified: bool },
    Failed { commit_id: CommitId, message: String },
    AllDone,
}

/// What a [`TuiMessage`] holds.
#[verifier::ext_equal]
pub enum MessageModel {
    Started { commit_id: Seq<u8>, worker: nat },
    Output { commit_id: Seq<u8>, line: OutputLineModel },
    DiffStat { commit_id: Seq<u8>, stat: Seq<char> },
    Passed { commit_id: Seq<u8>, modified: bool },
    Failed { commit_id: Seq<u8>, message: Seq<char> },
    AllDone,
}

impl View for TuiMessage {
    type V = MessageModel;

    open spec fn view(&self) -> MessageModel {
        match self {
            TuiMessage::Started { commit_id, worker } => MessageModel::Started {
                commit_id: commit_id@,
                worker: *worker as nat,
            },
            TuiMessage::Output { commit_id, line } => MessageModel::Output {
                commit_id: commit_id@,
                line: line@,
            },
            TuiMessage::DiffStat { commit_id, stat } => MessageModel::DiffStat {
                commit_id: commit_id@,
                stat: stat@,
            },
            TuiMessage::Passed { commit_id, modified } => MessageModel::Passed {
                commit_id: commit_id@,
                modified: *modified,
            },
            TuiMessage::Failed { commit_id, message } => MessageModel::Failed {
                commit_id: commit_id@,
                message: message@,
            },
            TuiMessage::AllDone => MessageModel::AllDone,
        }
    }
}

/// How far the command has come on a commit.
#[derive(Debug, Clone, PartialEq, Eq)]
pub enum JobStatus {
    Pending,
    /// Running, on this worker.
    Running(usize),
    Passed { modified: bool },
    Failed(String),
}

/// What a [`JobStatus`] holds.
#[verifier::ext_equal]
pub enum JobStatusModel {
    Pending,
    Running(nat),
    Passed { modified: bool },
    Failed(Seq<char>),
}

impl View for JobStatus {
    type V = JobStatusModel;

    open spec fn view(&self) -> JobStatusModel {
        match self {
            JobStatus::Pending => JobStatusModel::Pending,
            JobStatus::Running(worker) => JobStatusModel::Running(*worker as nat),
            JobStatus::Passed { modified } => JobStatusModel::Passed { modified: *modified },
            JobStatus::Failed(message) => JobStatusModel::Failed(message@),
        }
    }
}

/// What the interface knows of a commit.
#[derive(Debug, PartialEq, Eq)]
pub struct CommitEntry {
    pub commit_id: CommitId,
    pub change_id_hex: String,
    /// The first line of the commit's description.
    pub description: String,
    pub status: JobStatus,
    pub output: Vec<OutputLine>,
    pub diff_bytes: Option<Vec<u8>>,
    pub diff_stat: Option<String>,
}

/// What a [`CommitEntry`] holds.
#[verifier::ext_equal]
pub struct EntryModel {
    pub commit_id: Seq<u8>,
    pub change_id_hex: Seq<char>,
    pub description: Seq<char>,
    pub status: JobStatusModel,
    pub output: Seq<OutputLineModel>,
    pub diff_bytes: Option<Seq<u8>>,
    pub diff_stat: Option<Seq<char>>,
}

impl EntryModel {
    /// Whether the change identifier is ASCII, as hexadecimal is.
    pub open spec fn wf(self) -> bool {
        is_ascii_chars(self.change_id_hex)
    }
}

/// What an optional byte string holds.
pub open spec fn bytes_of(v: Option<Vec<u8>>) -> Option<Seq<u8>> {
    match v {
        Some(bytes) => Some(bytes@),
        None => None,
    }
}

/// What an optional text holds.
pub open spec fn text_of(v: Option<String>) -> Option<Seq<char>> {
    match v {
        Some(text) => Some(text@),
        None => None,
    }
}

impl View for CommitEntry {
    type V = EntryModel;

    open spec fn view(&self) -> EntryModel {
        EntryModel {
            commit_id: self.commit_id@,
            change_id_hex: self.change_id_hex@,
            description: self.description@,
            status: self.status@,
            output: self.output@.map_values(|l: OutputLine| l@),
            diff_bytes: bytes_of(self.diff_bytes),
            diff_stat: text_of(self.diff_stat),
        }
    }
}

/// Which bottom panel has focus for scrolling.
#[derive(Debug, Clone, Copy, PartialEq, Eq, Structural)]
pub enum FocusPanel {
    Output,
    Diff,
}

/// What the user decided to do with the results.
#[derive(Debug, Clone, Copy, PartialEq, Eq, Structural)]
pub enum TuiOutcome {
    Confirm,
    Cancel,
}

/// The state of the terminal interface.
#[derive(Debug, PartialEq, Eq)]
pub struct TuiState {
    pub commits: Vec<CommitEntry>,
    /// Position of the selected commit.
    pub selected: usize,
    pub focus: FocusPanel,
    /// First output line to show; the largest value follows the end of the output.
    pub output_scroll: u16,
    /// First diff line to show.
    pub diff_scroll: u16,
    /// Whether all workers have finished.
    pub done: bool,
    pub outcome: Option<TuiOutcome>,
    pub passed: usize,
    pub failed: usize,
}

/// What a [`TuiState`] holds.
#[verifier::ext_equal]
pub struct TuiModel {
    pub commits: Seq<EntryModel>,
    pub selected: int,
    pub focus: FocusPanel,
    pub output_scroll: int,
    pub diff_scroll: int,
    pub done: bool,
    pub outcome: Option<TuiOutcome>,
    pub passed: nat,
    pub failed: nat,
}

impl View for TuiState {
    type V = TuiModel;

    open spec fn view(&self) -> TuiModel {
        TuiModel {
            commits: self.commits@.map_values(|e: CommitEntry| e@),
            selected: self.selected as int,
            focus: self.focus,
            output_scroll: self.output_scroll as int,
            diff_scroll: self.diff_scroll as int,
            done: self.done,
            outcome: self.outcome,
            passed: self.passed as nat,
            failed: self.failed as nat,
        }
    }
}

/// The entry of a commit on which the command has not started.
pub open spec fn new_entry(commit: CommitModel) -> EntryModel {
    EntryModel {
        commit_id: commit.id,
        change_id_hex: hex_text(commit.change_id),
        description: first_line_of(commit.description),
        status: JobStatusModel::Pending,
        output: seq![],
        diff_bytes: None,
        diff_stat: None,
    }
}

/// The position of a commit's entry, the last one if there are several; negative if there is
/// none.
pub open spec fn entry_position(entries: Seq<EntryModel>, id: Seq<u8>) -> int
    decreases entries.len(),
{
    if entries.len() == 0 {
        -1
    } else if entries.last().commit_id == id {
        entries.len() - 1
    } else {
        entry_position(entries.drop_last(), id)
    }
}

/// The entry after a message about its commit.
pub open spec fn entry_after(entry: EntryModel, message: MessageModel) -> EntryModel {
    match message {
        MessageModel::Started { worker, .. } => EntryModel {
            status: JobStatusModel::Running(worker),
            ..entry
        },
        MessageModel::Output { line, .. } => EntryModel { output: entry.output.push(line), ..entry },
        MessageModel::DiffStat { stat, .. } => EntryModel { diff_stat: Some(stat), ..entry },
        MessageModel::Passed { modified, .. } => EntryModel {
            status: JobStatusModel::Passed { modified },
            ..entry
        },
        MessageModel::Failed { message, .. } => EntryModel {
            status: JobStatusModel::Failed(message),
            ..entry
        },
        MessageModel::AllDone => entry,
    }
}

impl MessageModel {
    /// The commit that the message is about.
    pub open spec fn commit(self) -> Option<Seq<u8>> {
        match self {
            MessageModel::Started { commit_id, .. } => Some(commit_id),
            MessageModel::Output { commit_id, .. } => Some(commit_id),
            MessageModel::DiffStat { commit_id, .. } => Some(commit_id),
            MessageModel::Passed { commit_id, .. } => Some(commit_id),
            MessageModel::Failed { commit_id, .. } => Some(commit_id),
            MessageModel::AllDone => None,
        }
    }
}

impl TuiModel {
    /// The state before any message, for a list of commits.
    pub open spec fn initial(commits: Seq<CommitModel>) -> TuiModel {
        TuiModel {
            commits: commits.map_values(|c: CommitModel| new_entry(c)),
            selected: 0,
            focus: FocusPanel::Output,
            output_scroll: 0,
            diff_scroll: 0,
            done: false,
            outcome: None,
            passed: 0,
            failed: 0,
        }
    }

    /// Whether the selection is on one of the commits, and the change identifiers are ASCII.
    pub open spec fn wf(self) -> bool {
        &&& 0 <= self.selected < self.commits.len()
        &&& forall|i: int| 0 <= i < self.commits.len() ==> (#[trigger] self.commits[i]).wf()
    }

    /// Whether a commit is the selected one.
    pub open spec fn is_selected(self, id: Seq<u8>) -> bool {
        &&& 0 <= self.selected < self.commits.len()
        &&& self.commits[self.selected].commit_id == id
    }

    /// The entries after a message: the entry of its commit changes, if there is one.
    pub open spec fn commits_after(self, message: MessageModel) -> Seq<EntryModel> {
        match message.commit() {
            Some(id) => {
                let i = entry_position(self.commits, id);
                if i >= 0 {
                    self.commits.update(i, entry_after(self.commits[i], message))
                } else {
                    self.commits
                }
            },
            None => self.commits,
        }
    }

    /// The state after a message.
    pub open spec fn after(self, message: MessageModel) -> TuiModel {
        TuiModel {
            commits: self.commits_after(message),
            output_scroll: match message {
                MessageModel::Output { commit_id, .. } if self.is_selected(commit_id) =>
                    u16::MAX as int,
                _ => self.output_scroll,
            },
            done: self.done || message is AllDone,
            passed: if message is Passed {
                self.passed + 1
            } else {
                self.passed
            },
            failed: if message is Failed {
                self.failed + 1
            } else {
                self.failed
            },
            ..self
        }
    }
}

/// [`entry_position`] finds the last entry of a commit, or tells that there is none.
pub proof fn lemma_entry_position(entries: Seq<EntryModel>, id: Seq<u8>)
    ensures
        -1 <= entry_position(entries, id) < entries.len(),
        entry_position(entries, id) >= 0 ==> entries[entry_position(entries, id)].commit_id == id,
        forall|j: int|
            entry_position(entries, id) < j < entries.len() ==> (#[trigger] entries[j]).commit_id
                != id,
    decreases entries.len(),
{
    if entries.len() > 0 && entries.last().commit_id != id {
        let rest = entries.drop_last();
        lemma_entry_position(rest, id);
        assert forall|j: int| entry_position(entries, id) < j < entries.len() implies (
        #[trigger] entries[j]).commit_id != id by {
            if j < rest.len() {
                assert(rest[j] == entries[j]);
            }
        }
    }
}

impl TuiState {
    /// The state before any message.
    pub fn new(commits: &Vec<Commit>) -> (r: Self)
        ensures
            r@ == TuiModel::initial(commits@.map_values(|c: Commit| c@)),
    {
        let mut entries: Vec<CommitEntry> = Vec::new();
        let mut i: usize = 0;
        while i < commits.len()
            invariant
                i <= commits.len(),
                entries@.len() == i,
                forall|k: int| 0 <= k < i ==> (#[trigger] entries@[k])@ == new_entry(commits@[k]@),
            decreases commits.len() - i,
        {
            let c = &commits[i];
            let entry = CommitEntry {
                commit_id: c.id.clone(),
                change_id_hex: c.change_id.hex(),
                description: first_line(c.description.as_str()),
                status: JobStatus::Pending,
                output: Vec::new(),
                diff_bytes: None,
                diff_stat: None,
            };
            assert(entry@.output =~= seq![]);
            entries.push(entry);
            i = i + 1;
        }
        let r = TuiState {
            commits: entries,
            selected: 0,
            focus: FocusPanel::Output,
            output_scroll: 0,
            diff_scroll: 0,
            done: false,
            outcome: None,
            passed: 0,
            failed: 0,
        };
        assert(r@.commits =~= TuiModel::initial(commits@.map_values(|c: Commit| c@)).commits);
        r
    }

    /// The position of a commit's entry.
    pub fn position(&self, id: &CommitId) -> (r: Option<usize>)
        ensures
            match r {
                Some(i) => i < self.commits@.len() && i == entry_position(self@.commits, id@),
                None => entry_position(self@.commits, id@) < 0,
            },
    {
        let ghost all = self@.commits;
        let mut i: usize = self.commits.len();
        assert(all.take(i as int) =~= all);
        while i > 0
            invariant
                i <= self.commits@.len(),
                all == self@.commits,
                entry_position(all.take(i as int), id@) == entry_position(all, id@),
            decreases i,
        {
            let ghost here = all.take(i as int);
            assert(here.drop_last() =~= all.take(i - 1));
            assert(here.last() == self.commits@[i - 1]@);
            if self.commits[i - 1].commit_id.same(id) {
                return Some(i - 1);
            }
            i = i - 1;
        }
        None
    }

    /// The entry of a commit, to be changed in place.
    pub fn find_mut(&mut self, id: &CommitId) -> (r: Option<&mut CommitEntry>)
        ensures
            match r {
                Some(entry) => ({
                    let i = entry_position(old(self)@.commits, id@);
                    &&& 0 <= i < old(self).commits@.len()
                    &&& *entry == old(self).commits@[i]
                    &&& final(self).commits@ == old(self).commits@.update(i, *final(entry))
                }),
                None => entry_position(old(self)@.commits, id@) < 0 && final(self).commits == old(
                    self,
                ).commits,
            },
            final(self).selected == old(self).selected,
            final(self).focus == old(self).focus,
            final(self).output_scroll == old(self).output_scroll,
            final(self).diff_scroll == old(self).diff_scroll,
            final(self).done == old(self).done,
            final(self).outcome == old(self).outcome,
            final(self).passed == old(self).passed,
            final(self).failed == old(self).failed,
    {
        match self.position(id) {
            Some(i) => Some(&mut self.commits[i]),
            None => None,
        }
    }

    /// Takes a message into account.
    pub fn handle_message(&mut self, msg: TuiMessage)
        requires
            msg is Passed ==> old(self).passed < usize::MAX,
            msg is Failed ==> old(self).failed < usize::MAX,
        ensures
            final(self)@ == old(self)@.after(msg@),
    {
        let ghost before = *self;
        match msg {
            TuiMessage::Started { commit_id, worker } => {
                if let Some(e) = self.find_mut(&commit_id) {
                    e.status = JobStatus::Running(worker);
                }
            },
            TuiMessage::DiffStat { commit_id, stat } => {
                if let Some(e) = self.find_mut(&commit_id) {
                    e.diff_stat = Some(stat);
                }
            },
            TuiMessage::Output { commit_id, line } => {
                let is_selected = self.selected < self.commits.len()
                    && self.commits[self.selected].commit_id.same(&commit_id);
                if let Some(e) = self.find_mut(&commit_id) {
                    e.output.push(line);
                }
                if is_selected {
                    self.output_scroll = u16::MAX;
                }
            },
            TuiMessage::Passed { commit_id, modified } => {
                if let Some(e) = self.find_mut(&commit_id) {
                    e.status = JobStatus::Passed { modified };
                }
                self.passed = self.passed + 1;
            },
            TuiMessage::Failed { commit_id, message } => {
                if let Some(e) = self.find_mut(&commit_id) {
                    e.status = JobStatus::Failed(message);
                }
                self.failed = self.failed + 1;
            },
            TuiMessage::AllDone => {
                self.done = true;
            },
        }
        proof {
            let want = before@.after(msg@);
            assert(self@.commits =~= want.commits) by {
                match msg@.commit() {
                    Some(id) => {
                        let i = entry_position(before@.commits, id);
                        if i >= 0 {
                            assert(self.commits@[i]@ =~= entry_after(before.commits@[i]@, msg@));
                        }
                    },
                    None => {},
                }
            }
            assert(self@ =~= want);
        }
    }
}

/// The interface of a run over at least one commit starts out well-formed.
pub proof fn initial_is_well_formed(commits: Seq<CommitModel>)
    requires
        commits.len() > 0,
    ensures
        TuiModel::initial(commits).wf(),
{
    let state = TuiModel::initial(commits);
    assert forall|i: int| 0 <= i < state.commits.len() implies (
    #[trigger] state.commits[i]).wf() by {
        let hex = hex_text(commits[i].change_id);
        assert(state.commits[i].change_id_hex == hex);
        assert forall|k: int| 0 <= k < hex.len() implies '\0' <= #[trigger] hex[k] <= '\u{7f}' by {
            hex_is_hexadecimal(commits[i].change_id, k);
        }
    }
}

/// Whether two lists of entries are about the same commits, in the same order.
pub open spec fn same_commits(a: Seq<EntryModel>, b: Seq<EntryModel>) -> bool {
    &&& a.len() == b.len()
    &&& forall|i: int|
        0 <= i < a.len() ==> (#[trigger] a[i]).commit_id == b[i].commit_id && a[i].change_id_hex
            == b[i].change_id_hex && a[i].description == b[i].description
}

/// The position of a commit's entry depends on the commits alone, not on how far they are.
pub proof fn position_depends_on_the_commits(
    a: Seq<EntryModel>,
    b: Seq<EntryModel>,
    id: Seq<u8>,
)
    requires
        same_commits(a, b),
    ensures
        entry_position(a, id) == entry_position(b, id),
    decreases a.len(),
{
    if a.len() > 0 {
        assert(a[a.len() - 1].commit_id == b[a.len() - 1].commit_id);
        let x = a.drop_last();
        let y = b.drop_last();
        assert forall|i: int| 0 <= i < x.len() implies (#[trigger] x[i]).commit_id == y[i].commit_id
            && x[i].change_id_hex == y[i].change_id_hex && x[i].description
            == y[i].description by {
            assert(x[i] == a[i] && y[i] == b[i]);
        }
        position_depends_on_the_commits(x, y, id);
    }
}

/// A message keeps the list of commits, where each is found, the selection, the focus, the
/// rendered diffs and the user's decision, and changes no entry but the one of its commit.
pub proof fn message_changes_one_entry(state: TuiModel, message: MessageModel)
    ensures
        same_commits(state.commits, state.after(message).commits),
        state.after(message).selected == state.selected,
        state.after(message).focus == state.focus,
        state.after(message).diff_scroll == state.diff_scroll,
        state.after(message).outcome == state.outcome,
        state.wf() ==> state.after(message).wf(),
        forall|id: Seq<u8>| #[trigger]
            entry_position(state.after(message).commits, id) == entry_position(state.commits, id),
        forall|i: int|
            0 <= i < state.commits.len() ==> (#[trigger] state.after(
                message,
            ).commits[i]).diff_bytes == state.commits[i].diff_bytes,
        forall|i: int|
            0 <= i < state.commits.len() && (message.commit() is None || i != entry_position(
                state.commits,
                message.commit()->0,
            )) ==> #[trigger] state.after(message).commits[i] == state.commits[i],
{
    if let Some(id) = message.commit() {
        lemma_entry_position(state.commits, id);
    }
    assert forall|id: Seq<u8>| #[trigger]
        entry_position(state.after(message).commits, id) == entry_position(state.commits, id) by {
        position_depends_on_the_commits(state.after(message).commits, state.commits, id);
    }
}

/// Messages about different commits may arrive in either order.
pub proof fn messages_of_different_commits_commute(
    state: TuiModel,
    a: MessageModel,
    b: MessageModel,
)
    requires
        a.commit() != b.commit(),
    ensures
        state.after(a).after(b) == state.after(b).after(a),
{
    message_changes_one_entry(state, a);
    message_changes_one_entry(state, b);
    let ab = state.after(a).after(b);
    let ba = state.after(b).after(a);
    if let Some(id) = a.commit() {
        lemma_entry_position(state.commits, id);
        position_depends_on_the_commits(state.commits, state.after(b).commits, id);
    }
    if let Some(id) = b.commit() {
        lemma_entry_position(state.commits, id);
        position_depends_on_the_commits(state.commits, state.after(a).commits, id);
    }
    assert(ab.commits =~= ba.commits);
    assert(ab =~= ba);
}

impl TuiModel {
    /// The state after a whole history of messages, the oldest first.
    pub open spec fn after_all(self, messages: Seq<MessageModel>) -> TuiModel
        decreases messages.len(),
    {
        if messages.len() == 0 {
            self
        } else {
            self.after_all(messages.drop_last()).after(messages.last())
        }
    }
}

/// How many messages of a history report a pass.
pub open spec fn count_passed(messages: Seq<MessageModel>) -> nat
    decreases messages.len(),
{
    if messages.len() == 0 {
        0
    } else {
        count_passed(messages.drop_last()) + if messages.last() is Passed {
            1nat
        } else {
            0nat
        }
    }
}

/// How many messages of a history report a failure.
pub open spec fn count_failed(messages: Seq<MessageModel>) -> nat
    decreases messages.len(),
{
    if messages.len() == 0 {
        0
    } else {
        count_failed(messages.drop_last()) + if messages.last() is Failed {
            1nat
        } else {
            0nat
        }
    }
}

/// The output lines that a history brings for a commit, in order.
pub open spec fn output_of(messages: Seq<MessageModel>, id: Seq<u8>) -> Seq<OutputLineModel>
    decreases messages.len(),
{
    if messages.len() == 0 {
        seq![]
    } else {
        let before = output_of(messages.drop_last(), id);
        match messages.last() {
            MessageModel::Output { commit_id, line } if commit_id == id => before.push(line),
            _ => before,
        }
    }
}

/// After any history, the counters say how many messages reported a pass and a failure, and the
/// run is done exactly if one of the messages said so.
pub proof fn counters_count_the_messages(commits: Seq<CommitModel>, messages: Seq<MessageModel>)
    ensures
        TuiModel::initial(commits).after_all(messages).passed == count_passed(messages),
        TuiModel::initial(commits).after_all(messages).failed == count_failed(messages),
        TuiModel::initial(commits).after_all(messages).done <==> messages.contains(
            MessageModel::AllDone,
        ),
    decreases messages.len(),
{
    if messages.len() > 0 {
        let before = messages.drop_last();
        counters_count_the_messages(commits, before);
        assert(messages[messages.len() - 1] == messages.last());
        if before.contains(MessageModel::AllDone) {
            let i = choose|i: int| 0 <= i < before.len() && before[i] == MessageModel::AllDone;
            assert(messages[i] == MessageModel::AllDone);
        }
        if messages.contains(MessageModel::AllDone) && messages.last() != MessageModel::AllDone {
            let i = choose|i: int| 0 <= i < messages.len() && messages[i] == MessageModel::AllDone;
            assert(before[i] == MessageModel::AllDone);
        }
    }
}

/// After any history, the list is still that of the commits of the run, and a commit's entry
/// holds its output lines, all of them and in order.
pub proof fn output_is_kept_in_order(
    commits: Seq<CommitModel>,
    messages: Seq<MessageModel>,
    id: Seq<u8>,
)
    ensures
        same_commits(
            TuiModel::initial(commits).commits,
            TuiModel::initial(commits).after_all(messages).commits,
        ),
        ({
            let i = entry_position(TuiModel::initial(commits).commits, id);
            i >= 0 ==> TuiModel::initial(commits).after_all(messages).commits[i].output
                == output_of(messages, id)
        }),
    decreases messages.len(),
{
    let start = TuiModel::initial(commits);
    lemma_entry_position(start.commits, id);
    if messages.len() > 0 {
        let before = messages.drop_last();
        let state = start.after_all(before);
        let message = messages.last();
        output_is_kept_in_order(commits, before, id);
        message_changes_one_entry(state, message);
        position_depends_on_the_commits(start.commits, state.commits, id);
        if let Some(other) = message.commit() {
            lemma_entry_position(state.commits, other);
            lemma_entry_position(state.commits, id);
        }
        assert(same_commits(start.commits, state.after(message).commits)) by {
            assert forall|i: int| 0 <= i < start.commits.len() implies (
            #[trigger] start.commits[i]).commit_id == state.after(message).commits[i].commit_id
                && start.commits[i].change_id_hex == state.after(message).commits[i].change_id_hex
                && start.commits[i].description == state.after(
                message,
            ).commits[i].description by {
                assert(state.commits[i].commit_id == state.after(message).commits[i].commit_id);
            }
        }
    }
}

/// The interface starts with one entry for each commit, in order, that tells the commit's
/// identifiers and the first line of its description, and has no result yet; the first commit is
/// selected and its output in focus.
pub proof fn interface_starts_with_every_commit(commits: Seq<CommitModel>)
    ensures
        ({
            let start = TuiModel::initial(commits);
            &&& start.commits.len() == commits.len()
            &&& forall|i: int|
                0 <= i < commits.len() ==> {
                    let entry = #[trigger] start.commits[i];
                    &&& entry.commit_id == commits[i].id
                    &&& reads_as(entry.change_id_hex, commits[i].change_id)
                    &&& entry.description == first_line_of(commits[i].description)
                    &&& entry.status is Pending
                    &&& entry.output.len() == 0
                    &&& entry.diff_bytes is None && entry.diff_stat is None
                }
            &&& start.selected == 0 && start.focus == FocusPanel::Output
            &&& start.output_scroll == 0 && start.diff_scroll == 0
            &&& !start.done && start.outcome is None
        }),
{
    assert forall|i: int| 0 <= i < commits.len() implies reads_as(
        (#[trigger] TuiModel::initial(commits).commits[i]).change_id_hex,
        commits[i].change_id,
    ) by {
        hex_reads_back(commits[i].change_id);
    }
}

/// Whether a message tells how far the command has come on a commit.
pub open spec fn tells_status(message: MessageModel, id: Seq<u8>) -> bool {
    ||| message matches MessageModel::Started { commit_id, .. } && commit_id == id
    ||| message matches MessageModel::Passed { commit_id, .. } && commit_id == id
    ||| message matches MessageModel::Failed { commit_id, .. } && commit_id == id
}

/// Whether a message tells the diff summary of a commit.
pub open spec fn tells_stat(message: MessageModel, id: Seq<u8>) -> bool {
    message matches MessageModel::DiffStat { commit_id, .. } && commit_id == id
}

/// The entry of a commit after a history of messages.
pub open spec fn entry_of(
    commits: Seq<CommitModel>,
    messages: Seq<MessageModel>,
    id: Seq<u8>,
) -> EntryModel {
    let start = TuiModel::initial(commits);
    start.after_all(messages).commits[entry_position(start.commits, id)]
}

proof fn lemma_entry_step(commits: Seq<CommitModel>, messages: Seq<MessageModel>, id: Seq<u8>)
    requires
        messages.len() > 0,
        entry_position(TuiModel::initial(commits).commits, id) >= 0,
    ensures
        messages.last().commit() == Some(id) ==> entry_of(commits, messages, id) == entry_after(
            entry_of(commits, messages.drop_last(), id),
            messages.last(),
        ),
        messages.last().commit() != Some(id) ==> entry_of(commits, messages, id) == entry_of(
            commits,
            messages.drop_last(),
            id,
        ),
{
    let start = TuiModel::initial(commits);
    let before = messages.drop_last();
    let state = start.after_all(before);
    lemma_entry_position(start.commits, id);
    output_is_kept_in_order(commits, before, id);
    position_depends_on_the_commits(start.commits, state.commits, id);
    if let Some(other) = messages.last().commit() {
        lemma_entry_position(state.commits, other);
    }
}

/// The status of a commit is the one that the last message about it told, and pending if there
/// was none.
pub proof fn status_is_the_last_told(
    commits: Seq<CommitModel>,
    messages: Seq<MessageModel>,
    id: Seq<u8>,
    at: int,
)
    requires
        entry_position(TuiModel::initial(commits).commits, id) >= 0,
        -1 <= at < messages.len(),
        at >= 0 ==> tells_status(messages[at], id),
        forall|j: int| at < j < messages.len() ==> !tells_status(#[trigger] messages[j], id),
    ensures
        ({
            let status = entry_of(commits, messages, id).status;
            &&& at < 0 ==> status is Pending
            &&& at >= 0 ==> match messages[at] {
                MessageModel::Started { worker, .. } => status == JobStatusModel::Running(worker),
                MessageModel::Passed { modified, .. } => status == JobStatusModel::Passed {
                    modified,
                },
                MessageModel::Failed { message, .. } => status == JobStatusModel::Failed(message),
                _ => false,
            }
        }),
    decreases messages.len(),
{
    if messages.len() == 0 {
        lemma_entry_position(TuiModel::initial(commits).commits, id);
    } else {
        let before = messages.drop_last();
        let n = messages.len() - 1;
        lemma_entry_step(commits, messages, id);
        if at < n {
            assert(!tells_status(messages[n], id));
            if at >= 0 {
                assert(before[at] == messages[at]);
            }
            assert forall|j: int| at < j < before.len() implies !tells_status(
                #[trigger] before[j],
                id,
            ) by {
                assert(before[j] == messages[j]);
            }
            status_is_the_last_told(commits, before, id, at);
        }
    }
}

/// The diff summary of a commit is the one that the last message with one told; there is none if
/// there was no such message. No message tells a diff.
pub proof fn stat_is_the_last_told(
    commits: Seq<CommitModel>,
    messages: Seq<MessageModel>,
    id: Seq<u8>,
    at: int,
)
    requires
        entry_position(TuiModel::initial(commits).commits, id) >= 0,
        -1 <= at < messages.len(),
        at >= 0 ==> tells_stat(messages[at], id),
        forall|j: int| at < j < messages.len() ==> !tells_stat(#[trigger] messages[j], id),
    ensures
        ({
            let entry = entry_of(commits, messages, id);
            &&& at < 0 ==> entry.diff_stat is None
            &&& at >= 0 ==> (messages[at] matches MessageModel::DiffStat { stat, .. }
                && entry.diff_stat == Some(stat))
            &&& entry.diff_bytes is None
        }),
    decreases messages.len(),
{
    if messages.len() == 0 {
        lemma_entry_position(TuiModel::initial(commits).commits, id);
    } else {
        let before = messages.drop_last();
        let n = messages.len() - 1;
        lemma_entry_step(commits, messages, id);
        if at < n {
            assert(!tells_stat(messages[n], id));
            if at >= 0 {
                assert(before[at] == messages[at]);
            }
            assert forall|j: int| at < j < before.len() implies !tells_stat(
                #[trigger] before[j],
                id,
            ) by {
                assert(before[j] == messages[j]);
            }
            stat_is_the_last_told(commits, before, id, at);
        } else {
            lemma_no_diff_is_told(commits, before, id);
        }
    }
}

proof fn lemma_no_diff_is_told(
    commits: Seq<CommitModel>,
    messages: Seq<MessageModel>,
    id: Seq<u8>,
)
    requires
        entry_position(TuiModel::initial(commits).commits, id) >= 0,
    ensures
        entry_of(commits, messages, id).diff_bytes is None,
    decreases messages.len(),
{
    if messages.len() == 0 {
        lemma_entry_position(TuiModel::initial(commits).commits, id);
    } else {
        lemma_entry_step(commits, messages, id);
        lemma_no_diff_is_told(commits, messages.drop_last(), id);
    }
}

/// New output of the selected commit is followed: its panel is scrolled to the end. Nothing else
/// scrolls a panel.
pub proof fn output_of_the_selected_commit_is_followed(state: TuiModel, message: MessageModel)
    requires
        state.wf(),
    ensures
        message is Output && message->Output_commit_id == state.commits[state.selected].commit_id
            ==> state.after(message).output_scroll == u16::MAX,
        !(message is Output && message->Output_commit_id
            == state.commits[state.selected].commit_id) ==> state.after(message).output_scroll
            == state.output_scroll,
{
}

/// What a single message tells of a commit changes that of its entry and nothing else of it.
pub proof fn message_changes_what_it_tells(entry: EntryModel, message: MessageModel)
    ensures
        ({
            let after = entry_after(entry, message);
            &&& message matches MessageModel::Started { worker, .. } ==> after == EntryModel {
                status: JobStatusModel::Running(worker),
                ..entry
            }
            &&& message matches MessageModel::Output { line, .. } ==> after == EntryModel {
                output: entry.output.push(line),
                ..entry
            }
            &&& message matches MessageModel::DiffStat { stat, .. } ==> after == EntryModel {
                diff_stat: Some(stat),
                ..entry
            }
            &&& message matches MessageModel::Passed { modified, .. } ==> after == EntryModel {
                status: JobStatusModel::Passed { modified },
                ..entry
            }
            &&& message matches MessageModel::Failed { message, .. } ==> after == EntryModel {
                status: JobStatusModel::Failed(message),
                ..entry
            }
            &&& message is AllDone ==> after == entry
        }),
{
}

/// The entries of the interface, and the output of each, are read in order.
pub proof fn interface_is_read_in_order(state: TuiState, i: int, k: int)
    ensures
        state@.commits.len() == state.commits@.len(),
        0 <= i < state.commits@.len() ==> {
            let entry = state.commits@[i];
            let read = state@.commits[i];
            &&& read.commit_id == entry.commit_id@ && read.change_id_hex == entry.change_id_hex@
            &&& read.description == entry.description@ && read.status == entry.status@
            &&& read.output.len() == entry.output@.len()
            &&& 0 <= k < entry.output@.len() ==> read.output[k] == entry.output@[k]@
        },
        state@.selected == state.selected && state@.focus == state.focus,
        state@.output_scroll == state.output_scroll && state@.diff_scroll == state.diff_scroll,
        state@.done == state.done && state@.outcome == state.outcome,
        state@.passed == state.passed && state@.failed == state.failed,
{
}

} // verus!
