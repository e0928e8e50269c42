//! The loop of the terminal interface: messages and keys in, pictures and diffs out.
//!
//! The terminal and the diff renderer are driven from outside: [`TuiLoop`] says what to do next,
//! and is told what came of it.

use crate::ids::{Commit, CommitId};
use crate::state::{
    entry_position, initial_is_well_formed, lemma_entry_position, message_changes_one_entry,
    CommitEntry, EntryModel, FocusPanel, MessageModel, TuiMessage, TuiModel, TuiOutcome, TuiState,
};
use crate::trees::NewTrees;
use vstd::prelude::*;

verus! {

/// A key, as far as the interface tells keys apart.
#[derive(Debug, Clone, Copy, PartialEq, Eq, Structural)]
pub enum KeyCode {
    Char(char),
    Esc,
    Up,
    Down,
    Tab,
    PageUp,
    PageDown,
    Other,
}

/// The modifiers held down with a key.
#[derive(Debug, Clone, Copy, PartialEq, Eq, Structural)]
pub enum KeyModifiers {
    /// None.
    Plain,
    /// Control, and nothing else.
    Control,
    /// Any other combination.
    Other,
}

/// A key that was pressed, repeated or released.
#[derive(Debug, Clone, Copy, PartialEq, Eq, Structural)]
pub struct KeyEvent {
    pub code: KeyCode,
    pub modifiers: KeyModifiers,
    pub release: bool,
}

/// How far PgUp and PgDn scroll.
pub const SCROLL_STEP: u16 = 10;

/// A scroll position, moved down.
pub open spec fn scrolled_down(scroll: int) -> int {
    if scroll + SCROLL_STEP > u16::MAX {
        u16::MAX as int
    } else {
        scroll + SCROLL_STEP
    }
}

/// A scroll position, moved up.
pub open spec fn scrolled_up(scroll: int) -> int {
    if scroll < SCROLL_STEP {
        0
    } else {
        scroll - SCROLL_STEP
    }
}

/// The other panel.
pub open spec fn other_panel(focus: FocusPanel) -> FocusPanel {
    match focus {
        FocusPanel::Output => FocusPanel::Diff,
        FocusPanel::Diff => FocusPanel::Output,
    }
}

impl TuiModel {
    /// The state with another commit selected: its output is followed and its diff shown from
    /// the top.
    pub open spec fn select(self, position: int) -> TuiModel {
        TuiModel {
            selected: position,
            output_scroll: u16::MAX as int,
            diff_scroll: 0,
            ..self
        }
    }

    /// The state after a key.
    pub open spec fn after_key(self, key: KeyEvent) -> TuiModel {
        if key.release {
            self
        } else {
            match (key.code, key.modifiers) {
                (KeyCode::Char('c'), KeyModifiers::Control) => TuiModel {
                    outcome: Some(TuiOutcome::Cancel),
                    ..self
                },
                (KeyCode::Esc, _) => TuiModel { outcome: Some(TuiOutcome::Cancel), ..self },
                (KeyCode::Char('q'), KeyModifiers::Plain) => TuiModel {
                    outcome: Some(TuiOutcome::Cancel),
                    ..self
                },
                (KeyCode::Char('c'), KeyModifiers::Plain) => if self.done {
                    TuiModel { outcome: Some(TuiOutcome::Confirm), ..self }
                } else {
                    self
                },
                (KeyCode::Down, KeyModifiers::Plain) => self.move_down(),
                (KeyCode::Char('j'), KeyModifiers::Plain) => self.move_down(),
                (KeyCode::Up, KeyModifiers::Plain) => self.move_up(),
                (KeyCode::Char('k'), KeyModifiers::Plain) => self.move_up(),
                (KeyCode::Tab, _) => TuiModel { focus: other_panel(self.focus), ..self },
                (KeyCode::PageDown, _) => match self.focus {
                    FocusPanel::Output => TuiModel {
                        output_scroll: scrolled_down(self.output_scroll),
                        ..self
                    },
                    FocusPanel::Diff => TuiModel {
                        diff_scroll: scrolled_down(self.diff_scroll),
                        ..self
                    },
                },
                (KeyCode::PageUp, _) => match self.focus {
                    FocusPanel::Output => TuiModel {
                        output_scroll: scrolled_up(self.output_scroll),
                        ..self
                    },
                    FocusPanel::Diff => TuiModel {
                        diff_scroll: scrolled_up(self.diff_scroll),
                        ..self
                    },
                },
                _ => self,
            }
        }
    }

    /// The state with the selection one commit further down, if there is one.
    pub open spec fn move_down(self) -> TuiModel {
        if self.selected + 1 < self.commits.len() {
            self.select(self.selected + 1)
        } else {
            self
        }
    }

    /// The state with the selection one commit further up, if there is one.
    pub open spec fn move_up(self) -> TuiModel {
        if self.selected > 0 {
            self.select(self.selected - 1)
        } else {
            self
        }
    }

    /// The state with a commit's diff and its summary, where one was rendered.
    pub open spec fn with_diff(self, position: int, diff: Option<(Seq<u8>, Seq<char>)>) -> TuiModel {
        match diff {
            Some((bytes, stat)) if 0 <= position < self.commits.len() => TuiModel {
                commits: self.commits.update(
                    position,
                    EntryModel {
                        diff_bytes: Some(bytes),
                        diff_stat: Some(stat),
                        ..self.commits[position]
                    },
                ),
                ..self
            },
            _ => self,
        }
    }

    /// The commit whose diff is to be rendered anew after a message, if there is one: that of a
    /// command that ended, unless it passed and changed nothing, and the selected commit whenever
    /// the running command has changed it.
    pub open spec fn diff_wanted(self, message: MessageModel) -> Option<Seq<u8>> {
        match message {
            MessageModel::Passed { commit_id, modified } if modified => Some(commit_id),
            MessageModel::Failed { commit_id, .. } => Some(commit_id),
            MessageModel::DiffStat { commit_id, .. } if self.is_selected(commit_id) => Some(
                commit_id,
            ),
            _ => None,
        }
    }
}

impl TuiState {
    /// Takes a key into account.
    pub fn handle_key(&mut self, key: KeyEvent)
        ensures
            final(self)@ == old(self)@.after_key(key),
    {
        if key.release {
            return;
        }
        match (key.code, key.modifiers) {
            (KeyCode::Char('c'), KeyModifiers::Control) | (KeyCode::Esc, _) => {
                self.outcome = Some(TuiOutcome::Cancel);
            },
            (KeyCode::Char('q'), KeyModifiers::Plain) => {
                self.outcome = Some(TuiOutcome::Cancel);
            },
            (KeyCode::Char('c'), KeyModifiers::Plain) => {
                if self.done {
                    self.outcome = Some(TuiOutcome::Confirm);
                }
            },
            (KeyCode::Down, KeyModifiers::Plain) | (KeyCode::Char('j'), KeyModifiers::Plain) => {
                if self.selected < self.commits.len() && self.selected + 1 < self.commits.len() {
                    self.selected = self.selected + 1;
                    self.output_scroll = u16::MAX;
                    self.diff_scroll = 0;
                }
            },
            (KeyCode::Up, KeyModifiers::Plain) | (KeyCode::Char('k'), KeyModifiers::Plain) => {
                if self.selected > 0 {
                    self.selected = self.selected - 1;
                    self.output_scroll = u16::MAX;
                    self.diff_scroll = 0;
                }
            },
            (KeyCode::Tab, _) => {
                self.focus = match self.focus {
                    FocusPanel::Output => FocusPanel::Diff,
                    FocusPanel::Diff => FocusPanel::Output,
                };
            },
            (KeyCode::PageDown, _) => match self.focus {
                FocusPanel::Output => {
                    self.output_scroll = self.output_scroll.saturating_add(SCROLL_STEP);
                },
                FocusPanel::Diff => {
                    self.diff_scroll = self.diff_scroll.saturating_add(SCROLL_STEP);
                },
            },
            (KeyCode::PageUp, _) => match self.focus {
                FocusPanel::Output => {
                    self.output_scroll = self.output_scroll.saturating_sub(SCROLL_STEP);
                },
                FocusPanel::Diff => {
                    self.diff_scroll = self.diff_scroll.saturating_sub(SCROLL_STEP);
                },
            },
            _ => {},
        }
    }

    /// Whether a commit is the selected one.
    fn is_selected(&self, id: &CommitId) -> (r: bool)
        ensures
            r == self@.is_selected(id@),
    {
        self.selected < self.commits.len() && self.commits[self.selected].commit_id.same(id)
    }

    /// The commit whose diff is to be rendered anew after a message.
    pub fn diff_wanted(&self, msg: &TuiMessage) -> (r: Option<CommitId>)
        ensures
            match r {
                Some(id) => self@.diff_wanted(msg@) == Some(id@),
                None => self@.diff_wanted(msg@) is None,
            },
    {
        match msg {
            TuiMessage::Passed { commit_id, modified } => if *modified {
                Some(commit_id.clone())
            } else {
                None
            },
            TuiMessage::Failed { commit_id, .. } => Some(commit_id.clone()),
            TuiMessage::DiffStat { commit_id, .. } => if self.is_selected(commit_id) {
                Some(commit_id.clone())
            } else {
                None
            },
            _ => None,
        }
    }
}

/// What a rendered diff and its summary hold.
pub open spec fn diff_model(diff: Option<(Vec<u8>, String)>) -> Option<(Seq<u8>, Seq<char>)> {
    match diff {
        Some((bytes, stat)) => Some((bytes@, stat@)),
        None => None,
    }
}

/// The position of the first commit with an identifier; negative if there is none.
pub open spec fn commit_position(commits: Seq<Commit>, id: Seq<u8>) -> int
    decreases commits.len(),
{
    if commits.len() == 0 {
        -1
    } else if commits[0].id@ == id {
        0
    } else {
        let i = commit_position(commits.drop_first(), id);
        if i < 0 {
            -1
        } else {
            i + 1
        }
    }
}

proof fn lemma_commit_position(commits: Seq<Commit>, id: Seq<u8>, n: int)
    requires
        0 <= n <= commits.len(),
        forall|i: int| 0 <= i < n ==> (#[trigger] commits[i]).id@ != id,
        n < commits.len() ==> commits[n].id@ == id,
    ensures
        commit_position(commits, id) == if n < commits.len() {
            n
        } else {
            -1
        },
    decreases n,
{
    if n > 0 {
        let rest = commits.drop_first();
        assert forall|i: int| 0 <= i < n - 1 implies (#[trigger] rest[i]).id@ != id by {
            assert(rest[i] == commits[i + 1]);
        }
        lemma_commit_position(rest, id, n - 1);
    }
}

/// The trees to compare for a commit's diff: the position of the commit, whose tree is the old
/// one, and the new tree. `None` where the commit has no new tree, or is not one of the run's.
pub fn diff_subject<'a, T>(
    id: &CommitId,
    commits: &Vec<Commit>,
    new_trees: &'a NewTrees<T>,
) -> (r: Option<(usize, &'a T)>)
    ensures
        match r {
            Some((i, tree)) => new_trees@.contains_key(id@) && *tree == new_trees@[id@] && i
                < commits@.len() && i == commit_position(commits@, id@),
            None => !new_trees@.contains_key(id@) || commit_position(commits@, id@) < 0,
        },
{
    let tree = match new_trees.get(id) {
        Some(tree) => tree,
        None => return None,
    };
    let mut i: usize = 0;
    while i < commits.len()
        invariant
            i <= commits.len(),
            new_trees@.contains_key(id@),
            *tree == new_trees@[id@],
            forall|k: int| 0 <= k < i ==> (#[trigger] commits@[k]).id@ != id@,
        decreases commits.len() - i,
    {
        if commits[i].id.same(id) {
            proof {
                lemma_commit_position(commits@, id@, i as int);
            }
            return Some((i, tree));
        }
        i = i + 1;
    }
    proof {
        lemma_commit_position(commits@, id@, i as int);
    }
    None
}

/// Stores a rendered diff and its summary in an entry, and tells whether there was one.
pub fn ensure_diff_rendered(entry: &mut CommitEntry, diff: Option<(Vec<u8>, String)>) -> (r: bool)
    ensures
        r == diff is Some,
        final(entry)@ == match diff_model(diff) {
            Some((bytes, stat)) => EntryModel {
                diff_bytes: Some(bytes),
                diff_stat: Some(stat),
                ..old(entry)@
            },
            None => old(entry)@,
        },
{
    match diff {
        Some((bytes, stat)) => {
            entry.diff_bytes = Some(bytes);
            entry.diff_stat = Some(stat);
            true
        },
        None => false,
    }
}

/// What is under way in the loop.
#[derive(Debug, PartialEq, Eq)]
pub enum LoopPhase {
    /// The screen is being drawn.
    Render,
    /// A message is being looked for.
    Receive,
    /// The diff of this commit is being rendered, because of a message.
    MessageDiff(CommitId),
    /// The diff of the selected commit is being rendered.
    SelectedDiff,
    /// A key is being waited for, for a moment.
    Poll,
    /// The interface is closed.
    Closed,
}

/// What a [`LoopPhase`] holds.
#[verifier::ext_equal]
pub enum LoopPhaseModel {
    Render,
    Receive,
    MessageDiff(Seq<u8>),
    SelectedDiff,
    Poll,
    Closed,
}

impl View for LoopPhase {
    type V = LoopPhaseModel;

    open spec fn view(&self) -> LoopPhaseModel {
        match self {
            LoopPhase::Render => LoopPhaseModel::Render,
            LoopPhase::Receive => LoopPhaseModel::Receive,
            LoopPhase::MessageDiff(id) => LoopPhaseModel::MessageDiff(id@),
            LoopPhase::SelectedDiff => LoopPhaseModel::SelectedDiff,
            LoopPhase::Poll => LoopPhaseModel::Poll,
            LoopPhase::Closed => LoopPhaseModel::Closed,
        }
    }
}

/// What came of the last action.
#[derive(Debug, PartialEq, Eq)]
pub enum LoopEvent {
    Rendered,
    /// The next message, if one was there.
    Received(Option<TuiMessage>),
    /// The diff and its summary, if the commit has a new tree.
    DiffReady(Option<(Vec<u8>, String)>),
    /// The key, if one came.
    Polled(Option<KeyEvent>),
}

/// What a [`LoopEvent`] holds.
pub enum LoopEventModel {
    Rendered,
    Received(Option<MessageModel>),
    DiffReady(Option<(Seq<u8>, Seq<char>)>),
    Polled(Option<KeyEvent>),
}

impl View for LoopEvent {
    type V = LoopEventModel;

    open spec fn view(&self) -> LoopEventModel {
        match self {
            LoopEvent::Rendered => LoopEventModel::Rendered,
            LoopEvent::Received(Some(msg)) => LoopEventModel::Received(Some(msg@)),
            LoopEvent::Received(None) => LoopEventModel::Received(None),
            LoopEvent::DiffReady(diff) => LoopEventModel::DiffReady(diff_model(*diff)),
            LoopEvent::Polled(key) => LoopEventModel::Polled(*key),
        }
    }
}

/// What to do next.
#[derive(Debug, PartialEq, Eq)]
pub enum LoopAction {
    /// Draw the screen.
    Render,
    /// Look for a message.
    Receive,
    /// Render the diff of this commit, if it has a new tree.
    RenderDiff(CommitId),
    /// Wait a moment for a key.
    Poll,
    /// Close the interface.
    Close,
    /// Nothing: the event does not belong to what is under way.
    Ignore,
}

/// What a [`LoopAction`] holds.
#[verifier::ext_equal]
pub enum LoopActionModel {
    Render,
    Receive,
    RenderDiff(Seq<u8>),
    Poll,
    Close,
    Ignore,
}

impl View for LoopAction {
    type V = LoopActionModel;

    open spec fn view(&self) -> LoopActionModel {
        match self {
            LoopAction::Render => LoopActionModel::Render,
            LoopAction::Receive => LoopActionModel::Receive,
            LoopAction::RenderDiff(id) => LoopActionModel::RenderDiff(id@),
            LoopAction::Poll => LoopActionModel::Poll,
            LoopAction::Close => LoopActionModel::Close,
            LoopAction::Ignore => LoopActionModel::Ignore,
        }
    }
}

/// The interface and what is under way in its loop.
#[derive(Debug, PartialEq, Eq)]
pub struct TuiLoop {
    pub state: TuiState,
    pub phase: LoopPhase,
}

/// What a [`TuiLoop`] holds.
#[verifier::ext_equal]
pub struct LoopModel {
    pub state: TuiModel,
    pub phase: LoopPhaseModel,
}

impl View for TuiLoop {
    type V = LoopModel;

    open spec fn view(&self) -> LoopModel {
        LoopModel { state: self.state@, phase: self.phase@ }
    }
}

impl LoopModel {
    /// The loop and the action after an event.
    pub open spec fn step(self, event: LoopEventModel) -> (LoopModel, LoopActionModel) {
        match (self.phase, event) {
            (LoopPhaseModel::Render, LoopEventModel::Rendered) => (
                LoopModel { phase: LoopPhaseModel::Receive, ..self },
                LoopActionModel::Receive,
            ),
            (LoopPhaseModel::Receive, LoopEventModel::Received(Some(message))) => {
                let state = self.state.after(message);
                match self.state.diff_wanted(message) {
                    Some(id) if entry_position(state.commits, id) >= 0 => (
                        LoopModel { state, phase: LoopPhaseModel::MessageDiff(id) },
                        LoopActionModel::RenderDiff(id),
                    ),
                    _ => (
                        LoopModel { state, phase: LoopPhaseModel::Receive },
                        LoopActionModel::Receive,
                    ),
                }
            },
            (LoopPhaseModel::MessageDiff(id), LoopEventModel::DiffReady(diff)) => (
                LoopModel {
                    state: self.state.with_diff(entry_position(self.state.commits, id), diff),
                    phase: LoopPhaseModel::Receive,
                },
                LoopActionModel::Receive,
            ),
            (LoopPhaseModel::Receive, LoopEventModel::Received(None)) => {
                let entry = self.state.commits[self.state.selected];
                if entry.diff_bytes is None {
                    (
                        LoopModel { phase: LoopPhaseModel::SelectedDiff, ..self },
                        LoopActionModel::RenderDiff(entry.commit_id),
                    )
                } else {
                    (LoopModel { phase: LoopPhaseModel::Poll, ..self }, LoopActionModel::Poll)
                }
            },
            (LoopPhaseModel::SelectedDiff, LoopEventModel::DiffReady(diff)) => (
                LoopModel {
                    state: self.state.with_diff(self.state.selected, diff),
                    phase: LoopPhaseModel::Poll,
                },
                LoopActionModel::Poll,
            ),
            (LoopPhaseModel::Poll, LoopEventModel::Polled(key)) => {
                let state = match key {
                    Some(key) => self.state.after_key(key),
                    None => self.state,
                };
                if state.outcome is Some {
                    (
                        LoopModel { state, phase: LoopPhaseModel::Closed },
                        LoopActionModel::Close,
                    )
                } else {
                    (
                        LoopModel { state, phase: LoopPhaseModel::Render },
                        LoopActionModel::Render,
                    )
                }
            },
            _ => (self, LoopActionModel::Ignore),
        }
    }

    /// Whether the selection is on one of the commits, and the user has decided exactly if the
    /// interface is closed.
    pub open spec fn wf(self) -> bool {
        &&& self.state.wf()
        &&& self.state.outcome is Some <==> self.phase is Closed
    }
}

impl TuiLoop {
    /// The interface of a run over a list of commits, and the first thing to do.
    pub fn new(commits: &Vec<Commit>) -> (r: (TuiLoop, LoopAction))
        requires
            commits@.len() > 0,
        ensures
            r.0@ == (LoopModel {
                state: TuiModel::initial(commits@.map_values(|c: Commit| c@)),
                phase: LoopPhaseModel::Render,
            }),
            r.0@.wf(),
            r.1@ == LoopActionModel::Render,
    {
        proof {
            initial_is_well_formed(commits@.map_values(|c: Commit| c@));
        }
        (TuiLoop { state: TuiState::new(commits), phase: LoopPhase::Render }, LoopAction::Render)
    }

    /// Stores a rendered diff at a position.
    fn store_diff(&mut self, position: usize, diff: Option<(Vec<u8>, String)>)
        requires
            position < old(self).state.commits@.len(),
        ensures
            final(self).state@ == old(self).state@.with_diff(position as int, diff_model(diff)),
            final(self).phase == old(self).phase,
    {
        let ghost before = self.state@;
        ensure_diff_rendered(&mut self.state.commits[position], diff);
        assert(self.state@.commits =~= before.with_diff(
            position as int,
            diff_model(diff),
        ).commits);
    }

    /// Takes note of what came of the last action and says what to do next.
    pub fn run_tui_loop(&mut self, event: LoopEvent) -> (action: LoopAction)
        requires
            old(self)@.wf(),
            event matches LoopEvent::Received(Some(TuiMessage::Passed { .. })) ==> old(
                self,
            ).state.passed < usize::MAX,
            event matches LoopEvent::Received(Some(TuiMessage::Failed { .. })) ==> old(
                self,
            ).state.failed < usize::MAX,
        ensures
            (final(self)@, action@) == old(self)@.step(event@),
            final(self)@.wf(),
    {
        let mut phase = LoopPhase::Closed;
        std::mem::swap(&mut phase, &mut self.phase);
        match (phase, event) {
            (LoopPhase::Render, LoopEvent::Rendered) => {
                self.phase = LoopPhase::Receive;
                LoopAction::Receive
            },
            (LoopPhase::Receive, LoopEvent::Received(Some(msg))) => {
                let wanted = self.state.diff_wanted(&msg);
                proof {
                    message_changes_one_entry(self.state@, msg@);
                }
                self.state.handle_message(msg);
                if let Some(id) = wanted {
                    if self.state.position(&id).is_some() {
                        self.phase = LoopPhase::MessageDiff(id.clone());
                        return LoopAction::RenderDiff(id);
                    }
                }
                self.phase = LoopPhase::Receive;
                LoopAction::Receive
            },
            (LoopPhase::MessageDiff(id), LoopEvent::DiffReady(diff)) => {
                if let Some(position) = self.state.position(&id) {
                    self.store_diff(position, diff);
                }
                self.phase = LoopPhase::Receive;
                LoopAction::Receive
            },
            (LoopPhase::Receive, LoopEvent::Received(None)) => {
                let entry = &self.state.commits[self.state.selected];
                assert(entry@ == self.state@.commits[self.state.selected as int]);
                if entry.diff_bytes.is_none() {
                    let id = entry.commit_id.clone();
                    self.phase = LoopPhase::SelectedDiff;
                    LoopAction::RenderDiff(id)
                } else {
                    self.phase = LoopPhase::Poll;
                    LoopAction::Poll
                }
            },
            (LoopPhase::SelectedDiff, LoopEvent::DiffReady(diff)) => {
                let position = self.state.selected;
                self.store_diff(position, diff);
                self.phase = LoopPhase::Poll;
                LoopAction::Poll
            },
            (LoopPhase::Poll, LoopEvent::Polled(key)) => {
                if let Some(key) = key {
                    self.state.handle_key(key);
                }
                if self.state.outcome.is_some() {
                    self.phase = LoopPhase::Closed;
                    LoopAction::Close
                } else {
                    self.phase = LoopPhase::Render;
                    LoopAction::Render
                }
            },
            (phase, _) => {
                self.phase = phase;
                LoopAction::Ignore
            },
        }
    }
}

/// A key leaves the commits, their results and the counters alone, and the selection on one of
/// the commits.
pub proof fn keys_change_no_result(state: TuiModel, key: KeyEvent)
    requires
        state.wf(),
    ensures
        state.after_key(key).wf(),
        state.after_key(key).commits == state.commits,
        state.after_key(key).done == state.done,
        state.after_key(key).passed == state.passed,
        state.after_key(key).failed == state.failed,
{
}

/// Scroll positions stay within their range, whatever key comes.
pub proof fn scrolling_stays_in_range(state: TuiModel, key: KeyEvent)
    requires
        0 <= state.output_scroll <= u16::MAX,
        0 <= state.diff_scroll <= u16::MAX,
    ensures
        0 <= state.after_key(key).output_scroll <= u16::MAX,
        0 <= state.after_key(key).diff_scroll <= u16::MAX,
{
}

/// A key that is pressed without modifiers.
pub open spec fn plain(code: KeyCode) -> KeyEvent {
    KeyEvent { code, modifiers: KeyModifiers::Plain, release: false }
}

/// Moving up undoes moving down, where the selection moved at all, and the other way round.
pub proof fn up_undoes_down(state: TuiModel)
    requires
        state.wf(),
    ensures
        state.selected + 1 < state.commits.len() ==> state.after_key(
            plain(KeyCode::Down),
        ).after_key(plain(KeyCode::Up)) == state.select(state.selected),
        state.selected > 0 ==> state.after_key(plain(KeyCode::Up)).after_key(plain(KeyCode::Down))
            == state.select(state.selected),
{
}

/// Tab twice is no key at all.
pub proof fn tab_twice_restores_the_focus(state: TuiModel, modifiers: KeyModifiers)
    ensures
        ({
            let tab = KeyEvent { code: KeyCode::Tab, modifiers, release: false };
            state.after_key(tab).after_key(tab) == state
        }),
{
}

/// The user can always cancel, and can confirm exactly when all workers have finished.
pub proof fn cancel_always_confirm_when_done(state: TuiModel, modifiers: KeyModifiers)
    requires
        state.outcome is None,
    ensures
        state.after_key(plain(KeyCode::Char('q'))).outcome == Some(TuiOutcome::Cancel),
        state.after_key(
            KeyEvent { code: KeyCode::Esc, modifiers, release: false },
        ).outcome == Some(TuiOutcome::Cancel),
        state.after_key(
            KeyEvent {
                code: KeyCode::Char('c'),
                modifiers: KeyModifiers::Control,
                release: false,
            },
        ).outcome == Some(TuiOutcome::Cancel),
        state.after_key(plain(KeyCode::Char('c'))).outcome == if state.done {
            Some(TuiOutcome::Confirm)
        } else {
            None
        },
{
}

impl LoopModel {
    /// The loop after a whole history of events, the oldest first.
    pub open spec fn after_all(self, events: Seq<LoopEventModel>) -> LoopModel
        decreases events.len(),
    {
        if events.len() == 0 {
            self
        } else {
            self.after_all(events.drop_last()).step(events.last()).0
        }
    }
}

/// However the loop goes on, the selection is on one of the commits, and the user has decided
/// exactly if the interface is closed.
pub proof fn loop_stays_well_formed(start: LoopModel, events: Seq<LoopEventModel>)
    requires
        start.wf(),
    ensures
        start.after_all(events).wf(),
    decreases events.len(),
{
    if events.len() > 0 {
        loop_stays_well_formed(start, events.drop_last());
        let before = start.after_all(events.drop_last());
        if let LoopEventModel::Received(Some(message)) = events.last() {
            message_changes_one_entry(before.state, message);
        }
    }
}

/// Results are confirmed only after the message that all workers have finished has come in.
pub proof fn results_are_confirmed_only_when_done(start: LoopModel, events: Seq<LoopEventModel>)
    requires
        !start.state.done,
        start.state.outcome is None,
        start.after_all(events).state.outcome == Some(TuiOutcome::Confirm),
    ensures
        events.contains(LoopEventModel::Received(Some(MessageModel::AllDone))),
{
    lemma_done_was_received(start, events);
}

proof fn lemma_done_was_received(start: LoopModel, events: Seq<LoopEventModel>)
    requires
        !start.state.done,
        start.state.outcome is None,
    ensures
        start.after_all(events).state.done || start.after_all(events).state.outcome == Some(
            TuiOutcome::Confirm,
        ) ==> events.contains(LoopEventModel::Received(Some(MessageModel::AllDone))),
    decreases events.len(),
{
    if events.len() > 0 {
        let before = events.drop_last();
        lemma_done_was_received(start, before);
        let all_done = LoopEventModel::Received(Some(MessageModel::AllDone));
        assert(events[events.len() - 1] == events.last());
        if before.contains(all_done) {
            let i = choose|i: int| 0 <= i < before.len() && before[i] == all_done;
            assert(events[i] == all_done);
        }
    }
}

/// Whether a key is pressed or repeated, and not released.
pub open spec fn is_pressed(key: KeyEvent, code: KeyCode) -> bool {
    !key.release && key.code == code
}

/// Down and `j` select the next commit, up and `k` the one before, where there is one. The output
/// of the commit that is selected anew is followed, and its diff shown from the top.
pub proof fn arrows_move_by_one(state: TuiModel, key: KeyEvent)
    requires
        state.wf(),
        key.modifiers == KeyModifiers::Plain,
    ensures
        ({
            let after = state.after_key(key);
            let down = is_pressed(key, KeyCode::Down) || is_pressed(key, KeyCode::Char('j'));
            let up = is_pressed(key, KeyCode::Up) || is_pressed(key, KeyCode::Char('k'));
            &&& down && state.selected == state.commits.len() - 1 ==> after == state
            &&& up && state.selected == 0 ==> after == state
            &&& down && state.selected < state.commits.len() - 1 ==> after.selected
                == state.selected + 1
            &&& up && state.selected > 0 ==> after.selected == state.selected - 1
            &&& (down || up) && after.selected != state.selected ==> after == TuiModel {
                selected: after.selected,
                output_scroll: u16::MAX as int,
                diff_scroll: 0,
                ..state
            }
        }),
{
}

/// PgDn and PgUp scroll the panel in focus by ten lines, but not past the ends of the range, and
/// nothing else.
pub proof fn pages_are_ten_lines(state: TuiModel, key: KeyEvent)
    requires
        0 <= state.output_scroll <= u16::MAX,
        0 <= state.diff_scroll <= u16::MAX,
    ensures
        ({
            let after = state.after_key(key);
            let moved = |from: int, to: int|
                {
                    &&& is_pressed(key, KeyCode::PageDown) ==> to == from + 10 || (to == 0xffff
                        && from + 10 > 0xffff)
                    &&& is_pressed(key, KeyCode::PageUp) ==> to == from - 10 || (to == 0 && from
                        < 10)
                };
            is_pressed(key, KeyCode::PageDown) || is_pressed(key, KeyCode::PageUp) ==> {
                &&& state.focus == FocusPanel::Output ==> moved(
                    state.output_scroll,
                    after.output_scroll,
                ) && after.diff_scroll == state.diff_scroll
                &&& state.focus == FocusPanel::Diff ==> moved(
                    state.diff_scroll,
                    after.diff_scroll,
                ) && after.output_scroll == state.output_scroll
                &&& after == TuiModel {
                    output_scroll: after.output_scroll,
                    diff_scroll: after.diff_scroll,
                    ..state
                }
            }
        }),
{
}

/// Tab moves the focus to the other panel, and nothing else.
pub proof fn tab_moves_the_focus(state: TuiModel, key: KeyEvent)
    requires
        is_pressed(key, KeyCode::Tab),
    ensures
        state.after_key(key).focus != state.focus,
        state.after_key(key) == (TuiModel { focus: state.after_key(key).focus, ..state }),
{
}

/// Whether a key cancels: Escape, `q` alone, and `c` with control.
pub open spec fn cancels(key: KeyEvent) -> bool {
    ||| is_pressed(key, KeyCode::Esc)
    ||| is_pressed(key, KeyCode::Char('q')) && key.modifiers == KeyModifiers::Plain
    ||| is_pressed(key, KeyCode::Char('c')) && key.modifiers == KeyModifiers::Control
}

/// The user decides by a key that cancels, or by `c` alone once all workers have finished, and by
/// no other key. Deciding changes nothing else.
pub proof fn keys_decide(state: TuiModel, key: KeyEvent)
    requires
        state.outcome is None,
    ensures
        ({
            let after = state.after_key(key);
            let confirms = is_pressed(key, KeyCode::Char('c')) && key.modifiers
                == KeyModifiers::Plain && state.done;
            &&& after.outcome == Some(TuiOutcome::Cancel) <==> cancels(key)
            &&& after.outcome == Some(TuiOutcome::Confirm) <==> confirms
            &&& after.outcome is Some ==> after == TuiModel { outcome: after.outcome, ..state }
        }),
{
}

/// Whether a key has a meaning, whatever the state.
pub open spec fn has_meaning(key: KeyEvent) -> bool {
    let plain = key.modifiers == KeyModifiers::Plain;
    ||| cancels(key)
    ||| is_pressed(key, KeyCode::Tab)
    ||| is_pressed(key, KeyCode::PageUp)
    ||| is_pressed(key, KeyCode::PageDown)
    ||| plain && is_pressed(key, KeyCode::Up)
    ||| plain && is_pressed(key, KeyCode::Down)
    ||| plain && is_pressed(key, KeyCode::Char('j'))
    ||| plain && is_pressed(key, KeyCode::Char('k'))
    ||| plain && is_pressed(key, KeyCode::Char('c'))
}

/// A key that is released, or has no meaning, does nothing.
pub proof fn other_keys_do_nothing(state: TuiModel, key: KeyEvent)
    requires
        !has_meaning(key),
    ensures
        state.after_key(key) == state,
{
}

/// A rendered diff and its summary are stored in the entry that they belong to, and nothing else
/// changes; where there is none, nothing does.
pub proof fn diffs_are_stored_in_their_entry(
    state: TuiModel,
    position: int,
    bytes: Seq<u8>,
    stat: Seq<char>,
)
    requires
        0 <= position < state.commits.len(),
    ensures
        ({
            let after = state.with_diff(position, Some((bytes, stat)));
            &&& after.commits.len() == state.commits.len()
            &&& after.commits[position].diff_bytes == Some(bytes)
            &&& after.commits[position].diff_stat == Some(stat)
            &&& after.commits[position] == EntryModel {
                diff_bytes: Some(bytes),
                diff_stat: Some(stat),
                ..state.commits[position]
            }
            &&& forall|i: int|
                0 <= i < state.commits.len() && i != position ==> #[trigger] after.commits[i]
                    == state.commits[i]
            &&& after == TuiModel { commits: after.commits, ..state }
            &&& state.with_diff(position, None) == state
        }),
{
}

/// A diff is rendered anew for a commit that passed and was modified, one that failed, and the
/// selected one when its summary comes in; for no other message.
pub proof fn diffs_are_wanted_when_they_may_have_changed(state: TuiModel, message: MessageModel)
    requires
        state.wf(),
    ensures
        ({
            let wanted = state.diff_wanted(message);
            match message {
                MessageModel::Passed { commit_id, modified } => if modified {
                    wanted == Some(commit_id)
                } else {
                    wanted is None
                },
                MessageModel::Failed { commit_id, .. } => wanted == Some(commit_id),
                MessageModel::DiffStat { commit_id, .. } => if commit_id
                    == state.commits[state.selected].commit_id {
                    wanted == Some(commit_id)
                } else {
                    wanted is None
                },
                _ => wanted is None,
            }
        }),
{
}

/// The position of a commit is that of the first with its identifier.
pub proof fn first_commit_is_found(commits: Seq<Commit>, id: Seq<u8>)
    ensures
        ({
            let at = commit_position(commits, id);
            &&& -1 <= at < commits.len()
            &&& at >= 0 ==> commits[at].id@ == id
            &&& forall|j: int| 0 <= j < at ==> (#[trigger] commits[j]).id@ != id
            &&& at < 0 ==> forall|j: int|
                0 <= j < commits.len() ==> (#[trigger] commits[j]).id@ != id
        }),
    decreases commits.len(),
{
    if commits.len() > 0 && commits[0].id@ != id {
        let rest = commits.drop_first();
        first_commit_is_found(rest, id);
        let at = commit_position(commits, id);
        assert forall|j: int| 0 <= j < commits.len() && (at < 0 || j < at) implies (
        #[trigger] commits[j]).id@ != id by {
            if j > 0 {
                assert(rest[j - 1] == commits[j]);
            }
        }
    }
}

/// A round of the loop: the screen is drawn, the messages are taken in one after the other until
/// there are no more, the diff of the selected commit is rendered if there is none yet, and a key
/// is waited for. Then the loop starts over, or closes if the user has decided.
pub proof fn loop_goes_round(
    tui: LoopModel,
    message: MessageModel,
    diff: Option<(Seq<u8>, Seq<char>)>,
    key: Option<KeyEvent>,
)
    requires
        tui.wf(),
    ensures
        ({
            let (drawn, drawn_action) = tui.step(LoopEventModel::Rendered);
            let (taken, taken_action) = tui.step(LoopEventModel::Received(Some(message)));
            let (emptied, emptied_action) = tui.step(LoopEventModel::Received(None));
            let (rendered, rendered_action) = tui.step(LoopEventModel::DiffReady(diff));
            let (polled, polled_action) = tui.step(LoopEventModel::Polled(key));
            let selected = tui.state.commits[tui.state.selected];
            let after = match key {
                Some(key) => tui.state.after_key(key),
                None => tui.state,
            };
            &&& tui.phase is Render ==> drawn.phase is Receive && drawn_action is Receive
                && drawn.state == tui.state
            &&& tui.phase is Receive ==> taken.state == tui.state.after(message)
            &&& tui.phase is Receive && tui.state.diff_wanted(message) is None ==> taken.phase
                is Receive && taken_action is Receive
            &&& tui.phase is Receive ==> (tui.state.diff_wanted(message) matches Some(id) ==> if (
            exists|i: int|
                0 <= i < tui.state.commits.len() && (#[trigger] tui.state.commits[i]).commit_id
                    == id) {
                taken.phase == LoopPhaseModel::MessageDiff(id) && taken_action
                    == LoopActionModel::RenderDiff(id)
            } else {
                taken.phase is Receive && taken_action is Receive
            })
            &&& tui.phase is Receive ==> emptied.state == tui.state
            &&& tui.phase is Receive && selected.diff_bytes is None ==> emptied.phase
                is SelectedDiff && emptied_action == LoopActionModel::RenderDiff(
                selected.commit_id,
            )
            &&& tui.phase is Receive && selected.diff_bytes is Some ==> emptied.phase is Poll
                && emptied_action is Poll
            &&& tui.phase is SelectedDiff ==> rendered.phase is Poll && rendered_action is Poll
                && rendered.state == tui.state.with_diff(tui.state.selected, diff)
            &&& tui.phase is Poll ==> polled.state == after
            &&& tui.phase is Poll && after.outcome is None ==> polled.phase is Render
                && polled_action is Render
            &&& tui.phase is Poll && after.outcome is Some ==> polled.phase is Closed
                && polled_action is Close
        }),
{
    message_changes_one_entry(tui.state, message);
    if let Some(id) = tui.state.diff_wanted(message) {
        lemma_entry_position(tui.state.commits, id);
        if exists|i: int|
            0 <= i < tui.state.commits.len() && (#[trigger] tui.state.commits[i]).commit_id
                == id {
            let i = choose|i: int|
                0 <= i < tui.state.commits.len() && (#[trigger] tui.state.commits[i]).commit_id
                    == id;
            assert(entry_position(tui.state.commits, id) >= 0);
        }
    }
}

/// A diff that was rendered because of a message goes to the commit of the message, the last of
/// its name, and then the messages are taken in on.
pub proof fn message_diffs_go_to_their_commit(
    tui: LoopModel,
    id: Seq<u8>,
    at: int,
    diff: Option<(Seq<u8>, Seq<char>)>,
)
    requires
        tui.phase == LoopPhaseModel::MessageDiff(id),
        0 <= at < tui.state.commits.len(),
        tui.state.commits[at].commit_id == id,
        forall|j: int|
            at < j < tui.state.commits.len() ==> (#[trigger] tui.state.commits[j]).commit_id != id,
    ensures
        ({
            let (next, action) = tui.step(LoopEventModel::DiffReady(diff));
            next.phase is Receive && action is Receive && next.state == tui.state.with_diff(
                at,
                diff,
            )
        }),
{
    lemma_entry_position(tui.state.commits, id);
}

/// Events out of turn change nothing, and a closed interface stays closed.
pub proof fn loop_ignores_what_is_out_of_turn(tui: LoopModel, event: LoopEventModel)
    requires
        !(tui.phase is Render && event is Rendered),
        !(tui.phase is Receive && event is Received),
        !(tui.phase is MessageDiff && event is DiffReady),
        !(tui.phase is SelectedDiff && event is DiffReady),
        !(tui.phase is Poll && event is Polled),
    ensures
        tui.step(event) == (tui, LoopActionModel::Ignore),
{
}

} // verus!
