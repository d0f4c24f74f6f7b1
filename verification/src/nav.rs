//! The navigation controller: two panes, a focus flag, and the home
//! boundary. It interprets key codes as transitions.
//!
//! Reading a directory is I/O and happens outside the library. When a
//! transition needs a listing, [`NavState::step`] records the path it
//! asked about and returns an [`Action`] naming it; the caller performs
//! the read and hands the outcome to [`NavState::resolve`].

use vstd::prelude::*;
use crate::pane::sel_view;
use crate::pane::PaneState;
use crate::pane::PaneView;
use crate::paths::abs_path;
use crate::paths::is_root;
use crate::paths::is_root_path;
use crate::paths::join;
use crate::paths::lex_ge;
use crate::paths::lex_le;
use crate::paths::parent_of;
use crate::paths::parent_seq;

verus! {

/// Logical key codes the controller reacts to. Every other key, and
/// every non-key terminal event, maps to `Other`, a no-op.
#[derive(Debug, Clone, Copy, PartialEq, Eq, Structural)]
pub enum Key {
    Up,
    Down,
    Enter,
    Backspace,
    Tab,
    Esc,
    Other,
}

/// Which pane receives Up/Down/Enter/Backspace.
#[derive(Debug, Clone, Copy, PartialEq, Eq, Structural)]
pub enum Focus {
    Left,
    Right,
}

impl Focus {
    /// The other pane.
    pub open spec fn other(self) -> Focus {
        match self {
            Focus::Left => Focus::Right,
            Focus::Right => Focus::Left,
        }
    }
}

/// A directory read the controller has asked for and not yet been
/// answered about.
#[derive(Debug, Clone, PartialEq, Eq)]
pub enum Pending {
    /// No read outstanding.
    Idle,
    /// Enter was pressed on this path; it still has to be checked for
    /// being a directory and, if it is one, listed.
    Descend(String),
    /// Backspace passed the home guard; this parent path has to be
    /// listed.
    Ascend(String),
}

/// Model of [`Pending`].
pub ghost enum PendingView {
    Idle,
    Descend(Seq<char>),
    Ascend(Seq<char>),
}

impl View for Pending {
    type V = PendingView;

    open spec fn view(&self) -> PendingView {
        match self {
            Pending::Idle => PendingView::Idle,
            Pending::Descend(p) => PendingView::Descend(p@),
            Pending::Ascend(p) => PendingView::Ascend(p@),
        }
    }
}

/// What the caller must do after a step.
#[derive(Debug, Clone, PartialEq, Eq)]
pub enum Action {
    /// Draw and wait for the next key.
    Continue,
    /// Escape was pressed: leave the loop.
    Quit,
    /// Check whether this path is a directory and, if so, list it; then
    /// call [`NavState::resolve`].
    ProbeDir(String),
    /// List this path; then call [`NavState::resolve`].
    ReadDir(String),
}

/// Model of [`Action`].
pub ghost enum ActionView {
    Continue,
    Quit,
    ProbeDir(Seq<char>),
    ReadDir(Seq<char>),
}

impl View for Action {
    type V = ActionView;

    open spec fn view(&self) -> ActionView {
        match self {
            Action::Continue => ActionView::Continue,
            Action::Quit => ActionView::Quit,
            Action::ProbeDir(p) => ActionView::ProbeDir(p@),
            Action::ReadDir(p) => ActionView::ReadDir(p@),
        }
    }
}

/// Mathematical model of the whole controller state.
#[verifier::ext_equal]
pub ghost struct NavView {
    pub left: PaneView,
    pub right: PaneView,
    pub focus: Focus,
    pub home: Seq<char>,
    pub pending: PendingView,
}

impl NavView {
    /// Both panes well formed, all paths absolute.
    pub open spec fn wf(self) -> bool {
        &&& self.left.wf()
        &&& self.right.wf()
        &&& abs_path(self.home)
        &&& match self.pending {
            PendingView::Idle => true,
            PendingView::Descend(p) => abs_path(p),
            PendingView::Ascend(p) => abs_path(p),
        }
    }

    /// The pane that receives navigation keys.
    pub open spec fn focused(self) -> PaneView {
        match self.focus {
            Focus::Left => self.left,
            Focus::Right => self.right,
        }
    }

    /// This state with the focused pane replaced.
    pub open spec fn with_focused(self, p: PaneView) -> NavView {
        match self.focus {
            Focus::Left => NavView { left: p, ..self },
            Focus::Right => NavView { right: p, ..self },
        }
    }

    /// This state with the outstanding read replaced.
    pub open spec fn with_pending(self, p: PendingView) -> NavView {
        NavView { pending: p, ..self }
    }

    /// The pane shown on `side`.
    pub open spec fn pane(self, side: Focus) -> PaneView {
        match side {
            Focus::Left => self.left,
            Focus::Right => self.right,
        }
    }

    /// Which entry of the pane on `side` is drawn highlighted: its
    /// selection when that pane has focus, none otherwise — the
    /// unfocused pane keeps its selection but never shows it.
    pub open spec fn highlight(self, side: Focus) -> Option<int> {
        if self.focus == side {
            self.pane(side).sel
        } else {
            Option::None
        }
    }

    /// The transition for one key: the state afterwards and what the
    /// caller must do.
    ///
    /// Backspace is guarded twice: it is a no-op at the filesystem root,
    /// and the parent must compare greater-or-equal to the home path in
    /// lexicographic order, or be the root itself — the home boundary.
    pub open spec fn step(self, key: Key) -> (NavView, ActionView) {
        match key {
            Key::Tab => (NavView { focus: self.focus.other(), ..self }, ActionView::Continue),
            Key::Up => (self.with_focused(self.focused().moved_up()), ActionView::Continue),
            Key::Down => (self.with_focused(self.focused().moved_down()), ActionView::Continue),
            Key::Esc => (self, ActionView::Quit),
            Key::Other => (self, ActionView::Continue),
            Key::Enter => match self.focused().sel {
                Option::Some(i) => {
                    let cand = self.focused().path + seq!['/'] + self.focused().entries[i];
                    (self.with_pending(PendingView::Descend(cand)), ActionView::ProbeDir(cand))
                },
                Option::None => (self, ActionView::Continue),
            },
            Key::Backspace => {
                if is_root(self.focused().path) {
                    (self, ActionView::Continue)
                } else {
                    let parent = parent_seq(self.focused().path);
                    if lex_le(self.home, parent) || is_root(parent) {
                        (self.with_pending(PendingView::Ascend(parent)), ActionView::ReadDir(parent))
                    } else {
                        (self, ActionView::Continue)
                    }
                }
            },
        }
    }

    /// The answer to an outstanding read. A Descend probe that found no
    /// directory is dropped; otherwise the focused pane is replaced
    /// wholesale, rooted at the recorded path.
    pub open spec fn resolve(self, found_dir: bool, entries: Seq<Seq<char>>) -> NavView {
        match self.pending {
            PendingView::Idle => self,
            PendingView::Descend(p) => if found_dir {
                self.with_focused(PaneView::rooted_at(p, entries)).with_pending(PendingView::Idle)
            } else {
                self.with_pending(PendingView::Idle)
            },
            PendingView::Ascend(p) => self.with_focused(
                PaneView::rooted_at(p, entries),
            ).with_pending(PendingView::Idle),
        }
    }

    /// The startup state: both panes rooted at home, left pane focused.
    pub open spec fn init(
        home: Seq<char>,
        left_entries: Seq<Seq<char>>,
        right_entries: Seq<Seq<char>>,
    ) -> NavView {
        NavView {
            left: PaneView::rooted_at(home, left_entries),
            right: PaneView::rooted_at(home, right_entries),
            focus: Focus::Left,
            home: home,
            pending: PendingView::Idle,
        }
    }
}

/// The controller state: two panes, the focus, the home boundary, and
/// the read it is waiting on, if any.
#[derive(Debug, Clone, PartialEq, Eq)]
pub struct NavState {
    pub left: PaneState,
    pub right: PaneState,
    pub focus: Focus,
    pub home: String,
    pub pending: Pending,
}

impl View for NavState {
    type V = NavView;

    open spec fn view(&self) -> NavView {
        NavView {
            left: self.left@,
            right: self.right@,
            focus: self.focus,
            home: self.home@,
            pending: self.pending@,
        }
    }
}

impl NavState {
    /// The startup state: both panes rooted at `home` with the listings
    /// handed in, left pane focused, nothing outstanding.
    pub fn new(home: String, left_entries: Vec<String>, right_entries: Vec<String>) -> (r: NavState)
        requires
            abs_path(home@),
        ensures
            r@ == NavView::init(home@, left_entries.deep_view(), right_entries.deep_view()),
            r@.wf(),
    {
        let left = PaneState::new(home.clone(), left_entries);
        let right = PaneState::new(home.clone(), right_entries);
        let r = NavState { left, right, focus: Focus::Left, home, pending: Pending::Idle };
        proof {
            assert(r@ =~= NavView::init(
                r.home@,
                r.left.entries.deep_view(),
                r.right.entries.deep_view(),
            ));
        }
        r
    }

    /// The entry to draw highlighted in the pane on `side`, if any.
    pub fn highlight_index(&self, side: Focus) -> (r: Option<usize>)
        ensures
            sel_view(r) == self@.highlight(side),
    {
        if self.focus == side {
            match side {
                Focus::Left => self.left.selected_index,
                Focus::Right => self.right.selected_index,
            }
        } else {
            Option::None
        }
    }

    /// Performs the transition for one key and says what the caller must
    /// do next. May only be called with no read outstanding.
    pub fn step(&mut self, key: Key) -> (a: Action)
        requires
            old(self)@.wf(),
            old(self)@.pending is Idle,
        ensures
            final(self)@ == old(self)@.step(key).0,
            a@ == old(self)@.step(key).1,
            final(self)@.wf(),
    {
        proof {
            lemma_step_preserves_wf(old(self)@, key);
        }
        match key {
            Key::Tab => {
                self.focus = match self.focus {
                    Focus::Left => Focus::Right,
                    Focus::Right => Focus::Left,
                };
                proof {
                    assert(self@ =~= old(self)@.step(key).0);
                }
                Action::Continue
            },
            Key::Up => {
                match self.focus {
                    Focus::Left => self.left.move_up(),
                    Focus::Right => self.right.move_up(),
                }
                proof {
                    assert(self@ =~= old(self)@.step(key).0);
                }
                Action::Continue
            },
            Key::Down => {
                match self.focus {
                    Focus::Left => self.left.move_down(),
                    Focus::Right => self.right.move_down(),
                }
                proof {
                    assert(self@ =~= old(self)@.step(key).0);
                }
                Action::Continue
            },
            Key::Esc => Action::Quit,
            Key::Other => Action::Continue,
            Key::Enter => {
                let focused = match self.focus {
                    Focus::Left => &self.left,
                    Focus::Right => &self.right,
                };
                match focused.selected_index {
                    Option::Some(i) => {
                        let cand = join(focused.current_path.as_str(), focused.entries[i].as_str());
                        let asked = cand.clone();
                        self.pending = Pending::Descend(cand);
                        proof {
                            assert(self@ =~= old(self)@.step(key).0);
                        }
                        Action::ProbeDir(asked)
                    },
                    Option::None => Action::Continue,
                }
            },
            Key::Backspace => {
                let focused = match self.focus {
                    Focus::Left => &self.left,
                    Focus::Right => &self.right,
                };
                if is_root_path(focused.current_path.as_str()) {
                    Action::Continue
                } else {
                    let parent = parent_of(focused.current_path.as_str());
                    if lex_ge(parent.as_str(), self.home.as_str())
                        || is_root_path(parent.as_str()) {
                        let asked = parent.clone();
                        self.pending = Pending::Ascend(parent);
                        proof {
                            assert(self@ =~= old(self)@.step(key).0);
                        }
                        Action::ReadDir(asked)
                    } else {
                        Action::Continue
                    }
                }
            },
        }
    }

    /// Hands the controller the outcome of the read it asked for:
    /// whether the path turned out to be a directory, and its listing
    /// (empty on any read failure).
    pub fn resolve(&mut self, found_dir: bool, entries: Vec<String>)
        requires
            old(self)@.wf(),
            !(old(self)@.pending is Idle),
        ensures
            final(self)@ == old(self)@.resolve(found_dir, entries.deep_view()),
            final(self)@.wf(),
    {
        proof {
            lemma_resolve_preserves_wf(old(self)@, found_dir, entries.deep_view());
        }
        match &self.pending {
            Pending::Idle => {},
            Pending::Descend(p) => {
                if found_dir {
                    let pane = PaneState::new(p.clone(), entries);
                    match self.focus {
                        Focus::Left => self.left = pane,
                        Focus::Right => self.right = pane,
                    }
                }
                self.pending = Pending::Idle;
                proof {
                    assert(self@ =~= old(self)@.resolve(found_dir, entries.deep_view()));
                }
            },
            Pending::Ascend(p) => {
                let pane = PaneState::new(p.clone(), entries);
                match self.focus {
                    Focus::Left => self.left = pane,
                    Focus::Right => self.right = pane,
                }
                self.pending = Pending::Idle;
                proof {
                    assert(self@ =~= old(self)@.resolve(found_dir, entries.deep_view()));
                }
            },
        }
    }
}

/// After any transition, the selection of every pane is either `None`
/// on an empty listing or a valid index into the entries; the paths
/// stay absolute.
pub proof fn lemma_step_preserves_wf(m: NavView, key: Key)
    requires
        m.wf(),
    ensures
        m.step(key).0.wf(),
{
    match key {
        Key::Enter => {
            match m.focused().sel {
                Option::Some(i) => {
                    assert((m.focused().path + seq!['/'] + m.focused().entries[i])[0]
                        == m.focused().path[0]);
                },
                Option::None => {},
            }
        },
        Key::Backspace => {
            if !is_root(m.focused().path) {
                crate::paths::lemma_parent_seq_abs(m.focused().path);
            }
        },
        _ => {},
    }
}

/// Answering an outstanding read preserves the same invariant: the new
/// pane is rooted at the recorded path with a fresh selection.
pub proof fn lemma_resolve_preserves_wf(m: NavView, found_dir: bool, entries: Seq<Seq<char>>)
    requires
        m.wf(),
    ensures
        m.resolve(found_dir, entries).wf(),
{
}

/// Pressing Up with the selection at the top is a no-op: the whole
/// state is unchanged.
pub proof fn lemma_up_at_top_unchanged(m: NavView)
    requires
        m.wf(),
        m.focused().sel == Option::<int>::Some(0),
    ensures
        m.step(Key::Up) == (m, ActionView::Continue),
{
    assert(m.focused().moved_up() == m.focused());
    assert(m.with_focused(m.focused()) =~= m);
}

/// Pressing Down with the selection at the last entry is a no-op: the
/// whole state is unchanged.
pub proof fn lemma_down_at_bottom_unchanged(m: NavView)
    requires
        m.wf(),
        m.focused().sel matches Option::Some(i) && i == m.focused().entries.len() - 1,
    ensures
        m.step(Key::Down) == (m, ActionView::Continue),
{
    assert(m.focused().moved_down() == m.focused());
    assert(m.with_focused(m.focused()) =~= m);
}

} // verus!
