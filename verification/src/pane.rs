//! One pane: a current directory, the names listed inside it, and the
//! selected position.

use vstd::prelude::*;
use crate::paths::abs_path;

verus! {

/// Mathematical model of a pane: the path and entry names as character
/// sequences, the selection as an optional index.
#[verifier::ext_equal]
pub ghost struct PaneView {
    pub path: Seq<char>,
    pub entries: Seq<Seq<char>>,
    pub sel: Option<int>,
}

impl PaneView {
    /// The selection is `None` exactly on an empty listing, and a valid
    /// index otherwise; the path is absolute.
    pub open spec fn wf(self) -> bool {
        &&& abs_path(self.path)
        &&& match self.sel {
            Option::Some(i) => 0 <= i < self.entries.len(),
            Option::None => self.entries.len() == 0,
        }
    }

    /// The pane after Up: selection moved one back, unless it is at the
    /// top or there is nothing to select.
    pub open spec fn moved_up(self) -> PaneView {
        match self.sel {
            Option::Some(i) => if i > 0 {
                PaneView { sel: Option::Some(i - 1), ..self }
            } else {
                self
            },
            Option::None => self,
        }
    }

    /// The pane after Down: selection moved one forward, unless it is at
    /// the last entry or there is nothing to select.
    pub open spec fn moved_down(self) -> PaneView {
        match self.sel {
            Option::Some(i) => if i + 1 < self.entries.len() {
                PaneView { sel: Option::Some(i + 1), ..self }
            } else {
                self
            },
            Option::None => self,
        }
    }

    /// A pane freshly rooted at `path` with listing `entries`: the
    /// selection starts at the first entry, or nowhere when the listing
    /// is empty.
    pub open spec fn rooted_at(path: Seq<char>, entries: Seq<Seq<char>>) -> PaneView {
        PaneView {
            path: path,
            entries: entries,
            sel: if entries.len() > 0 {
                Option::Some(0)
            } else {
                Option::None
            },
        }
    }
}

/// The model of a selection field: the index as a mathematical integer.
pub open spec fn sel_view(o: Option<usize>) -> Option<int> {
    match o {
        Option::Some(i) => Option::Some(i as int),
        Option::None => Option::None,
    }
}

/// One pane of the browser.
#[derive(Debug, Clone, PartialEq, Eq)]
pub struct PaneState {
    /// Absolute path of the directory shown.
    pub current_path: String,
    /// Names listed inside `current_path`, in the order the listing gave
    /// them.
    pub entries: Vec<String>,
    /// Index of the highlighted entry; `None` when `entries` is empty.
    pub selected_index: Option<usize>,
}

impl View for PaneState {
    type V = PaneView;

    open spec fn view(&self) -> PaneView {
        PaneView {
            path: self.current_path@,
            entries: self.entries.deep_view(),
            sel: sel_view(self.selected_index),
        }
    }
}

impl PaneState {
    /// A pane rooted at `path` showing `entries`, selection at the top.
    pub fn new(path: String, entries: Vec<String>) -> (r: PaneState)
        requires
            abs_path(path@),
        ensures
            r@ == PaneView::rooted_at(path@, entries.deep_view()),
            r@.wf(),
    {
        let selected_index = if entries.len() > 0 {
            Option::Some(0usize)
        } else {
            Option::None
        };
        let r = PaneState { current_path: path, entries, selected_index };
        proof {
            assert(r@ =~= PaneView::rooted_at(r.current_path@, r.entries.deep_view()));
        }
        r
    }

    /// Moves the selection one entry up; at the top, or with nothing
    /// listed, the pane is unchanged.
    pub fn move_up(&mut self)
        requires
            old(self)@.wf(),
        ensures
            final(self)@ == old(self)@.moved_up(),
            final(self)@.wf(),
    {
        match self.selected_index {
            Option::Some(i) => {
                if i > 0 {
                    self.selected_index = Option::Some(i - 1);
                }
            },
            Option::None => {},
        }
        proof {
            assert(self@ =~= old(self)@.moved_up());
        }
    }

    /// Moves the selection one entry down; at the last entry, or with
    /// nothing listed, the pane is unchanged.
    pub fn move_down(&mut self)
        requires
            old(self)@.wf(),
        ensures
            final(self)@ == old(self)@.moved_down(),
            final(self)@.wf(),
    {
        match self.selected_index {
            Option::Some(i) => {
                if i < self.entries.len() - 1 {
                    self.selected_index = Option::Some(i + 1);
                }
            },
            Option::None => {},
        }
        proof {
            assert(self@ =~= old(self)@.moved_down());
        }
    }
}

} // verus!
