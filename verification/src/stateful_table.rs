//! The commits in their order, and the cursor that selects one of them.

use vstd::prelude::*;
use crate::structs::{Commit, CommitView};

verus! {

/// A movement of the cursor.
#[derive(Copy, Clone, PartialEq, Eq, Debug, Structural)]
pub enum Move {
    Next,
    Previous,
    First,
    Last,
}

/// Whether `selected` is a cursor of a table of `len` rows: a row of the
/// table, or nothing where the table has no rows.
pub open spec fn cursor_fits(selected: Option<int>, len: nat) -> bool {
    match selected {
        Some(index) => 0 <= index < len,
        None => len == 0,
    }
}

/// Where the cursor stands after `movement`, in a table of `len` rows. In a
/// table without rows there is nowhere to stand. Going on from the last row
/// leads to the first, going back from the first leads to the last.
pub open spec fn moved(selected: Option<int>, len: nat, movement: Move) -> Option<int> {
    if len == 0 {
        None
    } else {
        match (movement, selected) {
            (Move::First, _) => Some(0),
            (Move::Last, _) => Some(len - 1),
            (_, None) => Some(0),
            (Move::Next, Some(index)) => Some(
                if index + 1 >= len {
                    0
                } else {
                    index + 1
                },
            ),
            (Move::Previous, Some(index)) => Some(
                if index <= 0 {
                    len - 1
                } else {
                    index - 1
                },
            ),
        }
    }
}

/// Where the cursor stands after all of `movements`, one after the other.
pub open spec fn moved_along(selected: Option<int>, len: nat, movements: Seq<Move>) -> Option<int>
    decreases movements.len(),
{
    if movements.len() == 0 {
        selected
    } else {
        moved(moved_along(selected, len, movements.drop_last()), len, movements.last())
    }
}

/// A cursor that fits the table fits it after a movement.
pub proof fn lemma_moved_fits(selected: Option<int>, len: nat, movement: Move)
    requires
        cursor_fits(selected, len),
    ensures
        cursor_fits(moved(selected, len, movement), len),
{
}

/// A cursor that fits the table fits it after any number of movements.
pub proof fn lemma_moved_along_fits(selected: Option<int>, len: nat, movements: Seq<Move>)
    requires
        cursor_fits(selected, len),
    ensures
        cursor_fits(moved_along(selected, len, movements), len),
    decreases movements.len(),
{
    if movements.len() > 0 {
        lemma_moved_along_fits(selected, len, movements.drop_last());
        lemma_moved_fits(
            moved_along(selected, len, movements.drop_last()),
            len,
            movements.last(),
        );
    }
}

/// Through any sequence of movements the cursor fits the table at every
/// step: in a table with rows it selects a row throughout.
pub proof fn lemma_cursor_always_fits(selected: Option<int>, len: nat, movements: Seq<Move>)
    requires
        cursor_fits(selected, len),
    ensures
        forall|steps: int|
            0 <= steps <= movements.len() ==> cursor_fits(
                #[trigger] moved_along(selected, len, movements.take(steps)),
                len,
            ),
{
    assert forall|steps: int| 0 <= steps <= movements.len() implies cursor_fits(
        #[trigger] moved_along(selected, len, movements.take(steps)),
        len,
    ) by {
        lemma_moved_along_fits(selected, len, movements.take(steps));
    }
}

/// Going on from the last row leads to the first; going back from the first
/// leads to the last.
pub proof fn lemma_wraparound(len: nat)
    requires
        len > 0,
    ensures
        moved(Some(len - 1), len, Move::Next) == Some(0int),
        moved(Some(0), len, Move::Previous) == Some(len - 1),
{
}

/// The commits of the history with one of them selected.
///
/// The commits never change. While there are commits one of them is
/// selected; a table without commits selects nothing.
pub struct StatefulTable {
    commits: Vec<Commit>,
    selected: Option<usize>,
}

/// What a [`StatefulTable`] is in contracts.
pub struct StatefulTableView {
    pub commits: Seq<CommitView>,
    pub selected: Option<int>,
}

impl StatefulTableView {
    /// Whether the cursor fits the commits.
    pub open spec fn fits(self) -> bool {
        cursor_fits(self.selected, self.commits.len())
    }

    /// This table with the cursor after `movement`.
    pub open spec fn moved(self, movement: Move) -> StatefulTableView {
        StatefulTableView {
            commits: self.commits,
            selected: moved(self.selected, self.commits.len(), movement),
        }
    }
}

impl View for StatefulTable {
    type V = StatefulTableView;

    closed spec fn view(&self) -> StatefulTableView {
        StatefulTableView {
            commits: self.commits.deep_view(),
            selected: match self.selected {
                Some(index) => Some(index as int),
                None => None,
            },
        }
    }
}

impl StatefulTable {
    #[verifier::type_invariant]
    spec fn well_formed(self) -> bool {
        match self.selected {
            Some(index) => index < self.commits.len(),
            None => self.commits.len() == 0,
        }
    }

    /// A table of `commits`, the first of them selected.
    pub fn new(commits: Vec<Commit>) -> (table: StatefulTable)
        ensures
            table@.commits == commits.deep_view(),
            table@.selected == (if commits.len() == 0 {
                None
            } else {
                Some(0int)
            }),
            table@.fits(),
    {
        let selected = if commits.len() == 0 {
            None
        } else {
            Some(0)
        };
        StatefulTable { commits, selected }
    }

    /// Moves the cursor as `movement` says. Nothing happens in a table
    /// without commits.
    pub fn go(&mut self, movement: Move)
        ensures
            final(self)@ == old(self)@.moved(movement),
            final(self)@.fits(),
        no_unwind
    {
        proof {
            use_type_invariant(&*self);
        }
        let len = self.commits.len();
        if len == 0 {
            return ;
        }
        let target = match (movement, self.selected) {
            (Move::First, _) => 0,
            (Move::Last, _) => len - 1,
            (_, None) => 0,
            (Move::Next, Some(index)) => if index + 1 >= len {
                0
            } else {
                index + 1
            },
            (Move::Previous, Some(index)) => if index == 0 {
                len - 1
            } else {
                index - 1
            },
        };
        self.selected = Some(target);
    }

    /// Selects the commit after the selected one; after the last, the first.
    pub fn next(&mut self)
        ensures
            final(self)@ == old(self)@.moved(Move::Next),
            final(self)@.fits(),
    {
        self.go(Move::Next)
    }

    /// Selects the commit before the selected one; before the first, the last.
    pub fn previous(&mut self)
        ensures
            final(self)@ == old(self)@.moved(Move::Previous),
            final(self)@.fits(),
    {
        self.go(Move::Previous)
    }

    /// Selects the first commit.
    pub fn first(&mut self)
        ensures
            final(self)@ == old(self)@.moved(Move::First),
            final(self)@.fits(),
    {
        self.go(Move::First)
    }

    /// Selects the last commit.
    pub fn last(&mut self)
        ensures
            final(self)@ == old(self)@.moved(Move::Last),
            final(self)@.fits(),
    {
        self.go(Move::Last)
    }

    /// The place of the selected commit; nothing in a table without commits.
    pub fn selected(&self) -> (selected: Option<usize>)
        ensures
            self@.fits(),
            match selected {
                Some(index) => self@.selected == Some(index as int),
                None => self@.selected is None,
            },
    {
        proof {
            use_type_invariant(self);
        }
        self.selected
    }

    /// The commits, in their order.
    pub fn commits(&self) -> (commits: &Vec<Commit>)
        ensures
            commits.deep_view() == self@.commits,
    {
        &self.commits
    }

    /// The number of commits.
    pub fn len(&self) -> (len: usize)
        ensures
            len == self@.commits.len(),
    {
        self.commits.len()
    }

    /// Whether there is no commit.
    pub fn is_empty(&self) -> (res: bool)
        ensures
            res == (self@.commits.len() == 0),
    {
        self.commits.len() == 0
    }

    /// The selected commit; nothing in a table without commits.
    pub fn selected_commit(&self) -> (commit: Option<&Commit>)
        ensures
            match commit {
                Some(commit) => self@.selected matches Some(index) && 0 <= index
                    < self@.commits.len() && commit@ == self@.commits[index],
                None => self@.selected is None && self@.commits.len() == 0,
            },
    {
        proof {
            use_type_invariant(self);
        }
        match self.selected {
            Some(index) => Some(&self.commits[index]),
            None => None,
        }
    }
}

} // verus!
