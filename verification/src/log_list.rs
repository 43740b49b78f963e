//! The displayed records and the selection among them.
//!
//! Records are stored oldest first and shown newest first. The selection is
//! kept as the identity of a record, never as a position: positions shift
//! whenever records arrive or a filter changes.

use vstd::prelude::*;
use crate::log_item::LogItem;

verus! {

/// The row of store index `i` in a newest-first display of `n` records.
/// The same formula maps a row back to its store index.
pub open spec fn visual_index(n: int, i: int) -> int {
    n - 1 - i
}

/// Store index of the newest record that carries `id`, or -1 if none does.
pub open spec fn newest_index_of(items: Seq<LogItem>, id: u128) -> int
    decreases items.len(),
{
    if items.len() == 0 {
        -1
    } else if items.last().id == id {
        items.len() - 1
    } else {
        newest_index_of(items.drop_last(), id)
    }
}

/// Whether some record of `items` carries `id`.
pub open spec fn has_id(items: Seq<LogItem>, id: u128) -> bool {
    newest_index_of(items, id) >= 0
}

/// The row that a selection by identity denotes, if the record is present.
pub open spec fn row_of(items: Seq<LogItem>, selected: Option<u128>) -> Option<int> {
    match selected {
        Some(id) => if has_id(items, id) {
            Some(visual_index(items.len() as int, newest_index_of(items, id)))
        } else {
            None
        },
        None => None,
    }
}

/// Identity of the record shown at `row`.
pub open spec fn id_at_row(items: Seq<LogItem>, row: int) -> u128
    recommends
        0 <= row < items.len(),
{
    items[visual_index(items.len() as int, row)].id
}

/// No two records share an identity.
pub open spec fn ids_distinct(items: Seq<LogItem>) -> bool {
    forall|i: int, j: int|
        0 <= i < items.len() && 0 <= j < items.len() && i != j ==> items[i].id != items[j].id
}

/// Which way a selection moves through the rows.
#[derive(Clone, Copy, Debug, PartialEq, Eq, Structural)]
pub enum Direction {
    /// Towards larger rows (older records).
    Next,
    /// Towards smaller rows (newer records).
    Previous,
}

/// What happens when a move would leave the list.
#[derive(Clone, Copy, Debug, PartialEq, Eq, Structural)]
pub enum WrapPolicy {
    /// Continue at the opposite end.
    Circular,
    /// Stay at the boundary.
    Clamped,
}

/// The two ends of the display.
#[derive(Clone, Copy, Debug, PartialEq, Eq, Structural)]
pub enum JumpTarget {
    /// Row 0, the newest record.
    First,
    /// The last row, the oldest record.
    Last,
}

/// The row reached from `current` by one step in a list of `len > 0` rows.
pub open spec fn moved_row(current: Option<int>, len: int, direction: Direction, wrap: WrapPolicy) -> int {
    match direction {
        Direction::Next => match current {
            None => 0,
            Some(i) => if i + 1 >= len {
                match wrap {
                    WrapPolicy::Circular => 0,
                    WrapPolicy::Clamped => len - 1,
                }
            } else {
                i + 1
            },
        },
        Direction::Previous => match current {
            None => match wrap {
                WrapPolicy::Circular => len - 1,
                WrapPolicy::Clamped => 0,
            },
            Some(i) => if i == 0 {
                match wrap {
                    WrapPolicy::Circular => len - 1,
                    WrapPolicy::Clamped => 0,
                }
            } else {
                i - 1
            },
        },
    }
}

/// The row at the given end of a list of `len > 0` rows.
pub open spec fn jump_row(len: int, target: JumpTarget) -> int {
    match target {
        JumpTarget::First => 0,
        JumpTarget::Last => len - 1,
    }
}

/// Applying the row mapping twice gives the index back, and the mapping stays
/// inside the list.
pub proof fn lemma_visual_index_involution(n: int, i: int)
    requires
        n >= 1,
        0 <= i < n,
    ensures
        0 <= visual_index(n, i) < n,
        visual_index(n, visual_index(n, i)) == i,
{
}

/// What `newest_index_of` finds: a record with that identity, newer than
/// every other record with it; and -1 exactly when no record has it.
pub proof fn lemma_newest_index_of(items: Seq<LogItem>, id: u128)
    ensures
        -1 <= newest_index_of(items, id) < items.len(),
        newest_index_of(items, id) >= 0 ==> items[newest_index_of(items, id)].id == id,
        forall|j: int| newest_index_of(items, id) < j < items.len() ==> items[j].id != id,
    decreases items.len(),
{
    if items.len() > 0 && items.last().id != id {
        lemma_newest_index_of(items.drop_last(), id);
        assert forall|j: int| newest_index_of(items, id) < j < items.len() implies items[j].id
            != id by {
            if j < items.len() - 1 {
                assert(items.drop_last()[j] == items[j]);
            }
        }
    }
}

/// With distinct identities, selecting the record shown at a row selects that row.
pub proof fn lemma_row_of_id_at_row(items: Seq<LogItem>, row: int)
    requires
        0 <= row < items.len(),
        ids_distinct(items),
    ensures
        row_of(items, Some(id_at_row(items, row))) == Some(row),
{
    let id = id_at_row(items, row);
    lemma_newest_index_of(items, id);
    let k = newest_index_of(items, id);
    let i = visual_index(items.len() as int, row);
    if k < i {
        assert(items[i].id != id);
    }
}

/// A record present in a list is found by its identity.
pub proof fn lemma_has_id_of_member(items: Seq<LogItem>, i: int)
    requires
        0 <= i < items.len(),
    ensures
        has_id(items, items[i].id),
{
    lemma_newest_index_of(items, items[i].id);
}

/// Maps a store index to its row, or a row to its store index.
pub fn to_visual(n: usize, i: usize) -> (v: usize)
    requires
        i < n,
    ensures
        v == visual_index(n as int, i as int),
        v < n,
{
    n - 1 - i
}

/// The displayed records, oldest first, with the identity of the selected one.
pub struct LogList {
    pub items: Vec<LogItem>,
    pub selected_id: Option<u128>,
}

impl LogList {
    /// The selected row, if the selected record is among the items.
    pub open spec fn selected_row(&self) -> Option<int> {
        row_of(self.items@, self.selected_id)
    }

    /// The selection is empty or names a record that is present.
    pub open spec fn selection_valid(&self) -> bool {
        self.selected_id is Some ==> has_id(self.items@, self.selected_id->0)
    }

    /// A list of `items` with nothing selected.
    pub fn new(items: Vec<LogItem>) -> (list: Self)
        ensures
            list.items == items,
            list.selected_id is None,
    {
        LogList { items, selected_id: None }
    }

    /// Store index of the newest record with `id`.
    pub fn find_newest(&self, id: u128) -> (found: Option<usize>)
        ensures
            match found {
                Some(i) => i as int == newest_index_of(self.items@, id),
                None => newest_index_of(self.items@, id) == -1,
            },
    {
        let mut i: usize = self.items.len();
        assert(self.items@.subrange(0, i as int) =~= self.items@);
        while i > 0
            invariant
                i <= self.items.len(),
                newest_index_of(self.items@, id) == newest_index_of(
                    self.items@.subrange(0, i as int),
                    id,
                ),
            decreases i,
        {
            let ghost prefix = self.items@.subrange(0, i as int);
            assert(prefix.last() == self.items@[i - 1]);
            assert(prefix.drop_last() =~= self.items@.subrange(0, i - 1));
            if self.items[i - 1].id == id {
                return Some(i - 1);
            }
            i -= 1;
        }
        assert(self.items@.subrange(0, 0).len() == 0);
        None
    }

    /// The selected row, or `None` when nothing is selected or the selected
    /// record is not among the items.
    pub fn selected(&self) -> (row: Option<usize>)
        ensures
            match row {
                Some(r) => self.selected_row() == Some(r as int) && r < self.items.len(),
                None => self.selected_row() is None,
            },
    {
        match self.selected_id {
            None => None,
            Some(id) => {
                proof {
                    lemma_newest_index_of(self.items@, id);
                }
                match self.find_newest(id) {
                    Some(i) => Some(to_visual(self.items.len(), i)),
                    None => None,
                }
            },
        }
    }

    /// Selects the record shown at `row`. A row beyond the last record is
    /// rejected and leaves the selection as it was.
    pub fn select_row(&mut self, row: usize) -> (accepted: bool)
        ensures
            accepted == (row < old(self).items.len()),
            final(self).items == old(self).items,
            accepted ==> final(self).selected_id == Some(id_at_row(old(self).items@, row as int)),
            accepted ==> final(self).selection_valid(),
            accepted && ids_distinct(old(self).items@) ==> final(self).selected_row() == Some(
                row as int,
            ),
            !accepted ==> final(self).selected_id == old(self).selected_id,
    {
        let n = self.items.len();
        if row < n {
            let i = to_visual(n, row);
            proof {
                lemma_has_id_of_member(self.items@, i as int);
                if ids_distinct(self.items@) {
                    lemma_row_of_id_at_row(self.items@, row as int);
                }
            }
            self.selected_id = Some(self.items[i].id);
            true
        } else {
            false
        }
    }

    /// Clears the selection.
    pub fn clear_selection(&mut self)
        ensures
            final(self).items == old(self).items,
            final(self).selected_id is None,
    {
        self.selected_id = None;
    }

    /// Moves the selection one row. With nothing selected, `Next` selects row
    /// 0, and `Previous` selects the last row when circular and row 0 when
    /// clamped. An empty list ends with nothing selected.
    pub fn move_selection(&mut self, direction: Direction, wrap: WrapPolicy)
        ensures
            final(self).items == old(self).items,
            old(self).items.len() == 0 ==> final(self).selected_id is None,
            old(self).items.len() > 0 ==> final(self).selected_id == Some(
                id_at_row(
                    old(self).items@,
                    moved_row(old(self).selected_row(), old(self).items.len() as int, direction, wrap),
                ),
            ),
            final(self).selection_valid(),
            old(self).items.len() > 0 && ids_distinct(old(self).items@)
                ==> final(self).selected_row() == Some(
                moved_row(old(self).selected_row(), old(self).items.len() as int, direction, wrap),
            ),
    {
        let len = self.items.len();
        if len == 0 {
            self.selected_id = None;
            return ;
        }
        let current = self.selected();
        let target: usize = match direction {
            Direction::Next => match current {
                None => 0,
                Some(i) => if i + 1 >= len {
                    match wrap {
                        WrapPolicy::Circular => 0,
                        WrapPolicy::Clamped => len - 1,
                    }
                } else {
                    i + 1
                },
            },
            Direction::Previous => match current {
                None => match wrap {
                    WrapPolicy::Circular => len - 1,
                    WrapPolicy::Clamped => 0,
                },
                Some(i) => if i == 0 {
                    match wrap {
                        WrapPolicy::Circular => len - 1,
                        WrapPolicy::Clamped => 0,
                    }
                } else {
                    i - 1
                },
            },
        };
        let accepted = self.select_row(target);
        assert(accepted);
    }

    /// Selects the first or the last row. An empty list ends with nothing selected.
    pub fn jump(&mut self, target: JumpTarget)
        ensures
            final(self).items == old(self).items,
            old(self).items.len() == 0 ==> final(self).selected_id is None,
            old(self).items.len() > 0 ==> final(self).selected_id == Some(
                id_at_row(old(self).items@, jump_row(old(self).items.len() as int, target)),
            ),
            final(self).selection_valid(),
            old(self).items.len() > 0 && ids_distinct(old(self).items@)
                ==> final(self).selected_row() == Some(
                jump_row(old(self).items.len() as int, target),
            ),
    {
        let len = self.items.len();
        if len == 0 {
            self.selected_id = None;
            return ;
        }
        let row: usize = match target {
            JumpTarget::First => 0,
            JumpTarget::Last => len - 1,
        };
        let accepted = self.select_row(row);
        assert(accepted);
    }

    /// One row further, continuing at row 0 after the last row.
    pub fn select_next_circular(&mut self)
        ensures
            final(self).items == old(self).items,
            old(self).items.len() == 0 ==> final(self).selected_id is None,
            old(self).items.len() > 0 ==> final(self).selected_id == Some(
                id_at_row(
                    old(self).items@,
                    moved_row(
                        old(self).selected_row(),
                        old(self).items.len() as int,
                        Direction::Next,
                        WrapPolicy::Circular,
                    ),
                ),
            ),
            final(self).selection_valid(),
    {
        self.move_selection(Direction::Next, WrapPolicy::Circular)
    }

    /// One row back, continuing at the last row before row 0.
    pub fn select_previous_circular(&mut self)
        ensures
            final(self).items == old(self).items,
            old(self).items.len() == 0 ==> final(self).selected_id is None,
            old(self).items.len() > 0 ==> final(self).selected_id == Some(
                id_at_row(
                    old(self).items@,
                    moved_row(
                        old(self).selected_row(),
                        old(self).items.len() as int,
                        Direction::Previous,
                        WrapPolicy::Circular,
                    ),
                ),
            ),
            final(self).selection_valid(),
    {
        self.move_selection(Direction::Previous, WrapPolicy::Circular)
    }

    /// One row further, staying at the last row.
    pub fn select_next(&mut self)
        ensures
            final(self).items == old(self).items,
            old(self).items.len() == 0 ==> final(self).selected_id is None,
            old(self).items.len() > 0 ==> final(self).selected_id == Some(
                id_at_row(
                    old(self).items@,
                    moved_row(
                        old(self).selected_row(),
                        old(self).items.len() as int,
                        Direction::Next,
                        WrapPolicy::Clamped,
                    ),
                ),
            ),
            final(self).selection_valid(),
    {
        self.move_selection(Direction::Next, WrapPolicy::Clamped)
    }

    /// One row back, staying at row 0.
    pub fn select_previous(&mut self)
        ensures
            final(self).items == old(self).items,
            old(self).items.len() == 0 ==> final(self).selected_id is None,
            old(self).items.len() > 0 ==> final(self).selected_id == Some(
                id_at_row(
                    old(self).items@,
                    moved_row(
                        old(self).selected_row(),
                        old(self).items.len() as int,
                        Direction::Previous,
                        WrapPolicy::Clamped,
                    ),
                ),
            ),
            final(self).selection_valid(),
    {
        self.move_selection(Direction::Previous, WrapPolicy::Clamped)
    }

    /// Selects row 0, the newest record.
    pub fn select_first(&mut self)
        ensures
            final(self).items == old(self).items,
            old(self).items.len() == 0 ==> final(self).selected_id is None,
            old(self).items.len() > 0 ==> final(self).selected_id == Some(
                id_at_row(old(self).items@, 0),
            ),
            final(self).selection_valid(),
    {
        self.jump(JumpTarget::First)
    }

    /// Selects the last row, the oldest record.
    pub fn select_last(&mut self)
        ensures
            final(self).items == old(self).items,
            old(self).items.len() == 0 ==> final(self).selected_id is None,
            old(self).items.len() > 0 ==> final(self).selected_id == Some(
                id_at_row(old(self).items@, old(self).items.len() - 1),
            ),
            final(self).selection_valid(),
    {
        self.jump(JumpTarget::Last)
    }
}

} // verus!
