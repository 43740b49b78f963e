//! The view over the record store: which records are shown, which one is
//! selected, and how far the display is scrolled.
//!
//! The store only grows, until it is cleared. The shown records are the
//! store or the part of it that passes the filter, in the order of the
//! store. Rows count from the newest record. Autoscroll is on while the
//! newest record is the selected one.

use vstd::prelude::*;
use vstd::string::*;
use crate::log_item::LogItem;
use crate::log_list::{
    has_id, id_at_row, jump_row, lemma_has_id_of_member, lemma_newest_index_of, moved_row,
    newest_index_of, Direction, JumpTarget, LogList, WrapPolicy,
};

verus! {

/// The records of `records` that pass a filter for `pattern`, in their order.
pub open spec fn matching(records: Seq<LogItem>, pattern: Seq<char>) -> Seq<LogItem>
    decreases records.len(),
{
    if records.len() == 0 {
        Seq::empty()
    } else {
        let head = matching(records.drop_last(), pattern);
        if records.last().matches(pattern) {
            head.push(records.last())
        } else {
            head
        }
    }
}

/// The records to show: all of them without a filter, else those that pass it.
pub open spec fn visible_of(records: Seq<LogItem>, filter: Seq<char>) -> Seq<LogItem> {
    if filter.len() == 0 {
        records
    } else {
        matching(records, filter)
    }
}

/// The largest scroll offset for `len` rows.
pub open spec fn max_offset(len: int) -> int {
    if len > 0 {
        len - 1
    } else {
        0
    }
}

/// `offset`, or the largest offset for `len` rows if that is smaller.
pub open spec fn clamped_offset(offset: int, len: int) -> int {
    if offset > max_offset(len) {
        max_offset(len)
    } else {
        offset
    }
}

/// Rows kept free between the selected row and the edge of a viewport, where
/// the viewport has room for them.
pub open spec fn edge_pad(height: int) -> int {
    if height >= 3 {
        1
    } else {
        0
    }
}

/// How far below the top row of a viewport the selected row may stand.
pub open spec fn reach(height: int) -> int {
    if height >= 1 {
        height - 1 - edge_pad(height)
    } else {
        0
    }
}

/// The scroll offset that shows row `selected`: `offset` if the row stands
/// inside the padded viewport, else the nearest offset that puts it on the
/// padded edge, never outside the list.
pub open spec fn visible_offset(selected: int, offset: int, height: int, len: int) -> int {
    let from = clamped_offset(offset, len);
    let pad = edge_pad(height);
    let moved = if selected < from + pad {
        if selected >= pad {
            selected - pad
        } else {
            0
        }
    } else if selected > from + reach(height) {
        selected - reach(height)
    } else {
        from
    };
    clamped_offset(moved, len)
}

/// The selection after the shown records changed: the selected record if it
/// is still shown; else, with autoscroll, the newest record; else none.
pub open spec fn reconciled(items: Seq<LogItem>, selected: Option<u128>, autoscroll: bool) -> Option<
    u128,
> {
    if selected is Some && has_id(items, selected->0) {
        selected
    } else if autoscroll && items.len() > 0 {
        Some(id_at_row(items, 0))
    } else {
        None
    }
}

/// The row that a click on screen row `row` means, if it lies on a record:
/// the scroll offset plus the distance of `row` from the top of the viewport.
pub open spec fn clicked_row(row: int, scroll_offset: int, viewport_top: int, len: int) -> Option<
    int,
> {
    if row >= viewport_top && scroll_offset + (row - viewport_top) < len {
        Some(scroll_offset + (row - viewport_top))
    } else {
        None
    }
}

/// The scroll offset after one step of the wheel.
pub open spec fn scrolled(offset: int, len: int, down: bool) -> int {
    if down {
        if offset >= max_offset(len) {
            offset
        } else {
            offset + 1
        }
    } else {
        if offset > 0 {
            offset - 1
        } else {
            0
        }
    }
}

/// The filter keeps records in the order of the store, keeps exactly those
/// that pass, and never shows more than the store holds.
pub proof fn lemma_matching(records: Seq<LogItem>, pattern: Seq<char>)
    ensures
        matching(records, pattern).len() <= records.len(),
        forall|k: int|
            0 <= k < matching(records, pattern).len() ==> (#[trigger] matching(
                records,
                pattern,
            )[k]).matches(pattern) && records.contains(matching(records, pattern)[k]),
        forall|i: int|
            0 <= i < records.len() && (#[trigger] records[i]).matches(pattern) ==> matching(
                records,
                pattern,
            ).contains(records[i]),
    decreases records.len(),
{
    if records.len() > 0 {
        let front = records.drop_last();
        let head = matching(front, pattern);
        let out = matching(records, pattern);
        lemma_matching(front, pattern);
        assert forall|k: int| 0 <= k < out.len() implies (#[trigger] out[k]).matches(pattern)
            && records.contains(out[k]) by {
            if k < head.len() {
                assert(out[k] == head[k]);
                let j = choose|j: int| 0 <= j < front.len() && front[j] == head[k];
                assert(records[j] == head[k]);
            } else {
                assert(out[k] == records.last());
                assert(records[records.len() - 1] == out[k]);
            }
        }
        assert forall|i: int| 0 <= i < records.len() && (#[trigger] records[i]).matches(
            pattern,
        ) implies out.contains(records[i]) by {
            if i < front.len() {
                assert(front[i] == records[i]);
                let k = choose|k: int| 0 <= k < head.len() && head[k] == front[i];
                assert(out[k] == records[i]);
            } else {
                assert(out[out.len() - 1] == records[i]);
            }
        }
    }
}

/// A restored selection is empty or names a shown record: it never points
/// at a record that is not there.
pub proof fn lemma_reconciled_valid(items: Seq<LogItem>, selected: Option<u128>, autoscroll: bool)
    ensures
        reconciled(items, selected, autoscroll) is Some ==> has_id(
            items,
            reconciled(items, selected, autoscroll)->0,
        ),
{
    if !(selected is Some && has_id(items, selected->0)) && autoscroll && items.len() > 0 {
        lemma_has_id_of_member(items, items.len() - 1);
    }
}

/// Records that arrive behind the shown ones leave the selection where it
/// is: a selected record that was shown stays selected.
pub proof fn lemma_selection_survives_append(
    items: Seq<LogItem>,
    arrived: Seq<LogItem>,
    id: u128,
    autoscroll: bool,
)
    requires
        has_id(items, id),
    ensures
        reconciled(items + arrived, Some(id), autoscroll) == Some(id),
{
    lemma_newest_index_of(items, id);
    let i = newest_index_of(items, id);
    assert((items + arrived)[i] == items[i]);
    lemma_has_id_of_member(items + arrived, i);
}

/// A filter that lets no record with the selected identity pass clears the
/// selection, or, with autoscroll, moves it to the newest shown record.
pub proof fn lemma_filter_drops_selection(
    records: Seq<LogItem>,
    filter: Seq<char>,
    id: u128,
    autoscroll: bool,
)
    requires
        filter.len() > 0,
        forall|i: int| 0 <= i < records.len() && records[i].id == id ==> !records[i].matches(filter),
    ensures
        reconciled(visible_of(records, filter), Some(id), autoscroll) == if autoscroll
            && visible_of(records, filter).len() > 0 {
            Some(id_at_row(visible_of(records, filter), 0))
        } else {
            None
        },
{
    let shown = matching(records, filter);
    lemma_matching(records, filter);
    lemma_newest_index_of(shown, id);
    if has_id(shown, id) {
        let k = newest_index_of(shown, id);
        assert(shown[k].matches(filter) && records.contains(shown[k]));
        let i = choose|i: int| 0 <= i < records.len() && records[i] == shown[k];
        assert(records[i].id == id);
    }
}

/// A filter that lets the selected record pass leaves it selected.
pub proof fn lemma_filter_keeps_selection(
    records: Seq<LogItem>,
    filter: Seq<char>,
    i: int,
    autoscroll: bool,
)
    requires
        0 <= i < records.len(),
        filter.len() == 0 || records[i].matches(filter),
    ensures
        reconciled(visible_of(records, filter), Some(records[i].id), autoscroll) == Some(
            records[i].id,
        ),
{
    if filter.len() == 0 {
        lemma_has_id_of_member(records, i);
    } else {
        let shown = matching(records, filter);
        lemma_matching(records, filter);
        assert(shown.contains(records[i]));
        let k = choose|k: int| 0 <= k < shown.len() && shown[k] == records[i];
        lemma_has_id_of_member(shown, k);
    }
}

/// The offset that shows the selected row lies inside the list; a row that
/// already stands inside the padded viewport leaves the offset alone; and
/// after the move the row stands inside the viewport, with the padding
/// wherever the list's ends allow it.
pub proof fn lemma_visible_offset(selected: int, offset: int, height: int, len: int)
    requires
        0 <= selected < len,
        0 <= offset,
        0 <= height,
    ensures
        0 <= visible_offset(selected, offset, height, len) <= max_offset(len),
        offset <= max_offset(len) && offset + edge_pad(height) <= selected <= offset + reach(height)
            ==> visible_offset(selected, offset, height, len) == offset,
        visible_offset(selected, offset, height, len) <= selected <= visible_offset(
            selected,
            offset,
            height,
            len,
        ) + reach(height),
        selected >= edge_pad(height) ==> visible_offset(selected, offset, height, len) + edge_pad(
            height,
        ) <= selected,
{
}

/// The records of the store, the shown ones with their selection, the scroll
/// offset of the display, and the filter in force.
pub struct Viewer {
    /// The record store, oldest first.
    pub raw_logs: Vec<LogItem>,
    /// The shown records and the selection.
    pub displaying_logs: LogList,
    /// The row at the top of the display.
    pub scroll_offset: usize,
    /// Whether the display follows the newest record.
    pub autoscroll: bool,
    /// The filter in force; empty for none.
    pub filter_input: String,
}

/// `post` is `pre` with the shown records rebuilt from the store and the
/// filter, and the selection restored by identity. Without autoscroll the
/// scroll offset moves with the rows that the filter lets in. With
/// autoscroll the flag is set anew from the restored selection.
pub open spec fn filter_applied(pre: Viewer, post: Viewer) -> bool {
    &&& post.raw_logs == pre.raw_logs
    &&& post.filter_input == pre.filter_input
    &&& post.shows_store()
    &&& post.displaying_logs.selected_id == reconciled(
        visible_of(pre.raw_logs@, pre.filter_input@),
        pre.displaying_logs.selected_id,
        pre.autoscroll,
    )
    &&& post.scroll_offset == clamped_offset(
        if !pre.autoscroll && post.displaying_logs.items@.len()
            >= pre.displaying_logs.items@.len() {
            pre.scroll_offset + (post.displaying_logs.items@.len()
                - pre.displaying_logs.items@.len())
        } else {
            pre.scroll_offset as int
        },
        post.displaying_logs.items@.len() as int,
    )
    &&& post.autoscroll == (pre.autoscroll && post.displaying_logs.selected_row() == Some(0int))
    &&& post.settled()
}

/// `post` is `pre` with `records` added to the store and shown if the filter
/// lets them pass, and the selection restored by identity. Without
/// autoscroll the scroll offset moves with the rows that came. With
/// autoscroll the flag is set anew from the restored selection.
pub open spec fn appended(pre: Viewer, post: Viewer, records: Vec<LogItem>) -> bool {
    &&& post.raw_logs@ == pre.raw_logs@ + records@
    &&& post.filter_input == pre.filter_input
    &&& post.shows_store()
    &&& post.scroll_offset == clamped_offset(
        if !pre.autoscroll && post.displaying_logs.items@.len()
            >= pre.displaying_logs.items@.len() {
            pre.scroll_offset + (post.displaying_logs.items@.len()
                - pre.displaying_logs.items@.len())
        } else {
            pre.scroll_offset as int
        },
        post.displaying_logs.items@.len() as int,
    )
    &&& post.displaying_logs.selected_id == reconciled(
        post.displaying_logs.items@,
        pre.displaying_logs.selected_id,
        pre.autoscroll,
    )
    &&& post.autoscroll == (pre.autoscroll && post.displaying_logs.selected_row() == Some(0int))
    &&& post.settled()
}

/// `post` is `pre` without a filter: the whole store is shown, the selection
/// is restored by identity, autoscroll is set anew from it, and the scroll
/// offset stays where the list allows it.
pub open spec fn filter_left(pre: Viewer, post: Viewer) -> bool {
    &&& post.raw_logs == pre.raw_logs
    &&& post.filter_input@.len() == 0
    &&& post.displaying_logs.items@ == pre.raw_logs@
    &&& post.displaying_logs.selected_id == reconciled(
        pre.raw_logs@,
        pre.displaying_logs.selected_id,
        pre.autoscroll,
    )
    &&& post.scroll_offset == clamped_offset(pre.scroll_offset as int, pre.raw_logs@.len() as int)
    &&& post.autoscroll == (post.displaying_logs.selected_row() == Some(0int))
    &&& post.settled()
}

/// `post` has nothing in store, nothing shown and no filter. Autoscroll is
/// as it was.
pub open spec fn cleared(pre: Viewer, post: Viewer) -> bool {
    &&& post.raw_logs@.len() == 0
    &&& post.displaying_logs.items@.len() == 0
    &&& post.displaying_logs.selected_id is None
    &&& post.filter_input@.len() == 0
    &&& post.scroll_offset == 0
    &&& post.autoscroll == pre.autoscroll
    &&& post.shows_store()
    &&& post.settled()
}

/// `post` is `pre` scrolled by the least amount that shows the selected row
/// inside a viewport of `viewport_height` rows. Autoscroll is untouched.
pub open spec fn selection_shown(pre: Viewer, post: Viewer, viewport_height: usize) -> bool {
    &&& post.raw_logs == pre.raw_logs
    &&& post.displaying_logs == pre.displaying_logs
    &&& post.filter_input == pre.filter_input
    &&& post.autoscroll == pre.autoscroll
    &&& post.scroll_offset == match pre.displaying_logs.selected_row() {
        Some(row) => visible_offset(
            row,
            pre.scroll_offset as int,
            viewport_height as int,
            pre.displaying_logs.items@.len() as int,
        ),
        None => clamped_offset(
            pre.scroll_offset as int,
            pre.displaying_logs.items@.len() as int,
        ),
    }
    &&& 0 <= post.scroll_offset <= max_offset(pre.displaying_logs.items@.len() as int)
}

/// `post` is `pre` after a click on screen row `row`: the record under it is
/// selected and autoscroll is set anew from the selection, or nothing changed
/// and the click is not accepted.
pub open spec fn clicked(
    pre: Viewer,
    post: Viewer,
    row: usize,
    viewport_top: usize,
    accepted: bool,
) -> bool {
    &&& post.raw_logs == pre.raw_logs
    &&& post.displaying_logs.items == pre.displaying_logs.items
    &&& post.filter_input == pre.filter_input
    &&& post.scroll_offset == pre.scroll_offset
    &&& match clicked_row(
        row as int,
        pre.scroll_offset as int,
        viewport_top as int,
        pre.displaying_logs.items@.len() as int,
    ) {
        Some(hit) => accepted && post.displaying_logs.selected_id == Some(
            id_at_row(pre.displaying_logs.items@, hit),
        ) && post.autoscroll == (post.displaying_logs.selected_row() == Some(0int)),
        None => !accepted && post.displaying_logs.selected_id
            == pre.displaying_logs.selected_id && post.autoscroll == pre.autoscroll,
    }
}

/// `post` is `pre` scrolled by one row, selection and autoscroll untouched.
pub open spec fn view_scrolled(pre: Viewer, post: Viewer, move_down: bool) -> bool {
    &&& post.raw_logs == pre.raw_logs
    &&& post.displaying_logs == pre.displaying_logs
    &&& post.filter_input == pre.filter_input
    &&& post.scroll_offset == scrolled(
        pre.scroll_offset as int,
        pre.displaying_logs.items@.len() as int,
        move_down,
    )
    &&& post.autoscroll == pre.autoscroll
}

/// `post` is `pre` with the selection moved by one row and shown, and
/// autoscroll set anew from the selection.
pub open spec fn selection_moved(
    pre: Viewer,
    post: Viewer,
    move_next: bool,
    circular: bool,
    viewport_height: usize,
) -> bool {
    &&& post.raw_logs == pre.raw_logs
    &&& post.displaying_logs.items == pre.displaying_logs.items
    &&& post.filter_input == pre.filter_input
    &&& pre.displaying_logs.items@.len() == 0 ==> post.displaying_logs.selected_id is None
    &&& pre.displaying_logs.items@.len() > 0 ==> post.displaying_logs.selected_id == Some(
        id_at_row(
            pre.displaying_logs.items@,
            moved_row(
                pre.displaying_logs.selected_row(),
                pre.displaying_logs.items@.len() as int,
                if move_next {
                    Direction::Next
                } else {
                    Direction::Previous
                },
                if circular {
                    WrapPolicy::Circular
                } else {
                    WrapPolicy::Clamped
                },
            ),
        ),
    )
    &&& post.scroll_offset == match post.displaying_logs.selected_row() {
        Some(row) => visible_offset(
            row,
            pre.scroll_offset as int,
            viewport_height as int,
            pre.displaying_logs.items@.len() as int,
        ),
        None => clamped_offset(
            pre.scroll_offset as int,
            pre.displaying_logs.items@.len() as int,
        ),
    }
    &&& post.autoscroll == (post.displaying_logs.selected_row() == Some(0int))
    &&& post.settled()
}

/// `post` is `pre` with the first or the last row selected and shown, and
/// autoscroll set anew from the selection.
pub open spec fn jumped(
    pre: Viewer,
    post: Viewer,
    target: JumpTarget,
    viewport_height: usize,
) -> bool {
    &&& post.raw_logs == pre.raw_logs
    &&& post.displaying_logs.items == pre.displaying_logs.items
    &&& post.filter_input == pre.filter_input
    &&& pre.displaying_logs.items@.len() == 0 ==> post.displaying_logs.selected_id is None
    &&& pre.displaying_logs.items@.len() > 0 ==> post.displaying_logs.selected_id == Some(
        id_at_row(
            pre.displaying_logs.items@,
            jump_row(pre.displaying_logs.items@.len() as int, target),
        ),
    )
    &&& post.scroll_offset == match post.displaying_logs.selected_row() {
        Some(row) => visible_offset(
            row,
            pre.scroll_offset as int,
            viewport_height as int,
            pre.displaying_logs.items@.len() as int,
        ),
        None => clamped_offset(
            pre.scroll_offset as int,
            pre.displaying_logs.items@.len() as int,
        ),
    }
    &&& post.autoscroll == (post.displaying_logs.selected_row() == Some(0int))
    &&& post.settled()
}

/// Copies the records that pass the filter, or all of them without a filter.
pub fn rebuild(records: &Vec<LogItem>, filter: &str) -> (visible: Vec<LogItem>)
    ensures
        visible@ == visible_of(records@, filter@),
{
    let unfiltered = filter.is_empty();
    let mut visible: Vec<LogItem> = Vec::new();
    let mut i: usize = 0;
    assert(records@.take(0) =~= Seq::<LogItem>::empty());
    while i < records.len()
        invariant
            i <= records@.len(),
            unfiltered == (filter@.len() == 0),
            unfiltered ==> visible@ == records@.take(i as int),
            !unfiltered ==> visible@ == matching(records@.take(i as int), filter@),
        decreases records@.len() - i,
    {
        let ghost next = records@.take(i + 1);
        assert(next.drop_last() =~= records@.take(i as int));
        assert(next.last() == records@[i as int]);
        if unfiltered || records[i].contains(filter) {
            visible.push(records[i].duplicate());
        }
        assert(unfiltered ==> visible@ =~= next);
        i += 1;
    }
    assert(records@.take(records@.len() as int) =~= records@);
    visible
}

/// Maps a clicked screen row to a row of the list. A click above the
/// viewport or below the last record gives `None`.
pub fn resolve_click(row: usize, scroll_offset: usize, viewport_top: usize, len: usize) -> (hit:
    Option<usize>)
    ensures
        match hit {
            Some(r) => clicked_row(row as int, scroll_offset as int, viewport_top as int, len as int)
                == Some(r as int) && r < len,
            None => clicked_row(row as int, scroll_offset as int, viewport_top as int, len as int)
                is None,
        },
{
    if row < viewport_top {
        return None;
    }
    let down = row - viewport_top;
    if scroll_offset < len && down < len - scroll_offset {
        Some(scroll_offset + down)
    } else {
        None
    }
}

impl Viewer {
    /// The shown records are those of the store that the filter lets pass.
    pub open spec fn shows_store(&self) -> bool {
        self.displaying_logs.items@ == visible_of(self.raw_logs@, self.filter_input@)
    }

    /// The selection names a shown record or is empty, and the scroll offset
    /// lies inside the list.
    pub open spec fn settled(&self) -> bool {
        &&& self.displaying_logs.selection_valid()
        &&& 0 <= self.scroll_offset <= max_offset(self.displaying_logs.items@.len() as int)
    }

    /// An empty store, nothing selected, following the newest record.
    pub fn new() -> (viewer: Self)
        ensures
            viewer.raw_logs@.len() == 0,
            viewer.displaying_logs.items@.len() == 0,
            viewer.displaying_logs.selected_id is None,
            viewer.scroll_offset == 0,
            viewer.autoscroll,
            viewer.filter_input@.len() == 0,
            viewer.shows_store(),
            viewer.settled(),
    {
        Viewer {
            raw_logs: Vec::new(),
            displaying_logs: LogList::new(Vec::new()),
            scroll_offset: 0,
            autoscroll: true,
            filter_input: String::new(),
        }
    }

    /// Sets autoscroll from the selection: it is on exactly while row 0, the
    /// newest record, is selected.
    pub fn update_autoscroll_state(&mut self)
        ensures
            final(self).autoscroll == (old(self).displaying_logs.selected_row() == Some(0int)),
            final(self).raw_logs == old(self).raw_logs,
            final(self).displaying_logs == old(self).displaying_logs,
            final(self).scroll_offset == old(self).scroll_offset,
            final(self).filter_input == old(self).filter_input,
    {
        self.autoscroll = match self.displaying_logs.selected() {
            Some(row) => row == 0,
            None => false,
        };
    }

    /// Restores the selection after the shown records were rebuilt:
    /// `old_selected_id` stays selected if its record is still shown; else
    /// the newest record is selected with autoscroll, and nothing without.
    /// Without autoscroll the scroll offset moves with the records that
    /// `old_visible_len` rows were joined by. With autoscroll the flag is set
    /// anew from the restored selection.
    pub fn reconcile_after_append(&mut self, old_selected_id: Option<u128>, old_visible_len: usize)
        ensures
            final(self).raw_logs == old(self).raw_logs,
            final(self).displaying_logs.items == old(self).displaying_logs.items,
            final(self).filter_input == old(self).filter_input,
            final(self).displaying_logs.selected_id == reconciled(
                old(self).displaying_logs.items@,
                old_selected_id,
                old(self).autoscroll,
            ),
            final(self).scroll_offset == clamped_offset(
                if !old(self).autoscroll && old(self).displaying_logs.items@.len()
                    >= old_visible_len {
                    old(self).scroll_offset + (old(self).displaying_logs.items@.len()
                        - old_visible_len)
                } else {
                    old(self).scroll_offset as int
                },
                old(self).displaying_logs.items@.len() as int,
            ),
            final(self).autoscroll == (old(self).autoscroll && final(self).displaying_logs.selected_row() == Some(0int)),
            final(self).settled(),
    {
        let len = self.displaying_logs.items.len();
        let kept = match old_selected_id {
            Some(id) => self.displaying_logs.find_newest(id).is_some(),
            None => false,
        };
        if kept {
            self.displaying_logs.selected_id = old_selected_id;
        } else if self.autoscroll && len > 0 {
            self.displaying_logs.select_first();
        } else {
            self.displaying_logs.clear_selection();
        }
        let limit = if len > 0 {
            len - 1
        } else {
            0
        };
        let wanted = if !self.autoscroll && len >= old_visible_len {
            let added = len - old_visible_len;
            if self.scroll_offset > limit || added > limit - self.scroll_offset {
                limit
            } else {
                self.scroll_offset + added
            }
        } else {
            self.scroll_offset
        };
        self.scroll_offset = if wanted > limit {
            limit
        } else {
            wanted
        };
        if self.autoscroll {
            self.update_autoscroll_state();
        }
    }

    /// Rebuilds the shown records from the store and the filter in force, and
    /// restores the selection by identity: a selected record that the filter
    /// removes is never left selected.
    pub fn apply_filter(&mut self)
        ensures
            filter_applied(*old(self), *final(self)),
    {
        let selected = self.displaying_logs.selected_id;
        let old_len = self.displaying_logs.items.len();
        let visible = rebuild(&self.raw_logs, self.filter_input.as_str());
        self.displaying_logs = LogList::new(visible);
        self.reconcile_after_append(selected, old_len);
    }

    /// Adds `records` to the store, rebuilds the shown records, and restores
    /// selection and scroll offset.
    pub fn append(&mut self, records: Vec<LogItem>)
        ensures
            appended(*old(self), *final(self), records),
    {
        let selected = self.displaying_logs.selected_id;
        let old_len = self.displaying_logs.items.len();
        let mut records = records;
        self.raw_logs.append(&mut records);
        let visible = rebuild(&self.raw_logs, self.filter_input.as_str());
        self.displaying_logs = LogList::new(visible);
        self.reconcile_after_append(selected, old_len);
    }

    /// Leaves the filter: every record of the store is shown again, and the
    /// selection stays with its record.
    pub fn exit_filter_mode(&mut self)
        ensures
            filter_left(*old(self), *final(self)),
    {
        let offset = self.scroll_offset;
        self.filter_input = String::new();
        self.apply_filter();
        let len = self.displaying_logs.items.len();
        self.scroll_offset = if len == 0 {
            0
        } else if offset > len - 1 {
            len - 1
        } else {
            offset
        };
        self.update_autoscroll_state();
    }

    /// Empties the store and the display and drops the filter.
    pub fn clear(&mut self)
        ensures
            cleared(*old(self), *final(self)),
    {
        self.raw_logs = Vec::new();
        self.displaying_logs = LogList::new(Vec::new());
        self.filter_input = String::new();
        self.scroll_offset = 0;
    }

    /// Scrolls by the least amount that shows the selected row inside a
    /// viewport of `viewport_height` rows, one row off its edge where the
    /// viewport has three rows or more. Without a selection the offset is
    /// only brought back inside the list.
    pub fn ensure_selection_visible(&mut self, viewport_height: usize)
        ensures
            selection_shown(*old(self), *final(self), viewport_height),
    {
        let len = self.displaying_logs.items.len();
        let limit = if len > 0 {
            len - 1
        } else {
            0
        };
        let from = if self.scroll_offset > limit {
            limit
        } else {
            self.scroll_offset
        };
        let moved = match self.displaying_logs.selected() {
            Some(row) => {
                let pad: usize = if viewport_height >= 3 {
                    1
                } else {
                    0
                };
                let reach: usize = if viewport_height >= 1 {
                    viewport_height - 1 - pad
                } else {
                    0
                };
                if row < from + pad {
                    if row >= pad {
                        row - pad
                    } else {
                        0
                    }
                } else if row - from > reach {
                    row - reach
                } else {
                    from
                }
            },
            None => from,
        };
        self.scroll_offset = if moved > limit {
            limit
        } else {
            moved
        };
    }

    /// Selects the record under a click on screen row `row`, where
    /// `viewport_top` is the screen row of the first shown row. A click that
    /// lies on no record changes nothing.
    pub fn click(&mut self, row: usize, viewport_top: usize) -> (accepted: bool)
        ensures
            clicked(*old(self), *final(self), row, viewport_top, accepted),
    {
        match resolve_click(row, self.scroll_offset, viewport_top, self.displaying_logs.items.len()) {
            Some(hit) => {
                let accepted = self.displaying_logs.select_row(hit);
                self.update_autoscroll_state();
                accepted
            },
            None => false,
        }
    }

    /// Scrolls the display by one row without touching the selection or
    /// autoscroll. The display stops at its first and at its last row.
    pub fn handle_logs_view_scrolling(&mut self, move_down: bool)
        ensures
            view_scrolled(*old(self), *final(self), move_down),
    {
        let len = self.displaying_logs.items.len();
        let limit = if len > 0 {
            len - 1
        } else {
            0
        };
        if move_down {
            if self.scroll_offset < limit {
                self.scroll_offset = self.scroll_offset + 1;
            }
        } else {
            if self.scroll_offset > 0 {
                self.scroll_offset = self.scroll_offset - 1;
            }
        }
    }

    /// Moves the selection by one row and scrolls so that it is shown.
    pub fn handle_log_item_scrolling(&mut self, move_next: bool, circular: bool, viewport_height: usize)
        ensures
            selection_moved(*old(self), *final(self), move_next, circular, viewport_height),
    {
        let direction = if move_next {
            Direction::Next
        } else {
            Direction::Previous
        };
        let wrap = if circular {
            WrapPolicy::Circular
        } else {
            WrapPolicy::Clamped
        };
        self.displaying_logs.move_selection(direction, wrap);
        self.update_autoscroll_state();
        self.ensure_selection_visible(viewport_height);
    }

    /// Selects the first or the last row and scrolls so that it is shown.
    pub fn jump(&mut self, target: JumpTarget, viewport_height: usize)
        ensures
            jumped(*old(self), *final(self), target, viewport_height),
    {
        self.displaying_logs.jump(target);
        self.update_autoscroll_state();
        self.ensure_selection_visible(viewport_height);
    }

    /// The selected record, if there is one among the shown records.
    pub fn selected_item(&self) -> (item: Option<&LogItem>)
        ensures
            match item {
                Some(it) => self.displaying_logs.selected_id is Some && has_id(
                    self.displaying_logs.items@,
                    self.displaying_logs.selected_id->0,
                ) && *it == self.displaying_logs.items@[newest_index_of(
                    self.displaying_logs.items@,
                    self.displaying_logs.selected_id->0,
                )],
                None => self.displaying_logs.selected_row() is None,
            },
    {
        match self.displaying_logs.selected_id {
            Some(id) => match self.displaying_logs.find_newest(id) {
                Some(i) => {
                    proof {
                        lemma_newest_index_of(self.displaying_logs.items@, id);
                    }
                    Some(&self.displaying_logs.items[i])
                },
                None => None,
            },
            None => None,
        }
    }

    /// What a scrollbar shows: the number of rows and the position among
    /// them. An empty list counts as one row, so that the bar is full.
    pub fn scrollbar_summary(&self) -> (summary: (usize, usize))
        ensures
            self.displaying_logs.items@.len() > 0 ==> summary == (
                self.displaying_logs.items@.len() as usize,
                self.scroll_offset,
            ),
            self.displaying_logs.items@.len() == 0 ==> summary == (1usize, 0usize),
    {
        let len = self.displaying_logs.items.len();
        if len > 0 {
            (len, self.scroll_offset)
        } else {
            (1, 0)
        }
    }
}

} // verus!
