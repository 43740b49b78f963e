//! A framed panel of the screen: what it holds, how far it is scrolled, and
//! whether the mouse is over it.

use vstd::prelude::*;
use crate::log_item::fresh_id;
use crate::viewer::scrolled;

verus! {

/// A rectangle of the screen, in cells.
#[derive(Clone, Copy, Debug, PartialEq, Eq, Structural)]
pub struct Area {
    pub x: u16,
    pub y: u16,
    pub width: u16,
    pub height: u16,
}

/// Free cells inside the frame of a panel.
#[derive(Clone, Copy, Debug, PartialEq, Eq, Structural)]
pub struct Padding {
    pub left: u16,
    pub right: u16,
    pub top: u16,
    pub bottom: u16,
}

/// What the mouse did.
#[derive(Clone, Copy, Debug, PartialEq, Eq, Structural)]
pub enum MouseKind {
    Moved,
    ScrollDown,
    ScrollUp,
    LeftUp,
    Other,
}

/// A mouse event: what happened, and in which cell.
#[derive(Clone, Copy, Debug, PartialEq, Eq, Structural)]
pub struct MouseInput {
    pub kind: MouseKind,
    pub column: u16,
    pub row: u16,
}

/// What a scrollbar shows: how many rows there are, and the position among them.
#[derive(Clone, Copy, Debug, PartialEq, Eq, Structural)]
pub struct ScrollbarSummary {
    pub content_length: usize,
    pub position: usize,
}

/// A panel of the screen.
pub struct AppBlock {
    pub id: u128,
    pub title: Option<String>,
    pub lines_count: usize,
    pub scroll_position: usize,
    pub scrollbar_state: ScrollbarSummary,
    pub padding: Option<Padding>,
}

impl Area {
    /// The column behind the rectangle, at most the last column there is.
    pub open spec fn right(&self) -> int {
        if self.x + self.width > u16::MAX {
            u16::MAX as int
        } else {
            self.x + self.width
        }
    }

    /// The row below the rectangle, at most the last row there is.
    pub open spec fn bottom(&self) -> int {
        if self.y + self.height > u16::MAX {
            u16::MAX as int
        } else {
            self.y + self.height
        }
    }

    /// Whether the cell lies inside the rectangle.
    pub open spec fn holds(&self, column: u16, row: u16) -> bool {
        self.x <= column < self.right() && self.y <= row < self.bottom()
    }

    /// Whether the cell lies inside the rectangle.
    pub fn contains(&self, column: u16, row: u16) -> (inside: bool)
        ensures
            inside == self.holds(column, row),
    {
        column >= self.x && column < self.x.saturating_add(self.width) && row >= self.y && row
            < self.y.saturating_add(self.height)
    }
}

impl Padding {
    /// The same padding left and right, none above and below.
    pub fn horizontal(value: u16) -> (padding: Self)
        ensures
            padding == (Padding { left: value, right: value, top: 0, bottom: 0 }),
    {
        Padding { left: value, right: value, top: 0, bottom: 0 }
    }
}

/// What a scrollbar shows for `total_items` rows: the position asked for, or
/// 0 where none is given. No rows count as one row at position 0.
pub open spec fn summary_for(total_items: usize, selected_index: Option<usize>) -> ScrollbarSummary {
    if total_items > 0 {
        ScrollbarSummary {
            content_length: total_items,
            position: match selected_index {
                Some(i) => i,
                None => 0,
            },
        }
    } else {
        ScrollbarSummary { content_length: 1, position: 0 }
    }
}

/// `post` is `pre` scrolled by one line, stopped at its first and at its
/// last line, with the scrollbar following.
pub open spec fn block_scrolled(pre: AppBlock, post: AppBlock, move_next: bool) -> bool {
    &&& post.scroll_position == scrolled(
        pre.scroll_position as int,
        pre.lines_count as int,
        move_next,
    )
    &&& post.scrollbar_state == summary_for(pre.lines_count, Some(post.scroll_position))
    &&& post.id == pre.id
    &&& post.title == pre.title
    &&& post.lines_count == pre.lines_count
    &&& post.padding == pre.padding
}

impl AppBlock {
    /// An empty panel with a new identity, without title or padding.
    pub fn new() -> (block: Self)
        ensures
            block.title is None,
            block.lines_count == 0,
            block.scroll_position == 0,
            block.scrollbar_state == (ScrollbarSummary { content_length: 0, position: 0 }),
            block.padding is None,
    {
        AppBlock::with_id(fresh_id())
    }

    /// The empty panel with the identity `id`, without title or padding.
    pub fn with_id(id: u128) -> (block: Self)
        ensures
            block.id == id,
            block.title is None,
            block.lines_count == 0,
            block.scroll_position == 0,
            block.scrollbar_state == (ScrollbarSummary { content_length: 0, position: 0 }),
            block.padding is None,
    {
        AppBlock {
            id,
            title: None,
            lines_count: 0,
            scroll_position: 0,
            scrollbar_state: ScrollbarSummary { content_length: 0, position: 0 },
            padding: None,
        }
    }

    /// The panel with a title.
    pub fn set_title(self, title: String) -> (block: Self)
        ensures
            block.title == Some(title),
            block.id == self.id,
            block.lines_count == self.lines_count,
            block.scroll_position == self.scroll_position,
            block.scrollbar_state == self.scrollbar_state,
            block.padding == self.padding,
    {
        let mut block = self;
        block.title = Some(title);
        block
    }

    /// The panel with a padding.
    pub fn set_padding(self, padding: Padding) -> (block: Self)
        ensures
            block.padding == Some(padding),
            block.id == self.id,
            block.title == self.title,
            block.lines_count == self.lines_count,
            block.scroll_position == self.scroll_position,
            block.scrollbar_state == self.scrollbar_state,
    {
        let mut block = self;
        block.padding = Some(padding);
        block
    }

    /// Replaces the title.
    pub fn update_title(&mut self, title: String)
        ensures
            final(self).title == Some(title),
            final(self).id == old(self).id,
            final(self).lines_count == old(self).lines_count,
            final(self).scroll_position == old(self).scroll_position,
            final(self).scrollbar_state == old(self).scrollbar_state,
            final(self).padding == old(self).padding,
    {
        self.title = Some(title);
    }

    /// The identity of the panel.
    pub fn id(&self) -> (id: u128)
        ensures
            id == self.id,
    {
        self.id
    }

    /// Sets what the scrollbar shows.
    pub fn update_scrollbar_state(&mut self, total_items: usize, selected_index: Option<usize>)
        ensures
            final(self).scrollbar_state == summary_for(total_items, selected_index),
            final(self).id == old(self).id,
            final(self).title == old(self).title,
            final(self).lines_count == old(self).lines_count,
            final(self).scroll_position == old(self).scroll_position,
            final(self).padding == old(self).padding,
    {
        if total_items > 0 {
            let position = match selected_index {
                Some(i) => i,
                None => 0,
            };
            self.scrollbar_state = ScrollbarSummary { content_length: total_items, position };
        } else {
            self.scrollbar_state = ScrollbarSummary { content_length: 1, position: 0 };
        }
    }

    /// Sets the number of lines the panel holds.
    pub fn set_lines_count(&mut self, lines_count: usize)
        ensures
            final(self).lines_count == lines_count,
            final(self).id == old(self).id,
            final(self).title == old(self).title,
            final(self).scroll_position == old(self).scroll_position,
            final(self).scrollbar_state == old(self).scrollbar_state,
            final(self).padding == old(self).padding,
    {
        self.lines_count = lines_count;
    }

    /// The number of lines the panel holds.
    pub fn get_lines_count(&self) -> (count: usize)
        ensures
            count == self.lines_count,
    {
        self.lines_count
    }

    /// Sets the line at the top of the panel.
    pub fn set_scroll_position(&mut self, scroll_position: usize)
        ensures
            final(self).scroll_position == scroll_position,
            final(self).id == old(self).id,
            final(self).title == old(self).title,
            final(self).lines_count == old(self).lines_count,
            final(self).scrollbar_state == old(self).scrollbar_state,
            final(self).padding == old(self).padding,
    {
        self.scroll_position = scroll_position;
    }

    /// The line at the top of the panel.
    pub fn get_scroll_position(&self) -> (position: usize)
        ensures
            position == self.scroll_position,
    {
        self.scroll_position
    }

    /// What the scrollbar shows.
    pub fn get_scrollbar_state(&self) -> (summary: ScrollbarSummary)
        ensures
            summary == self.scrollbar_state,
    {
        self.scrollbar_state
    }

    /// Scrolls the panel by one line and stops at its first and at its last
    /// line. The scrollbar follows.
    pub fn scroll(&mut self, move_next: bool)
        ensures
            block_scrolled(*old(self), *final(self), move_next),
    {
        let limit = if self.lines_count > 0 {
            self.lines_count - 1
        } else {
            0
        };
        if move_next {
            if self.scroll_position < limit {
                self.scroll_position = self.scroll_position + 1;
            }
        } else {
            if self.scroll_position > 0 {
                self.scroll_position = self.scroll_position - 1;
            }
        }
        let position = self.scroll_position;
        self.update_scrollbar_state(self.lines_count, Some(position));
    }

    /// Whether the panel takes the focus: the mouse moved, and it is over
    /// `inner_area`, the inside of the panel's frame.
    pub fn handle_mouse_event(&self, inner_area: Area, mouse_event: Option<MouseInput>) -> (hover:
        bool)
        ensures
            hover == match mouse_event {
                Some(event) => inner_area.holds(event.column, event.row) && event.kind
                    == MouseKind::Moved,
                None => false,
            },
    {
        match mouse_event {
            Some(event) => inner_area.contains(event.column, event.row) && matches!(
                event.kind,
                MouseKind::Moved
            ),
            None => false,
        }
    }
}

} // verus!
