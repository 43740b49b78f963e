//! The state of the program between two events, and what each command does
//! to it. Reading the file, the keyboard and the mouse, drawing, and the
//! clipboard are the caller's part.

use vstd::prelude::*;
use vstd::string::*;
use crate::app_block::{block_scrolled, AppBlock, Area, MouseInput, MouseKind, Padding};
use crate::log_item::{decimal, decimal_text, preview_text, yank_text, LogItem};
use crate::log_list::{has_id, newest_index_of, visual_index, JumpTarget};
use crate::metadata::FileTracker;
use crate::theme::{level_style, style_of_level, LevelStyle};
use crate::viewer::{
    cleared, clicked, filter_applied, filter_left, jumped, selection_moved, view_scrolled, Viewer,
};

verus! {

/// The panels of the screen.
#[derive(Clone, Copy, Debug, PartialEq, Eq, Structural)]
pub enum Panel {
    Logs,
    Details,
    Debug,
}

/// The keys that mean something.
#[derive(Clone, Copy, Debug, PartialEq, Eq, Structural)]
pub enum KeyCode {
    Char(char),
    Esc,
    Enter,
    Backspace,
    Up,
    Down,
    Other,
}

/// A key event.
#[derive(Clone, Copy, Debug, PartialEq, Eq, Structural)]
pub struct KeyInput {
    pub code: KeyCode,
    /// Whether the control key is held.
    pub control: bool,
    /// Whether the key went down; releases and repeats mean nothing.
    pub press: bool,
}

/// What a key asks for.
#[derive(Clone, Copy, Debug, PartialEq, Eq, Structural)]
pub enum Command {
    Ignore,
    CancelFilter,
    ApplyFilter,
    TypeFilter(char),
    EraseFilter,
    Quit,
    Collapse,
    Clear,
    SelectNext,
    SelectPrevious,
    SelectFirst,
    SelectLast,
    StartFilter,
    LessDetail,
    MoreDetail,
    Yank,
}

/// The largest level of detail of a preview.
pub const MAX_DETAIL: u8 = 4;

/// What a key asks for. While a filter is typed, keys edit it; otherwise
/// they navigate.
pub open spec fn command_for(key: KeyInput, filter_mode: bool) -> Command {
    if !key.press {
        Command::Ignore
    } else if filter_mode {
        match key.code {
            KeyCode::Esc => Command::CancelFilter,
            KeyCode::Enter => Command::ApplyFilter,
            KeyCode::Char(c) => Command::TypeFilter(c),
            KeyCode::Backspace => Command::EraseFilter,
            _ => Command::Ignore,
        }
    } else {
        match key.code {
            KeyCode::Esc => Command::Quit,
            KeyCode::Down => Command::SelectNext,
            KeyCode::Up => Command::SelectPrevious,
            KeyCode::Char(c) => if c == 'q' {
                Command::Quit
            } else if c == 'c' {
                if key.control {
                    Command::Quit
                } else {
                    Command::Collapse
                }
            } else if c == 'x' {
                Command::Clear
            } else if c == 'j' {
                Command::SelectNext
            } else if c == 'k' {
                Command::SelectPrevious
            } else if c == 'g' {
                Command::SelectFirst
            } else if c == 'G' {
                Command::SelectLast
            } else if c == 'f' || c == '/' {
                Command::StartFilter
            } else if c == '[' {
                Command::LessDetail
            } else if c == ']' {
                Command::MoreDetail
            } else if c == 'y' {
                Command::Yank
            } else {
                Command::Ignore
            },
            _ => Command::Ignore,
        }
    }
}

/// Reads a key as a command.
pub fn decode_key(key: KeyInput, filter_mode: bool) -> (command: Command)
    ensures
        command == command_for(key, filter_mode),
{
    if !key.press {
        Command::Ignore
    } else if filter_mode {
        match key.code {
            KeyCode::Esc => Command::CancelFilter,
            KeyCode::Enter => Command::ApplyFilter,
            KeyCode::Char(c) => Command::TypeFilter(c),
            KeyCode::Backspace => Command::EraseFilter,
            _ => Command::Ignore,
        }
    } else {
        match key.code {
            KeyCode::Esc => Command::Quit,
            KeyCode::Down => Command::SelectNext,
            KeyCode::Up => Command::SelectPrevious,
            KeyCode::Char(c) => if c == 'q' {
                Command::Quit
            } else if c == 'c' {
                if key.control {
                    Command::Quit
                } else {
                    Command::Collapse
                }
            } else if c == 'x' {
                Command::Clear
            } else if c == 'j' {
                Command::SelectNext
            } else if c == 'k' {
                Command::SelectPrevious
            } else if c == 'g' {
                Command::SelectFirst
            } else if c == 'G' {
                Command::SelectLast
            } else if c == 'f' || c == '/' {
                Command::StartFilter
            } else if c == '[' {
                Command::LessDetail
            } else if c == ']' {
                Command::MoreDetail
            } else if c == 'y' {
                Command::Yank
            } else {
                Command::Ignore
            },
            _ => Command::Ignore,
        }
    }
}

/// The state of the program.
pub struct App {
    pub should_exit: bool,
    /// The record store and the view over it.
    pub viewer: Viewer,
    /// What is known of the log file.
    pub tracker: FileTracker,
    /// Whether a filter is being typed.
    pub filter_mode: bool,
    /// Level of detail of the previews, from 0 to `MAX_DETAIL`.
    pub detail_level: u8,
    /// The panel that has the focus.
    pub focused: Option<Panel>,
    pub logs_block: AppBlock,
    pub details_block: AppBlock,
    pub debug_block: AppBlock,
    /// The record that the details panel showed last.
    pub prev_selected_log_id: Option<u128>,
    /// Rows of the logs panel when it was drawn last.
    pub viewport_height: usize,
}

/// The title of the logs panel.
pub open spec fn logs_title_text(detail_level: u8) -> Seq<char> {
    "LOGS | Detail Level: "@ + decimal_text(detail_level as nat)
}

/// The line at the head of the screen.
pub open spec fn header_text(autoscroll: bool) -> Seq<char> {
    "Termlog | Autoscroll: "@ + if autoscroll {
        " ON"@
    } else {
        " OFF"@
    }
}

/// The line at the foot of the screen: the filter while one is typed, else
/// the keys.
pub open spec fn footer_text(filter_mode: bool, filter: Seq<char>) -> Seq<char> {
    if filter_mode {
        "Filter: "@ + filter + " (Press Enter to apply, Esc to cancel)"@
    } else {
        "jk↑↓: nav | gG: top/bottom | f/: filter | []: detail | y: yank | JK: scroll focused | x: clear | c: collapse | q: quit"@
    }
}

/// `count` spaces.
pub open spec fn spaces(count: int) -> Seq<char> {
    Seq::new(
        if count > 0 {
            count as nat
        } else {
            0
        },
        |i: int| ' ',
    )
}

/// A row of the logs panel: the preview behind a mark for the selected row,
/// which is filled with spaces to the width of the panel.
pub open spec fn row_text(preview: Seq<char>, selected: bool, width: int) -> Seq<char> {
    if selected {
        "> "@ + preview + spaces(width - ("> "@ + preview).len())
    } else {
        "  "@ + preview
    }
}

/// A row of the logs panel.
pub struct LogRow {
    pub text: String,
    pub style: LevelStyle,
    pub selected: bool,
}

/// Row `row` of the logs panel shows the record at that row.
pub open spec fn row_shows(app: App, width: usize, row: int, shown: LogRow) -> bool {
    let items = app.viewer.displaying_logs.items@;
    let item = items[visual_index(items.len() as int, row)];
    &&& shown.selected == (app.viewer.displaying_logs.selected_row() == Some(row))
    &&& shown.style == style_of_level(item.level@)
    &&& shown.text@ == row_text(
        preview_text(item.text(), item.folded_count, app.detail_level),
        shown.selected,
        width as int,
    )
}

/// The filter being typed: with `c` behind it, or without its last character.
pub open spec fn filter_edited(pre: App, post: App, filter: Seq<char>) -> bool {
    &&& post.viewer.filter_input@ == filter
    &&& post.viewer.raw_logs == pre.viewer.raw_logs
    &&& post.viewer.displaying_logs == pre.viewer.displaying_logs
    &&& post.viewer.scroll_offset == pre.viewer.scroll_offset
    &&& post.viewer.autoscroll == pre.viewer.autoscroll
    &&& post.filter_mode == pre.filter_mode
    &&& post.detail_level == pre.detail_level
    &&& post.should_exit == pre.should_exit
}

/// Nothing but the viewer, the mode, the level of detail and the wish to
/// leave differs.
pub open spec fn frame_kept(pre: App, post: App) -> bool {
    &&& post.tracker == pre.tracker
    &&& post.focused == pre.focused
    &&& post.logs_block == pre.logs_block
    &&& post.details_block == pre.details_block
    &&& post.debug_block == pre.debug_block
    &&& post.prev_selected_log_id == pre.prev_selected_log_id
    &&& post.viewport_height == pre.viewport_height
}

/// What is copied on a yank: the text of the selected record, if one is shown.
pub open spec fn yanked(viewer: Viewer) -> Option<Seq<char>> {
    match viewer.displaying_logs.selected_id {
        Some(id) => if has_id(viewer.displaying_logs.items@, id) {
            Some(
                yank_text(
                    viewer.displaying_logs.items@[newest_index_of(
                        viewer.displaying_logs.items@,
                        id,
                    )].text(),
                ),
            )
        } else {
            None
        },
        None => None,
    }
}

/// What a command does to the state, and what it hands out to be copied.
pub open spec fn applied(pre: App, post: App, command: Command, copied: Option<String>) -> bool {
    &&& frame_kept(pre, post)
    &&& match copied {
        Some(text) => command == Command::Yank && yanked(pre.viewer) == Some(text@),
        None => command == Command::Yank ==> yanked(pre.viewer) is None,
    }
    &&& match command {
        Command::Ignore | Command::Collapse | Command::Yank => post == pre,
        Command::Quit => post.should_exit && post.viewer == pre.viewer && post.filter_mode
            == pre.filter_mode && post.detail_level == pre.detail_level,
        Command::CancelFilter => filter_left(pre.viewer, post.viewer) && !post.filter_mode
            && post.detail_level == pre.detail_level && post.should_exit == pre.should_exit,
        Command::ApplyFilter => filter_applied(pre.viewer, post.viewer) && !post.filter_mode
            && post.detail_level == pre.detail_level && post.should_exit == pre.should_exit,
        Command::TypeFilter(c) => filter_edited(pre, post, pre.viewer.filter_input@.push(c)),
        Command::EraseFilter => filter_edited(
            pre,
            post,
            if pre.viewer.filter_input@.len() > 0 {
                pre.viewer.filter_input@.drop_last()
            } else {
                pre.viewer.filter_input@
            },
        ),
        Command::Clear => cleared(pre.viewer, post.viewer) && post.filter_mode == pre.filter_mode
            && post.detail_level == pre.detail_level && post.should_exit == pre.should_exit,
        Command::SelectNext => selection_moved(
            pre.viewer,
            post.viewer,
            true,
            true,
            pre.viewport_height,
        ) && post.filter_mode == pre.filter_mode && post.detail_level == pre.detail_level
            && post.should_exit == pre.should_exit,
        Command::SelectPrevious => selection_moved(
            pre.viewer,
            post.viewer,
            false,
            true,
            pre.viewport_height,
        ) && post.filter_mode == pre.filter_mode && post.detail_level == pre.detail_level
            && post.should_exit == pre.should_exit,
        Command::SelectFirst => jumped(
            pre.viewer,
            post.viewer,
            JumpTarget::First,
            pre.viewport_height,
        ) && post.filter_mode == pre.filter_mode && post.detail_level == pre.detail_level
            && post.should_exit == pre.should_exit,
        Command::SelectLast => jumped(
            pre.viewer,
            post.viewer,
            JumpTarget::Last,
            pre.viewport_height,
        ) && post.filter_mode == pre.filter_mode && post.detail_level == pre.detail_level
            && post.should_exit == pre.should_exit,
        Command::StartFilter => post.filter_mode && post.viewer.filter_input@.len() == 0
            && post.viewer.raw_logs == pre.viewer.raw_logs && post.viewer.displaying_logs
            == pre.viewer.displaying_logs && post.viewer.scroll_offset == pre.viewer.scroll_offset
            && post.viewer.autoscroll == pre.viewer.autoscroll && post.detail_level
            == pre.detail_level && post.should_exit == pre.should_exit,
        Command::LessDetail => post.viewer == pre.viewer && post.filter_mode == pre.filter_mode
            && post.should_exit == pre.should_exit && post.detail_level == if pre.detail_level > 0 {
            (pre.detail_level - 1) as u8
        } else {
            pre.detail_level
        },
        Command::MoreDetail => post.viewer == pre.viewer && post.filter_mode == pre.filter_mode
            && post.should_exit == pre.should_exit && post.detail_level == if pre.detail_level
            < MAX_DETAIL {
            (pre.detail_level + 1) as u8
        } else {
            pre.detail_level
        },
    }
}

/// The state as a key finds it. Outside filter mode a key that goes down
/// first sets autoscroll from the selection.
pub open spec fn before_key(app: App, key: KeyInput) -> App {
    if key.press && !app.filter_mode {
        App {
            viewer: Viewer {
                autoscroll: app.viewer.displaying_logs.selected_row() == Some(0int),
                ..app.viewer
            },
            ..app
        }
    } else {
        app
    }
}

impl App {
    /// The state at the start: nothing read, following the newest record,
    /// previews with the time, the logs panel in focus.
    pub fn new() -> (app: Self)
        ensures
            !app.should_exit,
            app.viewer.raw_logs@.len() == 0,
            app.viewer.shows_store(),
            app.viewer.settled(),
            app.viewer.autoscroll,
            app.viewer.filter_input@.len() == 0,
            app.tracker.last_len == 0,
            app.tracker.prev_meta is None,
            !app.filter_mode,
            app.detail_level == 1,
            app.focused == Some(Panel::Logs),
            app.logs_block.title is Some && app.logs_block.title->0@ == "LOGS"@,
            app.details_block.title is Some && app.details_block.title->0@ == "LOG DETAILS"@,
            app.debug_block.title is Some && app.debug_block.title->0@ == "DEBUG LOGS"@,
            app.logs_block.padding is None,
            app.details_block.padding == Some(Padding { left: 1, right: 1, top: 0, bottom: 0 }),
            app.debug_block.padding == Some(Padding { left: 1, right: 1, top: 0, bottom: 0 }),
            app.prev_selected_log_id is None,
            app.viewport_height == 0,
    {
        App {
            should_exit: false,
            viewer: Viewer::new(),
            tracker: FileTracker::new(),
            filter_mode: false,
            detail_level: 1,
            focused: Some(Panel::Logs),
            logs_block: AppBlock::new().set_title("LOGS".to_owned()),
            details_block: AppBlock::new().set_title("LOG DETAILS".to_owned()).set_padding(
                Padding::horizontal(1),
            ),
            debug_block: AppBlock::new().set_title("DEBUG LOGS".to_owned()).set_padding(
                Padding::horizontal(1),
            ),
            prev_selected_log_id: None,
            viewport_height: 0,
        }
    }

    /// The text to copy for the selected record, if one is shown.
    pub fn yank_current_log(&self) -> (copied: Option<String>)
        ensures
            match copied {
                Some(text) => yanked(self.viewer) == Some(text@),
                None => yanked(self.viewer) is None,
            },
    {
        match self.viewer.selected_item() {
            Some(item) => Some(item.make_yank_content()),
            None => None,
        }
    }

    /// Carries out a command. A yank hands out the text to copy.
    pub fn apply(&mut self, command: Command) -> (copied: Option<String>)
        ensures
            applied(*old(self), *final(self), command, copied),
    {
        match command {
            Command::Ignore | Command::Collapse => None,
            Command::Yank => self.yank_current_log(),
            Command::Quit => {
                self.should_exit = true;
                None
            },
            Command::CancelFilter => {
                self.viewer.exit_filter_mode();
                self.filter_mode = false;
                None
            },
            Command::ApplyFilter => {
                self.viewer.apply_filter();
                self.filter_mode = false;
                None
            },
            Command::TypeFilter(c) => {
                self.viewer.filter_input.push(c);
                None
            },
            Command::EraseFilter => {
                self.viewer.filter_input.pop();
                None
            },
            Command::Clear => {
                self.viewer.clear();
                None
            },
            Command::SelectNext => {
                self.viewer.handle_log_item_scrolling(true, true, self.viewport_height);
                None
            },
            Command::SelectPrevious => {
                self.viewer.handle_log_item_scrolling(false, true, self.viewport_height);
                None
            },
            Command::SelectFirst => {
                self.viewer.jump(JumpTarget::First, self.viewport_height);
                None
            },
            Command::SelectLast => {
                self.viewer.jump(JumpTarget::Last, self.viewport_height);
                None
            },
            Command::StartFilter => {
                self.filter_mode = true;
                self.viewer.filter_input = String::new();
                None
            },
            Command::LessDetail => {
                if self.detail_level > 0 {
                    self.detail_level = self.detail_level - 1;
                }
                None
            },
            Command::MoreDetail => {
                if self.detail_level < MAX_DETAIL {
                    self.detail_level = self.detail_level + 1;
                }
                None
            },
        }
    }

    /// Carries out what a key asks for.
    pub fn handle_key(&mut self, key: KeyInput) -> (copied: Option<String>)
        ensures
            applied(
                before_key(*old(self), key),
                *final(self),
                command_for(key, old(self).filter_mode),
                copied,
            ),
    {
        if key.press && !self.filter_mode {
            self.viewer.update_autoscroll_state();
        }
        let command = decode_key(key, self.filter_mode);
        self.apply(command)
    }

    /// Selects the record under the mouse when its left button is released
    /// over `inner`, the inside of the logs panel's frame. Any other event
    /// changes nothing.
    pub fn click_at(&mut self, inner: Area, event: MouseInput) -> (accepted: bool)
        ensures
            frame_kept(*old(self), *final(self)),
            final(self).should_exit == old(self).should_exit,
            final(self).filter_mode == old(self).filter_mode,
            final(self).detail_level == old(self).detail_level,
            if event.kind == MouseKind::LeftUp && inner.holds(event.column, event.row) {
                clicked(
                    old(self).viewer,
                    final(self).viewer,
                    event.row as usize,
                    inner.y as usize,
                    accepted,
                )
            } else {
                !accepted && final(self).viewer == old(self).viewer
            },
    {
        let released = match event.kind {
            MouseKind::LeftUp => true,
            _ => false,
        };
        if released && inner.contains(event.column, event.row) {
            self.viewer.click(event.row as usize, inner.y as usize)
        } else {
            false
        }
    }

    /// Scrolls the panel in focus by one row.
    pub fn handle_mouse_scroll(&mut self, down: bool)
        ensures
            final(self).should_exit == old(self).should_exit,
            final(self).tracker == old(self).tracker,
            final(self).filter_mode == old(self).filter_mode,
            final(self).detail_level == old(self).detail_level,
            final(self).focused == old(self).focused,
            final(self).logs_block == old(self).logs_block,
            final(self).prev_selected_log_id == old(self).prev_selected_log_id,
            final(self).viewport_height == old(self).viewport_height,
            match old(self).focused {
                Some(Panel::Logs) => view_scrolled(old(self).viewer, final(self).viewer, down)
                    && final(self).details_block == old(self).details_block && final(self).debug_block == old(self).debug_block,
                Some(Panel::Details) => final(self).viewer == old(self).viewer && final(self).debug_block == old(self).debug_block && block_scrolled(
                    old(self).details_block,
                    final(self).details_block,
                    down,
                ),
                Some(Panel::Debug) => final(self).viewer == old(self).viewer && final(self).details_block == old(self).details_block && block_scrolled(
                    old(self).debug_block,
                    final(self).debug_block,
                    down,
                ),
                None => *final(self) == *old(self),
            },
    {
        match self.focused {
            Some(Panel::Logs) => self.viewer.handle_logs_view_scrolling(down),
            Some(Panel::Details) => self.details_block.scroll(down),
            Some(Panel::Debug) => self.debug_block.scroll(down),
            None => {},
        }
    }

    /// The title of the logs panel.
    pub fn logs_title(&self) -> (title: String)
        ensures
            title@ == logs_title_text(self.detail_level),
    {
        let mut title = "LOGS | Detail Level: ".to_owned();
        title.append(decimal(self.detail_level as u32).as_str());
        title
    }

    /// The line at the head of the screen.
    pub fn render_header(&self) -> (line: String)
        ensures
            line@ == header_text(self.viewer.autoscroll),
    {
        let mut line = "Termlog | Autoscroll: ".to_owned();
        if self.viewer.autoscroll {
            line.append(" ON");
        } else {
            line.append(" OFF");
        }
        line
    }

    /// The line at the foot of the screen.
    pub fn render_footer(&self) -> (line: String)
        ensures
            line@ == footer_text(self.filter_mode, self.viewer.filter_input@),
    {
        if self.filter_mode {
            let mut line = "Filter: ".to_owned();
            line.append(self.viewer.filter_input.as_str());
            line.append(" (Press Enter to apply, Esc to cancel)");
            line
        } else {
            "jk↑↓: nav | gG: top/bottom | f/: filter | []: detail | y: yank | JK: scroll focused | x: clear | c: collapse | q: quit".to_owned()
        }
    }

    /// The rows of the logs panel, the newest record first.
    pub fn render_logs(&self, width: usize) -> (rows: Vec<LogRow>)
        ensures
            rows@.len() == self.viewer.displaying_logs.items@.len(),
            forall|row: int| 0 <= row < rows@.len() ==> row_shows(*self, width, row, #[trigger] rows@[row]),
    {
        let len = self.viewer.displaying_logs.items.len();
        let selected_row = self.viewer.displaying_logs.selected();
        let mut rows: Vec<LogRow> = Vec::new();
        let mut row: usize = 0;
        while row < len
            invariant
                row <= len,
                len == self.viewer.displaying_logs.items@.len(),
                match selected_row {
                    Some(r) => self.viewer.displaying_logs.selected_row() == Some(r as int),
                    None => self.viewer.displaying_logs.selected_row() is None,
                },
                rows@.len() == row,
                forall|k: int| 0 <= k < row ==> row_shows(*self, width, k, #[trigger] rows@[k]),
            decreases len - row,
        {
            let item = &self.viewer.displaying_logs.items[len - 1 - row];
            let selected = match selected_row {
                Some(r) => r == row,
                None => false,
            };
            let preview = item.get_preview_text(self.detail_level);
            let mut text = if selected {
                "> ".to_owned()
            } else {
                "  ".to_owned()
            };
            text.append(preview.as_str());
            if selected {
                let ghost marked = text@;
                let mut count = text.as_str().unicode_len();
                while count < width
                    invariant
                        count <= width || count == marked.len(),
                        count >= marked.len(),
                        text@ == marked + spaces(count - marked.len()),
                    decreases width - count,
                {
                    text.push(' ');
                    count += 1;
                    assert(text@ =~= marked + spaces(count - marked.len()));
                }
                assert(text@ =~= marked + spaces(width - marked.len()));
            }
            rows.push(LogRow { text, style: level_style(item.level.as_str()), selected });
            row += 1;
        }
        rows
    }

    /// Gives the focus to `panel` when the mouse moved over the inside of its
    /// frame.
    pub fn focus_on_hover(&mut self, panel: Panel, inner_area: Area, event: Option<MouseInput>)
        ensures
            final(self).focused == match event {
                Some(e) => if inner_area.holds(e.column, e.row) && e.kind
                    == MouseKind::Moved {
                    Some(panel)
                } else {
                    old(self).focused
                },
                None => old(self).focused,
            },
            final(self).should_exit == old(self).should_exit,
            final(self).viewer == old(self).viewer,
            final(self).tracker == old(self).tracker,
            final(self).filter_mode == old(self).filter_mode,
            final(self).detail_level == old(self).detail_level,
            final(self).logs_block == old(self).logs_block,
            final(self).details_block == old(self).details_block,
            final(self).debug_block == old(self).debug_block,
            final(self).prev_selected_log_id == old(self).prev_selected_log_id,
            final(self).viewport_height == old(self).viewport_height,
    {
        let hover = match panel {
            Panel::Logs => self.logs_block.handle_mouse_event(inner_area, event),
            Panel::Details => self.details_block.handle_mouse_event(inner_area, event),
            Panel::Debug => self.debug_block.handle_mouse_event(inner_area, event),
        };
        if hover {
            self.focused = Some(panel);
        }
    }

    /// Prepares the details panel for drawing: when the selected record is
    /// another than at the last draw, the panel shows it from its top.
    pub fn render_details(&mut self)
        ensures
            final(self).prev_selected_log_id == if old(self).viewer.displaying_logs.selected_row()
                is Some {
                old(self).viewer.displaying_logs.selected_id
            } else {
                None
            },
            final(self).details_block.scroll_position == if final(self).prev_selected_log_id
                == old(self).prev_selected_log_id {
                old(self).details_block.scroll_position
            } else {
                0
            },
            final(self).details_block.id == old(self).details_block.id,
            final(self).details_block.title == old(self).details_block.title,
            final(self).details_block.lines_count == old(self).details_block.lines_count,
            final(self).details_block.scrollbar_state == old(self).details_block.scrollbar_state,
            final(self).details_block.padding == old(self).details_block.padding,
            final(self).should_exit == old(self).should_exit,
            final(self).viewer == old(self).viewer,
            final(self).tracker == old(self).tracker,
            final(self).filter_mode == old(self).filter_mode,
            final(self).detail_level == old(self).detail_level,
            final(self).focused == old(self).focused,
            final(self).logs_block == old(self).logs_block,
            final(self).debug_block == old(self).debug_block,
            final(self).viewport_height == old(self).viewport_height,
    {
        let shown = match self.viewer.displaying_logs.selected() {
            Some(_) => self.viewer.displaying_logs.selected_id,
            None => None,
        };
        if self.prev_selected_log_id != shown {
            self.prev_selected_log_id = shown;
            self.details_block.set_scroll_position(0);
        }
    }

    /// Prepares the debug panel for drawing: without the focus it shows its
    /// newest message.
    pub fn render_debug_logs(&mut self)
        ensures
            final(self).debug_block.scroll_position == if old(self).focused == Some(Panel::Debug) {
                old(self).debug_block.scroll_position
            } else {
                0
            },
            final(self).debug_block.id == old(self).debug_block.id,
            final(self).debug_block.title == old(self).debug_block.title,
            final(self).debug_block.lines_count == old(self).debug_block.lines_count,
            final(self).debug_block.scrollbar_state == old(self).debug_block.scrollbar_state,
            final(self).debug_block.padding == old(self).debug_block.padding,
            final(self).should_exit == old(self).should_exit,
            final(self).viewer == old(self).viewer,
            final(self).tracker == old(self).tracker,
            final(self).filter_mode == old(self).filter_mode,
            final(self).detail_level == old(self).detail_level,
            final(self).focused == old(self).focused,
            final(self).logs_block == old(self).logs_block,
            final(self).details_block == old(self).details_block,
            final(self).prev_selected_log_id == old(self).prev_selected_log_id,
            final(self).viewport_height == old(self).viewport_height,
    {
        let focused = match self.focused {
            Some(Panel::Debug) => true,
            _ => false,
        };
        if !focused {
            self.debug_block.set_scroll_position(0);
        }
    }
}

} // verus!
