//! The state of the interactive viewer and what each input does to it.

use vstd::prelude::*;
use crate::blame::BlameLine;
use crate::tracker::{
    anchored_scroll, clamp_scroll, get_current_target_line, last_scroll, line_numbers, max_scroll,
    resolve_anchor, target_line_spec,
};

verus! {

/// The rows of the screen above the body: title, commit line and rule.
pub const HEADER_ROWS: u16 = 3;

/// The rows of the screen below the body: the key hints.
pub const FOOTER_ROWS: u16 = 1;

/// The columns that the line-number gutter and the margins take.
pub const GUTTER_COLUMNS: u16 = 20;

/// The rows that one turn of the mouse wheel scrolls.
pub const WHEEL_ROWS: usize = 3;

/// What the viewer remembers from one input to the next.
#[derive(Debug, Clone, Copy, PartialEq, Eq, Structural)]
pub struct ViewerState {
    /// The index of the version on show.
    pub current_version: usize,
    /// The index of the first row in view.
    pub scroll_offset: usize,
    /// The line number to bring into focus, set by a change of version and
    /// dropped by any scrolling.
    pub target_line: Option<usize>,
    pub terminal_width: u16,
    pub terminal_height: u16,
}

/// A key press or a turn of the wheel, as far as the viewer tells them apart.
#[derive(Debug, Clone, Copy, PartialEq, Eq, Structural)]
pub enum InputEvent {
    Quit,
    Left,
    Right,
    Up,
    Down,
    PageUp,
    PageDown,
    Home,
    End,
    WheelUp,
    WheelDown,
    Other,
}

/// The number of body rows on a terminal of the given height.
pub open spec fn content_height_spec(terminal_height: u16) -> usize {
    if terminal_height > HEADER_ROWS + FOOTER_ROWS {
        (terminal_height - HEADER_ROWS - FOOTER_ROWS) as usize
    } else {
        0
    }
}

/// The number of columns for a line's content on a terminal of the given
/// width.
pub open spec fn content_width_spec(terminal_width: u16) -> usize {
    if terminal_width > GUTTER_COLUMNS {
        (terminal_width - GUTTER_COLUMNS) as usize
    } else {
        0
    }
}

/// Whether an event scrolls the view within a version.
pub open spec fn is_scroll(event: InputEvent) -> bool {
    match event {
        InputEvent::Up
        | InputEvent::Down
        | InputEvent::PageUp
        | InputEvent::PageDown
        | InputEvent::Home
        | InputEvent::End
        | InputEvent::WheelUp
        | InputEvent::WheelDown => true,
        _ => false,
    }
}

/// The offset that a scrolling event asks for, before it is brought into
/// range.
pub open spec fn wanted_scroll(
    event: InputEvent,
    scroll_offset: int,
    total_rows: int,
    content_height: int,
) -> int {
    match event {
        InputEvent::Up => scroll_offset - 1,
        InputEvent::Down => scroll_offset + 1,
        InputEvent::PageUp => scroll_offset - content_height / 2,
        InputEvent::PageDown => scroll_offset + content_height / 2,
        InputEvent::Home => 0,
        InputEvent::End => max_scroll(total_rows, content_height),
        InputEvent::WheelUp => scroll_offset - WHEEL_ROWS,
        InputEvent::WheelDown => scroll_offset + WHEEL_ROWS,
        _ => scroll_offset,
    }
}

/// The state after an event. `numbers` are the line numbers of the rows on
/// show and `version_count` is the number of versions.
///
/// A scrolling event moves the offset, kept within the rows, and drops the
/// target line. Left and right step to the version before and after, where
/// there is one, and set the target line to the line in focus. Any other
/// event leaves the state as it is.
pub open spec fn step_spec(
    state: ViewerState,
    event: InputEvent,
    version_count: usize,
    numbers: Seq<usize>,
) -> ViewerState {
    let height = content_height_spec(state.terminal_height);
    let target = target_line_spec(numbers, state.scroll_offset, height);
    if is_scroll(event) {
        ViewerState {
            scroll_offset: clamp_scroll(
                wanted_scroll(
                    event,
                    state.scroll_offset as int,
                    numbers.len() as int,
                    height as int,
                ),
                numbers.len() as int,
                height as int,
            ) as usize,
            target_line: None,
            ..state
        }
    } else if event == InputEvent::Left && state.current_version > 0 {
        ViewerState {
            current_version: (state.current_version - 1) as usize,
            target_line: Some(target),
            ..state
        }
    } else if event == InputEvent::Right && state.current_version + 1 < version_count {
        ViewerState {
            current_version: (state.current_version + 1) as usize,
            target_line: Some(target),
            ..state
        }
    } else {
        state
    }
}

/// The state in which a version is drawn. Where a target line is set, the
/// view is moved so that the row closest to it is in the middle; the target
/// line stays set. Without a target line the state stays as it is.
pub open spec fn settled_spec(state: ViewerState, numbers: Seq<usize>) -> ViewerState {
    match state.target_line {
        Some(target) => ViewerState {
            scroll_offset: anchored_scroll(
                numbers,
                target,
                state.scroll_offset,
                content_height_spec(state.terminal_height),
            ) as usize,
            ..state
        },
        None => state,
    }
}

/// From `offset`, `rows` further down, but not past `max`.
fn scroll_down(offset: usize, rows: usize, max: usize) -> (moved: usize)
    ensures
        moved == if offset + rows > max {
            max as int
        } else {
            offset + rows
        },
{
    if offset >= max || rows >= max - offset {
        max
    } else {
        offset + rows
    }
}

/// From `offset`, `rows` further up, but not past the top nor below `max`.
fn scroll_up(offset: usize, rows: usize, max: usize) -> (moved: usize)
    ensures
        moved == if offset - rows < 0 {
            0
        } else if offset - rows > max {
            max as int
        } else {
            offset - rows
        },
{
    let wanted: usize = if offset > rows {
        offset - rows
    } else {
        0
    };
    if wanted > max {
        max
    } else {
        wanted
    }
}

impl ViewerState {
    /// The state in which a session begins: the first version, from its top.
    pub fn new(terminal_width: u16, terminal_height: u16) -> (state: ViewerState)
        ensures
            state == (ViewerState {
                current_version: 0,
                scroll_offset: 0,
                target_line: None,
                terminal_width,
                terminal_height,
            }),
    {
        ViewerState {
            current_version: 0,
            scroll_offset: 0,
            target_line: None,
            terminal_width,
            terminal_height,
        }
    }

    /// Takes note of the terminal's size.
    pub fn resize(&mut self, terminal_width: u16, terminal_height: u16)
        ensures
            *final(self) == (ViewerState { terminal_width, terminal_height, ..*old(self) }),
    {
        self.terminal_width = terminal_width;
        self.terminal_height = terminal_height;
    }

    /// The number of body rows.
    pub fn content_height(&self) -> (rows: usize)
        ensures
            rows == content_height_spec(self.terminal_height),
    {
        if self.terminal_height > HEADER_ROWS + FOOTER_ROWS {
            (self.terminal_height - HEADER_ROWS - FOOTER_ROWS) as usize
        } else {
            0
        }
    }

    /// The number of columns for a line's content.
    pub fn content_width(&self) -> (columns: usize)
        ensures
            columns == content_width_spec(self.terminal_width),
    {
        if self.terminal_width > GUTTER_COLUMNS {
            (self.terminal_width - GUTTER_COLUMNS) as usize
        } else {
            0
        }
    }

    /// Where a target line is set, moves the view so that the row closest to
    /// it is in the middle. Called with the rows of the version on show,
    /// before they are drawn.
    pub fn settle(&mut self, filtered_lines: &[&BlameLine])
        ensures
            *final(self) == settled_spec(*old(self), line_numbers(filtered_lines@)),
    {
        match self.target_line {
            Some(target) => {
                let height = self.content_height();
                self.scroll_offset = resolve_anchor(
                    filtered_lines,
                    target,
                    self.scroll_offset,
                    height,
                );
            },
            None => {},
        }
    }

    /// Applies one input event. `filtered_lines` are the rows of the version
    /// on show and `version_count` is the number of versions. Returns
    /// whether the session is over.
    pub fn handle_event(
        &mut self,
        event: InputEvent,
        version_count: usize,
        filtered_lines: &[&BlameLine],
    ) -> (quit: bool)
        ensures
            *final(self) == step_spec(
                *old(self),
                event,
                version_count,
                line_numbers(filtered_lines@),
            ),
            quit == (event == InputEvent::Quit),
    {
        let height = self.content_height();
        let total = filtered_lines.len();
        let max = last_scroll(total, height);
        match event {
            InputEvent::Quit => {
                return true;
            },
            InputEvent::Left => {
                if self.current_version > 0 {
                    self.target_line = Some(
                        get_current_target_line(filtered_lines, self.scroll_offset, height),
                    );
                    self.current_version = self.current_version - 1;
                }
            },
            InputEvent::Right => {
                if self.current_version < usize::MAX && self.current_version + 1 < version_count {
                    self.target_line = Some(
                        get_current_target_line(filtered_lines, self.scroll_offset, height),
                    );
                    self.current_version = self.current_version + 1;
                }
            },
            InputEvent::Up => {
                self.scroll_offset = scroll_up(self.scroll_offset, 1, max);
                self.target_line = None;
            },
            InputEvent::Down => {
                self.scroll_offset = scroll_down(self.scroll_offset, 1, max);
                self.target_line = None;
            },
            InputEvent::PageUp => {
                self.scroll_offset = scroll_up(self.scroll_offset, height / 2, max);
                self.target_line = None;
            },
            InputEvent::PageDown => {
                self.scroll_offset = scroll_down(self.scroll_offset, height / 2, max);
                self.target_line = None;
            },
            InputEvent::Home => {
                self.scroll_offset = 0;
                self.target_line = None;
            },
            InputEvent::End => {
                self.scroll_offset = max;
                self.target_line = None;
            },
            InputEvent::WheelUp => {
                self.scroll_offset = scroll_up(self.scroll_offset, WHEEL_ROWS, max);
                self.target_line = None;
            },
            InputEvent::WheelDown => {
                self.scroll_offset = scroll_down(self.scroll_offset, WHEEL_ROWS, max);
                self.target_line = None;
            },
            InputEvent::Other => {},
        }
        false
    }
}

/// After any scrolling event the view lies within the rows: the offset is
/// not negative, and the view does not reach below the last row unless all
/// rows fit into it.
pub proof fn lemma_scroll_stays_in_range(
    state: ViewerState,
    event: InputEvent,
    version_count: usize,
    numbers: Seq<usize>,
)
    requires
        is_scroll(event),
    ensures
        ({
            let after = step_spec(state, event, version_count, numbers);
            let height = content_height_spec(state.terminal_height);
            &&& 0 <= after.scroll_offset <= max_scroll(numbers.len() as int, height as int)
            &&& after.scroll_offset + height <= numbers.len() || after.scroll_offset == 0
            &&& after.target_line is None
            &&& after.current_version == state.current_version
        }),
{
}

/// The End key brings the last row to the bottom of the view: the offset is
/// the number of rows less the height of the view, or 0 where that would be
/// negative.
pub proof fn lemma_end_shows_last_rows(
    state: ViewerState,
    version_count: usize,
    numbers: Seq<usize>,
)
    requires
        numbers.len() <= usize::MAX,
    ensures
        ({
            let after = step_spec(state, InputEvent::End, version_count, numbers);
            let height = content_height_spec(state.terminal_height);
            &&& after.scroll_offset == if numbers.len() - height > 0 {
                numbers.len() - height
            } else {
                0
            }
            &&& after.scroll_offset >= 0
            &&& after.scroll_offset + height <= numbers.len() || after.scroll_offset == 0
        }),
{
}

/// The Home key brings the first row to the top of the view.
pub proof fn lemma_home_shows_first_rows(
    state: ViewerState,
    version_count: usize,
    numbers: Seq<usize>,
)
    ensures
        step_spec(state, InputEvent::Home, version_count, numbers).scroll_offset == 0,
{
}

/// Left and right never leave the versions there are, and do nothing at the
/// first and at the last of them.
pub proof fn lemma_version_stays_in_range(
    state: ViewerState,
    event: InputEvent,
    version_count: usize,
    numbers: Seq<usize>,
)
    requires
        state.current_version < version_count,
    ensures
        step_spec(state, event, version_count, numbers).current_version < version_count,
        event == InputEvent::Left && state.current_version == 0 ==> step_spec(
            state,
            event,
            version_count,
            numbers,
        ) == state,
        event == InputEvent::Right && state.current_version == version_count - 1 ==> step_spec(
            state,
            event,
            version_count,
            numbers,
        ) == state,
{
}

} // verus!
