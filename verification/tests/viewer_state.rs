use garch::blame::BlameLine;
use garch::viewer::{InputEvent, ViewerState};

fn lines(count: usize) -> Vec<BlameLine> {
    (1..=count)
        .map(|n| BlameLine {
            line_number: n,
            author: "Jane D.".to_string(),
            date: "2024-01-01".to_string(),
            commit_hash: "abcdef1".to_string(),
            commit_message: "init".to_string(),
            content: format!("line {}", n),
            highlighted_content: format!("line {}", n),
        })
        .collect()
}

fn state(version: usize, offset: usize, target: Option<usize>) -> ViewerState {
    ViewerState {
        current_version: version,
        scroll_offset: offset,
        target_line: target,
        terminal_width: 80,
        terminal_height: 24,
    }
}

fn after(mut s: ViewerState, event: InputEvent, versions: usize, rows: usize) -> ViewerState {
    let owned = lines(rows);
    let refs: Vec<&BlameLine> = owned.iter().collect();
    let quit = s.handle_event(event, versions, &refs);
    assert_eq!(quit, event == InputEvent::Quit);
    s
}

#[test]
fn session_begins_at_the_first_version() {
    let s = ViewerState::new(80, 24);
    assert_eq!(s, state(0, 0, None));
    assert_eq!(s.content_height(), 20);
    assert_eq!(s.content_width(), 60);
}

#[test]
fn tiny_terminals_have_no_body() {
    for height in 0..=4 {
        assert_eq!(ViewerState::new(80, height).content_height(), 0);
    }
    assert_eq!(ViewerState::new(80, 5).content_height(), 1);
    assert_eq!(ViewerState::new(80, u16::MAX).content_height(), 65531);
    for width in 0..=20 {
        assert_eq!(ViewerState::new(width, 24).content_width(), 0);
    }
    assert_eq!(ViewerState::new(21, 24).content_width(), 1);
}

#[test]
fn resize_keeps_the_rest_of_the_state() {
    let mut s = state(2, 7, Some(9));
    s.resize(100, 50);
    assert_eq!(
        s,
        ViewerState {
            current_version: 2,
            scroll_offset: 7,
            target_line: Some(9),
            terminal_width: 100,
            terminal_height: 50,
        }
    );
}

#[test]
fn end_scrolls_to_the_last_rows() {
    assert_eq!(after(state(0, 0, Some(3)), InputEvent::End, 3, 100), state(0, 80, None));
    assert_eq!(after(state(0, 95, None), InputEvent::End, 3, 100), state(0, 80, None));
    assert_eq!(after(state(0, 0, None), InputEvent::End, 3, 21), state(0, 1, None));
}

#[test]
fn end_never_scrolls_below_zero() {
    assert_eq!(after(state(0, 0, None), InputEvent::End, 3, 20), state(0, 0, None));
    assert_eq!(after(state(0, 4, None), InputEvent::End, 3, 5), state(0, 0, None));
    assert_eq!(after(state(0, 4, None), InputEvent::End, 3, 0), state(0, 0, None));
}

#[test]
fn home_scrolls_to_the_top() {
    assert_eq!(after(state(1, 55, Some(3)), InputEvent::Home, 3, 100), state(1, 0, None));
}

#[test]
fn up_and_down_move_by_one_row() {
    assert_eq!(after(state(0, 10, Some(1)), InputEvent::Up, 3, 100), state(0, 9, None));
    assert_eq!(after(state(0, 0, Some(1)), InputEvent::Up, 3, 100), state(0, 0, None));
    assert_eq!(after(state(0, 10, Some(1)), InputEvent::Down, 3, 100), state(0, 11, None));
    assert_eq!(after(state(0, 80, Some(1)), InputEvent::Down, 3, 100), state(0, 80, None));
    assert_eq!(after(state(0, 0, None), InputEvent::Down, 3, 5), state(0, 0, None));
}

#[test]
fn pages_move_by_half_the_height() {
    assert_eq!(after(state(0, 30, Some(1)), InputEvent::PageUp, 3, 100), state(0, 20, None));
    assert_eq!(after(state(0, 4, None), InputEvent::PageUp, 3, 100), state(0, 0, None));
    assert_eq!(after(state(0, 30, Some(1)), InputEvent::PageDown, 3, 100), state(0, 40, None));
    assert_eq!(after(state(0, 75, None), InputEvent::PageDown, 3, 100), state(0, 80, None));
}

#[test]
fn wheel_moves_by_three_rows() {
    assert_eq!(after(state(0, 30, Some(1)), InputEvent::WheelUp, 3, 100), state(0, 27, None));
    assert_eq!(after(state(0, 2, None), InputEvent::WheelUp, 3, 100), state(0, 0, None));
    assert_eq!(after(state(0, 30, Some(1)), InputEvent::WheelDown, 3, 100), state(0, 33, None));
    assert_eq!(after(state(0, 79, None), InputEvent::WheelDown, 3, 100), state(0, 80, None));
    assert_eq!(after(state(0, 0, None), InputEvent::WheelDown, 3, 10), state(0, 0, None));
}

#[test]
fn scrolling_brings_a_stray_offset_back_into_range() {
    assert_eq!(after(state(0, 95, None), InputEvent::Up, 3, 100), state(0, 80, None));
    assert_eq!(after(state(0, 95, None), InputEvent::Down, 3, 100), state(0, 80, None));
    assert_eq!(after(state(0, 500, None), InputEvent::WheelUp, 3, 100), state(0, 80, None));
    assert_eq!(after(state(0, usize::MAX, None), InputEvent::Down, 3, 100), state(0, 80, None));
    assert_eq!(
        after(state(0, usize::MAX, None), InputEvent::PageDown, 3, 100),
        state(0, 80, None)
    );
}

#[test]
fn left_and_right_change_the_version_and_set_the_target() {
    assert_eq!(after(state(1, 30, None), InputEvent::Left, 3, 100), state(0, 30, Some(40)));
    assert_eq!(after(state(1, 30, None), InputEvent::Right, 3, 100), state(2, 30, Some(40)));
    assert_eq!(after(state(1, 0, Some(77)), InputEvent::Right, 3, 100), state(2, 0, Some(10)));
    assert_eq!(after(state(1, 0, None), InputEvent::Left, 3, 0), state(0, 0, Some(1)));
}

#[test]
fn left_and_right_do_nothing_at_the_ends() {
    assert_eq!(after(state(0, 30, None), InputEvent::Left, 3, 100), state(0, 30, None));
    assert_eq!(after(state(2, 30, Some(5)), InputEvent::Right, 3, 100), state(2, 30, Some(5)));
    assert_eq!(after(state(0, 0, None), InputEvent::Right, 1, 100), state(0, 0, None));
    assert_eq!(after(state(0, 0, None), InputEvent::Right, 0, 100), state(0, 0, None));
    assert_eq!(
        after(state(usize::MAX, 0, None), InputEvent::Right, usize::MAX, 100),
        state(usize::MAX, 0, None)
    );
}

#[test]
fn quit_and_other_events_leave_the_state() {
    assert_eq!(after(state(1, 30, Some(5)), InputEvent::Quit, 3, 100), state(1, 30, Some(5)));
    assert_eq!(after(state(1, 30, Some(5)), InputEvent::Other, 3, 100), state(1, 30, Some(5)));
}

#[test]
fn settle_centres_the_target_and_keeps_it() {
    let owned = lines(100);
    let refs: Vec<&BlameLine> = owned.iter().collect();
    let mut s = state(1, 0, Some(51));
    s.settle(&refs);
    assert_eq!(s, state(1, 40, Some(51)));
    s.settle(&refs);
    assert_eq!(s, state(1, 40, Some(51)));
    let mut s = state(1, 33, None);
    s.settle(&refs);
    assert_eq!(s, state(1, 33, None));
    let none: Vec<&BlameLine> = Vec::new();
    let mut s = state(1, 33, Some(51));
    s.settle(&none);
    assert_eq!(s, state(1, 33, Some(51)));
}

#[test]
fn version_switch_keeps_the_line_in_focus() {
    let old = lines(100);
    let old_rows: Vec<&BlameLine> = old.iter().collect();
    let new: Vec<BlameLine> = lines(120).into_iter().filter(|l| l.line_number % 2 == 0).collect();
    let new_rows: Vec<&BlameLine> = new.iter().collect();
    let mut s = state(0, 40, None);
    assert!(!s.handle_event(InputEvent::Right, 2, &old_rows));
    assert_eq!(s, state(1, 40, Some(50)));
    s.settle(&new_rows);
    assert_eq!(s.scroll_offset, 14);
    assert_eq!(new_rows[s.scroll_offset + 10].line_number, 50);
    assert!(!s.handle_event(InputEvent::Down, 2, &new_rows));
    assert_eq!(s, state(1, 15, None));
}
