use tview::editor::terminal::{Position, Size};
use tview::editor::view::View;
use tview::editor::{Editor, Event, KeyCode, KeyEvent};

fn press(code: KeyCode) -> Event {
    Event::Key(KeyEvent { code, ctrl: false, press: true })
}

fn editor_with_size(width: usize, height: usize) -> (Editor, Size) {
    let size = Size { width, height };
    (Editor::new(View::new(size)), size)
}

#[test]
fn caret_starts_at_origin() {
    let (ed, _) = editor_with_size(80, 24);
    assert_eq!(ed.caret, Position { x: 0, y: 0 });
    assert!(!ed.should_quit);
}

#[test]
fn caret_clamping_at_corner() {
    let (mut ed, size) = editor_with_size(80, 24);
    for _ in 0..200 {
        ed.evaluate_event(press(KeyCode::Right), size);
    }
    assert_eq!(ed.caret, Position { x: 79, y: 0 });
    for _ in 0..200 {
        ed.evaluate_event(press(KeyCode::Down), size);
    }
    assert_eq!(ed.caret, Position { x: 79, y: 23 });
    ed.evaluate_event(press(KeyCode::Home), size);
    assert_eq!(ed.caret, Position { x: 0, y: 23 });
    ed.evaluate_event(press(KeyCode::PageUp), size);
    assert_eq!(ed.caret, Position { x: 0, y: 0 });
}

#[test]
fn up_and_left_saturate_at_origin() {
    let (mut ed, size) = editor_with_size(80, 24);
    ed.evaluate_event(press(KeyCode::Up), size);
    ed.evaluate_event(press(KeyCode::Left), size);
    assert_eq!(ed.caret, Position { x: 0, y: 0 });
}

#[test]
fn end_and_pagedown_jump_to_edges() {
    let (mut ed, size) = editor_with_size(80, 24);
    ed.evaluate_event(press(KeyCode::End), size);
    assert_eq!(ed.caret, Position { x: 79, y: 0 });
    ed.evaluate_event(press(KeyCode::PageDown), size);
    assert_eq!(ed.caret, Position { x: 79, y: 23 });
    ed.evaluate_event(press(KeyCode::Right), size);
    ed.evaluate_event(press(KeyCode::Down), size);
    assert_eq!(ed.caret, Position { x: 79, y: 23 });
}

#[test]
fn zero_size_pins_caret_to_origin() {
    let (mut ed, size) = editor_with_size(0, 0);
    ed.evaluate_event(press(KeyCode::Down), size);
    ed.evaluate_event(press(KeyCode::Right), size);
    ed.evaluate_event(press(KeyCode::End), size);
    ed.evaluate_event(press(KeyCode::PageDown), size);
    assert_eq!(ed.caret, Position { x: 0, y: 0 });
}

#[test]
fn ctrl_q_raises_quit_flag() {
    let (mut ed, size) = editor_with_size(80, 24);
    ed.evaluate_event(
        Event::Key(KeyEvent { code: KeyCode::Char('q'), ctrl: true, press: true }),
        size,
    );
    assert!(ed.should_quit);
}

#[test]
fn plain_q_does_not_quit() {
    let (mut ed, size) = editor_with_size(80, 24);
    ed.evaluate_event(
        Event::Key(KeyEvent { code: KeyCode::Char('q'), ctrl: false, press: true }),
        size,
    );
    assert!(!ed.should_quit);
}

#[test]
fn key_release_is_ignored() {
    let (mut ed, size) = editor_with_size(80, 24);
    ed.evaluate_event(
        Event::Key(KeyEvent { code: KeyCode::Right, ctrl: false, press: false }),
        size,
    );
    assert_eq!(ed.caret, Position { x: 0, y: 0 });
    ed.evaluate_event(
        Event::Key(KeyEvent { code: KeyCode::Char('q'), ctrl: true, press: false }),
        size,
    );
    assert!(!ed.should_quit);
}

#[test]
fn resize_event_reaches_the_view() {
    let (mut ed, size) = editor_with_size(80, 24);
    ed.evaluate_event(Event::Resize(30, 10), size);
    assert_eq!(ed.view.size, Size { width: 30, height: 10 });
    assert!(ed.view.needs_redraw);
    assert_eq!(ed.caret, Position { x: 0, y: 0 });
}

#[test]
fn other_events_are_ignored() {
    let (mut ed, size) = editor_with_size(80, 24);
    ed.evaluate_event(Event::Other, size);
    ed.evaluate_event(press(KeyCode::Char('x')), size);
    ed.evaluate_event(press(KeyCode::Other), size);
    assert_eq!(ed.caret, Position { x: 0, y: 0 });
    assert!(!ed.should_quit);
}
