use tview::editor::terminal::{Position, Size, TermCommand, Terminal};
use tview::editor::view::View;
use tview::editor::Editor;
use tview::{NAME, VERSION};

fn banner() -> String {
    format!("{} - {}", NAME, VERSION)
}

fn rendered_frame(v: &mut View) -> Vec<TermCommand> {
    let mut term = Terminal::new();
    v.render(&mut term);
    term.execute()
}

fn expect_row(frame: &[TermCommand], row: u16, text: &str) {
    let i = 3 * row as usize;
    assert_eq!(frame[i], TermCommand::MoveTo(0, row));
    assert_eq!(frame[i + 1], TermCommand::ClearLine);
    assert_eq!(frame[i + 2], TermCommand::Print(text.to_string()));
}

#[test]
fn welcome_degenerates_on_narrow_terminal() {
    assert_eq!(View::construct_welcome_msg(5), "~");
    let len = banner().len();
    assert_eq!(View::construct_welcome_msg(len), "~");
    assert_eq!(View::construct_welcome_msg(0), "~");
}

#[test]
fn welcome_with_one_spare_column_has_no_padding() {
    let len = banner().len();
    assert_eq!(View::construct_welcome_msg(len + 1), format!("~{}", banner()));
}

#[test]
fn welcome_is_centred_on_a_wide_terminal() {
    let len = banner().len();
    let expected = format!("~{}{}", " ".repeat((80 - len) / 2 - 1), banner());
    assert_eq!(View::construct_welcome_msg(80), expected);
    assert!(expected.len() <= 80);
}

#[test]
fn empty_start_frame_80_by_24() {
    let mut v = View::new(Size { width: 80, height: 24 });
    let frame = rendered_frame(&mut v);
    assert_eq!(frame.len(), 24 * 3);
    let len = banner().len();
    let welcome = format!("~{}{}", " ".repeat((80 - len) / 2 - 1), banner());
    for row in 0..24u16 {
        if row == 8 {
            expect_row(&frame, row, &welcome);
        } else {
            expect_row(&frame, row, "~");
        }
    }
    assert!(!v.needs_redraw);
}

#[test]
fn small_file_fills_top_rows() {
    let mut v = View::new(Size { width: 10, height: 5 });
    v.load("alpha\nbeta\ngamma");
    let frame = rendered_frame(&mut v);
    assert_eq!(frame.len(), 5 * 3);
    expect_row(&frame, 0, "alpha");
    expect_row(&frame, 1, "beta");
    expect_row(&frame, 2, "gamma");
    expect_row(&frame, 3, "~");
    expect_row(&frame, 4, "~");
}

#[test]
fn long_line_is_truncated_to_width() {
    let mut v = View::new(Size { width: 10, height: 5 });
    v.load("abcdefghijklmnop");
    let frame = rendered_frame(&mut v);
    expect_row(&frame, 0, "abcdefghij");
    // The buffer is not empty, so no welcome banner appears on row 1 (5/3).
    expect_row(&frame, 1, "~");
}

#[test]
fn clean_view_renders_nothing() {
    let mut v = View::new(Size { width: 80, height: 24 });
    v.needs_redraw = false;
    let frame = rendered_frame(&mut v);
    assert!(frame.is_empty());
}

#[test]
fn second_render_is_a_no_op() {
    let mut v = View::new(Size { width: 10, height: 5 });
    let first = rendered_frame(&mut v);
    assert_eq!(first.len(), 5 * 3);
    let second = rendered_frame(&mut v);
    assert!(second.is_empty());
}

#[test]
fn degenerate_size_skips_drawing_but_stays_dirty() {
    let mut v = View::new(Size { width: 0, height: 5 });
    let frame = rendered_frame(&mut v);
    assert!(frame.is_empty());
    assert!(v.needs_redraw);
    v.resize(Size { width: 10, height: 5 });
    let frame = rendered_frame(&mut v);
    assert_eq!(frame.len(), 5 * 3);
}

#[test]
fn resizing_twice_renders_like_resizing_once() {
    let size = Size { width: 12, height: 6 };
    let mut once = View::new(Size { width: 80, height: 24 });
    let mut twice = View::new(Size { width: 80, height: 24 });
    once.resize(size);
    twice.resize(size);
    twice.resize(size);
    assert_eq!(rendered_frame(&mut once), rendered_frame(&mut twice));
}

#[test]
fn cursor_moves_saturate_to_u16() {
    let mut term = Terminal::new();
    term.move_cursor_to(Position { x: 70000, y: 2 });
    let frame = term.execute();
    assert_eq!(frame, vec![TermCommand::MoveTo(65535, 2)]);
}

#[test]
fn refresh_screen_frames_the_draw_with_cursor_control() {
    let mut ed = Editor::new(View::new(Size { width: 10, height: 5 }));
    let mut term = Terminal::new();
    let frame = ed.refresh_screen(&mut term);
    assert_eq!(frame.len(), 1 + 5 * 3 + 2);
    assert_eq!(frame[0], TermCommand::HideCursor);
    assert_eq!(frame[frame.len() - 2], TermCommand::MoveTo(0, 0));
    assert_eq!(frame[frame.len() - 1], TermCommand::ShowCursor);
    // A second refresh with no change draws nothing but still places the cursor.
    let frame = ed.refresh_screen(&mut term);
    assert_eq!(
        frame,
        vec![TermCommand::HideCursor, TermCommand::MoveTo(0, 0), TermCommand::ShowCursor]
    );
}

#[test]
fn print_and_clear_commands_queue_in_order() {
    let mut term = Terminal::new();
    term.clear_screen();
    term.move_cursor_to(Position { x: 0, y: 0 });
    term.print("hello");
    let frame = term.execute();
    assert_eq!(
        frame,
        vec![
            TermCommand::ClearScreen,
            TermCommand::MoveTo(0, 0),
            TermCommand::Print("hello".to_string()),
        ]
    );
    assert!(term.execute().is_empty());
}
