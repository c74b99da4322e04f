pub mod buffer;
pub mod terminal;
pub mod view;

use vstd::prelude::*;
use vstd::view::View as _;

use crate::editor::terminal::{cmds_view, CommandView, Position, Size, TermCommand, Terminal};
use crate::editor::terminal::sat_u16;
use crate::editor::view::View;

verus! {

/// A keyboard key, as the host terminal reports it.
#[derive(Clone, Copy, PartialEq, Eq, Structural, Debug)]
pub enum KeyCode {
    Char(char),
    Up,
    Down,
    Left,
    Right,
    Home,
    End,
    PageUp,
    PageDown,
    /// Any key this viewer does not react to.
    Other,
}

/// A keyboard event: the key, whether the control modifier alone was held,
/// and whether this is a press (as opposed to a repeat or a release).
#[derive(Clone, Copy, PartialEq, Eq, Structural, Debug)]
pub struct KeyEvent {
    pub code: KeyCode,
    pub ctrl: bool,
    pub press: bool,
}

/// One event from the host terminal: a keystroke, a resize to a new width
/// and height in cells, or anything else (ignored).
#[derive(Clone, Copy, PartialEq, Eq, Structural, Debug)]
pub enum Event {
    Key(KeyEvent),
    Resize(u16, u16),
    Other,
}

/// `n - 1`, stopping at zero.
pub open spec fn sat_sub1(n: usize) -> usize {
    if n > 0 {
        (n - 1) as usize
    } else {
        0
    }
}

/// `n + 1`, stopping at the top of the type.
pub open spec fn sat_add1(n: usize) -> usize {
    if n < usize::MAX {
        (n + 1) as usize
    } else {
        usize::MAX
    }
}

pub open spec fn min_usize(a: usize, b: usize) -> usize {
    if a < b {
        a
    } else {
        b
    }
}

/// Whether this key moves the caret.
pub open spec fn is_move_key(k: KeyCode) -> bool {
    match k {
        KeyCode::Up => true,
        KeyCode::Down => true,
        KeyCode::Left => true,
        KeyCode::Right => true,
        KeyCode::Home => true,
        KeyCode::End => true,
        KeyCode::PageUp => true,
        KeyCode::PageDown => true,
        _ => false,
    }
}

/// The caret after one keypress, on a terminal of size `s`. Vertical and
/// horizontal moves saturate: decrements stop at zero, increments stop at
/// the last visible cell; on a zero dimension the coordinate goes to zero.
pub open spec fn caret_after(k: KeyCode, c: Position, s: Size) -> Position {
    match k {
        KeyCode::Up => Position { x: c.x, y: sat_sub1(c.y) },
        KeyCode::Down => Position { x: c.x, y: min_usize(sat_sub1(s.height), sat_add1(c.y)) },
        KeyCode::Left => Position { x: sat_sub1(c.x), y: c.y },
        KeyCode::Right => Position { x: min_usize(sat_sub1(s.width), sat_add1(c.x)), y: c.y },
        KeyCode::PageUp => Position { x: c.x, y: 0 },
        KeyCode::PageDown => Position { x: c.x, y: sat_sub1(s.height) },
        KeyCode::Home => Position { x: 0, y: c.y },
        KeyCode::End => Position { x: sat_sub1(s.width), y: c.y },
        _ => c,
    }
}

/// The caret after a whole sequence of keypresses, applied left to right.
pub open spec fn caret_after_keys(ks: Seq<KeyCode>, c: Position, s: Size) -> Position
    decreases ks.len(),
{
    if ks.len() == 0 {
        c
    } else {
        caret_after_keys(ks.drop_first(), caret_after(ks[0], c, s), s)
    }
}

/// One keypress keeps the caret inside the visible rectangle: on a
/// terminal with at least one cell, a caret in bounds stays in bounds.
pub proof fn lemma_caret_in_bounds(k: KeyCode, c: Position, s: Size)
    requires
        s.width >= 1,
        s.height >= 1,
        c.x < s.width,
        c.y < s.height,
    ensures
        caret_after(k, c, s).x < s.width,
        caret_after(k, c, s).y < s.height,
{
}

/// Any sequence of keypresses keeps the caret inside the visible
/// rectangle; in particular every run that starts at the origin does.
pub proof fn lemma_caret_in_bounds_keys(ks: Seq<KeyCode>, c: Position, s: Size)
    requires
        s.width >= 1,
        s.height >= 1,
        c.x < s.width,
        c.y < s.height,
    ensures
        caret_after_keys(ks, c, s).x < s.width,
        caret_after_keys(ks, c, s).y < s.height,
    decreases ks.len(),
{
    if ks.len() > 0 {
        lemma_caret_in_bounds(ks[0], c, s);
        lemma_caret_in_bounds_keys(ks.drop_first(), caret_after(ks[0], c, s), s);
    }
}

/// Caret updates saturate instead of wrapping: a decrement at zero stays
/// at zero (never a large value), and an increment never passes the far
/// edge, wherever it starts.
pub proof fn lemma_caret_saturates(c: Position, s: Size)
    ensures
        caret_after(KeyCode::Up, c, s).y <= c.y,
        caret_after(KeyCode::Left, c, s).x <= c.x,
        caret_after(KeyCode::Down, c, s).y <= sat_sub1(s.height),
        caret_after(KeyCode::Down, c, s).y <= sat_add1(c.y),
        caret_after(KeyCode::Right, c, s).x <= sat_sub1(s.width),
        caret_after(KeyCode::Right, c, s).x <= sat_add1(c.x),
        caret_after(KeyCode::PageDown, c, s).y == sat_sub1(s.height),
        caret_after(KeyCode::End, c, s).x == sat_sub1(s.width),
{
}

/// The top-level controller: the view, the caret, and the quit flag.
pub struct Editor {
    pub should_quit: bool,
    pub caret: Position,
    pub view: View,
}

/// The editor after dispatching one event. A control-q press raises the
/// quit flag; a movement keypress moves the caret against the given
/// terminal size; a resize reaches the view; everything else is ignored.
pub open spec fn editor_step(e: Editor, ev: Event, size: Size) -> Editor {
    match ev {
        Event::Key(k) => {
            if k.press && k.ctrl && k.code == KeyCode::Char('q') {
                Editor { should_quit: true, ..e }
            } else if k.press && is_move_key(k.code) {
                Editor { caret: caret_after(k.code, e.caret, size), ..e }
            } else {
                e
            }
        },
        Event::Resize(w, h) => Editor {
            view: e.view.resized(Size { width: w as usize, height: h as usize }),
            ..e
        },
        Event::Other => e,
    }
}

impl Editor {
    /// An editor over the given view: caret at the origin, quit flag down.
    pub fn new(view: View) -> (e: Editor)
        ensures
            e.view == view,
            e.caret == (Position { x: 0, y: 0 }),
            !e.should_quit,
    {
        Editor { should_quit: false, caret: Position { x: 0, y: 0 }, view }
    }

    /// Move the caret for one keypress, clamped against `size` (the live
    /// terminal size at the moment of the keypress).
    pub fn move_caret(&mut self, k: KeyCode, size: Size)
        ensures
            final(self).caret == caret_after(k, old(self).caret, size),
            final(self).view == old(self).view,
            final(self).should_quit == old(self).should_quit,
    {
        let mut x = self.caret.x;
        let mut y = self.caret.y;
        let width = size.width;
        let height = size.height;
        match k {
            // These two account for the terminal dimensions: the largest
            // legal coordinate is the dimension less one.
            KeyCode::Down => {
                let cap = height.saturating_sub(1);
                let inc = y.saturating_add(1);
                y = if cap < inc {
                    cap
                } else {
                    inc
                };
            },
            KeyCode::Right => {
                let cap = width.saturating_sub(1);
                let inc = x.saturating_add(1);
                x = if cap < inc {
                    cap
                } else {
                    inc
                };
            },
            // These two need no cap: a saturating decrement cannot leave
            // the grid, whose least coordinate is zero anyway.
            KeyCode::Up => {
                y = y.saturating_sub(1);
            },
            KeyCode::Left => {
                x = x.saturating_sub(1);
            },
            KeyCode::PageUp => {
                y = 0;
            },
            KeyCode::PageDown => {
                y = height.saturating_sub(1);
            },
            KeyCode::Home => {
                x = 0;
            },
            KeyCode::End => {
                x = width.saturating_sub(1);
            },
            _ => {},
        }
        self.caret = Position { x, y };
    }

    /// Dispatch one terminal event, exactly as `editor_step` says.
    pub fn evaluate_event(&mut self, event: Event, size: Size)
        ensures
            *final(self) == editor_step(*old(self), event, size),
    {
        match event {
            Event::Key(k) => {
                if k.press {
                    if k.ctrl && k.code == KeyCode::Char('q') {
                        self.should_quit = true;
                    } else {
                        match k.code {
                            KeyCode::Up | KeyCode::Down | KeyCode::Left | KeyCode::Right
                                | KeyCode::PageUp | KeyCode::PageDown | KeyCode::Home
                                | KeyCode::End => {
                                self.move_caret(k.code, size);
                            },
                            _ => {},
                        }
                    }
                }
            },
            Event::Resize(w, h) => {
                self.view.resize(Size { width: w as usize, height: h as usize });
            },
            Event::Other => {},
        }
    }

    /// Compose one frame: hide the cursor, render the view, put the cursor
    /// on the caret, show it again, and hand the flushed batch out. The
    /// strict hide-draw-position-show order keeps the cursor from being
    /// seen jumping across the screen mid-redraw.
    pub fn refresh_screen(&mut self, term: &mut Terminal) -> (frame: Vec<TermCommand>)
        ensures
            cmds_view(frame@) == old(term)@ + seq![CommandView::HideCursor]
                + old(self).view.render_emit() + seq![
                CommandView::MoveTo(sat_u16(old(self).caret.x), sat_u16(old(self).caret.y)),
                CommandView::ShowCursor,
            ],
            final(term)@ == Seq::<CommandView>::empty(),
            final(self).view == old(self).view.rendered(),
            final(self).caret == old(self).caret,
            final(self).should_quit == old(self).should_quit,
    {
        term.hide_cursor();
        self.view.render(term);
        term.move_cursor_to(self.caret);
        term.show_cursor();
        let frame = term.execute();
        proof {
            assert(cmds_view(frame@) =~= old(term)@ + seq![CommandView::HideCursor]
                + old(self).view.render_emit() + seq![
                CommandView::MoveTo(sat_u16(old(self).caret.x), sat_u16(old(self).caret.y)),
                CommandView::ShowCursor,
            ]);
        }
        frame
    }
}

} // verus!
