use vstd::prelude::*;

verus! {

/// Width and height of the visible cell grid, in cells.
///
/// A zero dimension is a valid sentinel meaning "do not render".
#[derive(Clone, Copy, PartialEq, Eq, Structural, Debug)]
pub struct Size {
    pub width: usize,
    pub height: usize,
}

/// A cell coordinate, with the origin at the top-left corner of the grid.
#[derive(Clone, Copy, PartialEq, Eq, Structural, Debug)]
pub struct Position {
    pub x: usize,
    pub y: usize,
}

impl Default for Size {
    fn default() -> (s: Size)
        ensures
            s == (Size { width: 0, height: 0 }),
    {
        Size { width: 0, height: 0 }
    }
}

impl Default for Position {
    fn default() -> (p: Position)
        ensures
            p == (Position { x: 0, y: 0 }),
    {
        Position { x: 0, y: 0 }
    }
}

/// One queued terminal command. A frame is a sequence of these, handed out
/// by `Terminal::execute` and performed in order by the caller.
#[derive(Debug, PartialEq)]
pub enum TermCommand {
    /// Move the hardware cursor to column `.0`, row `.1`.
    MoveTo(u16, u16),
    /// Clear the whole screen.
    ClearScreen,
    /// Clear the line the cursor is on.
    ClearLine,
    /// Make the hardware cursor invisible.
    HideCursor,
    /// Make the hardware cursor visible.
    ShowCursor,
    /// Print the text at the cursor, without a trailing newline.
    Print(String),
}

/// The mathematical image of a queued command: printed text is a sequence
/// of characters.
pub enum CommandView {
    MoveTo(u16, u16),
    ClearScreen,
    ClearLine,
    HideCursor,
    ShowCursor,
    Print(Seq<char>),
}

impl View for TermCommand {
    type V = CommandView;

    open spec fn view(&self) -> CommandView {
        match self {
            TermCommand::MoveTo(x, y) => CommandView::MoveTo(*x, *y),
            TermCommand::ClearScreen => CommandView::ClearScreen,
            TermCommand::ClearLine => CommandView::ClearLine,
            TermCommand::HideCursor => CommandView::HideCursor,
            TermCommand::ShowCursor => CommandView::ShowCursor,
            TermCommand::Print(s) => CommandView::Print(s@),
        }
    }
}

/// The image of a whole command queue.
pub open spec fn cmds_view(s: Seq<TermCommand>) -> Seq<CommandView> {
    s.map_values(|c: TermCommand| c@)
}

/// A coordinate clamped into the 16-bit space that the cursor-move command
/// carries: values past `u16::MAX` saturate instead of wrapping.
pub open spec fn sat_u16(n: usize) -> u16 {
    if n > 0xffff {
        0xffff
    } else {
        n as u16
    }
}

/// A facade over the terminal as a write-only device. Every drawing
/// operation appends a command to an internal queue; nothing is observable
/// until `execute` hands the whole batch out. There is no way to abort part
/// of a queued batch: callers build a frame and flush it whole.
pub struct Terminal {
    commands: Vec<TermCommand>,
}

impl View for Terminal {
    type V = Seq<CommandView>;

    closed spec fn view(&self) -> Seq<CommandView> {
        cmds_view(self.commands@)
    }
}

impl Terminal {
    /// A terminal facade with an empty command queue.
    pub fn new() -> (t: Terminal)
        ensures
            t@ == Seq::<CommandView>::empty(),
    {
        let commands: Vec<TermCommand> = Vec::new();
        proof {
            assert(cmds_view(commands@) =~= Seq::<CommandView>::empty());
        }
        Terminal { commands }
    }

    fn queue_cmd(&mut self, c: TermCommand)
        ensures
            final(self)@ == old(self)@.push(c@),
    {
        let ghost prev = self.commands@;
        self.commands.push(c);
        proof {
            assert(cmds_view(prev.push(c)) =~= cmds_view(prev).push(c@));
        }
    }

    /// Queue a command that prints `s` at the cursor.
    pub fn print(&mut self, s: &str)
        ensures
            final(self)@ == old(self)@.push(CommandView::Print(s@)),
    {
        self.queue_cmd(TermCommand::Print(s.to_owned()));
    }

    /// Queue a full-screen clear.
    pub fn clear_screen(&mut self)
        ensures
            final(self)@ == old(self)@.push(CommandView::ClearScreen),
    {
        self.queue_cmd(TermCommand::ClearScreen);
    }

    /// Queue a clear of the current line.
    pub fn clear_line(&mut self)
        ensures
            final(self)@ == old(self)@.push(CommandView::ClearLine),
    {
        self.queue_cmd(TermCommand::ClearLine);
    }

    /// Queue a command that hides the hardware cursor.
    pub fn hide_cursor(&mut self)
        ensures
            final(self)@ == old(self)@.push(CommandView::HideCursor),
    {
        self.queue_cmd(TermCommand::HideCursor);
    }

    /// Queue a command that shows the hardware cursor.
    pub fn show_cursor(&mut self)
        ensures
            final(self)@ == old(self)@.push(CommandView::ShowCursor),
    {
        self.queue_cmd(TermCommand::ShowCursor);
    }

    /// Queue a cursor move to `p`. Coordinates beyond the 16-bit space the
    /// command carries saturate rather than wrap or fail.
    pub fn move_cursor_to(&mut self, p: Position)
        ensures
            final(self)@ == old(self)@.push(CommandView::MoveTo(sat_u16(p.x), sat_u16(p.y))),
    {
        let x: u16 = if p.x > 0xffff {
            0xffff
        } else {
            p.x as u16
        };
        let y: u16 = if p.y > 0xffff {
            0xffff
        } else {
            p.y as u16
        };
        self.queue_cmd(TermCommand::MoveTo(x, y));
    }

    /// Flush: hand the queued batch out, in order, leaving the queue empty.
    pub fn execute(&mut self) -> (frame: Vec<TermCommand>)
        ensures
            cmds_view(frame@) == old(self)@,
            final(self)@ == Seq::<CommandView>::empty(),
    {
        let mut frame: Vec<TermCommand> = Vec::new();
        core::mem::swap(&mut frame, &mut self.commands);
        proof {
            assert(cmds_view(self.commands@) =~= Seq::<CommandView>::empty());
        }
        frame
    }
}

} // verus!
