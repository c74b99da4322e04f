use vstd::prelude::*;
use vstd::string::{StrSliceExecFns, StringExecFns};
use vstd::view::View as _;

use crate::editor::buffer::Buffer;
use crate::editor::terminal::{CommandView, Position, Size, Terminal};
use crate::{NAME, VERSION};

verus! {

/// The text shown in the welcome banner: `"<NAME> - <VERSION>"`.
pub open spec fn banner_text() -> Seq<char> {
    NAME@ + " - "@ + VERSION@
}

/// A run of `n` space characters.
pub open spec fn spaces(n: nat) -> Seq<char> {
    Seq::new(n, |i: int| ' ')
}

/// The welcome line for a terminal `width` columns wide. When the width
/// cannot hold the banner text the line degenerates to a single tilde;
/// otherwise the text is centred behind a leading tilde and the whole line
/// is capped at `width` characters.
pub open spec fn welcome_line(width: int, text: Seq<char>) -> Seq<char> {
    if width <= text.len() {
        seq!['~']
    } else {
        let pad = if (width - text.len() as int) / 2 >= 1 {
            (width - text.len() as int) / 2 - 1
        } else {
            0
        };
        let full = seq!['~'] + spaces(pad as nat) + text;
        if full.len() > width {
            full.subrange(0, width)
        } else {
            full
        }
    }
}

/// The welcome line never overflows the terminal: for any banner text and
/// any positive width, its length stays within `width`.
pub proof fn lemma_welcome_fits(width: int, text: Seq<char>)
    requires
        width >= 1,
    ensures
        welcome_line(width, text).len() <= width,
{
}

/// Index of the first newline character in `s`, or `s.len()` when there
/// is none.
pub open spec fn first_nl(s: Seq<char>) -> int
    decreases s.len(),
{
    if s.len() == 0 {
        0
    } else if s[0] == '\n' {
        0
    } else {
        1 + first_nl(s.drop_first())
    }
}

pub proof fn lemma_first_nl(s: Seq<char>)
    ensures
        0 <= first_nl(s) <= s.len(),
        first_nl(s) < s.len() ==> s[first_nl(s)] == '\n',
        forall|j: int| 0 <= j < first_nl(s) ==> s[j] != '\n',
    decreases s.len(),
{
    if s.len() == 0 {
    } else if s[0] == '\n' {
    } else {
        lemma_first_nl(s.drop_first());
        assert forall|j: int| 0 <= j < first_nl(s) implies s[j] != '\n' by {
            if j > 0 {
                assert(s.drop_first()[j - 1] == s[j]);
            }
        }
    }
}

/// A line with one trailing carriage return removed, if it has one.
pub open spec fn strip_cr(line: Seq<char>) -> Seq<char> {
    if line.len() > 0 && line[line.len() - 1] == '\r' {
        line.drop_last()
    } else {
        line
    }
}

#[via_fn]
proof fn split_lines_decreases(s: Seq<char>) {
    lemma_first_nl(s);
}

/// The lines of a text, split at newline characters. The text before each
/// newline is one line, with a carriage return immediately before the
/// newline stripped; text after the last newline, if any, is a final line
/// kept as it stands. A text that ends in a newline thus yields the same
/// lines as one without that final terminator.
pub open spec fn split_lines(s: Seq<char>) -> Seq<Seq<char>>
    decreases s.len(),
    via split_lines_decreases
{
    if s.len() == 0 {
        Seq::<Seq<char>>::empty()
    } else {
        let n = first_nl(s);
        if n == s.len() {
            seq![s]
        } else {
            seq![strip_cr(s.subrange(0, n))] + split_lines(s.subrange(n + 1, s.len() as int))
        }
    }
}

/// Splitting off the first line: if `s[i]` is the first newline at or
/// after `start`, the tail of `s` from `start` splits into the stripped
/// segment before `i` followed by the lines of the rest.
pub proof fn lemma_split_step(s: Seq<char>, start: int, i: int)
    requires
        0 <= start <= i < s.len(),
        s[i] == '\n',
        forall|j: int| start <= j < i ==> s[j] != '\n',
    ensures
        split_lines(s.subrange(start, s.len() as int)) == seq![strip_cr(s.subrange(start, i))]
            + split_lines(s.subrange(i + 1, s.len() as int)),
{
    let t = s.subrange(start, s.len() as int);
    lemma_first_nl(t);
    assert(t[i - start] == '\n');
    assert(forall|j: int| 0 <= j < i - start ==> t[j] != '\n');
    assert(first_nl(t) == i - start);
    assert(t.subrange(0, i - start) =~= s.subrange(start, i));
    assert(t.subrange(i - start + 1, t.len() as int) =~= s.subrange(i + 1, s.len() as int));
}

/// A non-empty text without any newline is a single line, kept as it is.
pub proof fn lemma_split_no_nl(s: Seq<char>)
    requires
        s.len() > 0,
        forall|j: int| 0 <= j < s.len() ==> s[j] != '\n',
    ensures
        split_lines(s) == seq![s],
{
    lemma_first_nl(s);
}

/// A buffer line cut down to the visible width: lines longer than `width`
/// keep exactly their first `width` characters, shorter ones are unchanged.
pub open spec fn truncated(line: Seq<char>, width: int) -> Seq<char> {
    if line.len() > width {
        line.subrange(0, width)
    } else {
        line
    }
}

/// Truncation yields exactly `width` characters on a long line and leaves
/// a short line at its original length.
pub proof fn lemma_truncated_len(line: Seq<char>, width: int)
    requires
        width >= 0,
    ensures
        line.len() > width ==> truncated(line, width).len() == width,
        line.len() <= width ==> truncated(line, width) == line,
{
}

/// The text shown on row `r` of a grid `width` by `height`: the buffer
/// line for that row cut to the width; on the welcome row of an empty
/// buffer, the welcome line; otherwise a lone tilde.
pub open spec fn row_text(lines: Seq<Seq<char>>, width: usize, height: usize, r: usize) -> Seq<
    char,
> {
    if r < lines.len() {
        truncated(lines[r as int], width as int)
    } else if lines.len() == 0 && r == height / 3 {
        welcome_line(width as int, banner_text())
    } else {
        seq!['~']
    }
}

/// The three commands that draw `text` on row `r`: an absolute cursor
/// move to the row's start, a line clear, then the print.
pub open spec fn row_cmds(text: Seq<char>, r: usize) -> Seq<CommandView> {
    seq![
        CommandView::MoveTo(0, crate::editor::terminal::sat_u16(r)),
        CommandView::ClearLine,
        CommandView::Print(text),
    ]
}

/// The commands that draw rows `0 .. n` of the grid, in row order.
pub open spec fn frame_to(lines: Seq<Seq<char>>, width: usize, height: usize, n: usize) -> Seq<
    CommandView,
>
    decreases n,
{
    if n == 0 {
        Seq::<CommandView>::empty()
    } else {
        frame_to(lines, width, height, (n - 1) as usize) + row_cmds(
            row_text(lines, width, height, (n - 1) as usize),
            (n - 1) as usize,
        )
    }
}

/// The whole frame a render pass emits for the given lines and size.
pub open spec fn frame(lines: Seq<Seq<char>>, size: Size) -> Seq<CommandView> {
    frame_to(lines, size.width, size.height, size.height)
}

/// The view: a buffer of lines, the last-known terminal size, and a dirty
/// flag that gates redrawing.
pub struct View {
    pub buffer: Buffer,
    pub needs_redraw: bool,
    pub size: Size,
}

impl View {
    /// The view after a resize notification: the cached size is replaced
    /// and the dirty flag is set; the buffer is untouched.
    pub open spec fn resized(self, new: Size) -> View {
        View { size: new, needs_redraw: true, ..self }
    }

    /// Whether a render pass actually draws: the view is dirty and neither
    /// cached dimension is zero.
    pub open spec fn draws(self) -> bool {
        self.needs_redraw && self.size.width > 0 && self.size.height > 0
    }

    /// The view after a render pass: a full draw clears the dirty flag;
    /// a gated pass (clean view or degenerate size) changes nothing, so a
    /// zero-sized terminal never latches as clean.
    pub open spec fn rendered(self) -> View {
        if self.draws() {
            View { needs_redraw: false, ..self }
        } else {
            self
        }
    }

    /// What a render pass queues: the whole frame on a full draw, nothing
    /// on a gated pass.
    pub open spec fn render_emit(self) -> Seq<CommandView> {
        if self.draws() {
            frame(self.buffer@, self.size)
        } else {
            Seq::<CommandView>::empty()
        }
    }

    /// An empty view, seeded with the terminal size reported at startup.
    pub fn new(size: Size) -> (v: View)
        ensures
            v.buffer@ == Seq::<Seq<char>>::empty(),
            v.needs_redraw == true,
            v.size == size,
    {
        View { buffer: Buffer::default(), needs_redraw: true, size }
    }

    /// Populate the buffer from the text of a document, split into lines
    /// as `split_lines` says. Meant to run once, at startup, before the
    /// event loop; the caller reads the file and hands its contents in.
    pub fn load(&mut self, content: &str)
        ensures
            final(self).buffer@ == old(self).buffer@ + split_lines(content@),
            final(self).size == old(self).size,
            final(self).needs_redraw == old(self).needs_redraw,
    {
        let n = content.unicode_len();
        proof {
            assert(content@.subrange(0, n as int) =~= content@);
        }
        let mut start: usize = 0;
        let mut i: usize = 0;
        while i < n
            invariant
                n == content@.len(),
                start <= i <= n,
                self.size == old(self).size,
                self.needs_redraw == old(self).needs_redraw,
                self.buffer@ + split_lines(content@.subrange(start as int, n as int)) == old(
                    self,
                ).buffer@ + split_lines(content@),
                forall|j: int| start <= j < i ==> content@[j] != '\n',
            decreases n - i,
        {
            let c = content.get_char(i);
            if c == '\n' {
                let end = if i > start && content.get_char(i - 1) == '\r' {
                    i - 1
                } else {
                    i
                };
                let piece = content.substring_char(start, end);
                proof {
                    assert(piece@ =~= strip_cr(content@.subrange(start as int, i as int)));
                    lemma_split_step(content@, start as int, i as int);
                }
                let ghost before = self.buffer@;
                self.buffer.append(piece);
                proof {
                    assert(before.push(piece@) =~= before + seq![piece@]);
                    assert(self.buffer@ + split_lines(
                        content@.subrange(i + 1 as int, n as int),
                    ) =~= old(self).buffer@ + split_lines(content@));
                }
                start = i + 1;
            }
            i = i + 1;
        }
        if start < n {
            let piece = content.substring_char(start, n);
            let ghost before = self.buffer@;
            self.buffer.append(piece);
            proof {
                lemma_split_no_nl(content@.subrange(start as int, n as int));
                assert(before.push(piece@) =~= before + seq![piece@]);
                assert(self.buffer@ =~= old(self).buffer@ + split_lines(content@));
            }
        } else {
            proof {
                assert(content@.subrange(start as int, n as int).len() == 0);
                assert(self.buffer@ =~= old(self).buffer@ + split_lines(content@));
            }
        }
    }

    /// Record a new terminal size and mark the view dirty. No drawing
    /// happens here; the next render pass picks the size up.
    pub fn resize(&mut self, new: Size)
        ensures
            *final(self) == old(self).resized(new),
    {
        self.size = new;
        self.needs_redraw = true;
    }

    /// Resizing is idempotent: a second notification with the same size
    /// leaves the view exactly where the first one did, so the frames
    /// rendered from the two states are the same.
    pub proof fn lemma_resize_idempotent(self, new: Size)
        ensures
            self.resized(new).resized(new) == self.resized(new),
    {
    }

    /// Redraw gating: a clean view renders nothing and stays as it is.
    pub proof fn lemma_redraw_gated(self)
        requires
            !self.needs_redraw,
        ensures
            self.render_emit() == Seq::<CommandView>::empty(),
            self.rendered() == self,
    {
    }

    /// A second render pass with no intervening state change is a no-op:
    /// whatever the first pass did, the state it leaves emits nothing, and
    /// rendering keeps it where it is.
    pub proof fn lemma_render_twice(self)
        ensures
            self.rendered().render_emit() == Seq::<CommandView>::empty(),
            self.rendered().rendered() == self.rendered(),
    {
    }

    /// Draw one row: move the cursor to the row's start, clear the line,
    /// print the text. Row placement is by absolute cursor move; no
    /// trailing newline is emitted.
    pub fn render_line(term: &mut Terminal, pos: usize, text: &str)
        ensures
            final(term)@ == old(term)@ + row_cmds(text@, pos),
    {
        term.move_cursor_to(Position { x: 0, y: pos });
        term.clear_line();
        term.print(text);
        proof {
            assert(final(term)@ =~= old(term)@ + row_cmds(text@, pos));
        }
    }

    /// Produce the on-screen image of the current state. A clean view
    /// emits nothing; a degenerate size (either dimension zero) emits
    /// nothing and leaves the dirty flag set, so the first real size after
    /// a restore still redraws; otherwise the full frame is queued and the
    /// dirty flag is cleared.
    pub fn render(&mut self, term: &mut Terminal)
        ensures
            *final(self) == old(self).rendered(),
            final(term)@ == old(term)@ + old(self).render_emit(),
    {
        if !self.needs_redraw {
            return ;
        }
        let width = self.size.width;
        let height = self.size.height;
        if height == 0 || width == 0 {
            return ;
        }
        let welcome_row = height / 3;
        let mut row: usize = 0;
        while row < height
            invariant
                *self == *old(self),
                self.needs_redraw,
                width == self.size.width,
                height == self.size.height,
                width > 0,
                height > 0,
                welcome_row == height / 3,
                row <= height,
                term@ == old(term)@ + frame_to(self.buffer@, width, height, row),
            decreases height - row,
        {
            if let Some(line) = self.buffer.get(row) {
                let n = line.as_str().unicode_len();
                if n > width {
                    let t = line.as_str().substring_char(0, width);
                    Self::render_line(term, row, t);
                } else {
                    Self::render_line(term, row, line.as_str());
                }
            } else if row == welcome_row && self.buffer.is_empty() {
                let msg = Self::construct_welcome_msg(width);
                Self::render_line(term, row, msg.as_str());
            } else {
                let tilde = "~";
                proof {
                    reveal_strlit("~");
                    assert(tilde@ =~= seq!['~']);
                }
                Self::render_line(term, row, tilde);
            }
            proof {
                assert(term@ =~= old(term)@ + frame_to(self.buffer@, width, height, (row
                + 1) as usize));
            }
            row = row + 1;
        }
        self.needs_redraw = false;
    }

    /// The banner string itself, built from the program's name and version.
    fn banner_string() -> (r: String)
        ensures
            r@ == banner_text(),
    {
        let mut s = NAME.to_owned();
        s.append(" - ");
        s.append(VERSION);
        s
    }

    /// Compose the welcome line for the given width, per `welcome_line`.
    pub fn construct_welcome_msg(width: usize) -> (r: String)
        ensures
            r@ == welcome_line(width as int, banner_text()),
    {
        let text = Self::banner_string();
        let length = text.as_str().unicode_len();
        if width <= length {
            let r = "~".to_owned();
            proof {
                reveal_strlit("~");
                assert(r@ =~= seq!['~']);
            }
            return r;
        }
        let half = (width - length) / 2;
        let amt = if half >= 1 {
            half - 1
        } else {
            0
        };
        let mut msg = "~".to_owned();
        proof {
            reveal_strlit("~");
            assert(msg@ =~= seq!['~'] + spaces(0));
        }
        let mut i: usize = 0;
        while i < amt
            invariant
                i <= amt,
                msg@ == seq!['~'] + spaces(i as nat),
            decreases amt - i,
        {
            msg.append(" ");
            proof {
                reveal_strlit(" ");
                assert(msg@ =~= seq!['~'] + spaces((i + 1) as nat));
            }
            i = i + 1;
        }
        msg.append(text.as_str());
        let full_len = msg.as_str().unicode_len();
        if full_len > width {
            let r = msg.as_str().substring_char(0, width).to_owned();
            r
        } else {
            msg
        }
    }
}

} // verus!
