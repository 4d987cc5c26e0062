//! The cursor: owns the current logical buffer offset and the terminal width
//! it is computed against, and turns every relocation into a row delta plus a
//! column delta, emitted as relative motion commands. The terminal has no
//! absolute positioning, so this two-step relative motion is the only way to
//! move.
use vstd::prelude::*;

use crate::command::{cmd_views, lemma_cmd_views_push, CmdView, TermCommand};
use crate::coords::{col_spec, lemma_position_bounds, position, row_spec};

verus! {

/// The vertical motion commands for a row delta: one move, or none when the
/// delta is zero.
pub open spec fn vertical_cmds(row_delta: int) -> Seq<CmdView> {
    if row_delta > 0 {
        seq![CmdView::Down(row_delta)]
    } else if row_delta < 0 {
        seq![CmdView::Up(-row_delta)]
    } else {
        Seq::empty()
    }
}

/// The horizontal motion commands for a column delta: one move, or none when
/// the delta is zero.
pub open spec fn horizontal_cmds(col_delta: int) -> Seq<CmdView> {
    if col_delta > 0 {
        seq![CmdView::Right(col_delta)]
    } else if col_delta < 0 {
        seq![CmdView::Left(-col_delta)]
    } else {
        Seq::empty()
    }
}

/// The commands a cursor emits to move from logical offset `from` to logical
/// offset `to` under wrap width `width`: exactly one vertical move followed
/// by one horizontal move, each omitted when its delta is zero.
pub open spec fn jump_cmds(from: int, to: int, width: int) -> Seq<CmdView> {
    vertical_cmds(row_spec(to, width) - row_spec(from, width)) + horizontal_cmds(
        col_spec(to, width) - col_spec(from, width),
    )
}

/// A jump only ever emits motion commands: it clears nothing and writes
/// nothing.
pub proof fn lemma_jump_cmds_motions(from: int, to: int, width: int)
    ensures
        crate::command::all_motions(jump_cmds(from, to, width)),
{
    let v = vertical_cmds(row_spec(to, width) - row_spec(from, width));
    let h = horizontal_cmds(col_spec(to, width) - col_spec(from, width));
    assert forall|i: int| 0 <= i < (v + h).len() implies crate::command::is_motion(
        #[trigger] (v + h)[i],
    ) by {
        if i < v.len() {
            assert((v + h)[i] == v[i]);
        } else {
            assert((v + h)[i] == h[i - v.len()]);
        }
    }
}

/// Where the cursor would land when a jump by `jump` from `index` is clamped
/// into `[lb, ub]`.
pub open spec fn clamped_index(index: int, jump: int, lb: int, ub: int) -> int {
    if index + jump > ub {
        ub
    } else if index + jump < lb {
        lb
    } else {
        index + jump
    }
}

/// Tracks the logical buffer offset the terminal cursor sits at, together
/// with the wrap width that offset is mapped through.
pub struct Cursor {
    /// Logical offset into the line buffer, 0-based.
    pub buf_index: usize,
    /// The terminal's column count; rows wrap every `terminal_width`
    /// characters.
    pub terminal_width: usize,
}

impl Cursor {
    /// The width is positive, and offset plus width stays within `isize` so
    /// that signed jump arithmetic cannot overflow.
    pub open spec fn wf(self) -> bool {
        &&& 0 < self.terminal_width
        &&& self.buf_index as int + self.terminal_width as int <= isize::MAX as int
    }

    pub fn new(buf_index: usize, terminal_width: usize) -> (c: Cursor)
        requires
            0 < terminal_width,
            buf_index as int + terminal_width as int <= isize::MAX as int,
        ensures
            c.buf_index == buf_index,
            c.terminal_width == terminal_width,
            c.wf(),
    {
        Cursor { buf_index, terminal_width }
    }

    /// The wrapped `(row, col)` terminal position of the current offset.
    pub fn cursor_position(&self) -> (pos: (usize, usize))
        requires
            self.wf(),
        ensures
            pos.0 == row_spec(self.buf_index as int, self.terminal_width as int),
            pos.1 == col_spec(self.buf_index as int, self.terminal_width as int),
    {
        position(self.buf_index, self.terminal_width)
    }

    /// Moves the logical offset by `jump_length` without emitting any
    /// command. A jump to a negative offset is a contract violation by the
    /// caller and is excluded by the precondition.
    pub fn update_index(&mut self, jump_length: isize)
        requires
            old(self).buf_index as int <= isize::MAX as int,
            0 <= old(self).buf_index as int + jump_length as int,
            old(self).buf_index as int + jump_length as int <= isize::MAX as int,
        ensures
            final(self).buf_index as int == old(self).buf_index as int + jump_length as int,
            final(self).terminal_width == old(self).terminal_width,
    {
        let new_index: isize = self.buf_index as isize + jump_length;
        self.buf_index = new_index as usize;
    }

    /// Emits one vertical relative move followed by one horizontal relative
    /// move, either omitted when its delta is zero. The cursor's own state is
    /// untouched.
    pub fn move_relative(
        &mut self,
        out: &mut Vec<TermCommand>,
        line_relative: isize,
        col_relative: isize,
    )
        requires
            (isize::MIN as int) < line_relative as int,
            (isize::MIN as int) < col_relative as int,
        ensures
            *final(self) == *old(self),
            cmd_views(final(out)@) == cmd_views(old(out)@) + vertical_cmds(line_relative as int)
                + horizontal_cmds(col_relative as int),
    {
        if line_relative > 0 {
            out.push(TermCommand::MoveDown(line_relative as usize));
        } else if line_relative < 0 {
            out.push(TermCommand::MoveUp((-line_relative) as usize));
        }
        if col_relative > 0 {
            out.push(TermCommand::MoveRight(col_relative as usize));
        } else if col_relative < 0 {
            out.push(TermCommand::MoveLeft((-col_relative) as usize));
        }
        proof {
            assert(cmd_views(out@) =~= cmd_views(old(out)@) + vertical_cmds(line_relative as int)
                + horizontal_cmds(col_relative as int));
        }
    }

    /// Relocates the cursor by `jump_length` logical offsets: recomputes the
    /// wrapped position of source and target through the coordinate mapper
    /// and emits the corresponding row-delta and column-delta moves.
    pub fn jump(&mut self, out: &mut Vec<TermCommand>, jump_length: isize)
        requires
            old(self).wf(),
            0 <= old(self).buf_index as int + jump_length as int,
            old(self).buf_index as int + jump_length as int + old(self).terminal_width as int
                <= isize::MAX as int,
        ensures
            final(self).wf(),
            final(self).buf_index as int == old(self).buf_index as int + jump_length as int,
            final(self).terminal_width == old(self).terminal_width,
            cmd_views(final(out)@) == cmd_views(old(out)@) + jump_cmds(
                old(self).buf_index as int,
                old(self).buf_index as int + jump_length as int,
                old(self).terminal_width as int,
            ),
    {
        proof {
            lemma_position_bounds(self.buf_index as int, self.terminal_width as int);
        }
        let (cur_line, cur_col) = self.cursor_position();
        self.update_index(jump_length);
        proof {
            lemma_position_bounds(self.buf_index as int, self.terminal_width as int);
        }
        let (target_line, target_col) = self.cursor_position();
        self.move_relative(
            out,
            target_line as isize - cur_line as isize,
            target_col as isize - cur_col as isize,
        );
    }

    /// Like [`Cursor::jump`], but first clamps the jump so the resulting
    /// offset stays within `[index_lb, index_ub]`; used by arrow-key
    /// navigation that must not leave the editable region.
    pub fn jump_checked(
        &mut self,
        out: &mut Vec<TermCommand>,
        jump_length: isize,
        index_lb: usize,
        index_ub: usize,
    )
        requires
            old(self).wf(),
            index_lb <= index_ub,
            index_ub as int + old(self).terminal_width as int <= isize::MAX as int,
            old(self).buf_index as int + jump_length as int <= isize::MAX as int,
        ensures
            final(self).wf(),
            final(self).buf_index as int == clamped_index(
                old(self).buf_index as int,
                jump_length as int,
                index_lb as int,
                index_ub as int,
            ),
            final(self).terminal_width == old(self).terminal_width,
            cmd_views(final(out)@) == cmd_views(old(out)@) + jump_cmds(
                old(self).buf_index as int,
                final(self).buf_index as int,
                old(self).terminal_width as int,
            ),
    {
        let mut jump_length = jump_length;
        if self.buf_index as isize + jump_length > index_ub as isize {
            jump_length = index_ub as isize - self.buf_index as isize;
        } else if self.buf_index as isize + jump_length < index_lb as isize {
            jump_length = index_lb as isize - self.buf_index as isize;
        }
        self.jump(out, jump_length);
    }

    /// Clears the terminal's current row and resets the logical offset to the
    /// start of that row: a cleared row shows nothing, wherever in it the
    /// cursor stood.
    pub fn clear_line(&mut self, out: &mut Vec<TermCommand>)
        requires
            old(self).wf(),
        ensures
            final(self).wf(),
            final(self).buf_index as int == old(self).buf_index as int - col_spec(
                old(self).buf_index as int,
                old(self).terminal_width as int,
            ),
            final(self).terminal_width == old(self).terminal_width,
            cmd_views(final(out)@) == cmd_views(old(out)@).push(CmdView::Clear),
    {
        proof {
            lemma_position_bounds(self.buf_index as int, self.terminal_width as int);
            lemma_cmd_views_push(out@, TermCommand::ClearRow);
        }
        out.push(TermCommand::ClearRow);
        self.buf_index = self.buf_index - self.buf_index % self.terminal_width;
    }

    /// Emits a write of `bytes` and advances the logical offset by their
    /// number, keeping the cursor's notion of position consistent with the
    /// terminal without a second source of truth.
    pub fn write_all(&mut self, out: &mut Vec<TermCommand>, bytes: &[u8])
        requires
            old(self).wf(),
            old(self).buf_index as int + bytes@.len() + old(self).terminal_width as int
                <= isize::MAX as int,
        ensures
            final(self).wf(),
            final(self).buf_index as int == old(self).buf_index as int + bytes@.len(),
            final(self).terminal_width == old(self).terminal_width,
            cmd_views(final(out)@) == cmd_views(old(out)@).push(CmdView::Write(bytes@)),
    {
        let copied = vstd::slice::slice_to_vec(bytes);
        proof {
            lemma_cmd_views_push(out@, TermCommand::Write(copied));
        }
        out.push(TermCommand::Write(copied));
        self.buf_index = self.buf_index + bytes.len();
    }

    /// Emits a write of `bytes` that also advances the terminal to the next
    /// row, and advances the logical offset by the bytes written.
    pub fn write_line(&mut self, out: &mut Vec<TermCommand>, bytes: &[u8])
        requires
            old(self).wf(),
            old(self).buf_index as int + bytes@.len() + old(self).terminal_width as int
                <= isize::MAX as int,
        ensures
            final(self).wf(),
            final(self).buf_index as int == old(self).buf_index as int + bytes@.len(),
            final(self).terminal_width == old(self).terminal_width,
            cmd_views(final(out)@) == cmd_views(old(out)@).push(CmdView::WriteRow(bytes@)),
    {
        let copied = vstd::slice::slice_to_vec(bytes);
        proof {
            lemma_cmd_views_push(out@, TermCommand::WriteRow(copied));
        }
        out.push(TermCommand::WriteRow(copied));
        self.buf_index = self.buf_index + bytes.len();
    }
}

} // verus!
