//! The input-loop state machine: one key event at a time is dispatched to
//! the line buffer, the cursor and the redraw engine. The session stays in
//! its editing state until the submit key arrives; the driver that reads
//! keys and executes the emitted commands lives outside the library.
use vstd::prelude::*;

use crate::buffer::LineBuffer;
use crate::command::{cmd_views, lemma_cmd_views_push, CmdView, TermCommand};
use crate::coords::col_spec;
use crate::cursor::{clamped_index, jump_cmds, Cursor};
use crate::redraw::{redraw_cmds, update_terminal};

verus! {

/// A key event, as the terminal reports it.
#[derive(Clone, Copy, PartialEq, Eq, Structural, Debug)]
pub enum Key {
    /// A printable character (one byte).
    Char(u8),
    Backspace,
    Enter,
    Tab,
    ArrowUp,
    ArrowDown,
    ArrowLeft,
    ArrowRight,
    /// Any other key; ignored.
    Other,
}

/// What handling one key decided.
#[derive(Clone, Copy, PartialEq, Eq, Structural, Debug)]
pub enum Outcome {
    /// Stay in the editing state and read the next key.
    Continue,
    /// The submit key was seen: the session is over.
    Submitted,
    /// The completion trigger was seen; completion is not implemented, and
    /// the caller decides what a stub does.
    Unsupported,
}

/// The commands one inserted character emits: a full repaint of the edited
/// buffer from the insertion point, a one-step cursor advance, and — when
/// the new offset lands exactly on a row boundary — an explicit advance to a
/// fresh row, since the terminal never wraps on its own.
pub open spec fn write_char_cmds(content: Seq<u8>, origin: int, width: int, c: u8) -> Seq<
    CmdView,
> {
    redraw_cmds(content.insert(origin, c), origin, width) + jump_cmds(origin, origin + 1, width)
        + if col_spec(origin + 1, width) == 0 {
        seq![CmdView::WriteRow(Seq::<u8>::empty())]
    } else {
        Seq::<CmdView>::empty()
    }
}

/// The commands one backward deletion emits: a one-step cursor retreat,
/// then — when the deletion emptied the trailing row exactly — a bare clear
/// of that row, and otherwise a full repaint of the shortened buffer from
/// the new offset.
pub open spec fn delete_char_cmds(content: Seq<u8>, origin: int, width: int) -> Seq<CmdView> {
    let shortened = content.remove(origin - 1);
    jump_cmds(origin, origin - 1, width) + if col_spec(origin - 1, width) == 0 && origin - 1
        == shortened.len() {
        seq![CmdView::Clear]
    } else {
        redraw_cmds(shortened, origin - 1, width)
    }
}

/// One editing session: the line buffer and the cursor, both exclusively
/// owned, plus the wrap width the cursor is mapped through.
pub struct Editor {
    /// The logical line, prompt included: the single source of truth for
    /// content.
    pub buffer: LineBuffer,
    /// The cursor's logical offset and the width it is computed against.
    pub cursor: Cursor,
}

impl Editor {
    /// The buffer is well formed, the cursor stays inside
    /// `[prompt_len, content.len()]`, and length plus width fits signed
    /// arithmetic.
    pub open spec fn wf(self) -> bool {
        &&& self.buffer.wf()
        &&& self.cursor.wf()
        &&& self.buffer.prompt_len <= self.cursor.buf_index
        &&& self.cursor.buf_index <= self.buffer@.len()
        &&& self.buffer@.len() as int + self.cursor.terminal_width as int <= isize::MAX as int
    }

    /// Starts a session: the buffer holds exactly the prompt and the cursor
    /// sits at its end.
    pub fn new(prompt: &[u8], terminal_width: usize) -> (e: Editor)
        requires
            0 < terminal_width,
            prompt@.len() as int + terminal_width as int <= isize::MAX as int,
        ensures
            e.wf(),
            e.buffer@ == prompt@,
            e.buffer.prompt_len == prompt@.len(),
            e.cursor.buf_index == prompt@.len(),
            e.cursor.terminal_width == terminal_width,
    {
        let buffer = LineBuffer::new(prompt);
        let at_end = buffer.len();
        let cursor = Cursor::new(at_end, terminal_width);
        Editor { buffer, cursor }
    }

    /// Emits the one write that puts the initial buffer content (the prompt)
    /// on the terminal.
    pub fn initial_paint(&self, out: &mut Vec<TermCommand>)
        requires
            self.wf(),
        ensures
            cmd_views(final(out)@) == cmd_views(old(out)@).push(CmdView::Write(self.buffer@)),
    {
        let bytes = vstd::slice::slice_to_vec(self.buffer.content.as_slice());
        proof {
            lemma_cmd_views_push(out@, TermCommand::Write(bytes));
        }
        out.push(TermCommand::Write(bytes));
    }

    /// Inserts `c` at the cursor: repaints from the insertion point, advances
    /// the cursor by one, and opens a fresh row when the new offset lands on
    /// a row boundary.
    pub fn write_char(&mut self, c: u8, out: &mut Vec<TermCommand>)
        requires
            old(self).wf(),
            old(self).buffer@.len() as int + old(self).cursor.terminal_width as int + 1
                <= isize::MAX as int,
        ensures
            final(self).wf(),
            final(self).buffer@ == old(self).buffer@.insert(old(self).cursor.buf_index as int, c),
            final(self).buffer.prompt_len == old(self).buffer.prompt_len,
            final(self).cursor.buf_index == old(self).cursor.buf_index + 1,
            final(self).cursor.terminal_width == old(self).cursor.terminal_width,
            cmd_views(final(out)@) == cmd_views(old(out)@) + write_char_cmds(
                old(self).buffer@,
                old(self).cursor.buf_index as int,
                old(self).cursor.terminal_width as int,
                c,
            ),
    {
        let ghost v0 = cmd_views(out@);
        let at = self.cursor.buf_index;
        self.buffer.insert(at, c);
        update_terminal(&self.buffer, &mut self.cursor, out);
        self.cursor.jump(out, 1);
        let ghost v2 = cmd_views(out@);
        let (_, col) = self.cursor.cursor_position();
        if col == 0 {
            let empty: Vec<u8> = Vec::new();
            self.cursor.write_line(out, empty.as_slice());
        }
        proof {
            assert(cmd_views(out@) =~= v0 + write_char_cmds(
                old(self).buffer@,
                old(self).cursor.buf_index as int,
                old(self).cursor.terminal_width as int,
                c,
            ));
        }
    }

    /// Removes the character before the cursor: retreats by one, then either
    /// clears the trailing row it emptied or repaints from the new offset.
    /// A no-op precondition guards the prompt: deletion never reaches it.
    pub fn delete_char(&mut self, out: &mut Vec<TermCommand>)
        requires
            old(self).wf(),
            old(self).buffer.prompt_len < old(self).cursor.buf_index,
        ensures
            final(self).wf(),
            final(self).buffer@ == old(self).buffer@.remove(
                old(self).cursor.buf_index as int - 1,
            ),
            final(self).buffer.prompt_len == old(self).buffer.prompt_len,
            final(self).cursor.buf_index == old(self).cursor.buf_index - 1,
            final(self).cursor.terminal_width == old(self).cursor.terminal_width,
            cmd_views(final(out)@) == cmd_views(old(out)@) + delete_char_cmds(
                old(self).buffer@,
                old(self).cursor.buf_index as int,
                old(self).cursor.terminal_width as int,
            ),
    {
        let ghost v0 = cmd_views(out@);
        let at = self.cursor.buf_index;
        self.buffer.remove(at - 1);
        self.cursor.jump(out, -1);
        let (_, col) = self.cursor.cursor_position();
        let len = self.buffer.len();
        if col == 0 && self.cursor.buf_index == len {
            // Deleting the last character emptied the trailing row: clear it
            // instead of repainting, leaving the cursor's offset alone.
            proof {
                lemma_cmd_views_push(out@, TermCommand::ClearRow);
            }
            out.push(TermCommand::ClearRow);
        } else {
            update_terminal(&self.buffer, &mut self.cursor, out);
        }
        proof {
            assert(cmd_views(out@) =~= v0 + delete_char_cmds(
                old(self).buffer@,
                old(self).cursor.buf_index as int,
                old(self).cursor.terminal_width as int,
            ));
        }
    }

    /// Dispatches one key event. The returned outcome says whether the
    /// session goes on, was submitted, or hit the unimplemented completion
    /// trigger. Arrow keys that would leave the editable region, a backspace
    /// at the prompt boundary, and an arrow-down with no content below the
    /// cursor's row are no-ops that emit nothing.
    pub fn handle_key(&mut self, key: Key, out: &mut Vec<TermCommand>) -> (outcome: Outcome)
        requires
            old(self).wf(),
            key is Char ==> old(self).buffer@.len() as int
                + old(self).cursor.terminal_width as int + 1 <= isize::MAX as int,
        ensures
            final(self).wf(),
            final(self).buffer.prompt_len == old(self).buffer.prompt_len,
            final(self).cursor.terminal_width == old(self).cursor.terminal_width,
            match key {
                Key::Char(c) => outcome is Continue && final(self).buffer@ == old(self).buffer@.insert(old(self).cursor.buf_index as int, c) && final(self).cursor.buf_index == old(self).cursor.buf_index + 1 && cmd_views(final(out)@)
                    == cmd_views(old(out)@) + write_char_cmds(
                    old(self).buffer@,
                    old(self).cursor.buf_index as int,
                    old(self).cursor.terminal_width as int,
                    c,
                ),
                Key::Backspace => outcome is Continue && if old(self).cursor.buf_index == old(self).buffer.prompt_len {
                    *final(self) == *old(self) && final(out)@ == old(out)@
                } else {
                    final(self).buffer@ == old(self).buffer@.remove(
                        old(self).cursor.buf_index as int - 1,
                    ) && final(self).cursor.buf_index == old(self).cursor.buf_index - 1
                        && cmd_views(final(out)@) == cmd_views(old(out)@) + delete_char_cmds(
                        old(self).buffer@,
                        old(self).cursor.buf_index as int,
                        old(self).cursor.terminal_width as int,
                    )
                },
                Key::Enter => outcome is Submitted && *final(self) == *old(self) && cmd_views(
                    final(out)@,
                ) == cmd_views(old(out)@).push(CmdView::WriteRow(Seq::empty())),
                Key::Tab => outcome is Unsupported && *final(self) == *old(self) && final(out)@
                    == old(out)@,
                Key::ArrowRight => outcome is Continue && final(self).buffer == old(self).buffer
                    && if old(self).cursor.buf_index == old(self).buffer@.len() {
                    *final(self) == *old(self) && final(out)@ == old(out)@
                } else {
                    final(self).cursor.buf_index == old(self).cursor.buf_index + 1 && cmd_views(
                        final(out)@,
                    ) == cmd_views(old(out)@) + jump_cmds(
                        old(self).cursor.buf_index as int,
                        old(self).cursor.buf_index as int + 1,
                        old(self).cursor.terminal_width as int,
                    )
                },
                Key::ArrowLeft => outcome is Continue && final(self).buffer == old(self).buffer
                    && if old(self).cursor.buf_index == old(self).buffer.prompt_len {
                    *final(self) == *old(self) && final(out)@ == old(out)@
                } else {
                    final(self).cursor.buf_index == old(self).cursor.buf_index - 1 && cmd_views(
                        final(out)@,
                    ) == cmd_views(old(out)@) + jump_cmds(
                        old(self).cursor.buf_index as int,
                        old(self).cursor.buf_index as int - 1,
                        old(self).cursor.terminal_width as int,
                    )
                },
                Key::ArrowUp => outcome is Continue && final(self).buffer == old(self).buffer
                    && if old(self).cursor.buf_index < old(self).cursor.terminal_width {
                    *final(self) == *old(self) && final(out)@ == old(out)@
                } else {
                    final(self).cursor.buf_index as int == clamped_index(
                        old(self).cursor.buf_index as int,
                        -(old(self).cursor.terminal_width as int),
                        old(self).buffer.prompt_len as int,
                        old(self).buffer@.len() as int,
                    ) && cmd_views(final(out)@) == cmd_views(old(out)@) + jump_cmds(
                        old(self).cursor.buf_index as int,
                        final(self).cursor.buf_index as int,
                        old(self).cursor.terminal_width as int,
                    )
                },
                Key::ArrowDown => outcome is Continue && final(self).buffer == old(self).buffer
                    && if old(self).buffer@.len() <= old(self).cursor.buf_index - col_spec(
                    old(self).cursor.buf_index as int,
                    old(self).cursor.terminal_width as int,
                ) + old(self).cursor.terminal_width {
                    // no content below the cursor's row: a no-op
                    *final(self) == *old(self) && final(out)@ == old(out)@
                } else {
                    final(self).cursor.buf_index as int == clamped_index(
                        old(self).cursor.buf_index as int,
                        old(self).cursor.terminal_width as int,
                        old(self).buffer.prompt_len as int,
                        old(self).buffer@.len() as int,
                    ) && cmd_views(final(out)@) == cmd_views(old(out)@) + jump_cmds(
                        old(self).cursor.buf_index as int,
                        final(self).cursor.buf_index as int,
                        old(self).cursor.terminal_width as int,
                    )
                },
                Key::Other => outcome is Continue && *final(self) == *old(self) && final(out)@
                    == old(out)@,
            },
    {
        match key {
            Key::Char(c) => {
                self.write_char(c, out);
                Outcome::Continue
            },
            Key::Backspace => {
                if self.cursor.buf_index == self.buffer.prompt_len {
                    Outcome::Continue
                } else {
                    self.delete_char(out);
                    Outcome::Continue
                }
            },
            Key::Enter => {
                let empty: Vec<u8> = Vec::new();
                proof {
                    lemma_cmd_views_push(out@, TermCommand::WriteRow(empty));
                }
                out.push(TermCommand::WriteRow(empty));
                Outcome::Submitted
            },
            Key::Tab => Outcome::Unsupported,
            Key::ArrowRight => {
                let len = self.buffer.len();
                if self.cursor.buf_index < len {
                    self.cursor.jump(out, 1);
                }
                Outcome::Continue
            },
            Key::ArrowLeft => {
                if self.cursor.buf_index > self.buffer.prompt_len {
                    self.cursor.jump(out, -1);
                }
                Outcome::Continue
            },
            Key::ArrowUp => {
                let width = self.cursor.terminal_width;
                if self.cursor.buf_index >= width {
                    let lb = self.buffer.prompt_len;
                    let ub = self.buffer.len();
                    self.cursor.jump_checked(out, -(width as isize), lb, ub);
                }
                Outcome::Continue
            },
            Key::ArrowDown => {
                let width = self.cursor.terminal_width;
                let len = self.buffer.len();
                // The row below holds content only when the buffer reaches
                // past the end of the cursor's current row.
                let (_, col) = self.cursor.cursor_position();
                proof {
                    crate::coords::lemma_position_bounds(
                        self.cursor.buf_index as int,
                        self.cursor.terminal_width as int,
                    );
                }
                let row_start = self.cursor.buf_index - col;
                if len > row_start + width {
                    let lb = self.buffer.prompt_len;
                    self.cursor.jump_checked(out, width as isize, lb, len);
                }
                Outcome::Continue
            },
            Key::Other => Outcome::Continue,
        }
    }
}

} // verus!
