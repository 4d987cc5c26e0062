//! The redraw engine: after an edit at a logical offset, repaints exactly the
//! terminal rows from the row containing the edit point through the end of
//! the buffer, and restores the cursor to its pre-redraw logical position.
//! An insertion or deletion shifts every later character across row
//! boundaries, so a local edit has visual consequences on every row below it.
use vstd::prelude::*;

use crate::buffer::LineBuffer;
use crate::command::{cmd_views, rendered_rows, rendered_rows_from, CmdView, TermCommand};
use crate::coords::{col_spec, lemma_position_bounds, row_spec};
use crate::cursor::{jump_cmds, Cursor};

verus! {

/// `content` sliced into `width`-wide rows, starting at offset `start`: every
/// row is exactly `width` bytes except the last, which holds the remainder
/// (possibly empty).
pub open spec fn row_chunks(content: Seq<u8>, start: int, width: int) -> Seq<Seq<u8>>
    decreases content.len() - start,
{
    if 0 < width && start + width < content.len() {
        seq![content.subrange(start, start + width)] + row_chunks(content, start + width, width)
    } else {
        seq![content.subrange(start, content.len() as int)]
    }
}

/// The clear-and-write commands the redraw loop emits while repainting
/// `content` from offset `start` to the end: for each row, clear it and
/// write its chunk, with a row advance between rows but not after the last.
pub open spec fn paint_cmds(content: Seq<u8>, start: int, width: int) -> Seq<CmdView>
    decreases content.len() - start,
{
    if start == content.len() {
        Seq::empty()
    } else if 0 < width && start + width < content.len() {
        seq![
            CmdView::Clear,
            CmdView::Write(content.subrange(start, start + width)),
            CmdView::WriteRow(Seq::empty()),
        ] + paint_cmds(content, start + width, width)
    } else {
        seq![CmdView::Clear, CmdView::Write(content.subrange(start, content.len() as int))]
    }
}

/// Everything one call of [`update_terminal`] emits: a jump from the edit
/// point to the start of its row, the repaint of every row from there to the
/// end of the buffer, and a jump from the end of the buffer back to the edit
/// point. A pure function of buffer content, edit offset and width alone.
pub open spec fn redraw_cmds(content: Seq<u8>, origin: int, width: int) -> Seq<CmdView> {
    let rstart = origin - col_spec(origin, width);
    jump_cmds(origin, rstart, width) + paint_cmds(content, rstart, width) + jump_cmds(
        content.len() as int,
        origin,
        width,
    )
}

/// Repaints every terminal row from the cursor's current row through the end
/// of the buffer, leaving the cursor's logical offset exactly where it was:
/// only its terminal row and column move transiently, and the final jump
/// restores them.
pub fn update_terminal(buffer: &LineBuffer, cursor: &mut Cursor, out: &mut Vec<TermCommand>)
    requires
        old(cursor).wf(),
        old(cursor).buf_index <= buffer@.len(),
        buffer@.len() as int + old(cursor).terminal_width as int <= isize::MAX as int,
    ensures
        final(cursor).wf(),
        final(cursor).buf_index == old(cursor).buf_index,
        final(cursor).terminal_width == old(cursor).terminal_width,
        cmd_views(final(out)@) == cmd_views(old(out)@) + redraw_cmds(
            buffer@,
            old(cursor).buf_index as int,
            old(cursor).terminal_width as int,
        ),
{
    let ghost out0 = cmd_views(out@);
    let ghost origin_g = cursor.buf_index as int;
    let ghost w = cursor.terminal_width as int;
    let ghost rstart = origin_g - col_spec(origin_g, w);
    let old_cursor_index = cursor.buf_index;
    proof {
        lemma_position_bounds(origin_g, w);
    }
    // Jump to the start of the current row, then rewrite going down.
    let (_, col) = cursor.cursor_position();
    cursor.jump(out, -(col as isize));
    proof {
        assert(cursor.buf_index as int == rstart);
        lemma_row_start_aligned(origin_g, w);
        assert(cmd_views(out@) + paint_cmds(buffer@, cursor.buf_index as int, w) =~= out0
            + jump_cmds(origin_g, rstart, w) + paint_cmds(buffer@, rstart, w));
    }
    let len = buffer.len();
    while cursor.buf_index != len
        invariant
            cursor.wf(),
            cursor.terminal_width as int == w,
            len == buffer@.len(),
            len as int + w <= isize::MAX as int,
            rstart <= cursor.buf_index as int <= len as int,
            cursor.buf_index as int % w == 0 || cursor.buf_index as int == len as int,
            cmd_views(out@) + paint_cmds(buffer@, cursor.buf_index as int, w) == out0 + jump_cmds(
                origin_g,
                rstart,
                w,
            ) + paint_cmds(buffer@, rstart, w),
        decreases len as int - cursor.buf_index as int,
    {
        let ghost views_pre = cmd_views(out@);
        let ghost i_g = cursor.buf_index as int;
        cursor.clear_line(out);
        proof {
            assert(col_spec(i_g, w) == 0);
        }
        let i = cursor.buf_index;
        let j = if len - i < cursor.terminal_width {
            len
        } else {
            i + cursor.terminal_width
        };
        let chunk = vstd::slice::slice_subrange(buffer.content.as_slice(), i, j);
        cursor.write_all(out, chunk);
        if j != len {
            let empty: Vec<u8> = Vec::new();
            cursor.write_line(out, empty.as_slice());
            proof {
                assert(paint_cmds(buffer@, i_g, w) =~= seq![
                    CmdView::Clear,
                    CmdView::Write(buffer@.subrange(i_g, i_g + w)),
                    CmdView::WriteRow(Seq::<u8>::empty()),
                ] + paint_cmds(buffer@, i_g + w, w));
                assert(cmd_views(out@) =~= views_pre + seq![
                    CmdView::Clear,
                    CmdView::Write(buffer@.subrange(i_g, i_g + w)),
                    CmdView::WriteRow(Seq::<u8>::empty()),
                ]);
                vstd::arithmetic::div_mod::lemma_mod_add_multiples_vanish(i_g, w);
                assert(cmd_views(out@) + paint_cmds(buffer@, cursor.buf_index as int, w) =~= out0
                    + jump_cmds(origin_g, rstart, w) + paint_cmds(buffer@, rstart, w));
            }
        } else {
            proof {
                assert(paint_cmds(buffer@, i_g, w) =~= seq![
                    CmdView::Clear,
                    CmdView::Write(buffer@.subrange(i_g, len as int)),
                ]);
                assert(cmd_views(out@) =~= views_pre + seq![
                    CmdView::Clear,
                    CmdView::Write(buffer@.subrange(i_g, len as int)),
                ]);
                assert(cmd_views(out@) + paint_cmds(buffer@, cursor.buf_index as int, w) =~= out0
                    + jump_cmds(origin_g, rstart, w) + paint_cmds(buffer@, rstart, w));
            }
        }
    }
    // Jump back to the pre-redraw position.
    let jump_back_length = old_cursor_index as isize - len as isize;
    cursor.jump(out, jump_back_length);
    proof {
        assert(paint_cmds(buffer@, len as int, w) =~= Seq::<CmdView>::empty());
        assert(cmd_views(out@) =~= out0 + redraw_cmds(buffer@, origin_g, w));
    }
}

/// Repainting renders the buffer: the rows reconstructed from the clear and
/// write calls of the repaint of `content` from `start` are exactly the
/// buffer's `width`-wide chunks from `start` to the end.
pub proof fn lemma_paint_renders(content: Seq<u8>, start: int, width: int)
    requires
        0 < width,
        0 <= start <= content.len(),
    ensures
        rendered_rows(paint_cmds(content, start, width)) == row_chunks(content, start, width),
    decreases content.len() - start,
{
    let p = paint_cmds(content, start, width);
    if start == content.len() {
        assert(p =~= Seq::<CmdView>::empty());
        assert(content.subrange(start, content.len() as int) =~= Seq::<u8>::empty());
    } else if start + width < content.len() {
        let chunk = content.subrange(start, start + width);
        let rest = paint_cmds(content, start + width, width);
        assert(p[0] == CmdView::Clear);
        assert(p.skip(1) =~= seq![CmdView::Write(chunk), CmdView::WriteRow(Seq::<u8>::empty())]
            + rest);
        let p1 = p.skip(1);
        assert(p1[0] == CmdView::Write(chunk));
        assert(p1.skip(1) =~= seq![CmdView::WriteRow(Seq::<u8>::empty())] + rest);
        let p2 = p1.skip(1);
        assert(p2[0] == CmdView::WriteRow(Seq::<u8>::empty()));
        assert(p2.skip(1) =~= rest);
        assert(Seq::<u8>::empty() + chunk =~= chunk);
        assert(chunk + Seq::<u8>::empty() =~= chunk);
        assert(rendered_rows_from(p, Seq::empty()) == rendered_rows_from(p1, Seq::empty()));
        assert(rendered_rows_from(p1, Seq::empty()) == rendered_rows_from(p2, chunk));
        assert(rendered_rows_from(p2, chunk) == seq![chunk] + rendered_rows_from(
            rest,
            Seq::empty(),
        ));
        lemma_paint_renders(content, start + width, width);
        assert(rendered_rows(p) =~= row_chunks(content, start, width));
    } else {
        let chunk = content.subrange(start, content.len() as int);
        assert(p[0] == CmdView::Clear);
        assert(p.skip(1) =~= seq![CmdView::Write(chunk)]);
        let p1 = p.skip(1);
        assert(p1[0] == CmdView::Write(chunk));
        assert(p1.skip(1) =~= Seq::<CmdView>::empty());
        assert(Seq::<u8>::empty() + chunk =~= chunk);
        assert(rendered_rows_from(p, Seq::empty()) == rendered_rows_from(p1, Seq::empty()));
        assert(rendered_rows_from(p1, Seq::empty()) == rendered_rows_from(
            Seq::<CmdView>::empty(),
            chunk,
        ));
        assert(rendered_rows_from(Seq::<CmdView>::empty(), chunk) == seq![chunk]);
        assert(row_chunks(content, start, width) =~= seq![chunk]);
    }
}

/// The redraw's output is a pure function of the current buffer content,
/// edit offset and width — never of what was on the terminal before — and
/// the rows it paints, reconstructed from its clear and write calls, equal
/// the buffer content sliced into `width`-wide chunks from the start of the
/// edit point's row to the end of the buffer.
pub proof fn lemma_redraw_renders_buffer(content: Seq<u8>, origin: int, width: int)
    requires
        0 < width,
        0 <= origin <= content.len(),
    ensures
        rendered_rows(redraw_cmds(content, origin, width)) == row_chunks(
            content,
            origin - col_spec(origin, width),
            width,
        ),
{
    let rstart = origin - col_spec(origin, width);
    let j1 = jump_cmds(origin, rstart, width);
    let p = paint_cmds(content, rstart, width);
    let j2 = jump_cmds(content.len() as int, origin, width);
    crate::cursor::lemma_jump_cmds_motions(origin, rstart, width);
    crate::cursor::lemma_jump_cmds_motions(content.len() as int, origin, width);
    assert(redraw_cmds(content, origin, width) =~= j1 + (p + j2));
    crate::command::lemma_render_motion_prefix(j1, p + j2, Seq::empty());
    crate::command::lemma_render_motion_suffix(p, j2, Seq::empty());
    lemma_position_bounds(origin, width);
    lemma_paint_renders(content, rstart, width);
}

/// The start of a row is row-aligned: subtracting an offset's column lands on
/// a multiple of the width.
proof fn lemma_row_start_aligned(index: int, width: int)
    requires
        0 < width,
        0 <= index,
    ensures
        (index - col_spec(index, width)) % width == 0,
        row_spec(index - col_spec(index, width), width) == row_spec(index, width),
        col_spec(index - col_spec(index, width), width) == 0,
{
    vstd::arithmetic::div_mod::lemma_fundamental_div_mod(index, width);
    vstd::arithmetic::div_mod::lemma_mod_multiples_basic(index / width, width);
    vstd::arithmetic::div_mod::lemma_div_multiples_vanish(index / width, width);
    vstd::arithmetic::mul::lemma_mul_is_commutative(width, index / width);
}

} // verus!
