use wrapline::buffer::LineBuffer;
use wrapline::command::{reconstruct_rows, TermCommand};
use wrapline::cursor::Cursor;
use wrapline::editor::{Editor, Key, Outcome};
use wrapline::redraw::update_terminal;

fn chunks(content: &[u8], width: usize) -> Vec<Vec<u8>> {
    let mut rows: Vec<Vec<u8>> = Vec::new();
    let mut start = 0usize;
    while start + width < content.len() {
        rows.push(content[start..start + width].to_vec());
        start += width;
    }
    rows.push(content[start..].to_vec());
    rows
}

#[test]
fn insert_wraps_after_full_row() {
    // prompt "> ", width 5
    let mut ed = Editor::new(b"> ", 5);
    let mut out: Vec<TermCommand> = Vec::new();
    for &c in b"abc" {
        assert_eq!(ed.handle_key(Key::Char(c), &mut out), Outcome::Continue);
    }
    // "> abc" fills exactly one row; the next write point is a fresh row
    assert_eq!(ed.buffer.content, b"> abc".to_vec());
    assert_eq!(ed.cursor.buf_index, 5);
    assert_eq!(ed.cursor.cursor_position(), (1, 0));
    assert_eq!(out.last(), Some(&TermCommand::WriteRow(Vec::new())));
    for &c in b"de" {
        ed.handle_key(Key::Char(c), &mut out);
    }
    // "> abcde" spans two rows; offset 7 maps to row 1, column 2
    assert_eq!(ed.buffer.content, b"> abcde".to_vec());
    assert_eq!(ed.cursor.buf_index, 7);
    assert_eq!(ed.cursor.cursor_position(), (1, 2));
}

#[test]
fn delete_stays_on_row() {
    // same state as the insert scenario: "> abcde", width 5, cursor at 7
    let mut ed = Editor::new(b"> ", 5);
    let mut out: Vec<TermCommand> = Vec::new();
    for &c in b"abcde" {
        ed.handle_key(Key::Char(c), &mut out);
    }
    let mut deletion: Vec<TermCommand> = Vec::new();
    assert_eq!(ed.handle_key(Key::Backspace, &mut deletion), Outcome::Continue);
    assert_eq!(ed.buffer.content, b"> abcd".to_vec());
    assert_eq!(ed.cursor.buf_index, 6);
    assert_eq!(ed.cursor.cursor_position(), (1, 1));
    // the cursor moved from (1,2) to (1,1): no row-crossing motion at all
    for cmd in &deletion {
        assert!(!matches!(cmd, TermCommand::MoveUp(_) | TermCommand::MoveDown(_)));
    }
    assert_eq!(
        deletion,
        vec![
            TermCommand::MoveLeft(1),
            TermCommand::MoveLeft(1),
            TermCommand::ClearRow,
            TermCommand::Write(b"d".to_vec()),
        ]
    );
}

#[test]
fn boundary_insert_opens_fresh_row() {
    // empty prompt, width 4, content "abcd": length is an exact multiple
    let mut ed = Editor::new(b"", 4);
    let mut out: Vec<TermCommand> = Vec::new();
    for &c in b"abcd" {
        ed.handle_key(Key::Char(c), &mut out);
    }
    assert_eq!(ed.cursor.cursor_position(), (1, 0));
    // the row advance was emitted when the offset hit the boundary,
    // before anything is written on the fresh row
    assert_eq!(out.last(), Some(&TermCommand::WriteRow(Vec::new())));
    let mut insertion: Vec<TermCommand> = Vec::new();
    ed.handle_key(Key::Char(b'e'), &mut insertion);
    // "e" is painted at (1,0) with no further row advance
    assert_eq!(
        insertion,
        vec![
            TermCommand::ClearRow,
            TermCommand::Write(b"e".to_vec()),
            TermCommand::MoveLeft(1),
            TermCommand::MoveRight(1),
        ]
    );
    assert_eq!(ed.cursor.cursor_position(), (1, 1));
}

#[test]
fn deleting_last_char_on_fresh_row_clears_it() {
    let mut ed = Editor::new(b"", 4);
    let mut out: Vec<TermCommand> = Vec::new();
    for &c in b"abcde" {
        ed.handle_key(Key::Char(c), &mut out);
    }
    let mut deletion: Vec<TermCommand> = Vec::new();
    ed.handle_key(Key::Backspace, &mut deletion);
    // offset 5 -> 4 == new length, on a row boundary: the emptied trailing
    // row is cleared instead of repainted
    assert_eq!(ed.buffer.content, b"abcd".to_vec());
    assert_eq!(
        deletion,
        vec![TermCommand::MoveLeft(1), TermCommand::ClearRow]
    );
}

#[test]
fn arrows_and_backspace_are_no_ops_at_bounds() {
    let mut ed = Editor::new(b"> ", 5);
    let mut out: Vec<TermCommand> = Vec::new();
    // cursor sits at the prompt boundary, which is also the buffer end
    assert_eq!(ed.handle_key(Key::ArrowLeft, &mut out), Outcome::Continue);
    assert!(out.is_empty());
    assert_eq!(ed.handle_key(Key::ArrowRight, &mut out), Outcome::Continue);
    assert!(out.is_empty());
    assert_eq!(ed.handle_key(Key::Backspace, &mut out), Outcome::Continue);
    assert!(out.is_empty());
    assert_eq!(ed.cursor.buf_index, 2);
    assert_eq!(ed.buffer.content, b"> ".to_vec());
}

#[test]
fn arrows_move_inside_the_editable_region() {
    let mut ed = Editor::new(b"> ", 5);
    let mut out: Vec<TermCommand> = Vec::new();
    ed.handle_key(Key::Char(b'x'), &mut out);
    let mut nav: Vec<TermCommand> = Vec::new();
    ed.handle_key(Key::ArrowLeft, &mut nav); // 3 -> 2
    assert_eq!(nav, vec![TermCommand::MoveLeft(1)]);
    assert_eq!(ed.cursor.buf_index, 2);
    nav.clear();
    ed.handle_key(Key::ArrowLeft, &mut nav); // at the prompt: no-op
    assert!(nav.is_empty());
    ed.handle_key(Key::ArrowRight, &mut nav); // 2 -> 3
    assert_eq!(nav, vec![TermCommand::MoveRight(1)]);
    nav.clear();
    ed.handle_key(Key::ArrowRight, &mut nav); // at the end: no-op
    assert!(nav.is_empty());
}

#[test]
fn arrow_up_clamps_to_the_prompt() {
    let mut ed = Editor::new(b"> ", 5);
    let mut out: Vec<TermCommand> = Vec::new();
    for &c in b"abcd" {
        ed.handle_key(Key::Char(c), &mut out);
    }
    let mut nav: Vec<TermCommand> = Vec::new();
    // from offset 6 (row 1, col 1): one width up would land inside the
    // prompt, so the jump clamps to offset 2 at (0, 2)
    ed.handle_key(Key::ArrowUp, &mut nav);
    assert_eq!(ed.cursor.buf_index, 2);
    assert_eq!(nav, vec![TermCommand::MoveUp(1), TermCommand::MoveRight(1)]);
}

#[test]
fn arrow_up_is_a_no_op_on_the_first_row() {
    let mut ed = Editor::new(b"> ", 5);
    let mut out: Vec<TermCommand> = Vec::new();
    ed.handle_key(Key::Char(b'a'), &mut out);
    let mut nav: Vec<TermCommand> = Vec::new();
    ed.handle_key(Key::ArrowUp, &mut nav); // offset 3 < width 5
    assert!(nav.is_empty());
    assert_eq!(ed.cursor.buf_index, 3);
}

#[test]
fn arrow_down_moves_a_row_down() {
    let mut ed = Editor::new(b"> ", 4);
    let mut out: Vec<TermCommand> = Vec::new();
    for &c in b"abcdef" {
        ed.handle_key(Key::Char(c), &mut out);
    }
    // buffer "> abcdef" (length 8); put the cursor at offset 3 (row 0)
    let mut nav: Vec<TermCommand> = Vec::new();
    for _ in 0..5 {
        ed.handle_key(Key::ArrowLeft, &mut nav);
    }
    assert_eq!(ed.cursor.buf_index, 3);
    nav.clear();
    // content lies below row 0: one width down, same column
    ed.handle_key(Key::ArrowDown, &mut nav);
    assert_eq!(ed.cursor.buf_index, 7);
    assert_eq!(nav, vec![TermCommand::MoveDown(1)]);
}

#[test]
fn arrow_down_clamps_to_the_buffer_end() {
    let mut ed = Editor::new(b"> ", 4);
    let mut out: Vec<TermCommand> = Vec::new();
    for &c in b"abcd" {
        ed.handle_key(Key::Char(c), &mut out);
    }
    // buffer "> abcd" (length 6); put the cursor at offset 3 (row 0)
    let mut nav: Vec<TermCommand> = Vec::new();
    for _ in 0..3 {
        ed.handle_key(Key::ArrowLeft, &mut nav);
    }
    assert_eq!(ed.cursor.buf_index, 3);
    nav.clear();
    // row 1 holds content, but a full width down overshoots the end:
    // clamps to offset 6 at (1, 2)
    ed.handle_key(Key::ArrowDown, &mut nav);
    assert_eq!(ed.cursor.buf_index, 6);
    assert_eq!(nav, vec![TermCommand::MoveDown(1), TermCommand::MoveLeft(1)]);
}

#[test]
fn arrow_down_is_a_no_op_on_the_last_row() {
    let mut ed = Editor::new(b"> ", 5);
    let mut out: Vec<TermCommand> = Vec::new();
    for &c in b"abcde" {
        ed.handle_key(Key::Char(c), &mut out);
    }
    let mut nav: Vec<TermCommand> = Vec::new();
    ed.handle_key(Key::ArrowLeft, &mut nav); // offset 6, on the last row
    nav.clear();
    ed.handle_key(Key::ArrowDown, &mut nav);
    assert!(nav.is_empty());
    assert_eq!(ed.cursor.buf_index, 6);
}

#[test]
fn arrow_down_is_a_no_op_at_the_start_of_the_last_row() {
    // width 4, buffer "abcde": offset 4 starts the last partial row, with
    // nothing below it
    let mut ed = Editor::new(b"", 4);
    let mut out: Vec<TermCommand> = Vec::new();
    for &c in b"abcde" {
        ed.handle_key(Key::Char(c), &mut out);
    }
    let mut nav: Vec<TermCommand> = Vec::new();
    ed.handle_key(Key::ArrowLeft, &mut nav); // offset 4
    assert_eq!(ed.cursor.buf_index, 4);
    nav.clear();
    ed.handle_key(Key::ArrowDown, &mut nav);
    assert!(nav.is_empty());
    assert_eq!(ed.cursor.buf_index, 4);
}

#[test]
fn arrow_down_is_a_no_op_when_the_last_row_is_full() {
    // width 4, buffer "abcd": the single content row is exactly full, and
    // no content lies below it
    let mut ed = Editor::new(b"", 4);
    let mut out: Vec<TermCommand> = Vec::new();
    for &c in b"abcd" {
        ed.handle_key(Key::Char(c), &mut out);
    }
    let mut nav: Vec<TermCommand> = Vec::new();
    ed.handle_key(Key::ArrowLeft, &mut nav);
    ed.handle_key(Key::ArrowLeft, &mut nav); // offset 2, on row 0
    assert_eq!(ed.cursor.buf_index, 2);
    nav.clear();
    ed.handle_key(Key::ArrowDown, &mut nav);
    assert!(nav.is_empty());
    assert_eq!(ed.cursor.buf_index, 2);
}

#[test]
fn submit_returns_post_prompt_content() {
    let mut ed = Editor::new(b"rash>-", 80);
    let mut out: Vec<TermCommand> = Vec::new();
    for &c in b"ls -l" {
        ed.handle_key(Key::Char(c), &mut out);
    }
    let mut fin: Vec<TermCommand> = Vec::new();
    assert_eq!(ed.handle_key(Key::Enter, &mut fin), Outcome::Submitted);
    assert_eq!(fin, vec![TermCommand::WriteRow(Vec::new())]);
    assert_eq!(ed.buffer.into_input(), b"ls -l".to_vec());
}

#[test]
fn completion_trigger_is_unsupported() {
    let mut ed = Editor::new(b"> ", 5);
    let mut out: Vec<TermCommand> = Vec::new();
    assert_eq!(ed.handle_key(Key::Tab, &mut out), Outcome::Unsupported);
    assert!(out.is_empty());
    assert_eq!(ed.handle_key(Key::Other, &mut out), Outcome::Continue);
    assert!(out.is_empty());
}

#[test]
fn initial_paint_writes_the_prompt() {
    let ed = Editor::new(b"rash>-", 80);
    let mut out: Vec<TermCommand> = Vec::new();
    ed.initial_paint(&mut out);
    assert_eq!(out, vec![TermCommand::Write(b"rash>-".to_vec())]);
}

#[test]
fn redraw_renders_width_chunks() {
    let buffer = LineBuffer::new(b"abcdefghij");
    let mut cursor = Cursor::new(5, 4);
    let mut out: Vec<TermCommand> = Vec::new();
    update_terminal(&buffer, &mut cursor, &mut out);
    // the cursor's logical offset is exactly where it was
    assert_eq!(cursor.buf_index, 5);
    // the rows painted from the cursor's row are the buffer's chunks
    let rows = reconstruct_rows(&out);
    assert_eq!(rows, vec![b"efgh".to_vec(), b"ij".to_vec()]);
}

#[test]
fn redraw_from_the_top_renders_everything() {
    let buffer = LineBuffer::new(b"abcdefghij");
    let mut cursor = Cursor::new(2, 4);
    let mut out: Vec<TermCommand> = Vec::new();
    update_terminal(&buffer, &mut cursor, &mut out);
    assert_eq!(cursor.buf_index, 2);
    assert_eq!(reconstruct_rows(&out), chunks(b"abcdefghij", 4));
}

#[test]
fn redraw_is_a_pure_function_of_buffer_and_width() {
    // whatever the edit history, repainting from the top renders exactly
    // the current buffer sliced into width-wide chunks
    let mut ed = Editor::new(b"> ", 3);
    let mut out: Vec<TermCommand> = Vec::new();
    for &c in b"hello world" {
        ed.handle_key(Key::Char(c), &mut out);
    }
    for _ in 0..4 {
        ed.handle_key(Key::Backspace, &mut out);
    }
    ed.handle_key(Key::Char(b'!'), &mut out);
    assert_eq!(ed.buffer.content, b"> hello w!".to_vec());
    let mut top = Cursor::new(0, 3);
    let mut repaint: Vec<TermCommand> = Vec::new();
    update_terminal(&ed.buffer, &mut top, &mut repaint);
    assert_eq!(reconstruct_rows(&repaint), chunks(b"> hello w!", 3));
}

#[test]
fn redraw_at_fresh_row_end_emits_nothing() {
    // cursor at the end of a buffer whose length is an exact multiple of
    // the width: the edit row starts at the end, so there is nothing to
    // repaint and nothing to jump for
    let buffer = LineBuffer::new(b"abcdefgh");
    let mut cursor = Cursor::new(8, 4);
    let mut out: Vec<TermCommand> = Vec::new();
    update_terminal(&buffer, &mut cursor, &mut out);
    assert!(out.is_empty());
    assert_eq!(cursor.buf_index, 8);
}

#[test]
fn redraw_restores_cursor_across_rows() {
    let buffer = LineBuffer::new(b"abcdefgh");
    let mut cursor = Cursor::new(6, 4);
    let mut out: Vec<TermCommand> = Vec::new();
    update_terminal(&buffer, &mut cursor, &mut out);
    assert_eq!(cursor.buf_index, 6);
    assert_eq!(
        out,
        vec![
            TermCommand::MoveLeft(2),
            TermCommand::ClearRow,
            TermCommand::Write(b"efgh".to_vec()),
            TermCommand::MoveUp(1),
            TermCommand::MoveRight(2),
        ]
    );
}

#[test]
fn reconstruction_ignores_motion_commands() {
    let cmds = vec![
        TermCommand::MoveUp(3),
        TermCommand::ClearRow,
        TermCommand::Write(b"hi".to_vec()),
        TermCommand::MoveLeft(2),
        TermCommand::WriteRow(b"!".to_vec()),
        TermCommand::MoveDown(1),
    ];
    assert_eq!(
        reconstruct_rows(&cmds),
        vec![b"hi!".to_vec(), Vec::new()]
    );
}

#[test]
fn reconstruction_of_nothing_is_one_empty_row() {
    let cmds: Vec<TermCommand> = Vec::new();
    assert_eq!(reconstruct_rows(&cmds), vec![Vec::<u8>::new()]);
}
