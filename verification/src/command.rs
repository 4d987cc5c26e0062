//! Terminal commands. The terminal offers only relative primitives: move the
//! cursor up/down/left/right by a count, clear the current row, write bytes,
//! or write bytes and advance to the next row. The editor never touches a
//! terminal itself; it emits a sequence of these commands, and a thin driver
//! (or a test) interprets them.
use vstd::prelude::*;

verus! {

/// One relative terminal primitive, as a plain value.
#[derive(Clone, PartialEq, Eq, Debug)]
pub enum TermCommand {
    /// Move the cursor up by this many rows.
    MoveUp(usize),
    /// Move the cursor down by this many rows.
    MoveDown(usize),
    /// Move the cursor left by this many columns.
    MoveLeft(usize),
    /// Move the cursor right by this many columns.
    MoveRight(usize),
    /// Clear the row the cursor is on.
    ClearRow,
    /// Write these bytes at the cursor.
    Write(Vec<u8>),
    /// Write these bytes, then advance to the start of the next row.
    WriteRow(Vec<u8>),
}

/// The mathematical shape of a [`TermCommand`]: counts as `int`, payloads as
/// `Seq<u8>`. Contracts speak of commands through this view.
pub enum CmdView {
    Up(int),
    Down(int),
    Left(int),
    Right(int),
    Clear,
    Write(Seq<u8>),
    WriteRow(Seq<u8>),
}

impl View for TermCommand {
    type V = CmdView;

    open spec fn view(&self) -> CmdView {
        match self {
            TermCommand::MoveUp(n) => CmdView::Up(*n as int),
            TermCommand::MoveDown(n) => CmdView::Down(*n as int),
            TermCommand::MoveLeft(n) => CmdView::Left(*n as int),
            TermCommand::MoveRight(n) => CmdView::Right(*n as int),
            TermCommand::ClearRow => CmdView::Clear,
            TermCommand::Write(b) => CmdView::Write(b@),
            TermCommand::WriteRow(b) => CmdView::WriteRow(b@),
        }
    }
}

/// The views of a command sequence, element by element.
pub open spec fn cmd_views(cmds: Seq<TermCommand>) -> Seq<CmdView> {
    cmds.map_values(|c: TermCommand| c@)
}

/// Appending one command appends its view.
pub proof fn lemma_cmd_views_push(cmds: Seq<TermCommand>, c: TermCommand)
    ensures
        cmd_views(cmds.push(c)) == cmd_views(cmds).push(c@),
{
    assert(cmd_views(cmds.push(c)) =~= cmd_views(cmds).push(c@));
}

/// The rows a terminal would show after running `cmds`, reconstructed from
/// the clear and write calls alone, starting from row content `current`:
/// a clear empties the current row, a write appends to it, and a
/// row-advancing write finishes it; motion commands touch no row content.
pub open spec fn rendered_rows_from(cmds: Seq<CmdView>, current: Seq<u8>) -> Seq<Seq<u8>>
    decreases cmds.len(),
{
    if cmds.len() == 0 {
        seq![current]
    } else {
        match cmds[0] {
            CmdView::Clear => rendered_rows_from(cmds.skip(1), Seq::empty()),
            CmdView::Write(b) => rendered_rows_from(cmds.skip(1), current + b),
            CmdView::WriteRow(b) => seq![current + b] + rendered_rows_from(
                cmds.skip(1),
                Seq::empty(),
            ),
            _ => rendered_rows_from(cmds.skip(1), current),
        }
    }
}

/// The rows a terminal would show after running `cmds`, reconstructed from
/// the clear and write calls alone; the trailing (possibly empty) open row is
/// included, so an empty command sequence renders as one empty row.
pub open spec fn rendered_rows(cmds: Seq<CmdView>) -> Seq<Seq<u8>> {
    rendered_rows_from(cmds, Seq::empty())
}

/// Whether a command only moves the cursor, touching no row content.
pub open spec fn is_motion(c: CmdView) -> bool {
    match c {
        CmdView::Up(_) => true,
        CmdView::Down(_) => true,
        CmdView::Left(_) => true,
        CmdView::Right(_) => true,
        _ => false,
    }
}

/// Whether every command in the sequence only moves the cursor.
pub open spec fn all_motions(cmds: Seq<CmdView>) -> bool {
    forall|i: int| 0 <= i < cmds.len() ==> is_motion(#[trigger] cmds[i])
}

/// Motion commands in front of a sequence leave its reconstructed rows
/// untouched.
pub proof fn lemma_render_motion_prefix(m: Seq<CmdView>, rest: Seq<CmdView>, current: Seq<u8>)
    requires
        all_motions(m),
    ensures
        rendered_rows_from(m + rest, current) == rendered_rows_from(rest, current),
    decreases m.len(),
{
    if m.len() == 0 {
        assert(m + rest =~= rest);
    } else {
        assert(is_motion(m[0]));
        assert((m + rest)[0] == m[0]);
        assert((m + rest).skip(1) =~= m.skip(1) + rest);
        assert forall|i: int| 0 <= i < m.skip(1).len() implies is_motion(
            #[trigger] m.skip(1)[i],
        ) by {
            assert(m.skip(1)[i] == m[i + 1]);
        }
        lemma_render_motion_prefix(m.skip(1), rest, current);
    }
}

/// Appends a copy of `src` to `dst`.
fn push_bytes(dst: &mut Vec<u8>, src: &[u8])
    ensures
        final(dst)@ == old(dst)@ + src@,
{
    let ghost start = dst@;
    let mut k: usize = 0;
    proof {
        assert(start =~= start + src@.subrange(0, 0));
    }
    while k < src.len()
        invariant
            k <= src@.len(),
            dst@ == start + src@.subrange(0, k as int),
        decreases src@.len() - k,
    {
        let b = src[k];
        dst.push(b);
        k = k + 1;
        proof {
            assert(dst@ =~= start + src@.subrange(0, k as int));
        }
    }
    proof {
        assert(src@.subrange(0, src@.len() as int) =~= src@);
    }
}

/// Runs a command sequence against an in-memory terminal fake and returns
/// the rows it would show, reconstructed from the clear and write calls
/// alone, exactly as [`rendered_rows`] states it.
pub fn reconstruct_rows(cmds: &Vec<TermCommand>) -> (rows: Vec<Vec<u8>>)
    ensures
        rows.deep_view() == rendered_rows(cmd_views(cmds@)),
{
    let ghost all = cmd_views(cmds@);
    let mut finished: Vec<Vec<u8>> = Vec::new();
    let mut current: Vec<u8> = Vec::new();
    let mut i: usize = 0;
    proof {
        assert(all.skip(0) =~= all);
        assert(finished.deep_view() =~~= Seq::<Seq<u8>>::empty());
        assert(rendered_rows(all) =~~= finished.deep_view() + rendered_rows_from(
            all.skip(0),
            current@,
        ));
    }
    while i < cmds.len()
        invariant
            i <= cmds@.len(),
            all == cmd_views(cmds@),
            rendered_rows(all) == finished.deep_view() + rendered_rows_from(
                all.skip(i as int),
                current@,
            ),
        decreases cmds@.len() - i,
    {
        proof {
            assert(all.skip(i as int)[0] == all[i as int]);
            assert(all.skip(i as int).skip(1) =~= all.skip(i as int + 1));
        }
        let ghost finished_pre = finished.deep_view();
        let ghost current_pre = current@;
        let cmd = &cmds[i];
        match cmd {
            TermCommand::ClearRow => {
                current.clear();
            },
            TermCommand::Write(b) => {
                push_bytes(&mut current, b.as_slice());
            },
            TermCommand::WriteRow(b) => {
                push_bytes(&mut current, b.as_slice());
                finished.push(current);
                current = Vec::new();
                proof {
                    assert(finished.deep_view() =~~= finished_pre + seq![
                        current_pre + cmds@[i as int]->WriteRow_0@,
                    ]);
                }
            },
            _ => {},
        }
        i = i + 1;
        proof {
            assert(rendered_rows(all) =~~= finished.deep_view() + rendered_rows_from(
                all.skip(i as int),
                current@,
            ));
        }
    }
    proof {
        assert(all.skip(cmds@.len() as int) =~= Seq::<CmdView>::empty());
    }
    let final_row = current;
    let ghost finished_pre = finished.deep_view();
    finished.push(final_row);
    proof {
        assert(finished.deep_view() =~~= finished_pre + seq![final_row@]);
        assert(finished.deep_view() =~~= rendered_rows(cmd_views(cmds@)));
    }
    finished
}

/// Motion commands behind a sequence leave its reconstructed rows untouched.
pub proof fn lemma_render_motion_suffix(cmds: Seq<CmdView>, m: Seq<CmdView>, current: Seq<u8>)
    requires
        all_motions(m),
    ensures
        rendered_rows_from(cmds + m, current) == rendered_rows_from(cmds, current),
    decreases cmds.len(),
{
    if cmds.len() == 0 {
        assert(cmds + m =~= m);
        assert(m =~= m + Seq::<CmdView>::empty());
        lemma_render_motion_prefix(m, Seq::empty(), current);
    } else {
        assert((cmds + m)[0] == cmds[0]);
        assert((cmds + m).skip(1) =~= cmds.skip(1) + m);
        match cmds[0] {
            CmdView::Clear => {
                lemma_render_motion_suffix(cmds.skip(1), m, Seq::empty());
            },
            CmdView::Write(b) => {
                lemma_render_motion_suffix(cmds.skip(1), m, current + b);
            },
            CmdView::WriteRow(b) => {
                lemma_render_motion_suffix(cmds.skip(1), m, Seq::empty());
            },
            _ => {
                lemma_render_motion_suffix(cmds.skip(1), m, current);
            },
        }
    }
}

} // verus!
