//! What the index promises: rebuilt from the rows it lists each cell under
//! its token, and it goes on doing so while it follows the edits of single
//! cells.

use vstd::prelude::*;
use vstd::seq_lib::{
    lemma_seq_concat_contains_all_elements, lemma_seq_contains_after_push,
    lemma_seq_empty_contains_nothing,
};
use crate::index_ops::{
    bucket, drop_position, hits, index_of, key_of, listed_under, row_hits, without,
};
use crate::types::{Cell, CellPosition, Sheet};

verus! {

/// The sizes of the grid fit the machine, as those of every grid in memory do.
pub open spec fn fits(rows: Seq<Seq<Cell>>) -> bool {
    &&& rows.len() <= usize::MAX
    &&& forall|r: int| 0 <= r < rows.len() ==> (#[trigger] rows[r]).len() <= usize::MAX
}

/// Whether the grid has a cell at `position` that belongs under `token`.
pub open spec fn holds(rows: Seq<Seq<Cell>>, token: Seq<char>, position: CellPosition) -> bool {
    &&& position.row < rows.len()
    &&& position.col < rows[position.row as int].len()
    &&& listed_under(rows[position.row as int][position.col as int], token)
}

/// The index lists under each token the cells of the grid that belong under
/// it and nothing else, and holds no token without a cell.
pub open spec fn faithful(index: Map<Seq<char>, Seq<CellPosition>>, rows: Seq<Seq<Cell>>) -> bool {
    &&& forall|token: Seq<char>, position: CellPosition|
        #[trigger] bucket(index, token).contains(position) <==> holds(rows, token, position)
    &&& forall|token: Seq<char>| #[trigger] index.contains_key(token) ==> index[token].len() > 0
}

/// Two indexes hold the same tokens, and under each token the same cells, in
/// whatever order.
pub open spec fn same_entries(
    a: Map<Seq<char>, Seq<CellPosition>>,
    b: Map<Seq<char>, Seq<CellPosition>>,
) -> bool {
    &&& forall|token: Seq<char>| #[trigger] a.contains_key(token) == b.contains_key(token)
    &&& forall|token: Seq<char>, position: CellPosition|
        #[trigger] bucket(a, token).contains(position) == bucket(b, token).contains(position)
}

/// One edit of a cell.
pub struct CellEdit {
    pub row: usize,
    pub col: usize,
    pub value: Cell,
}

/// The sheet after a run of cell edits, each one followed by the update of
/// the index for that cell.
pub open spec fn edited(sheet: Sheet, edits: Seq<CellEdit>) -> Sheet
    decreases edits.len(),
{
    if edits.len() == 0 {
        sheet
    } else {
        let edit = edits.last();
        edited(sheet, edits.drop_last()).after_set(edit.row, edit.col, edit.value)
    }
}

proof fn lemma_row_hits_contains(row: Seq<Cell>, r: usize, token: Seq<char>, p: CellPosition)
    requires
        row.len() <= usize::MAX,
    ensures
        row_hits(row, r, token).contains(p) <==> (p.row == r && p.col < row.len() && listed_under(
            row[p.col as int],
            token,
        )),
    decreases row.len(),
{
    broadcast use lemma_seq_contains_after_push, lemma_seq_empty_contains_nothing;

    if row.len() > 0 {
        lemma_row_hits_contains(row.drop_last(), r, token, p);
        let last = CellPosition { row: r, col: (row.len() - 1) as usize };
        if p.col < row.len() - 1 {
            assert(row.drop_last()[p.col as int] == row[p.col as int]);
        }
        assert(p == last <==> (p.row == r && p.col == row.len() - 1));
    }
}

proof fn lemma_hits_contains(rows: Seq<Seq<Cell>>, token: Seq<char>, p: CellPosition)
    requires
        fits(rows),
    ensures
        hits(rows, token).contains(p) <==> holds(rows, token, p),
    decreases rows.len(),
{
    broadcast use lemma_seq_concat_contains_all_elements, lemma_seq_empty_contains_nothing;

    if rows.len() > 0 {
        let head = rows.drop_last();
        assert forall|r: int| 0 <= r < head.len() implies (#[trigger] head[r]).len()
            <= usize::MAX by {
            assert(head[r] == rows[r]);
        }
        lemma_hits_contains(head, token, p);
        lemma_row_hits_contains(rows.last(), (rows.len() - 1) as usize, token, p);
        if p.row < rows.len() - 1 {
            assert(head[p.row as int] == rows[p.row as int]);
        }
    }
}

proof fn lemma_without_contains(positions: Seq<CellPosition>, row: usize, col: usize, p: CellPosition)
    ensures
        without(positions, row, col).contains(p) <==> (positions.contains(p) && !(p.row == row
            && p.col == col)),
    decreases positions.len(),
{
    broadcast use lemma_seq_contains_after_push, lemma_seq_empty_contains_nothing;

    if positions.len() > 0 {
        lemma_without_contains(positions.drop_last(), row, col, p);
        assert(positions =~= positions.drop_last().push(positions.last()));
    }
}

/// The index that is built from the rows is faithful to them.
pub proof fn lemma_rebuilt_is_faithful(rows: Seq<Seq<Cell>>)
    requires
        fits(rows),
    ensures
        faithful(index_of(rows), rows),
{
    let index = index_of(rows);
    assert forall|token: Seq<char>, position: CellPosition|
        #[trigger] bucket(index, token).contains(position) <==> holds(rows, token, position) by {
        broadcast use lemma_seq_empty_contains_nothing;

        lemma_hits_contains(rows, token, position);
        if !index.contains_key(token) {
            assert(hits(rows, token) =~= Seq::<CellPosition>::empty());
        }
    }
}

/// Two indexes that are faithful to the same rows hold the same entries.
pub proof fn lemma_faithful_indexes_agree(
    a: Map<Seq<char>, Seq<CellPosition>>,
    b: Map<Seq<char>, Seq<CellPosition>>,
    rows: Seq<Seq<Cell>>,
)
    requires
        faithful(a, rows),
        faithful(b, rows),
    ensures
        same_entries(a, b),
{
    broadcast use lemma_seq_empty_contains_nothing;

    assert forall|token: Seq<char>| #[trigger] a.contains_key(token) == b.contains_key(token) by {
        if a.contains_key(token) {
            let p = a[token][0];
            assert(bucket(a, token).contains(p));
            assert(holds(rows, token, p));
            assert(bucket(b, token).contains(p));
        }
        if b.contains_key(token) {
            let p = b[token][0];
            assert(bucket(b, token).contains(p));
            assert(holds(rows, token, p));
            assert(bucket(a, token).contains(p));
        }
    }
    assert forall|token: Seq<char>, position: CellPosition|
        #[trigger] bucket(a, token).contains(position) == bucket(b, token).contains(position) by {
        assert(bucket(a, token).contains(position) <==> holds(rows, token, position));
        assert(bucket(b, token).contains(position) <==> holds(rows, token, position));
    }
}

proof fn lemma_drop_keeps_others(
    index: Map<Seq<char>, Seq<CellPosition>>,
    token: Seq<char>,
    row: usize,
    col: usize,
    t: Seq<char>,
    p: CellPosition,
)
    requires
        forall|k: Seq<char>| #[trigger] index.contains_key(k) ==> index[k].len() > 0,
    ensures
        bucket(drop_position(index, token, row, col), t).contains(p) <==> (bucket(
            index,
            t,
        ).contains(p) && !(t == token && p.row == row && p.col == col)),
        forall|k: Seq<char>| #[trigger]
            drop_position(index, token, row, col).contains_key(k) ==> drop_position(
                index,
                token,
                row,
                col,
            )[k].len() > 0,
{
    broadcast use lemma_seq_empty_contains_nothing;

    if index.contains_key(token) {
        lemma_without_contains(index[token], row, col, p);
    }
}

/// An index that is faithful to the rows stays faithful when one cell takes a
/// new value and the index follows the edit.
pub proof fn lemma_edit_keeps_faithful(sheet: Sheet, row: usize, col: usize, value: Cell)
    requires
        fits(sheet.rows),
        faithful(sheet.index, sheet.rows),
    ensures
        fits(sheet.after_set(row, col, value).rows),
        faithful(sheet.after_set(row, col, value).index, sheet.after_set(row, col, value).rows),
{
    if sheet.has_cell(row, col) {
        let held = sheet.rows[row as int][col as int];
        let here = CellPosition { row, col };
        let after = sheet.after_set(row, col, value);
        assert forall|r: int| 0 <= r < after.rows.len() implies (#[trigger] after.rows[r]).len()
            <= usize::MAX by {
            assert(after.rows[r].len() == sheet.rows[r].len());
        }
        assert forall|t: Seq<char>, p: CellPosition|
            holds(after.rows, t, p) <==> if p == here {
                listed_under(value, t)
            } else {
                holds(sheet.rows, t, p)
            } by {
            if p.row < sheet.rows.len() && p.row != row {
                assert(after.rows[p.row as int] == sheet.rows[p.row as int]);
            }
        }
        assert forall|t: Seq<char>| holds(sheet.rows, t, here) <==> listed_under(held, t) by {}
        if key_of(held) == key_of(value) {
            assert forall|t: Seq<char>, p: CellPosition|
                #[trigger] bucket(after.index, t).contains(p) <==> holds(after.rows, t, p) by {
                assert(bucket(sheet.index, t).contains(p) <==> holds(sheet.rows, t, p));
            }
        } else {
            let dropped = match key_of(held) {
                Some(token) => drop_position(sheet.index, token, row, col),
                None => sheet.index,
            };
            assert forall|t: Seq<char>, p: CellPosition|
                #[trigger] bucket(dropped, t).contains(p) <==> (holds(sheet.rows, t, p) && p
                    != here) by {
                assert(bucket(sheet.index, t).contains(p) <==> holds(sheet.rows, t, p));
                if key_of(held) is Some {
                    lemma_drop_keeps_others(sheet.index, key_of(held)->0, row, col, t, p);
                }
            }
            assert forall|k: Seq<char>| #[trigger] dropped.contains_key(k) implies dropped[k].len()
                > 0 by {
                if key_of(held) is Some {
                    lemma_drop_keeps_others(sheet.index, key_of(held)->0, row, col, k, here);
                }
            }
            assert forall|t: Seq<char>, p: CellPosition|
                #[trigger] bucket(after.index, t).contains(p) <==> holds(after.rows, t, p) by {
                broadcast use lemma_seq_contains_after_push;

                assert(bucket(dropped, t).contains(p) <==> (holds(sheet.rows, t, p) && p != here));
            }
        }
    }
}

/// An index rebuilt from the rows, which then follows a run of cell edits one
/// by one, holds the same entries as an index rebuilt from the rows as they
/// are after the edits.
pub proof fn lemma_index_follows_edits(sheet: Sheet, edits: Seq<CellEdit>)
    requires
        fits(sheet.rows),
        faithful(sheet.index, sheet.rows),
    ensures
        fits(edited(sheet, edits).rows),
        faithful(edited(sheet, edits).index, edited(sheet, edits).rows),
        same_entries(edited(sheet, edits).index, index_of(edited(sheet, edits).rows)),
    decreases edits.len(),
{
    if edits.len() > 0 {
        let edit = edits.last();
        lemma_index_follows_edits(sheet, edits.drop_last());
        lemma_edit_keeps_faithful(edited(sheet, edits.drop_last()), edit.row, edit.col, edit.value);
    }
    lemma_rebuilt_is_faithful(edited(sheet, edits).rows);
    lemma_faithful_indexes_agree(
        edited(sheet, edits).index,
        index_of(edited(sheet, edits).rows),
        edited(sheet, edits).rows,
    );
}

/// Rebuilding the index of a sheet and then following a run of cell edits
/// one by one gives the same entries as rebuilding the index after the
/// edits.
pub proof fn lemma_rebuild_then_edits(sheet: Sheet, edits: Seq<CellEdit>)
    requires
        fits(sheet.rows),
    ensures
        same_entries(
            edited(Sheet { index: index_of(sheet.rows), ..sheet }, edits).index,
            index_of(edited(Sheet { index: index_of(sheet.rows), ..sheet }, edits).rows),
        ),
{
    lemma_rebuilt_is_faithful(sheet.rows);
    lemma_index_follows_edits(Sheet { index: index_of(sheet.rows), ..sheet }, edits);
}

} // verus!
