//! What undo and redo promise: undoing an operation gives back the content
//! that the document had before it, and redoing it gives back the content
//! that it had after it.

use vstd::prelude::*;
use crate::editor_state::{committed, records, Editor};
use crate::grid::{blank_row, cell_or_null, column_of, width_of};
use crate::operation::{apply, inverse, rejects, resolved_sheet, sheet_to_add, Op};
use crate::types::{Cell, Document, Sheet};

verus! {

/// The sizes of the document fit the machine, as those of every document in
/// memory do.
pub open spec fn representable(doc: Document) -> bool {
    &&& doc.sheets.len() <= usize::MAX
    &&& forall|i: int|
        0 <= i < doc.sheets.len() ==> (#[trigger] doc.sheets[i]).rows.len() <= usize::MAX
    &&& forall|i: int, r: int|
        0 <= i < doc.sheets.len() && 0 <= r < doc.sheets[i].rows.len() ==> (
        #[trigger] doc.sheets[i].rows[r]).len() <= usize::MAX
}

/// Whether undoing the operation, once performed on the document, gives back
/// the document's content.
///
/// It does not where the operation deletes nothing and its inverse inserts
/// all the same: a row deleted just past the last row, a column deleted just
/// past the end of some row, a sheet deleted beyond the last sheet. It does not
/// either where a sheet other than the last is deleted, since undoing puts it
/// back behind the last sheet (unless all sheets from there on hold the same),
/// nor where a sheet is added to a document without sheets, which then refuses
/// to delete it.
pub open spec fn undo_restores(op: Op, doc: Document) -> bool {
    match op {
        Op::DeleteRow { sheet_index, row_index, row_data } => !(doc.has_sheet(sheet_index)
            && row_index == doc.sheets[sheet_index as int].rows.len()),
        Op::DeleteColumn { sheet_index, col_index, col_data } => doc.has_sheet(sheet_index)
            ==> forall|r: int|
            0 <= r < doc.sheets[sheet_index as int].rows.len() ==> (
            #[trigger] doc.sheets[sheet_index as int].rows[r]).len() != col_index,
        Op::AddSheet { name, sheet_data } => doc.sheets.len() >= 1,
        Op::DeleteSheet { sheet_index, sheet_data } => {
            let at = resolved_sheet(sheet_index, doc.sheets.len());
            &&& 0 <= at < doc.sheets.len()
            &&& forall|k: int|
                at <= k < doc.sheets.len() - 1 ==> (#[trigger] doc.sheets[k]).content()
                    == doc.sheets[k + 1].content()
        },
        _ => true,
    }
}

/// Whether redoing the operation, once performed on the document and undone,
/// gives the content that the document had after it was performed.
///
/// It does for every operation but the deletion of a sheet. Undoing that puts
/// the sheet back behind the last sheet, so that redoing it deletes the sheet
/// that now stands in its place: the content is the same only where the
/// deleted sheet was the last, or holds what the last sheet holds while all
/// sheets between them hold the same. A sheet deleted beyond the last sheet
/// deletes nothing, and redoing it deletes the sheet that undoing added only
/// where it was named by the place just behind the last sheet.
pub open spec fn redo_repeats(op: Op, doc: Document) -> bool {
    match op {
        Op::DeleteSheet { sheet_index, sheet_data } => {
            let count = doc.sheets.len();
            let at = resolved_sheet(sheet_index, count);
            ||| at == count
            ||| {
                &&& 0 <= at < count
                &&& doc.sheets[at].content() == doc.sheets[count - 1].content()
                &&& forall|k: int|
                    at < k < count - 1 ==> (#[trigger] doc.sheets[k]).content() == doc.sheets[k
                        + 1].content()
            }
        },
        _ => true,
    }
}

/// Whether the operation keeps sheets rectangular: a row that it inserts is
/// as wide as the sheet, and a sheet that it appends is rectangular.
pub open spec fn keeps_shape(op: Op, doc: Document) -> bool {
    match op {
        Op::AddRow { sheet_index, row_index, row_data: Some(cells) } => doc.has_sheet(sheet_index)
            && doc.sheets[sheet_index as int].rows.len() > 0 ==> cells.len() == width_of(
            doc.sheets[sheet_index as int].rows,
        ),
        Op::AddSheet { name, sheet_data: Some(sheet) } => sheet.rectangular(),
        _ => true,
    }
}

proof fn lemma_round_trip_in_sheet(doc: Document, i: usize, between: Sheet, after: Sheet)
    requires
        doc.has_sheet(i),
        after.content() == doc.sheets[i as int].content(),
    ensures
        doc.with_sheet(i, between).with_sheet(i, after).content() == doc.content(),
{
    assert(doc.with_sheet(i, between).with_sheet(i, after).content().sheets =~= doc.content().sheets);
}

proof fn lemma_set_and_reset(sheet: Sheet, row: usize, col: usize, value: Cell)
    requires
        sheet.has_cell(row, col),
    ensures
        sheet.after_set(row, col, value).after_set(
            row,
            col,
            sheet.rows[row as int][col as int],
        ).content() == sheet.content(),
{
    let held = sheet.rows[row as int][col as int];
    let after = sheet.after_set(row, col, value).after_set(row, col, held);
    assert(after.rows[row as int] =~= sheet.rows[row as int]);
    assert(after.rows =~= sheet.rows);
}

proof fn lemma_add_and_remove_row(sheet: Sheet, at: usize, cells: Option<Seq<Cell>>)
    ensures
        sheet.with_row(at, cells).without_row(at).content() == sheet.content(),
{
    if at <= sheet.rows.len() {
        assert(sheet.rows.insert(at as int, sheet.row_to_add(cells)).remove(at as int)
            =~= sheet.rows);
    }
}

proof fn lemma_remove_and_add_row(sheet: Sheet, at: usize, cells: Seq<Cell>)
    requires
        at != sheet.rows.len(),
        at < sheet.rows.len() ==> cells == sheet.rows[at as int],
    ensures
        sheet.without_row(at).with_row(at, Some(cells)).content() == sheet.content(),
{
    if at < sheet.rows.len() {
        assert(sheet.rows.remove(at as int).insert(at as int, cells) =~= sheet.rows);
    }
}

proof fn lemma_add_and_remove_column(sheet: Sheet, at: usize, cells: Seq<Cell>)
    ensures
        sheet.with_column(Some(at), cells).without_column(at).content() == sheet.content(),
{
    let after = sheet.with_column(Some(at), cells).without_column(at);
    assert forall|r: int| 0 <= r < sheet.rows.len() implies #[trigger] after.rows[r]
        == sheet.rows[r] by {
        let row = sheet.rows[r];
        if at <= row.len() {
            assert(row.insert(at as int, cell_or_null(cells, r)).remove(at as int) =~= row);
        }
    }
    assert(after.rows =~= sheet.rows);
}

proof fn lemma_remove_and_add_column(sheet: Sheet, at: usize)
    requires
        forall|r: int| 0 <= r < sheet.rows.len() ==> (#[trigger] sheet.rows[r]).len() != at,
    ensures
        sheet.without_column(at).with_column(Some(at), column_of(sheet.rows, at)).content()
            == sheet.content(),
{
    let after = sheet.without_column(at).with_column(Some(at), column_of(sheet.rows, at));
    assert forall|r: int| 0 <= r < sheet.rows.len() implies #[trigger] after.rows[r]
        == sheet.rows[r] by {
        let row = sheet.rows[r];
        assert(row.len() != at);
        if at < row.len() {
            assert(row.remove(at as int).insert(at as int, row[at as int]) =~= row);
        }
    }
    assert(after.rows =~= sheet.rows);
}

proof fn lemma_same_from(doc: Document, at: int, k: int)
    requires
        0 <= at <= k < doc.sheets.len(),
        forall|j: int|
            at <= j < doc.sheets.len() - 1 ==> (#[trigger] doc.sheets[j]).content()
                == doc.sheets[j + 1].content(),
    ensures
        doc.sheets[at].content() == doc.sheets[k].content(),
    decreases k - at,
{
    if at < k {
        lemma_same_from(doc, at, k - 1);
        assert(doc.sheets[k - 1].content() == doc.sheets[k - 1 + 1].content());
    }
}

/// Undoing a recorded operation gives back the content that the document had
/// before the operation, and the document does not refuse the inverse.
pub proof fn lemma_inverse_restores_content(doc: Document, op: Op)
    requires
        representable(doc),
        records(op, doc),
        undo_restores(op, doc),
    ensures
        !rejects(inverse(committed(op, doc)), apply(committed(op, doc), doc)),
        apply(inverse(committed(op, doc)), apply(committed(op, doc), doc)).content()
            == doc.content(),
{
    let done = committed(op, doc);
    let between = apply(done, doc);
    let after = apply(inverse(done), between);
    match op {
        Op::SetCell { sheet_index, row, col, old_value, new_value } => {
            if doc.has_sheet(sheet_index) {
                let sheet = doc.sheets[sheet_index as int];
                if sheet.has_cell(row, col) {
                    lemma_set_and_reset(sheet, row, col, new_value);
                }
                lemma_round_trip_in_sheet(
                    doc,
                    sheet_index,
                    between.sheets[sheet_index as int],
                    after.sheets[sheet_index as int],
                );
                assert(after.sheets =~= doc.with_sheet(
                    sheet_index,
                    between.sheets[sheet_index as int],
                ).with_sheet(sheet_index, after.sheets[sheet_index as int]).sheets);
            }
        },
        Op::AddRow { sheet_index, row_index, row_data } => {
            if doc.has_sheet(sheet_index) {
                let sheet = doc.sheets[sheet_index as int];
                lemma_add_and_remove_row(sheet, row_index, row_data);
                lemma_round_trip_in_sheet(
                    doc,
                    sheet_index,
                    between.sheets[sheet_index as int],
                    after.sheets[sheet_index as int],
                );
                assert(after.sheets =~= doc.with_sheet(
                    sheet_index,
                    between.sheets[sheet_index as int],
                ).with_sheet(sheet_index, after.sheets[sheet_index as int]).sheets);
            }
        },
        Op::DeleteRow { sheet_index, row_index, row_data } => {
            if doc.has_sheet(sheet_index) {
                let sheet = doc.sheets[sheet_index as int];
                let held = if row_index < sheet.rows.len() {
                    sheet.rows[row_index as int]
                } else {
                    row_data
                };
                lemma_remove_and_add_row(sheet, row_index, held);
                lemma_round_trip_in_sheet(
                    doc,
                    sheet_index,
                    between.sheets[sheet_index as int],
                    after.sheets[sheet_index as int],
                );
                assert(after.sheets =~= doc.with_sheet(
                    sheet_index,
                    between.sheets[sheet_index as int],
                ).with_sheet(sheet_index, after.sheets[sheet_index as int]).sheets);
            }
        },
        Op::AddColumn { sheet_index, col_index, col_data } => {
            if doc.has_sheet(sheet_index) {
                let sheet = doc.sheets[sheet_index as int];
                match done {
                    Op::AddColumn { sheet_index: _, col_index: Some(at), col_data: cells } => {
                        lemma_add_and_remove_column(sheet, at, cells);
                    },
                    _ => {},
                }
                lemma_round_trip_in_sheet(
                    doc,
                    sheet_index,
                    between.sheets[sheet_index as int],
                    after.sheets[sheet_index as int],
                );
                assert(after.sheets =~= doc.with_sheet(
                    sheet_index,
                    between.sheets[sheet_index as int],
                ).with_sheet(sheet_index, after.sheets[sheet_index as int]).sheets);
            }
        },
        Op::DeleteColumn { sheet_index, col_index, col_data } => {
            if doc.has_sheet(sheet_index) {
                let sheet = doc.sheets[sheet_index as int];
                lemma_remove_and_add_column(sheet, col_index);
                lemma_round_trip_in_sheet(
                    doc,
                    sheet_index,
                    between.sheets[sheet_index as int],
                    after.sheets[sheet_index as int],
                );
                assert(after.sheets =~= doc.with_sheet(
                    sheet_index,
                    between.sheets[sheet_index as int],
                ).with_sheet(sheet_index, after.sheets[sheet_index as int]).sheets);
            }
        },
        Op::AddSheet { name, sheet_data } => {
            let added = sheet_to_add(name, sheet_data, doc.sheets.len());
            assert(doc.sheets.push(added).remove(doc.sheets.len() as int) =~= doc.sheets);
        },
        Op::DeleteSheet { sheet_index, sheet_data } => {
            let at = resolved_sheet(sheet_index, doc.sheets.len());
            let held = doc.sheets[at].content();
            assert(after.sheets =~= doc.sheets.remove(at).push(held));
            assert forall|k: int| 0 <= k < doc.sheets.len() implies #[trigger]
                after.content().sheets[k] == doc.content().sheets[k] by {
                if k == doc.sheets.len() - 1 {
                    lemma_same_from(doc, at, k);
                } else if k >= at {
                    assert(doc.sheets[k].content() == doc.sheets[k + 1].content());
                }
            }
            assert(after.content().sheets =~= doc.content().sheets);
        },
    }
}

/// Performing an operation that does not enter the history leaves the
/// document as it was.
pub proof fn lemma_unrecorded_changes_nothing(doc: Document, op: Op)
    requires
        !records(op, doc),
    ensures
        apply(committed(op, doc), doc) == doc,
{
    match op {
        Op::SetCell { sheet_index, row, col, old_value, new_value } => {
            let sheet = doc.sheets[sheet_index as int];
            let after = sheet.after_set(row, col, new_value);
            assert(after.rows[row as int] =~= sheet.rows[row as int]);
            assert(after.rows =~= sheet.rows);
            assert(apply(committed(op, doc), doc).sheets =~= doc.sheets);
        },
        _ => {},
    }
}

/// The content of the document after an operation depends on the content
/// before it alone, and so does whether the operation is refused.
pub proof fn lemma_apply_reads_content(op: Op, a: Document, b: Document)
    requires
        a.content() == b.content(),
    ensures
        apply(op, a).content() == apply(op, b).content(),
        rejects(op, a) == rejects(op, b),
{
    assert(a.content().sheets.len() == a.sheets.len());
    assert(b.content().sheets.len() == b.sheets.len());
    assert(a.sheets.len() == b.sheets.len());
    assert forall|i: int| 0 <= i < a.sheets.len() implies (#[trigger] a.sheets[i]).name
        == b.sheets[i].name && a.sheets[i].rows == b.sheets[i].rows by {
        assert(a.content().sheets[i] == a.sheets[i].content());
        assert(b.content().sheets[i] == b.sheets[i].content());
        assert(a.sheets[i].content().name == b.sheets[i].content().name);
        assert(a.sheets[i].content().rows == b.sheets[i].content().rows);
    }
    let x = apply(op, a);
    let y = apply(op, b);
    match op {
        Op::AddSheet { name, sheet_data } => {
            assert(x.content().sheets =~= y.content().sheets);
        },
        Op::DeleteSheet { sheet_index, sheet_data } => {
            assert(x.content().sheets =~= y.content().sheets);
        },
        Op::SetCell { sheet_index, row, col, old_value, new_value } => {
            assert(x.content().sheets =~= y.content().sheets);
        },
        Op::AddRow { sheet_index, row_index, row_data } => {
            assert(x.content().sheets =~= y.content().sheets);
        },
        Op::DeleteRow { sheet_index, row_index, row_data } => {
            assert(x.content().sheets =~= y.content().sheets);
        },
        Op::AddColumn { sheet_index, col_index, col_data } => {
            if a.has_sheet(sheet_index) {
                assert(x.sheets[sheet_index as int].rows =~= y.sheets[sheet_index as int].rows);
            }
            assert(x.content().sheets =~= y.content().sheets);
        },
        Op::DeleteColumn { sheet_index, col_index, col_data } => {
            if a.has_sheet(sheet_index) {
                assert(x.sheets[sheet_index as int].rows =~= y.sheets[sheet_index as int].rows);
            }
            assert(x.content().sheets =~= y.content().sheets);
        },
    }
}

/// Undo after execute: where the operation entered the history, undoing it
/// gives back the content that the document had before it was performed, and
/// the history that the editor had.
pub proof fn lemma_undo_after_execute(editor: Editor, op: Op)
    requires
        representable(editor.document),
        records(op, editor.document),
        undo_restores(op, editor.document),
    ensures
        editor.executed(op).undone().document.content() == editor.document.content(),
        editor.executed(op).undone().history == editor.history,
        editor.document.valid() ==> editor.executed(op).undone().document.valid(),
{
    lemma_inverse_restores_content(editor.document, op);
    let done = committed(op, editor.document);
    assert(editor.history.push(done).drop_last() =~= editor.history);
    if editor.document.valid() {
        lemma_valid_reads_content(editor.document, editor.executed(op).undone().document);
    }
}

/// An operation that does not enter the history leaves the document and both
/// stacks as they were: there is nothing of it to undo.
pub proof fn lemma_execute_unrecorded(editor: Editor, op: Op)
    requires
        !records(op, editor.document),
    ensures
        editor.executed(op).document == editor.document,
        editor.executed(op).history == editor.history,
        editor.executed(op).redo_stack == editor.redo_stack,
{
    lemma_unrecorded_changes_nothing(editor.document, op);
}

/// Performing a recorded operation again, after its inverse, gives the
/// content that the document had after it was first performed.
pub proof fn lemma_repeat_restores_content(doc: Document, op: Op)
    requires
        representable(doc),
        records(op, doc),
        redo_repeats(op, doc),
        !rejects(inverse(committed(op, doc)), apply(committed(op, doc), doc)),
    ensures
        !rejects(
            committed(op, doc),
            apply(inverse(committed(op, doc)), apply(committed(op, doc), doc)),
        ),
        apply(
            committed(op, doc),
            apply(inverse(committed(op, doc)), apply(committed(op, doc), doc)),
        ).content() == apply(committed(op, doc), doc).content(),
{
    let done = committed(op, doc);
    let first = apply(done, doc);
    let back = apply(inverse(done), first);
    let again = apply(done, back);
    match op {
        Op::DeleteRow { sheet_index, row_index, row_data } => {
            if doc.has_sheet(sheet_index) {
                let sheet = first.sheets[sheet_index as int];
                match done {
                    Op::DeleteRow { sheet_index: _, row_index: _, row_data: held } => {
                        lemma_add_and_remove_row(sheet, row_index, Some(held));
                    },
                    _ => {},
                }
                lemma_round_trip_in_sheet(
                    first,
                    sheet_index,
                    back.sheets[sheet_index as int],
                    again.sheets[sheet_index as int],
                );
                assert(again.sheets =~= first.with_sheet(
                    sheet_index,
                    back.sheets[sheet_index as int],
                ).with_sheet(sheet_index, again.sheets[sheet_index as int]).sheets);
            }
        },
        Op::DeleteColumn { sheet_index, col_index, col_data } => {
            if doc.has_sheet(sheet_index) {
                let sheet = first.sheets[sheet_index as int];
                lemma_add_and_remove_column(
                    sheet,
                    col_index,
                    column_of(doc.sheets[sheet_index as int].rows, col_index),
                );
                lemma_round_trip_in_sheet(
                    first,
                    sheet_index,
                    back.sheets[sheet_index as int],
                    again.sheets[sheet_index as int],
                );
                assert(again.sheets =~= first.with_sheet(
                    sheet_index,
                    back.sheets[sheet_index as int],
                ).with_sheet(sheet_index, again.sheets[sheet_index as int]).sheets);
            }
        },
        Op::DeleteSheet { sheet_index, sheet_data } => {
            let count = doc.sheets.len() as int;
            let at = resolved_sheet(sheet_index, doc.sheets.len());
            if at == count {
                assert(first == doc);
                assert(back.sheets =~= doc.sheets.push(sheet_data.content().content()));
                assert(resolved_sheet(sheet_index, back.sheets.len()) == count);
                assert(again.sheets =~= doc.sheets);
            } else {
                let held = doc.sheets[at].content();
                assert(held.content() == held);
                assert(first.sheets =~= doc.sheets.remove(at));
                assert(back.sheets =~= doc.sheets.remove(at).push(held));
                assert(resolved_sheet(at as usize, back.sheets.len()) == at);
                assert(again.sheets =~= back.sheets.remove(at));
                assert forall|k: int| 0 <= k < count - 1 implies #[trigger]
                    again.content().sheets[k] == first.content().sheets[k] by {
                    if k >= at {
                        if k < count - 2 {
                            assert(doc.sheets[k + 1].content() == doc.sheets[k + 1 + 1].content());
                        }
                    }
                }
                assert(again.content().sheets =~= first.content().sheets);
            }
        },
        _ => {
            lemma_inverse_restores_content(doc, op);
            lemma_apply_reads_content(done, back, doc);
        },
    }
}

/// Redo after undo: where the operation entered the history, undoing and
/// then redoing it gives the content that the document had right after the
/// operation was performed, and the history that the editor then had.
pub proof fn lemma_redo_after_undo(editor: Editor, op: Op)
    requires
        representable(editor.document),
        records(op, editor.document),
        redo_repeats(op, editor.document),
    ensures
        editor.executed(op).undone().redone().document.content() == editor.executed(
            op,
        ).document.content(),
        editor.executed(op).undone().redone().history == editor.executed(op).history,
{
    let done = committed(op, editor.document);
    let first = editor.executed(op);
    let back = first.undone();
    assert(first.history.last() == done);
    if rejects(inverse(done), first.document) {
        assert(back == first);
        assert(back.redo_stack.len() == 0);
    } else {
        lemma_repeat_restores_content(editor.document, op);
        assert(back.redo_stack =~= seq![done]);
        assert(back.history =~= editor.history);
        assert(back.redone().history =~= first.history);
    }
}

/// Whether a document is valid depends on its content alone.
pub proof fn lemma_valid_reads_content(a: Document, b: Document)
    requires
        a.content() == b.content(),
        a.valid(),
    ensures
        b.valid(),
{
    assert(a.content().sheets.len() == a.sheets.len());
    assert(b.content().sheets.len() == b.sheets.len());
    assert forall|i: int| 0 <= i < b.sheets.len() implies (#[trigger] b.sheets[i]).rectangular() by {
        assert(a.content().sheets[i] == a.sheets[i].content());
        assert(b.content().sheets[i] == b.sheets[i].content());
        assert(a.sheets[i].content().rows == b.sheets[i].content().rows);
        assert(a.sheets[i].rectangular());
    }
}

/// A valid document stays valid under every operation that keeps sheets
/// rectangular: it keeps at least one sheet, and every sheet stays
/// rectangular.
pub proof fn lemma_execute_keeps_valid(doc: Document, op: Op)
    requires
        doc.valid(),
        representable(doc),
        keeps_shape(op, doc),
    ensures
        apply(committed(op, doc), doc).valid(),
{
    let done = committed(op, doc);
    let after = apply(done, doc);
    match op {
        Op::SetCell { sheet_index, row, col, old_value, new_value } => {
            if doc.has_sheet(sheet_index) {
                let sheet = doc.sheets[sheet_index as int];
                let edited = after.sheets[sheet_index as int];
                assert(sheet.rectangular());
                assert forall|i: int, j: int|
                    0 <= i < edited.rows.len() && 0 <= j < edited.rows.len() implies (
                #[trigger] edited.rows[i]).len() == (#[trigger] edited.rows[j]).len() by {
                    assert(edited.rows[i].len() == sheet.rows[i].len());
                    assert(edited.rows[j].len() == sheet.rows[j].len());
                }
            }
            lemma_valid_but_one(doc, after, sheet_index);
        },
        Op::AddRow { sheet_index, row_index, row_data } => {
            if doc.has_sheet(sheet_index) {
                let sheet = doc.sheets[sheet_index as int];
                let edited = after.sheets[sheet_index as int];
                assert(sheet.rectangular());
                if row_index <= sheet.rows.len() {
                    let added = sheet.row_to_add(row_data);
                    assert forall|i: int| 0 <= i < edited.rows.len() implies (
                    #[trigger] edited.rows[i]).len() == added.len() by {
                        if i < row_index {
                            assert(edited.rows[i] == sheet.rows[i]);
                            assert(sheet.rows[i].len() == sheet.rows[0].len());
                        } else if i > row_index {
                            assert(edited.rows[i] == sheet.rows[i - 1]);
                            assert(sheet.rows[i - 1].len() == sheet.rows[0].len());
                        }
                    }
                }
            }
            lemma_valid_but_one(doc, after, sheet_index);
        },
        Op::DeleteRow { sheet_index, row_index, row_data } => {
            if doc.has_sheet(sheet_index) {
                let sheet = doc.sheets[sheet_index as int];
                let edited = after.sheets[sheet_index as int];
                assert(sheet.rectangular());
                if row_index < sheet.rows.len() {
                    assert forall|i: int| 0 <= i < edited.rows.len() implies (
                    #[trigger] edited.rows[i]).len() == sheet.rows[0].len() by {
                        if i < row_index {
                            assert(edited.rows[i] == sheet.rows[i]);
                            assert(sheet.rows[i].len() == sheet.rows[0].len());
                        } else {
                            assert(edited.rows[i] == sheet.rows[i + 1]);
                            assert(sheet.rows[i + 1].len() == sheet.rows[0].len());
                        }
                    }
                }
            }
            lemma_valid_but_one(doc, after, sheet_index);
        },
        Op::AddColumn { sheet_index, col_index, col_data } => {
            if doc.has_sheet(sheet_index) {
                let sheet = doc.sheets[sheet_index as int];
                let edited = after.sheets[sheet_index as int];
                assert(sheet.rectangular());
                assert forall|i: int, j: int|
                    0 <= i < edited.rows.len() && 0 <= j < edited.rows.len() implies (
                #[trigger] edited.rows[i]).len() == (#[trigger] edited.rows[j]).len() by {
                    assert(sheet.rows[i].len() == sheet.rows[j].len());
                }
            }
            lemma_valid_but_one(doc, after, sheet_index);
        },
        Op::DeleteColumn { sheet_index, col_index, col_data } => {
            if doc.has_sheet(sheet_index) {
                let sheet = doc.sheets[sheet_index as int];
                let edited = after.sheets[sheet_index as int];
                assert(sheet.rectangular());
                assert forall|i: int, j: int|
                    0 <= i < edited.rows.len() && 0 <= j < edited.rows.len() implies (
                #[trigger] edited.rows[i]).len() == (#[trigger] edited.rows[j]).len() by {
                    assert(sheet.rows[i].len() == sheet.rows[j].len());
                }
            }
            lemma_valid_but_one(doc, after, sheet_index);
        },
        Op::AddSheet { name, sheet_data } => {
            let added = sheet_to_add(name, sheet_data, doc.sheets.len());
            assert(added.rectangular());
            assert forall|i: int| 0 <= i < after.sheets.len() implies (
            #[trigger] after.sheets[i]).rectangular() by {
                if i < doc.sheets.len() {
                    assert(after.sheets[i] == doc.sheets[i]);
                }
            }
        },
        Op::DeleteSheet { sheet_index, sheet_data } => {
            let at = resolved_sheet(sheet_index, doc.sheets.len());
            if doc.sheets.len() >= 2 && 0 <= at < doc.sheets.len() {
                assert(resolved_sheet(at as usize, doc.sheets.len()) == at);
                assert(after.sheets =~= doc.sheets.remove(at));
                assert forall|i: int| 0 <= i < after.sheets.len() implies (
                #[trigger] after.sheets[i]).rectangular() by {
                    if i < at {
                        assert(after.sheets[i] == doc.sheets[i]);
                    } else {
                        assert(after.sheets[i] == doc.sheets[i + 1]);
                    }
                }
            }
        },
    }
}

proof fn lemma_valid_but_one(doc: Document, after: Document, i: usize)
    requires
        doc.valid(),
        after == doc || (doc.has_sheet(i) && after == doc.with_sheet(i, after.sheets[i as int])
            && after.sheets[i as int].rectangular()),
    ensures
        after.valid(),
{
    if after != doc {
        assert forall|k: int| 0 <= k < after.sheets.len() implies (
        #[trigger] after.sheets[k]).rectangular() by {
            if k != i {
                assert(after.sheets[k] == doc.sheets[k]);
            }
        }
    }
}

/// On a rectangular sheet, the column that `AddColumn` records stands at the
/// end of every row: performing the recorded operation appends an empty cell
/// to every row, as the operation without a place does.
pub proof fn lemma_recorded_column_is_appended(doc: Document, sheet_index: usize, cells: Seq<Cell>)
    requires
        representable(doc),
        doc.has_sheet(sheet_index),
        doc.sheets[sheet_index as int].rectangular(),
    ensures
        apply(
            committed(Op::AddColumn { sheet_index, col_index: None, col_data: cells }, doc),
            doc,
        ) == apply(Op::AddColumn { sheet_index, col_index: None, col_data: cells }, doc),
{
    let sheet = doc.sheets[sheet_index as int];
    let recorded = sheet.with_column(
        Some(width_of(sheet.rows) as usize),
        blank_row(sheet.rows.len()),
    );
    let appended = sheet.with_column(None, cells);
    assert forall|r: int| 0 <= r < sheet.rows.len() implies #[trigger] recorded.rows[r]
        == appended.rows[r] by {
        assert(sheet.rows[r].len() == sheet.rows[0].len());
        assert(sheet.rows[r].insert(sheet.rows[r].len() as int, Cell::Null) =~= sheet.rows[r].push(
            Cell::Null,
        ));
    }
    assert(recorded.rows =~= appended.rows);
}

/// The editor after a run of operations, each handed to `execute`.
pub open spec fn run(editor: Editor, ops: Seq<Op>) -> Editor
    decreases ops.len(),
{
    if ops.len() == 0 {
        editor
    } else {
        run(editor, ops.drop_last()).executed(ops.last())
    }
}

/// The editor after `undo` was called `times` times.
pub open spec fn unwound(editor: Editor, times: nat) -> Editor
    decreases times,
{
    if times == 0 {
        editor
    } else {
        unwound(editor.undone(), (times - 1) as nat)
    }
}

/// Every operation of the run enters the history, and undoing it gives back
/// the content that the document had when it was performed.
pub open spec fn each_undo_restores(editor: Editor, ops: Seq<Op>) -> bool
    decreases ops.len(),
{
    if ops.len() == 0 {
        true
    } else {
        let before = run(editor, ops.drop_last());
        &&& each_undo_restores(editor, ops.drop_last())
        &&& representable(before.document)
        &&& records(ops.last(), before.document)
        &&& undo_restores(ops.last(), before.document)
    }
}

proof fn lemma_undo_reads_content(a: Editor, b: Editor, times: nat)
    requires
        a.history == b.history,
        a.document.content() == b.document.content(),
    ensures
        unwound(a, times).history == unwound(b, times).history,
        unwound(a, times).document.content() == unwound(b, times).document.content(),
    decreases times,
{
    if times > 0 {
        if a.history.len() > 0 {
            lemma_apply_reads_content(inverse(a.history.last()), a.document, b.document);
        }
        lemma_undo_reads_content(a.undone(), b.undone(), (times - 1) as nat);
    }
}

/// Undo after any run of operations: where every operation of the run
/// enters the history and is one that undo restores, as many undos as there
/// were operations give back the content that the document had before the
/// run, and the history that the editor had.
pub proof fn lemma_undo_after_run(editor: Editor, ops: Seq<Op>)
    requires
        each_undo_restores(editor, ops),
    ensures
        unwound(run(editor, ops), ops.len()).document.content() == editor.document.content(),
        unwound(run(editor, ops), ops.len()).history == editor.history,
    decreases ops.len(),
{
    if ops.len() > 0 {
        let before = run(editor, ops.drop_last());
        lemma_undo_after_run(editor, ops.drop_last());
        lemma_undo_after_execute(before, ops.last());
        lemma_undo_reads_content(
            before.executed(ops.last()).undone(),
            before,
            (ops.len() - 1) as nat,
        );
    }
}

} // verus!
