//! The mutating calls on the document under edit, one for each kind of
//! operation.

use vstd::prelude::*;
use crate::editor_ops::{outcome_of, succeeded, Outcome};
use crate::editor_state::{committed, EditorState};
use crate::error::AppError;
use crate::operation::{change_of, rejects, Op, Operation};
use crate::types::{Cell, CellValue, Sheet, SheetData};

verus! {

/// What a mutating call does with an operation: the editor performs it where
/// a document is loaded.
///
/// Fails with `AppError::NoActiveDocument` where none is, and with
/// `AppError::InvalidTarget` where the document refuses the operation; the
/// editor then stays as it is.
pub open spec fn dispatched(
    before: Option<EditorState>,
    after: Option<EditorState>,
    op: Op,
    result: Result<Outcome, AppError>,
) -> bool {
    match before {
        None => after is None && result matches Err(AppError::NoActiveDocument),
        Some(editor) => {
            &&& after matches Some(edited)
            &&& edited@ == editor@.executed(op)
            &&& if rejects(op, editor@.document) {
                result matches Err(AppError::InvalidTarget)
            } else {
                succeeded(result, change_of(committed(op, editor@.document), editor@.document))
            }
        },
    }
}

/// Hands an operation to the editor of the loaded document.
pub fn dispatch(state: &mut Option<EditorState>, operation: Operation) -> (result: Result<
    Outcome,
    AppError,
>)
    ensures
        dispatched(*old(state), *final(state), operation@, result),
{
    match state {
        None => Err(AppError::NoActiveDocument),
        Some(editor) => {
            match editor.execute(operation) {
                Ok(change) => Ok(outcome_of(change)),
                Err(error) => Err(error),
            }
        },
    }
}

/// Writes a value into a cell. `old_value` is what the caller believes the
/// cell to hold; what the cell holds is what undo restores.
pub fn do_set_cell(
    state: &mut Option<EditorState>,
    sheet_index: usize,
    row: usize,
    col: usize,
    old_value: CellValue,
    new_value: CellValue,
) -> (result: Result<Outcome, AppError>)
    ensures
        dispatched(
            *old(state),
            *final(state),
            Op::SetCell { sheet_index, row, col, old_value: old_value@, new_value: new_value@ },
            result,
        ),
{
    dispatch(state, Operation::SetCell { sheet_index, row, col, old_value, new_value })
}

/// Inserts a row of empty cells before row `row_index`.
pub fn do_add_row(state: &mut Option<EditorState>, sheet_index: usize, row_index: usize) -> (result:
    Result<Outcome, AppError>)
    ensures
        dispatched(
            *old(state),
            *final(state),
            Op::AddRow { sheet_index, row_index, row_data: None },
            result,
        ),
{
    dispatch(state, Operation::AddRow { sheet_index, row_index, row_data: None })
}

/// Removes row `row_index`.
pub fn do_delete_row(state: &mut Option<EditorState>, sheet_index: usize, row_index: usize) -> (result:
    Result<Outcome, AppError>)
    ensures
        dispatched(
            *old(state),
            *final(state),
            Op::DeleteRow { sheet_index, row_index, row_data: Seq::empty() },
            result,
        ),
{
    let row_data: Vec<CellValue> = Vec::new();
    assert(row_data.deep_view() =~= Seq::<Cell>::empty());
    dispatch(state, Operation::DeleteRow { sheet_index, row_index, row_data })
}

/// Adds a column of empty cells at the end of every row.
pub fn do_add_column(state: &mut Option<EditorState>, sheet_index: usize) -> (result: Result<
    Outcome,
    AppError,
>)
    ensures
        dispatched(
            *old(state),
            *final(state),
            Op::AddColumn { sheet_index, col_index: None, col_data: Seq::empty() },
            result,
        ),
{
    let col_data: Vec<CellValue> = Vec::new();
    assert(col_data.deep_view() =~= Seq::<Cell>::empty());
    dispatch(state, Operation::AddColumn { sheet_index, col_index: None, col_data })
}

/// Removes column `col_index`.
pub fn do_delete_column(
    state: &mut Option<EditorState>,
    sheet_index: usize,
    col_index: usize,
) -> (result: Result<Outcome, AppError>)
    ensures
        dispatched(
            *old(state),
            *final(state),
            Op::DeleteColumn { sheet_index, col_index, col_data: Seq::empty() },
            result,
        ),
{
    let col_data: Vec<CellValue> = Vec::new();
    assert(col_data.deep_view() =~= Seq::<Cell>::empty());
    dispatch(state, Operation::DeleteColumn { sheet_index, col_index, col_data })
}

/// Appends a new sheet of empty cells under a numbered name.
pub fn do_add_sheet(state: &mut Option<EditorState>) -> (result: Result<Outcome, AppError>)
    ensures
        dispatched(
            *old(state),
            *final(state),
            Op::AddSheet { name: Seq::empty(), sheet_data: None },
            result,
        ),
{
    dispatch(state, Operation::AddSheet { name: String::new(), sheet_data: None })
}

/// Removes the sheet at `sheet_index`. The last remaining sheet stays, and
/// the call fails with `AppError::InvalidTarget`.
pub fn do_delete_sheet(state: &mut Option<EditorState>, sheet_index: usize) -> (result: Result<
    Outcome,
    AppError,
>)
    ensures
        dispatched(
            *old(state),
            *final(state),
            Op::DeleteSheet {
                sheet_index,
                sheet_data: Sheet { name: Seq::empty(), rows: Seq::empty(), index: Map::empty() },
            },
            result,
        ),
{
    dispatch(state, Operation::DeleteSheet { sheet_index, sheet_data: SheetData::default() })
}

} // verus!
