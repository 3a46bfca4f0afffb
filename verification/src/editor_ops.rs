//! The calls on the editor that a document may or may not be loaded for:
//! undo, redo, the state of the two stacks, and the index work that a call
//! leaves to be done afterwards.

use vstd::prelude::*;
use crate::editor_state::{Editor, EditorState};
use crate::error::AppError;
use crate::index_ops::{index_of, rebuild_sheet_index};
use crate::operation::{change_of, inverse, rejects};
use crate::types::{Change, Document, EditorStateInfo, OperationResult, Sheet};

verus! {

/// The index work that a call leaves to its caller, to be done once the
/// editor is free again.
#[derive(Clone, Copy, Debug, PartialEq, Eq)]
pub enum Reindex {
    /// The indexes are up to date.
    Nothing,
    /// The index of this sheet is to be rebuilt.
    Sheet(usize),
    /// The index of every sheet is to be rebuilt.
    AllSheets,
}

/// What a mutating call hands back: the change, and the index work that it
/// leaves.
#[derive(Debug)]
pub struct Outcome {
    pub change: OperationResult,
    pub reindex: Reindex,
}

/// The sheet that a change names.
pub open spec fn sheet_of(change: Change) -> usize {
    match change {
        Change::SetCell { sheet_index, row, col, value } => sheet_index,
        Change::AddRow { sheet_index, index, values } => sheet_index,
        Change::DeleteRow { sheet_index, row_index } => sheet_index,
        Change::AddColumn { sheet_index, index } => sheet_index,
        Change::DeleteColumn { sheet_index, column_index } => sheet_index,
        Change::AddSheet { sheet_index, name } => sheet_index,
        Change::DeleteSheet { sheet_index } => sheet_index,
    }
}

/// The index work that a change leaves. A cell that took a new value leaves
/// none: the index followed it. Every other change moves cells, so the index
/// of the sheet that it names is to be rebuilt.
pub open spec fn reindex_for(change: Change) -> Reindex {
    if change is SetCell {
        Reindex::Nothing
    } else {
        Reindex::Sheet(sheet_of(change))
    }
}

impl Document {
    /// The document with the index of the sheet at `i` rebuilt from its rows;
    /// unchanged where it has no such sheet.
    pub open spec fn reindexed(self, i: usize) -> Document {
        if self.has_sheet(i) {
            self.with_sheet(
                i,
                Sheet { index: index_of(self.sheets[i as int].rows), ..self.sheets[i as int] },
            )
        } else {
            self
        }
    }

    /// The document with the index of every sheet rebuilt from its rows.
    pub open spec fn reindexed_all(self) -> Document {
        Document {
            sheets: Seq::new(
                self.sheets.len(),
                |i: int| Sheet { index: index_of(self.sheets[i].rows), ..self.sheets[i] },
            ),
            ..self
        }
    }

    /// The document after the given index work.
    pub open spec fn after_reindex(self, work: Reindex) -> Document {
        match work {
            Reindex::Nothing => self,
            Reindex::Sheet(i) => self.reindexed(i),
            Reindex::AllSheets => self.reindexed_all(),
        }
    }
}

/// Whether a call succeeded with the given change and the index work that
/// the change leaves.
pub open spec fn succeeded(result: Result<Outcome, AppError>, change: Change) -> bool {
    result matches Ok(outcome) && outcome.change@ == change && outcome.reindex == reindex_for(
        change,
    )
}

/// The sheet that a change names.
pub fn extract_sheet_index(result: &OperationResult) -> (sheet_index: usize)
    ensures
        sheet_index == sheet_of(result@),
{
    match result {
        OperationResult::SetCell { sheet_index, .. } => *sheet_index,
        OperationResult::AddRow { sheet_index, .. } => *sheet_index,
        OperationResult::DeleteRow { sheet_index, .. } => *sheet_index,
        OperationResult::AddColumn { sheet_index, .. } => *sheet_index,
        OperationResult::DeleteColumn { sheet_index, .. } => *sheet_index,
        OperationResult::AddSheet { sheet_index, .. } => *sheet_index,
        OperationResult::DeleteSheet { sheet_index } => *sheet_index,
    }
}

/// Joins a change with the index work that it leaves.
pub fn outcome_of(change: OperationResult) -> (outcome: Outcome)
    ensures
        outcome.change == change,
        outcome.reindex == reindex_for(change@),
{
    let reindex = match &change {
        OperationResult::SetCell { .. } => Reindex::Nothing,
        other => Reindex::Sheet(extract_sheet_index(other)),
    };
    Outcome { change, reindex }
}

/// Tells whether undo and redo are available; `None` where no document is
/// loaded.
pub fn do_get_editor_state(state: &Option<EditorState>) -> (result: Result<
    Option<EditorStateInfo>,
    AppError,
>)
    ensures
        match state {
            Some(editor) => result == Ok::<Option<EditorStateInfo>, AppError>(
                Some(EditorStateInfo { can_undo: editor.can_undo, can_redo: editor.can_redo }),
            ),
            None => result == Ok::<Option<EditorStateInfo>, AppError>(None),
        },
{
    match state {
        Some(editor) => Ok(
            Some(EditorStateInfo { can_undo: editor.can_undo, can_redo: editor.can_redo }),
        ),
        None => Ok(None),
    }
}

/// Undoes the last operation.
///
/// Fails with `AppError::NoActiveDocument` where no document is loaded, with
/// `AppError::NothingToUndo` where the history is empty, and with
/// `AppError::InvalidTarget` where the document refuses the inverse; the
/// editor then stays as it is.
pub fn do_undo(state: &mut Option<EditorState>) -> (result: Result<Outcome, AppError>)
    ensures
        match *old(state) {
            None => *final(state) is None && result matches Err(AppError::NoActiveDocument),
            Some(before) => {
                &&& *final(state) matches Some(after)
                &&& after@ == before@.undone()
                &&& if before@.history.len() == 0 {
                    result matches Err(AppError::NothingToUndo)
                } else if rejects(inverse(before@.history.last()), before@.document) {
                    result matches Err(AppError::InvalidTarget)
                } else {
                    succeeded(
                        result,
                        change_of(inverse(before@.history.last()), before@.document),
                    )
                }
            },
        },
{
    match state {
        None => Err(AppError::NoActiveDocument),
        Some(editor) => {
            let empty = editor.history.len() == 0;
            match editor.undo() {
                Some(change) => Ok(outcome_of(change)),
                None => if empty {
                    Err(AppError::NothingToUndo)
                } else {
                    Err(AppError::InvalidTarget)
                },
            }
        },
    }
}

/// Performs the last undone operation again.
///
/// Fails with `AppError::NoActiveDocument` where no document is loaded, with
/// `AppError::NothingToRedo` where the redo stack is empty, and with
/// `AppError::InvalidTarget` where the document refuses the operation; the
/// editor then stays as it is.
pub fn do_redo(state: &mut Option<EditorState>) -> (result: Result<Outcome, AppError>)
    ensures
        match *old(state) {
            None => *final(state) is None && result matches Err(AppError::NoActiveDocument),
            Some(before) => {
                &&& *final(state) matches Some(after)
                &&& after@ == before@.redone()
                &&& if before@.redo_stack.len() == 0 {
                    result matches Err(AppError::NothingToRedo)
                } else if rejects(before@.redo_stack.last(), before@.document) {
                    result matches Err(AppError::InvalidTarget)
                } else {
                    succeeded(result, change_of(before@.redo_stack.last(), before@.document))
                }
            },
        },
{
    match state {
        None => Err(AppError::NoActiveDocument),
        Some(editor) => {
            let empty = editor.redo_stack.len() == 0;
            match editor.redo() {
                Some(change) => Ok(outcome_of(change)),
                None => if empty {
                    Err(AppError::NothingToRedo)
                } else {
                    Err(AppError::InvalidTarget)
                },
            }
        },
    }
}

/// Rebuilds the index of one sheet of the document under edit. Does nothing
/// where no document is loaded or the document has no such sheet.
pub fn rebuild_sheet_index_at(state: &mut Option<EditorState>, sheet_index: usize)
    ensures
        match *old(state) {
            None => *final(state) is None,
            Some(before) => *final(state) matches Some(after) && after@ == (Editor {
                document: before@.document.reindexed(sheet_index),
                ..before@
            }),
        },
{
    match state {
        None => {},
        Some(editor) => {
            if sheet_index < editor.file_data.sheets.len() {
                rebuild_sheet_index(&mut editor.file_data.sheets[sheet_index]);
                assert(editor.file_data@.sheets =~= old(state)->0@.document.reindexed(
                    sheet_index,
                ).sheets);
            }
        },
    }
}

/// Rebuilds the index of every sheet of the document under edit. Does nothing
/// where no document is loaded.
pub fn rebuild_all_sheets_index(state: &mut Option<EditorState>)
    ensures
        match *old(state) {
            None => *final(state) is None,
            Some(before) => *final(state) matches Some(after) && after@ == (Editor {
                document: before@.document.reindexed_all(),
                ..before@
            }),
        },
{
    match state {
        None => {},
        Some(editor) => {
            let ghost before = editor.file_data@;
            let ghost stacks = editor@;
            let mut i: usize = 0;
            while i < editor.file_data.sheets.len()
                invariant
                    i <= editor.file_data.sheets.len(),
                    editor.file_data@.file_name == before.file_name,
                    editor.file_data@.sheets.len() == before.sheets.len(),
                    editor@.history == stacks.history,
                    editor@.redo_stack == stacks.redo_stack,
                    editor@.can_undo == stacks.can_undo,
                    editor@.can_redo == stacks.can_redo,
                    forall|k: int|
                        0 <= k < i ==> #[trigger] editor.file_data@.sheets[k] == (Sheet {
                            index: index_of(before.sheets[k].rows),
                            ..before.sheets[k]
                        }),
                    forall|k: int|
                        i <= k < before.sheets.len() ==> #[trigger] editor.file_data@.sheets[k]
                            == before.sheets[k],
                decreases editor.file_data.sheets.len() - i,
            {
                let ghost held = editor.file_data@.sheets;
                assert(held[i as int] == before.sheets[i as int]);
                rebuild_sheet_index(&mut editor.file_data.sheets[i]);
                assert forall|k: int|
                    0 <= k < before.sheets.len() && k != i implies #[trigger]
                    editor.file_data@.sheets[k] == held[k] by {}
                assert(editor.file_data@.sheets[i as int] == (Sheet {
                    index: index_of(before.sheets[i as int].rows),
                    ..before.sheets[i as int]
                }));
                assert forall|k: int| 0 <= k < i + 1 implies #[trigger]
                    editor.file_data@.sheets[k] == (Sheet {
                    index: index_of(before.sheets[k].rows),
                    ..before.sheets[k]
                }) by {
                    if k < i {
                        assert(editor.file_data@.sheets[k] == held[k]);
                    }
                }
                i = i + 1;
            }
            assert(editor.file_data@.sheets =~= before.reindexed_all().sheets);
        },
    }
}

/// Does the index work that a call left.
pub fn reindex(state: &mut Option<EditorState>, work: Reindex)
    ensures
        match *old(state) {
            None => *final(state) is None,
            Some(before) => *final(state) matches Some(after) && after@ == (Editor {
                document: before@.document.after_reindex(work),
                ..before@
            }),
        },
{
    match work {
        Reindex::Nothing => {},
        Reindex::Sheet(i) => rebuild_sheet_index_at(state, i),
        Reindex::AllSheets => rebuild_all_sheets_index(state),
    }
}

} // verus!
