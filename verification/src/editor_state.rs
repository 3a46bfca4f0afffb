//! The editor: one document with the history of the operations performed on
//! it and the stack of those that were undone.

use vstd::prelude::*;
use crate::error::AppError;
use crate::grid::{blank_row, blank_row_of, column_of, copy_row, width_of};
use crate::operation::{apply, change_of, inverse, rejects, resolved_sheet, Op, Operation, LAST_SHEET};
use crate::types::{Document, FileData, OperationResult};

verus! {

/// The operation as it is recorded: with what the document holds at the
/// moment it is performed in place of what the caller supplied.
///
/// `SetCell` takes the cell's value as its old value. `DeleteRow`,
/// `DeleteColumn` and `DeleteSheet` take the row, column or sheet that is about
/// to leave, and `DeleteSheet` the place of the sheet that it names.
/// `AddColumn` without a place takes the place of the column that it appends,
/// and a column of empty cells. A target that the document does not have
/// leaves the operation as it was supplied.
pub open spec fn committed(op: Op, doc: Document) -> Op {
    match op {
        Op::SetCell { sheet_index, row, col, old_value, new_value } => {
            if doc.has_sheet(sheet_index) && doc.sheets[sheet_index as int].has_cell(row, col) {
                Op::SetCell {
                    sheet_index,
                    row,
                    col,
                    old_value: doc.sheets[sheet_index as int].rows[row as int][col as int],
                    new_value,
                }
            } else {
                op
            }
        },
        Op::DeleteRow { sheet_index, row_index, row_data } => {
            if doc.has_sheet(sheet_index) && row_index < doc.sheets[sheet_index as int].rows.len() {
                Op::DeleteRow {
                    sheet_index,
                    row_index,
                    row_data: doc.sheets[sheet_index as int].rows[row_index as int],
                }
            } else {
                op
            }
        },
        Op::AddColumn { sheet_index, col_index, col_data } => {
            if col_index is None && doc.has_sheet(sheet_index) {
                Op::AddColumn {
                    sheet_index,
                    col_index: Some(width_of(doc.sheets[sheet_index as int].rows) as usize),
                    col_data: blank_row(doc.sheets[sheet_index as int].rows.len()),
                }
            } else {
                op
            }
        },
        Op::DeleteColumn { sheet_index, col_index, col_data } => {
            if doc.has_sheet(sheet_index) {
                Op::DeleteColumn {
                    sheet_index,
                    col_index,
                    col_data: column_of(doc.sheets[sheet_index as int].rows, col_index),
                }
            } else {
                op
            }
        },
        Op::DeleteSheet { sheet_index, sheet_data } => {
            let at = resolved_sheet(sheet_index, doc.sheets.len());
            if 0 <= at < doc.sheets.len() {
                Op::DeleteSheet { sheet_index: at as usize, sheet_data: doc.sheets[at].content() }
            } else {
                op
            }
        },
        _ => op,
    }
}

/// Whether performing the operation on the document enters the history: the
/// document does not refuse it, and it is no `SetCell` that writes the value
/// that the cell already holds.
pub open spec fn records(op: Op, doc: Document) -> bool {
    &&& !rejects(op, doc)
    &&& !(op matches Op::SetCell { sheet_index, row, col, new_value, .. } && doc.has_sheet(
        sheet_index,
    ) && doc.sheets[sheet_index as int].has_cell(row, col)
        && doc.sheets[sheet_index as int].rows[row as int][col as int] == new_value)
}

/// The mathematical value of an editor.
pub struct Editor {
    pub document: Document,
    pub history: Seq<Op>,
    pub redo_stack: Seq<Op>,
    pub can_undo: bool,
    pub can_redo: bool,
}

impl Editor {
    /// The two flags say what the two stacks hold: undo is available where
    /// the history is not empty, redo where the redo stack is not.
    pub open spec fn flags_agree(self) -> bool {
        &&& self.can_undo == (self.history.len() > 0)
        &&& self.can_redo == (self.redo_stack.len() > 0)
    }

    /// The editor with its two flags set from its two stacks.
    pub open spec fn flagged(self) -> Editor {
        Editor { can_undo: self.history.len() > 0, can_redo: self.redo_stack.len() > 0, ..self }
    }

    /// The editor after `execute`. A refused operation leaves it as it is. Any
    /// other is performed as recorded; where it enters the history, the redo
    /// stack is emptied.
    pub open spec fn executed(self, op: Op) -> Editor {
        let recorded = committed(op, self.document);
        if rejects(op, self.document) {
            self
        } else if records(op, self.document) {
            Editor {
                document: apply(recorded, self.document),
                history: self.history.push(recorded),
                redo_stack: Seq::empty(),
                ..self
            }.flagged()
        } else {
            Editor { document: apply(recorded, self.document), ..self }.flagged()
        }
    }

    /// The editor after `undo`: the inverse of the last operation of the
    /// history is performed, and the operation moves to the redo stack. An
    /// empty history, or an inverse that the document refuses, leaves the
    /// editor as it is.
    pub open spec fn undone(self) -> Editor {
        if self.history.len() == 0 || rejects(inverse(self.history.last()), self.document) {
            self
        } else {
            Editor {
                document: apply(inverse(self.history.last()), self.document),
                history: self.history.drop_last(),
                redo_stack: self.redo_stack.push(self.history.last()),
                ..self
            }.flagged()
        }
    }

    /// The editor after `redo`: the last operation of the redo stack is
    /// performed again and moves back to the history. An empty redo stack, or
    /// an operation that the document refuses, leaves the editor as it is.
    pub open spec fn redone(self) -> Editor {
        if self.redo_stack.len() == 0 || rejects(self.redo_stack.last(), self.document) {
            self
        } else {
            Editor {
                document: apply(self.redo_stack.last(), self.document),
                history: self.history.push(self.redo_stack.last()),
                redo_stack: self.redo_stack.drop_last(),
                ..self
            }.flagged()
        }
    }
}

/// One document under edit, with what it takes to undo and redo.
pub struct EditorState {
    pub file_data: FileData,
    /// The operations performed, the latest last.
    pub history: Vec<Operation>,
    /// The operations undone, the latest last.
    pub redo_stack: Vec<Operation>,
    pub can_undo: bool,
    pub can_redo: bool,
}

impl View for EditorState {
    type V = Editor;

    open spec fn view(&self) -> Editor {
        Editor {
            document: self.file_data@,
            history: self.history.deep_view(),
            redo_stack: self.redo_stack.deep_view(),
            can_undo: self.can_undo,
            can_redo: self.can_redo,
        }
    }
}

/// Tells whether performing `operation` on the document enters the history.
pub fn is_recorded(operation: &Operation, file_data: &FileData) -> (recorded: bool)
    ensures
        recorded == records(operation@, file_data@),
{
    match operation {
        Operation::SetCell { sheet_index, row, col, old_value, new_value } => {
            if *sheet_index < file_data.sheets.len() {
                let sheet = &file_data.sheets[*sheet_index];
                if *row < sheet.rows.len() && *col < sheet.rows[*row].len() {
                    !(sheet.rows[*row][*col] == *new_value)
                } else {
                    true
                }
            } else {
                true
            }
        },
        Operation::DeleteSheet { sheet_index, sheet_data } => file_data.sheets.len() > 1,
        _ => true,
    }
}

/// Completes an operation from the document on which it is about to be
/// performed.
pub fn commit(operation: Operation, file_data: &FileData) -> (recorded: Operation)
    ensures
        recorded@ == committed(operation@, file_data@),
{
    let count = file_data.sheets.len();
    match operation {
        Operation::SetCell { sheet_index, row, col, old_value, new_value } => {
            if sheet_index < count && row < file_data.sheets[sheet_index].rows.len() && col
                < file_data.sheets[sheet_index].rows[row].len() {
                let held = file_data.sheets[sheet_index].rows[row][col].clone();
                Operation::SetCell { sheet_index, row, col, old_value: held, new_value }
            } else {
                Operation::SetCell { sheet_index, row, col, old_value, new_value }
            }
        },
        Operation::DeleteRow { sheet_index, row_index, row_data } => {
            if sheet_index < count && row_index < file_data.sheets[sheet_index].rows.len() {
                let held = copy_row(&file_data.sheets[sheet_index].rows[row_index]);
                Operation::DeleteRow { sheet_index, row_index, row_data: held }
            } else {
                Operation::DeleteRow { sheet_index, row_index, row_data }
            }
        },
        Operation::AddColumn { sheet_index, col_index, col_data } => {
            if col_index.is_none() && sheet_index < count {
                let sheet = &file_data.sheets[sheet_index];
                Operation::AddColumn {
                    sheet_index,
                    col_index: Some(sheet.width()),
                    col_data: blank_row_of(sheet.rows.len()),
                }
            } else {
                Operation::AddColumn { sheet_index, col_index, col_data }
            }
        },
        Operation::DeleteColumn { sheet_index, col_index, col_data } => {
            if sheet_index < count {
                let held = file_data.sheets[sheet_index].column(col_index);
                Operation::DeleteColumn { sheet_index, col_index, col_data: held }
            } else {
                Operation::DeleteColumn { sheet_index, col_index, col_data }
            }
        },
        Operation::DeleteSheet { sheet_index, sheet_data } => {
            if sheet_index == LAST_SHEET && count > 0 {
                let held = file_data.sheets[count - 1].snapshot();
                Operation::DeleteSheet { sheet_index: count - 1, sheet_data: held }
            } else if sheet_index < count {
                let held = file_data.sheets[sheet_index].snapshot();
                Operation::DeleteSheet { sheet_index, sheet_data: held }
            } else {
                Operation::DeleteSheet { sheet_index, sheet_data }
            }
        },
        other => other,
    }
}

impl EditorState {
    /// An editor for a document, with nothing to undo or redo.
    pub fn new(file_data: FileData) -> (editor: Self)
        ensures
            editor@ == (Editor {
                document: file_data@,
                history: Seq::empty(),
                redo_stack: Seq::empty(),
                can_undo: false,
                can_redo: false,
            }),
            editor@.flags_agree(),
    {
        let editor = EditorState {
            file_data,
            history: Vec::new(),
            redo_stack: Vec::new(),
            can_undo: false,
            can_redo: false,
        };
        assert(editor.history.deep_view() =~= Seq::<Op>::empty());
        assert(editor.redo_stack.deep_view() =~= Seq::<Op>::empty());
        editor
    }

    /// Performs an operation on the document and reports what changed.
    ///
    /// The operation is first completed from the document, so that undoing it
    /// restores what the document held and not what the caller believed it to
    /// hold. It enters the history, and empties the redo stack, unless it is
    /// refused or writes into a cell the value that the cell already holds.
    pub fn execute(&mut self, operation: Operation) -> (result: Result<OperationResult, AppError>)
        ensures
            final(self)@ == old(self)@.executed(operation@),
            rejects(operation@, old(self)@.document) ==> result matches Err(
                AppError::InvalidTarget,
            ),
            operation@ is DeleteSheet && old(self)@.document.sheets.len() <= 1 ==> final(self)@
                == old(self)@,
            old(self)@.flags_agree() ==> final(self)@.flags_agree(),
            !rejects(operation@, old(self)@.document) ==> (result matches Ok(change) && change@
                == change_of(committed(operation@, old(self)@.document), old(self)@.document)),
    {
        let recorded = is_recorded(&operation, &self.file_data);
        let refused = match &operation {
            Operation::DeleteSheet { sheet_index, sheet_data } => self.file_data.sheets.len() <= 1,
            _ => false,
        };
        if refused {
            return Err(AppError::InvalidTarget);
        }
        let operation = commit(operation, &self.file_data);
        let result = operation.execute(&mut self.file_data);
        if recorded {
            self.history.push(operation);
            self.redo_stack.clear();
            assert(self.history.deep_view() =~= old(self)@.history.push(operation@));
            assert(self.redo_stack.deep_view() =~= Seq::<Op>::empty());
        }
        self.update_flags();
        result
    }

    /// Undoes the last operation of the history and reports what changed.
    /// Returns `None`, and changes nothing, where the history is empty or the
    /// document refuses the inverse.
    pub fn undo(&mut self) -> (result: Option<OperationResult>)
        ensures
            final(self)@ == old(self)@.undone(),
            old(self)@.flags_agree() ==> final(self)@.flags_agree(),
            match result {
                Some(change) => old(self)@.history.len() > 0 && !rejects(
                    inverse(old(self)@.history.last()),
                    old(self)@.document,
                ) && change@ == change_of(
                    inverse(old(self)@.history.last()),
                    old(self)@.document,
                ),
                None => old(self)@.history.len() == 0 || rejects(
                    inverse(old(self)@.history.last()),
                    old(self)@.document,
                ),
            },
    {
        match self.history.pop() {
            None => None,
            Some(operation) => {
                assert(operation@ == old(self)@.history.last());
                let undoing = operation.undo();
                match undoing.execute(&mut self.file_data) {
                    Ok(change) => {
                        self.redo_stack.push(operation);
                        assert(self.history.deep_view() =~= old(self)@.history.drop_last());
                        assert(self.redo_stack.deep_view() =~= old(self)@.redo_stack.push(
                            operation@,
                        ));
                        self.update_flags();
                        Some(change)
                    },
                    Err(_) => {
                        self.history.push(operation);
                        assert(self.history@ =~= old(self).history@);
                        None
                    },
                }
            },
        }
    }

    /// Performs the last undone operation again and reports what changed.
    /// Returns `None`, and changes nothing, where the redo stack is empty or
    /// the document refuses the operation.
    pub fn redo(&mut self) -> (result: Option<OperationResult>)
        ensures
            final(self)@ == old(self)@.redone(),
            old(self)@.flags_agree() ==> final(self)@.flags_agree(),
            match result {
                Some(change) => old(self)@.redo_stack.len() > 0 && !rejects(
                    old(self)@.redo_stack.last(),
                    old(self)@.document,
                ) && change@ == change_of(old(self)@.redo_stack.last(), old(self)@.document),
                None => old(self)@.redo_stack.len() == 0 || rejects(
                    old(self)@.redo_stack.last(),
                    old(self)@.document,
                ),
            },
    {
        match self.redo_stack.pop() {
            None => None,
            Some(operation) => {
                assert(operation@ == old(self)@.redo_stack.last());
                match operation.execute(&mut self.file_data) {
                    Ok(change) => {
                        self.history.push(operation);
                        assert(self.redo_stack.deep_view() =~= old(self)@.redo_stack.drop_last());
                        assert(self.history.deep_view() =~= old(self)@.history.push(operation@));
                        self.update_flags();
                        Some(change)
                    },
                    Err(_) => {
                        self.redo_stack.push(operation);
                        assert(self.redo_stack@ =~= old(self).redo_stack@);
                        None
                    },
                }
            },
        }
    }

    fn update_flags(&mut self)
        ensures
            final(self)@ == old(self)@.flagged(),
    {
        self.can_undo = !self.history.is_empty();
        self.can_redo = !self.redo_stack.is_empty();
    }

    /// The document under edit.
    pub fn get_file_data(&self) -> (file_data: &FileData)
        ensures
            file_data@ == self@.document,
    {
        &self.file_data
    }
}

} // verus!
