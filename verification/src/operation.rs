//! The operations that change a document, each with its inverse.

use vstd::prelude::*;
use vstd::string::*;
use crate::error::AppError;
use crate::grid::{blank_row, blank_row_of, copy_row, width_of};
use crate::text::{decimal, decimal_text};
use crate::types::{
    Cell, CellChange, CellValue, Change, ColumnChange, Document, FileData, OperationResult,
    RowChange, Sheet, SheetData, SheetIndex,
};

verus! {

/// The mathematical value of an operation.
#[allow(inconsistent_fields)]
pub enum Op {
    SetCell { sheet_index: usize, row: usize, col: usize, old_value: Cell, new_value: Cell },
    AddRow { sheet_index: usize, row_index: usize, row_data: Option<Seq<Cell>> },
    DeleteRow { sheet_index: usize, row_index: usize, row_data: Seq<Cell> },
    AddColumn { sheet_index: usize, col_index: Option<usize>, col_data: Seq<Cell> },
    DeleteColumn { sheet_index: usize, col_index: usize, col_data: Seq<Cell> },
    AddSheet { name: Seq<char>, sheet_data: Option<Sheet> },
    DeleteSheet { sheet_index: usize, sheet_data: Sheet },
}

/// An action that changes a document. Each holds what it takes to perform it
/// and to undo it afterwards.
#[allow(inconsistent_fields)]
pub enum Operation {
    /// Writes `new_value` into a cell that held `old_value`.
    SetCell { sheet_index: usize, row: usize, col: usize, old_value: CellValue, new_value: CellValue },
    /// Inserts a row before row `row_index`: `row_data`, or a row of empty
    /// cells where none is given.
    AddRow { sheet_index: usize, row_index: usize, row_data: Option<Vec<CellValue>> },
    /// Removes row `row_index`, which held `row_data`.
    DeleteRow { sheet_index: usize, row_index: usize, row_data: Vec<CellValue> },
    /// Adds a column: empty cells at the end of every row where `col_index` is
    /// not given, else the cells of `col_data` at that place.
    AddColumn { sheet_index: usize, col_index: Option<usize>, col_data: Vec<CellValue> },
    /// Removes column `col_index`, which held `col_data`.
    DeleteColumn { sheet_index: usize, col_index: usize, col_data: Vec<CellValue> },
    /// Appends a sheet: a copy of `sheet_data`, or a new sheet of empty cells
    /// under `name`, or under a numbered name where `name` is empty.
    AddSheet { name: String, sheet_data: Option<SheetData> },
    /// Removes the sheet at `sheet_index`, which held `sheet_data`. The index
    /// `LAST_SHEET` stands for the last sheet, whichever it is.
    DeleteSheet { sheet_index: usize, sheet_data: SheetData },
}

/// The sheet index that stands for the last sheet of the document.
pub const LAST_SHEET: usize = usize::MAX;

impl View for Operation {
    type V = Op;

    open spec fn view(&self) -> Op {
        match self {
            Operation::SetCell { sheet_index, row, col, old_value, new_value } => Op::SetCell {
                sheet_index: *sheet_index,
                row: *row,
                col: *col,
                old_value: old_value@,
                new_value: new_value@,
            },
            Operation::AddRow { sheet_index, row_index, row_data } => Op::AddRow {
                sheet_index: *sheet_index,
                row_index: *row_index,
                row_data: match row_data {
                    Some(cells) => Some(cells.deep_view()),
                    None => None,
                },
            },
            Operation::DeleteRow { sheet_index, row_index, row_data } => Op::DeleteRow {
                sheet_index: *sheet_index,
                row_index: *row_index,
                row_data: row_data.deep_view(),
            },
            Operation::AddColumn { sheet_index, col_index, col_data } => Op::AddColumn {
                sheet_index: *sheet_index,
                col_index: *col_index,
                col_data: col_data.deep_view(),
            },
            Operation::DeleteColumn { sheet_index, col_index, col_data } => Op::DeleteColumn {
                sheet_index: *sheet_index,
                col_index: *col_index,
                col_data: col_data.deep_view(),
            },
            Operation::AddSheet { name, sheet_data } => Op::AddSheet {
                name: name@,
                sheet_data: match sheet_data {
                    Some(sheet) => Some(sheet@),
                    None => None,
                },
            },
            Operation::DeleteSheet { sheet_index, sheet_data } => Op::DeleteSheet {
                sheet_index: *sheet_index,
                sheet_data: sheet_data@,
            },
        }
    }
}

impl DeepView for Operation {
    type V = Op;

    open spec fn deep_view(&self) -> Op {
        self@
    }
}

/// The name of a new sheet in a document that holds `count` sheets: `Sheet`
/// and the number of the new sheet.
pub open spec fn default_sheet_name(count: nat) -> Seq<char> {
    seq!['S', 'h', 'e', 'e', 't'] + decimal(count + 1)
}

/// A new sheet: five rows of five empty cells.
pub open spec fn blank_sheet(name: Seq<char>) -> Sheet {
    Sheet { name, rows: Seq::new(5, |r: int| blank_row(5)), index: Map::empty() }
}

/// The sheet that `AddSheet` appends to a document of `count` sheets: the
/// given one without its index, or a new one under the given or a numbered
/// name.
pub open spec fn sheet_to_add(name: Seq<char>, given: Option<Sheet>, count: nat) -> Sheet {
    match given {
        Some(sheet) => sheet.content(),
        None => blank_sheet(
            if name.len() == 0 {
                default_sheet_name(count)
            } else {
                name
            },
        ),
    }
}

/// The place of the sheet that `sheet_index` names in a document of `count`
/// sheets.
pub open spec fn resolved_sheet(sheet_index: usize, count: nat) -> int {
    if sheet_index == LAST_SHEET {
        count - 1
    } else {
        sheet_index as int
    }
}

/// The sheet to show after the sheet at `at` was asked to leave a document of
/// `count` sheets.
pub open spec fn sheet_after_delete(at: int, count: nat) -> int {
    let left = if 0 <= at < count {
        count - 1
    } else {
        count as int
    };
    if at >= left {
        left - 1
    } else {
        at
    }
}

impl Document {
    /// Whether the document has a sheet at `i`.
    pub open spec fn has_sheet(self, i: usize) -> bool {
        i < self.sheets.len()
    }

    /// The document with another sheet in place of the one at `i`.
    pub open spec fn with_sheet(self, i: usize, sheet: Sheet) -> Document {
        Document { sheets: self.sheets.update(i as int, sheet), ..self }
    }
}

/// Whether the document refuses the operation: the last remaining sheet
/// cannot be deleted.
pub open spec fn rejects(op: Op, doc: Document) -> bool {
    op is DeleteSheet && doc.sheets.len() <= 1
}

/// The document after the operation. A target that the document does not have
/// leaves it unchanged, and so does an operation that it refuses.
pub open spec fn apply(op: Op, doc: Document) -> Document {
    match op {
        Op::SetCell { sheet_index, row, col, old_value, new_value } => {
            if doc.has_sheet(sheet_index) {
                doc.with_sheet(
                    sheet_index,
                    doc.sheets[sheet_index as int].after_set(row, col, new_value),
                )
            } else {
                doc
            }
        },
        Op::AddRow { sheet_index, row_index, row_data } => {
            if doc.has_sheet(sheet_index) {
                doc.with_sheet(
                    sheet_index,
                    doc.sheets[sheet_index as int].with_row(row_index, row_data),
                )
            } else {
                doc
            }
        },
        Op::DeleteRow { sheet_index, row_index, row_data } => {
            if doc.has_sheet(sheet_index) {
                doc.with_sheet(sheet_index, doc.sheets[sheet_index as int].without_row(row_index))
            } else {
                doc
            }
        },
        Op::AddColumn { sheet_index, col_index, col_data } => {
            if doc.has_sheet(sheet_index) {
                doc.with_sheet(
                    sheet_index,
                    doc.sheets[sheet_index as int].with_column(col_index, col_data),
                )
            } else {
                doc
            }
        },
        Op::DeleteColumn { sheet_index, col_index, col_data } => {
            if doc.has_sheet(sheet_index) {
                doc.with_sheet(
                    sheet_index,
                    doc.sheets[sheet_index as int].without_column(col_index),
                )
            } else {
                doc
            }
        },
        Op::AddSheet { name, sheet_data } => Document {
            sheets: doc.sheets.push(sheet_to_add(name, sheet_data, doc.sheets.len())),
            ..doc
        },
        Op::DeleteSheet { sheet_index, sheet_data } => {
            let at = resolved_sheet(sheet_index, doc.sheets.len());
            if doc.sheets.len() >= 2 && 0 <= at < doc.sheets.len() {
                Document { sheets: doc.sheets.remove(at), ..doc }
            } else {
                doc
            }
        },
    }
}

/// What the operation reports of its effect on the document, where the
/// document does not refuse it.
pub open spec fn change_of(op: Op, doc: Document) -> Change {
    match op {
        Op::SetCell { sheet_index, row, col, old_value, new_value } => Change::SetCell {
            sheet_index,
            row,
            col,
            value: new_value,
        },
        Op::AddRow { sheet_index, row_index, row_data } => Change::AddRow {
            sheet_index,
            index: row_index,
            values: match row_data {
                Some(cells) => cells,
                None => Seq::empty(),
            },
        },
        Op::DeleteRow { sheet_index, row_index, row_data } => Change::DeleteRow {
            sheet_index,
            row_index,
        },
        Op::AddColumn { sheet_index, col_index, col_data } => Change::AddColumn {
            sheet_index,
            index: match col_index {
                Some(i) => i,
                None => if doc.has_sheet(sheet_index) {
                    width_of(doc.sheets[sheet_index as int].rows) as usize
                } else {
                    0
                },
            },
        },
        Op::DeleteColumn { sheet_index, col_index, col_data } => Change::DeleteColumn {
            sheet_index,
            column_index: col_index,
        },
        Op::AddSheet { name, sheet_data } => Change::AddSheet {
            sheet_index: doc.sheets.len() as usize,
            name: sheet_to_add(name, sheet_data, doc.sheets.len()).name,
        },
        Op::DeleteSheet { sheet_index, sheet_data } => Change::DeleteSheet {
            sheet_index: sheet_after_delete(
                resolved_sheet(sheet_index, doc.sheets.len()),
                doc.sheets.len(),
            ) as usize,
        },
    }
}

/// The operation that undoes `op`.
pub open spec fn inverse(op: Op) -> Op {
    match op {
        Op::SetCell { sheet_index, row, col, old_value, new_value } => Op::SetCell {
            sheet_index,
            row,
            col,
            old_value: new_value,
            new_value: old_value,
        },
        Op::AddRow { sheet_index, row_index, row_data } => Op::DeleteRow {
            sheet_index,
            row_index,
            row_data: match row_data {
                Some(cells) => cells,
                None => Seq::empty(),
            },
        },
        Op::DeleteRow { sheet_index, row_index, row_data } => Op::AddRow {
            sheet_index,
            row_index,
            row_data: Some(row_data),
        },
        Op::AddColumn { sheet_index, col_index, col_data } => Op::DeleteColumn {
            sheet_index,
            col_index: match col_index {
                Some(i) => i,
                None => 0,
            },
            col_data,
        },
        Op::DeleteColumn { sheet_index, col_index, col_data } => Op::AddColumn {
            sheet_index,
            col_index: Some(col_index),
            col_data,
        },
        Op::AddSheet { name, sheet_data } => Op::DeleteSheet {
            sheet_index: LAST_SHEET,
            sheet_data: Sheet { name: Seq::empty(), rows: Seq::empty(), index: Map::empty() },
        },
        Op::DeleteSheet { sheet_index, sheet_data } => Op::AddSheet {
            name: sheet_data.name,
            sheet_data: Some(sheet_data.content()),
        },
    }
}

/// Makes the sheet that `AddSheet` appends to a document of `count` sheets.
fn new_sheet(name: &String, given: &Option<SheetData>, count: usize) -> (sheet: SheetData)
    ensures
        sheet@ == sheet_to_add(
            name@,
            match given {
                Some(held) => Some(held@),
                None => None,
            },
            count as nat,
        ),
{
    match given {
        Some(held) => held.snapshot(),
        None => {
            let sheet_name = if name.as_str().is_empty() {
                proof {
                    reveal_strlit("Sheet");
                }
                let numbered = String::from_str("Sheet").concat(
                    decimal_text(count as u128 + 1).as_str(),
                );
                assert(numbered@ =~= default_sheet_name(count as nat));
                numbered
            } else {
                name.clone()
            };
            let mut rows: Vec<Vec<CellValue>> = Vec::new();
            let mut r: usize = 0;
            while r < 5
                invariant
                    r <= 5,
                    rows.len() == r,
                    forall|k: int| 0 <= k < r ==> #[trigger] rows@[k].deep_view() == blank_row(5),
                decreases 5 - r,
            {
                rows.push(blank_row_of(5));
                r = r + 1;
            }
            assert(rows.deep_view() =~= blank_sheet(sheet_name@).rows);
            SheetData { name: sheet_name, rows, index: SheetIndex::new() }
        },
    }
}

impl Operation {
    /// Performs the operation on a document and reports what changed.
    ///
    /// A row, column or sheet that the document does not have is no error: the
    /// document stays as it is and the change is still reported. Deleting the
    /// last remaining sheet is refused with `AppError::InvalidTarget`, and the
    /// document stays as it is. Setting a cell brings the sheet's index up to
    /// date; the other operations leave every index as it was.
    pub fn execute(&self, file_data: &mut FileData) -> (result: Result<OperationResult, AppError>)
        ensures
            final(file_data)@ == apply(self@, old(file_data)@),
            rejects(self@, old(file_data)@) ==> result matches Err(AppError::InvalidTarget),
            self@ is DeleteSheet && old(file_data)@.sheets.len() <= 1 ==> final(file_data)@ == old(
                file_data,
            )@,
            !rejects(self@, old(file_data)@) ==> (result matches Ok(change) && change@
                == change_of(self@, old(file_data)@)),
    {
        let count = file_data.sheets.len();
        match self {
            Operation::SetCell { sheet_index, row, col, old_value, new_value } => {
                if *sheet_index < count {
                    file_data.sheets[*sheet_index].set_cell(*row, *col, new_value);
                    assert(file_data@.sheets =~= apply(self@, old(file_data)@).sheets);
                }
                Ok(
                    OperationResult::SetCell {
                        sheet_index: *sheet_index,
                        cell: CellChange { row: *row, col: *col, value: new_value.clone() },
                    },
                )
            },
            Operation::AddRow { sheet_index, row_index, row_data } => {
                if *sheet_index < count {
                    file_data.sheets[*sheet_index].insert_row(*row_index, row_data);
                    assert(file_data@.sheets =~= apply(self@, old(file_data)@).sheets);
                }
                let values = match row_data {
                    Some(cells) => copy_row(cells),
                    None => {
                        let none: Vec<CellValue> = Vec::new();
                        assert(none.deep_view() =~= Seq::<Cell>::empty());
                        none
                    },
                };
                Ok(
                    OperationResult::AddRow {
                        sheet_index: *sheet_index,
                        row: RowChange { index: *row_index, values },
                    },
                )
            },
            Operation::DeleteRow { sheet_index, row_index, row_data } => {
                if *sheet_index < count {
                    file_data.sheets[*sheet_index].remove_row(*row_index);
                    assert(file_data@.sheets =~= apply(self@, old(file_data)@).sheets);
                }
                Ok(OperationResult::DeleteRow { sheet_index: *sheet_index, row_index: *row_index })
            },
            Operation::AddColumn { sheet_index, col_index, col_data } => {
                let index = match col_index {
                    Some(i) => *i,
                    None => if *sheet_index < count {
                        file_data.sheets[*sheet_index].width()
                    } else {
                        0
                    },
                };
                if *sheet_index < count {
                    file_data.sheets[*sheet_index].insert_column(*col_index, col_data);
                    assert(file_data@.sheets =~= apply(self@, old(file_data)@).sheets);
                }
                Ok(
                    OperationResult::AddColumn {
                        sheet_index: *sheet_index,
                        column: ColumnChange { index },
                    },
                )
            },
            Operation::DeleteColumn { sheet_index, col_index, col_data } => {
                if *sheet_index < count {
                    file_data.sheets[*sheet_index].remove_column(*col_index);
                    assert(file_data@.sheets =~= apply(self@, old(file_data)@).sheets);
                }
                Ok(
                    OperationResult::DeleteColumn {
                        sheet_index: *sheet_index,
                        column_index: *col_index,
                    },
                )
            },
            Operation::AddSheet { name, sheet_data } => {
                let sheet = new_sheet(name, sheet_data, count);
                let sheet_name = sheet.name.clone();
                file_data.sheets.push(sheet);
                assert(file_data@.sheets =~= apply(self@, old(file_data)@).sheets);
                Ok(OperationResult::AddSheet { sheet_index: count, name: sheet_name })
            },
            Operation::DeleteSheet { sheet_index, sheet_data } => {
                if count <= 1 {
                    return Err(AppError::InvalidTarget);
                }
                let at = if *sheet_index == LAST_SHEET {
                    count - 1
                } else {
                    *sheet_index
                };
                if at < count {
                    file_data.sheets.remove(at);
                    assert(file_data@.sheets =~= apply(self@, old(file_data)@).sheets);
                }
                let left = file_data.sheets.len();
                let shown = if at >= left {
                    left - 1
                } else {
                    at
                };
                Ok(OperationResult::DeleteSheet { sheet_index: shown })
            },
        }
    }

    /// The operation that undoes this one.
    pub fn undo(&self) -> (undoing: Operation)
        ensures
            undoing@ == inverse(self@),
    {
        match self {
            Operation::SetCell { sheet_index, row, col, old_value, new_value } => {
                Operation::SetCell {
                    sheet_index: *sheet_index,
                    row: *row,
                    col: *col,
                    old_value: new_value.clone(),
                    new_value: old_value.clone(),
                }
            },
            Operation::AddRow { sheet_index, row_index, row_data } => {
                let cells = match row_data {
                    Some(given) => copy_row(given),
                    None => {
                        let none: Vec<CellValue> = Vec::new();
                        assert(none.deep_view() =~= Seq::<Cell>::empty());
                        none
                    },
                };
                Operation::DeleteRow {
                    sheet_index: *sheet_index,
                    row_index: *row_index,
                    row_data: cells,
                }
            },
            Operation::DeleteRow { sheet_index, row_index, row_data } => {
                Operation::AddRow {
                    sheet_index: *sheet_index,
                    row_index: *row_index,
                    row_data: Some(copy_row(row_data)),
                }
            },
            Operation::AddColumn { sheet_index, col_index, col_data } => {
                Operation::DeleteColumn {
                    sheet_index: *sheet_index,
                    col_index: match col_index {
                        Some(i) => *i,
                        None => 0,
                    },
                    col_data: copy_row(col_data),
                }
            },
            Operation::DeleteColumn { sheet_index, col_index, col_data } => {
                Operation::AddColumn {
                    sheet_index: *sheet_index,
                    col_index: Some(*col_index),
                    col_data: copy_row(col_data),
                }
            },
            Operation::AddSheet { name, sheet_data } => {
                Operation::DeleteSheet { sheet_index: LAST_SHEET, sheet_data: SheetData::default() }
            },
            Operation::DeleteSheet { sheet_index, sheet_data } => {
                Operation::AddSheet {
                    name: sheet_data.name.clone(),
                    sheet_data: Some(sheet_data.snapshot()),
                }
            },
        }
    }
}

} // verus!
