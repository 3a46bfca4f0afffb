//! The document model: cells, sheets, documents, and the change
//! descriptions handed back to callers, each with its mathematical view.

use vstd::prelude::*;
use vstd::hash_map::StringHashMap;

verus! {

/// The mathematical value of one cell.
pub enum Cell {
    Null,
    Text(Seq<char>),
    /// A number, held as its decimal text.
    Number(Seq<char>),
    Boolean(bool),
}

/// The value of one cell.
///
/// A number is held as its canonical decimal text, which is what the engine
/// reads of it: the text is what search indexes, and two numbers are the same
/// cell value when their texts are.
#[derive(Debug)]
pub enum CellValue {
    Null,
    String(String),
    Number(String),
    Boolean(bool),
}

impl View for CellValue {
    type V = Cell;

    open spec fn view(&self) -> Cell {
        match self {
            CellValue::Null => Cell::Null,
            CellValue::String(s) => Cell::Text(s@),
            CellValue::Number(t) => Cell::Number(t@),
            CellValue::Boolean(b) => Cell::Boolean(*b),
        }
    }
}

impl DeepView for CellValue {
    type V = Cell;

    open spec fn deep_view(&self) -> Cell {
        self@
    }
}

impl Clone for CellValue {
    fn clone(&self) -> (copy: Self)
        ensures
            copy@ == self@,
    {
        match self {
            CellValue::Null => CellValue::Null,
            CellValue::String(s) => CellValue::String(s.clone()),
            CellValue::Number(t) => CellValue::Number(t.clone()),
            CellValue::Boolean(b) => CellValue::Boolean(*b),
        }
    }
}

impl PartialEq for CellValue {
    fn eq(&self, other: &Self) -> (same: bool) {
        match (self, other) {
            (CellValue::Null, CellValue::Null) => true,
            (CellValue::String(a), CellValue::String(b)) => *a == *b,
            (CellValue::Number(a), CellValue::Number(b)) => *a == *b,
            (CellValue::Boolean(a), CellValue::Boolean(b)) => *a == *b,
            _ => false,
        }
    }
}

impl vstd::std_specs::cmp::PartialEqSpecImpl for CellValue {
    open spec fn obeys_eq_spec() -> bool {
        true
    }

    open spec fn eq_spec(&self, other: &Self) -> bool {
        self@ == other@
    }
}

/// The place of a cell in its sheet, both counted from zero.
#[derive(Clone, Copy, Debug, PartialEq, Eq, Hash)]
pub struct CellPosition {
    pub row: usize,
    pub col: usize,
}

/// The search index of one sheet: each token with the positions of the cells
/// whose text folds to it.
pub struct SheetIndex {
    pub inverted_index: StringHashMap<Vec<CellPosition>>,
}

impl View for SheetIndex {
    type V = Map<Seq<char>, Seq<CellPosition>>;

    open spec fn view(&self) -> Map<Seq<char>, Seq<CellPosition>> {
        self.inverted_index@.map_values(|bucket: Vec<CellPosition>| bucket@)
    }
}

impl Default for SheetIndex {
    fn default() -> (index: Self)
        ensures
            index@ == Map::<Seq<char>, Seq<CellPosition>>::empty(),
    {
        let index = SheetIndex { inverted_index: StringHashMap::new() };
        assert(index@ =~= Map::<Seq<char>, Seq<CellPosition>>::empty());
        index
    }
}

/// The mathematical value of a sheet.
pub struct Sheet {
    pub name: Seq<char>,
    pub rows: Seq<Seq<Cell>>,
    pub index: Map<Seq<char>, Seq<CellPosition>>,
}

impl Sheet {
    /// Every row has as many cells as every other.
    pub open spec fn rectangular(self) -> bool {
        forall|i: int, j: int|
            0 <= i < self.rows.len() && 0 <= j < self.rows.len() ==> (#[trigger] self.rows[i]).len()
                == (#[trigger] self.rows[j]).len()
    }

    /// The sheet without its index, which is derived from the rows.
    pub open spec fn content(self) -> Sheet {
        Sheet { name: self.name, rows: self.rows, index: Map::empty() }
    }
}

/// One sheet: its name, its rows of cells, and its search index.
pub struct SheetData {
    pub name: String,
    pub rows: Vec<Vec<CellValue>>,
    pub index: SheetIndex,
}

impl View for SheetData {
    type V = Sheet;

    open spec fn view(&self) -> Sheet {
        Sheet { name: self.name@, rows: self.rows.deep_view(), index: self.index@ }
    }
}

impl DeepView for SheetData {
    type V = Sheet;

    open spec fn deep_view(&self) -> Sheet {
        self@
    }
}

impl Default for SheetData {
    fn default() -> (sheet: Self)
        ensures
            sheet@ == (Sheet { name: Seq::empty(), rows: Seq::empty(), index: Map::empty() }),
    {
        let sheet = SheetData { name: String::new(), rows: Vec::new(), index: SheetIndex::default() };
        assert(sheet.rows.deep_view() =~= Seq::<Seq<Cell>>::empty());
        sheet
    }
}

/// The mathematical value of a document.
pub struct Document {
    pub file_name: Seq<char>,
    pub sheets: Seq<Sheet>,
}

impl Document {
    /// A document holds at least one sheet, and each sheet is rectangular.
    pub open spec fn valid(self) -> bool {
        &&& self.sheets.len() >= 1
        &&& forall|i: int| 0 <= i < self.sheets.len() ==> (#[trigger] self.sheets[i]).rectangular()
    }

    /// The document without its indexes: the file name, and each sheet's name
    /// and rows.
    pub open spec fn content(self) -> Document {
        Document {
            file_name: self.file_name,
            sheets: Seq::new(self.sheets.len(), |i: int| self.sheets[i].content()),
        }
    }
}

/// A document: a file name and its sheets, in order.
pub struct FileData {
    pub file_name: String,
    pub sheets: Vec<SheetData>,
}

impl View for FileData {
    type V = Document;

    open spec fn view(&self) -> Document {
        Document { file_name: self.file_name@, sheets: self.sheets.deep_view() }
    }
}

/// A cell that took a new value.
#[derive(Debug)]
pub struct CellChange {
    pub row: usize,
    pub col: usize,
    pub value: CellValue,
}

/// A row that was inserted, with the values it holds where they are known.
#[derive(Debug)]
pub struct RowChange {
    pub index: usize,
    pub values: Vec<CellValue>,
}

/// A column that was inserted.
#[derive(Clone, Copy, Debug, PartialEq, Eq)]
pub struct ColumnChange {
    pub index: usize,
}

/// The mathematical value of a change description.
pub enum Change {
    SetCell { sheet_index: usize, row: usize, col: usize, value: Cell },
    AddRow { sheet_index: usize, index: usize, values: Seq<Cell> },
    DeleteRow { sheet_index: usize, row_index: usize },
    AddColumn { sheet_index: usize, index: usize },
    DeleteColumn { sheet_index: usize, column_index: usize },
    AddSheet { sheet_index: usize, name: Seq<char> },
    DeleteSheet { sheet_index: usize },
}

/// What a mutating call changed: the sheet it touched and the smallest delta
/// from which a displayed view can be patched.
#[derive(Debug)]
pub enum OperationResult {
    SetCell { sheet_index: usize, cell: CellChange },
    AddRow { sheet_index: usize, row: RowChange },
    DeleteRow { sheet_index: usize, row_index: usize },
    AddColumn { sheet_index: usize, column: ColumnChange },
    DeleteColumn { sheet_index: usize, column_index: usize },
    AddSheet { sheet_index: usize, name: String },
    DeleteSheet { sheet_index: usize },
}

impl View for OperationResult {
    type V = Change;

    open spec fn view(&self) -> Change {
        match self {
            OperationResult::SetCell { sheet_index, cell } => Change::SetCell {
                sheet_index: *sheet_index,
                row: cell.row,
                col: cell.col,
                value: cell.value@,
            },
            OperationResult::AddRow { sheet_index, row } => Change::AddRow {
                sheet_index: *sheet_index,
                index: row.index,
                values: row.values.deep_view(),
            },
            OperationResult::DeleteRow { sheet_index, row_index } => Change::DeleteRow {
                sheet_index: *sheet_index,
                row_index: *row_index,
            },
            OperationResult::AddColumn { sheet_index, column } => Change::AddColumn {
                sheet_index: *sheet_index,
                index: column.index,
            },
            OperationResult::DeleteColumn { sheet_index, column_index } => Change::DeleteColumn {
                sheet_index: *sheet_index,
                column_index: *column_index,
            },
            OperationResult::AddSheet { sheet_index, name } => Change::AddSheet {
                sheet_index: *sheet_index,
                name: name@,
            },
            OperationResult::DeleteSheet { sheet_index } => Change::DeleteSheet {
                sheet_index: *sheet_index,
            },
        }
    }
}

/// Where a search looks.
#[derive(Clone, Copy, Debug, PartialEq, Eq)]
pub enum SearchScope {
    CurrentSheet,
    AllSheets,
}

/// The mathematical value of a search result.
pub struct Hit {
    pub sheet_index: usize,
    pub sheet_name: Seq<char>,
    pub row: usize,
    pub col: usize,
    pub value: Seq<char>,
    pub cell_position: Seq<char>,
}

/// One cell found by a search.
#[derive(Clone, Debug)]
pub struct SearchResult {
    pub sheet_index: usize,
    pub sheet_name: String,
    pub row: usize,
    pub col: usize,
    /// The cell's text.
    pub value: String,
    /// The cell's coordinate as a spreadsheet shows it, such as `B7`.
    pub cell_position: String,
}

impl View for SearchResult {
    type V = Hit;

    open spec fn view(&self) -> Hit {
        Hit {
            sheet_index: self.sheet_index,
            sheet_name: self.sheet_name@,
            row: self.row,
            col: self.col,
            value: self.value@,
            cell_position: self.cell_position@,
        }
    }
}

impl DeepView for SearchResult {
    type V = Hit;

    open spec fn deep_view(&self) -> Hit {
        self@
    }
}

/// Whether undo and redo are available.
#[derive(Clone, Copy, Debug, PartialEq, Eq)]
pub struct EditorStateInfo {
    pub can_undo: bool,
    pub can_redo: bool,
}

} // verus!
