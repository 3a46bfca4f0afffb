//! The edits of one sheet's grid: setting a cell, and inserting or removing a
//! row or a column.

use vstd::prelude::*;
use crate::index_ops::{index_after_edit, update_cell_index};
use crate::types::{Cell, CellValue, Sheet, SheetData, SheetIndex};

verus! {

/// A row of `width` empty cells.
pub open spec fn blank_row(width: nat) -> Seq<Cell> {
    Seq::new(width, |i: int| Cell::Null)
}

/// The number of columns of a grid: the length of its first row, zero where it
/// has no row.
pub open spec fn width_of(rows: Seq<Seq<Cell>>) -> nat {
    if rows.len() == 0 {
        0
    } else {
        rows[0].len()
    }
}

/// The `r`-th of the given cells, an empty cell where there are fewer.
pub open spec fn cell_or_null(cells: Seq<Cell>, r: int) -> Cell {
    if 0 <= r < cells.len() {
        cells[r]
    } else {
        Cell::Null
    }
}

/// The cell that joins row `r` when a column is added: an empty cell where the
/// column is appended, else the `r`-th of the given cells.
pub open spec fn cell_to_add(at: Option<usize>, cells: Seq<Cell>, r: int) -> Cell {
    if at is Some {
        cell_or_null(cells, r)
    } else {
        Cell::Null
    }
}

/// A row with one more cell: at its end where no place is given, else at the
/// given place, and unchanged where the place lies beyond its end.
pub open spec fn row_with_cell(row: Seq<Cell>, at: Option<usize>, cell: Cell) -> Seq<Cell> {
    match at {
        None => row.push(cell),
        Some(i) => if i <= row.len() {
            row.insert(i as int, cell)
        } else {
            row
        },
    }
}

/// A row without its `i`-th cell, unchanged where it has none.
pub open spec fn row_without_cell(row: Seq<Cell>, i: usize) -> Seq<Cell> {
    if i < row.len() {
        row.remove(i as int)
    } else {
        row
    }
}

/// The `i`-th cell of each row, an empty cell for a row that has none.
pub open spec fn column_of(rows: Seq<Seq<Cell>>, i: usize) -> Seq<Cell> {
    Seq::new(rows.len(), |r: int| cell_or_null(rows[r], i as int))
}

impl Sheet {
    /// Whether the sheet has a cell in row `row` and column `col`.
    pub open spec fn has_cell(self, row: usize, col: usize) -> bool {
        row < self.rows.len() && col < self.rows[row as int].len()
    }

    /// The sheet after one cell took a new value, its index brought up to
    /// date; unchanged where it has no such cell.
    pub open spec fn after_set(self, row: usize, col: usize, value: Cell) -> Sheet {
        if self.has_cell(row, col) {
            Sheet {
                rows: self.rows.update(row as int, self.rows[row as int].update(col as int, value)),
                index: index_after_edit(
                    self.index,
                    row,
                    col,
                    self.rows[row as int][col as int],
                    value,
                ),
                ..self
            }
        } else {
            self
        }
    }

    /// The row that an insertion adds: the given cells, or a row of empty
    /// cells as wide as the sheet.
    pub open spec fn row_to_add(self, cells: Option<Seq<Cell>>) -> Seq<Cell> {
        match cells {
            Some(given) => given,
            None => blank_row(width_of(self.rows)),
        }
    }

    /// The sheet with a row inserted before row `at`; unchanged where `at`
    /// lies beyond the end.
    pub open spec fn with_row(self, at: usize, cells: Option<Seq<Cell>>) -> Sheet {
        if at <= self.rows.len() {
            Sheet { rows: self.rows.insert(at as int, self.row_to_add(cells)), ..self }
        } else {
            self
        }
    }

    /// The sheet without row `at`; unchanged where it has no such row.
    pub open spec fn without_row(self, at: usize) -> Sheet {
        if at < self.rows.len() {
            Sheet { rows: self.rows.remove(at as int), ..self }
        } else {
            self
        }
    }

    /// The sheet with one more cell in every row. Without a place, an empty
    /// cell joins the end of every row. With a place, the `r`-th of `cells`
    /// joins row `r` there, an empty cell where `cells` has fewer; a row that
    /// ends before the place stays as it is.
    pub open spec fn with_column(self, at: Option<usize>, cells: Seq<Cell>) -> Sheet {
        Sheet {
            rows: Seq::new(
                self.rows.len(),
                |r: int| row_with_cell(self.rows[r], at, cell_to_add(at, cells, r)),
            ),
            ..self
        }
    }

    /// The sheet without column `at` in every row that reaches it.
    pub open spec fn without_column(self, at: usize) -> Sheet {
        Sheet {
            rows: Seq::new(self.rows.len(), |r: int| row_without_cell(self.rows[r], at)),
            ..self
        }
    }
}

/// Makes a row of `width` empty cells.
pub fn blank_row_of(width: usize) -> (row: Vec<CellValue>)
    ensures
        row.deep_view() == blank_row(width as nat),
{
    let mut row: Vec<CellValue> = Vec::new();
    let mut i: usize = 0;
    while i < width
        invariant
            i <= width,
            row.len() == i,
            forall|k: int| 0 <= k < i ==> row@[k]@ == Cell::Null,
        decreases width - i,
    {
        row.push(CellValue::Null);
        i = i + 1;
    }
    assert(row.deep_view() =~= blank_row(width as nat));
    row
}

/// Copies a row of cells.
pub fn copy_row(row: &Vec<CellValue>) -> (copy: Vec<CellValue>)
    ensures
        copy.deep_view() == row.deep_view(),
{
    let mut copy: Vec<CellValue> = Vec::new();
    let mut i: usize = 0;
    while i < row.len()
        invariant
            i <= row.len(),
            copy.len() == i,
            forall|k: int| 0 <= k < i ==> copy@[k]@ == row@[k]@,
        decreases row.len() - i,
    {
        copy.push(row[i].clone());
        i = i + 1;
    }
    assert(copy.deep_view() =~= row.deep_view());
    copy
}

/// Copies a grid of cells.
pub fn copy_rows(rows: &Vec<Vec<CellValue>>) -> (copy: Vec<Vec<CellValue>>)
    ensures
        copy.deep_view() == rows.deep_view(),
{
    let mut copy: Vec<Vec<CellValue>> = Vec::new();
    let mut i: usize = 0;
    while i < rows.len()
        invariant
            i <= rows.len(),
            copy.len() == i,
            forall|k: int| 0 <= k < i ==> copy@[k].deep_view() == rows@[k].deep_view(),
        decreases rows.len() - i,
    {
        copy.push(copy_row(&rows[i]));
        i = i + 1;
    }
    assert(copy.deep_view() =~= rows.deep_view());
    copy
}

impl SheetData {
    /// A copy of the sheet's name and rows, with an index that lists nothing.
    pub fn snapshot(&self) -> (copy: SheetData)
        ensures
            copy@ == self@.content(),
    {
        SheetData { name: self.name.clone(), rows: copy_rows(&self.rows), index: SheetIndex::new() }
    }

    /// The number of columns: the length of the first row, zero without rows.
    pub fn width(&self) -> (width: usize)
        ensures
            width == width_of(self@.rows),
    {
        if self.rows.len() == 0 {
            0
        } else {
            self.rows[0].len()
        }
    }

    /// Writes `value` into the cell in row `row` and column `col` and brings
    /// the index up to date; does nothing where the sheet has no such cell.
    pub fn set_cell(&mut self, row: usize, col: usize, value: &CellValue)
        ensures
            final(self)@ == old(self)@.after_set(row, col, value@),
    {
        if row < self.rows.len() && col < self.rows[row].len() {
            let held = self.rows[row][col].clone();
            self.rows[row][col] = value.clone();
            assert(self.rows.deep_view() =~~= old(self)@.rows.update(
                row as int,
                old(self)@.rows[row as int].update(col as int, value@),
            ));
            update_cell_index(self, row, col, &held, value);
        }
    }

    /// Inserts a row before row `at`: a copy of `cells`, or a row of empty
    /// cells as wide as the sheet. Does nothing where `at` lies beyond the end.
    pub fn insert_row(&mut self, at: usize, cells: &Option<Vec<CellValue>>)
        ensures
            final(self)@ == old(self)@.with_row(
                at,
                match cells {
                    Some(given) => Some(given.deep_view()),
                    None => None,
                },
            ),
    {
        if at <= self.rows.len() {
            let row = match cells {
                Some(given) => copy_row(given),
                None => blank_row_of(self.width()),
            };
            self.rows.insert(at, row);
            assert(self.rows.deep_view() =~~= old(self)@.rows.insert(at as int, row.deep_view()));
        }
    }

    /// Removes row `at`; does nothing where the sheet has no such row.
    pub fn remove_row(&mut self, at: usize)
        ensures
            final(self)@ == old(self)@.without_row(at),
    {
        if at < self.rows.len() {
            self.rows.remove(at);
            assert(self.rows.deep_view() =~~= old(self)@.rows.remove(at as int));
        }
    }

    /// Adds one cell to every row: an empty cell at its end where no place is
    /// given, else at the place `at` a copy of the `r`-th of `cells` in row
    /// `r`, an empty cell where `cells` has fewer.
    pub fn insert_column(&mut self, at: Option<usize>, cells: &Vec<CellValue>)
        ensures
            final(self)@ == old(self)@.with_column(at, cells.deep_view()),
    {
        let ghost before = self@;
        let mut r: usize = 0;
        while r < self.rows.len()
            invariant
                r <= self.rows.len(),
                self.rows.len() == before.rows.len(),
                self.name@ == before.name,
                self.index@ == before.index,
                forall|k: int|
                    0 <= k < r ==> #[trigger] self.rows.deep_view()[k] == row_with_cell(
                        before.rows[k],
                        at,
                        cell_to_add(at, cells.deep_view(), k),
                    ),
                forall|k: int|
                    r <= k < self.rows.len() ==> #[trigger] self.rows.deep_view()[k]
                        == before.rows[k],
            decreases self.rows.len() - r,
        {
            let ghost rows_before = self.rows.deep_view();
            let cell = if at.is_some() && r < cells.len() {
                cells[r].clone()
            } else {
                CellValue::Null
            };
            assert(cell@ == cell_to_add(at, cells.deep_view(), r as int));
            match at {
                None => {
                    self.rows[r].push(cell);
                    assert(self.rows.deep_view()[r as int] =~= rows_before[r as int].push(cell@));
                },
                Some(i) => {
                    if i <= self.rows[r].len() {
                        self.rows[r].insert(i, cell);
                        assert(self.rows.deep_view()[r as int] =~= rows_before[r as int].insert(
                            i as int,
                            cell@,
                        ));
                    }
                },
            }
            assert forall|k: int| 0 <= k < self.rows.len() && k != r implies #[trigger]
                self.rows.deep_view()[k] == rows_before[k] by {}
            r = r + 1;
        }
        assert(self.rows.deep_view() =~= before.with_column(at, cells.deep_view()).rows);
    }

    /// Removes column `at` from every row that reaches it.
    pub fn remove_column(&mut self, at: usize)
        ensures
            final(self)@ == old(self)@.without_column(at),
    {
        let ghost before = self@;
        let mut r: usize = 0;
        while r < self.rows.len()
            invariant
                r <= self.rows.len(),
                self.rows.len() == before.rows.len(),
                self.name@ == before.name,
                self.index@ == before.index,
                forall|k: int|
                    0 <= k < r ==> #[trigger] self.rows.deep_view()[k] == row_without_cell(
                        before.rows[k],
                        at,
                    ),
                forall|k: int|
                    r <= k < self.rows.len() ==> #[trigger] self.rows.deep_view()[k]
                        == before.rows[k],
            decreases self.rows.len() - r,
        {
            let ghost rows_before = self.rows.deep_view();
            if at < self.rows[r].len() {
                self.rows[r].remove(at);
                assert(self.rows.deep_view()[r as int] =~= rows_before[r as int].remove(at as int));
            }
            assert forall|k: int| 0 <= k < self.rows.len() && k != r implies #[trigger]
                self.rows.deep_view()[k] == rows_before[k] by {}
            r = r + 1;
        }
        assert(self.rows.deep_view() =~= before.without_column(at).rows);
    }

    /// Copies column `at`: the cell of each row there, an empty cell for a row
    /// that does not reach it.
    pub fn column(&self, at: usize) -> (cells: Vec<CellValue>)
        ensures
            cells.deep_view() == column_of(self@.rows, at),
    {
        let mut cells: Vec<CellValue> = Vec::new();
        let mut r: usize = 0;
        while r < self.rows.len()
            invariant
                r <= self.rows.len(),
                cells.len() == r,
                forall|k: int|
                    0 <= k < r ==> #[trigger] cells@[k]@ == cell_or_null(
                        self.rows.deep_view()[k],
                        at as int,
                    ),
            decreases self.rows.len() - r,
        {
            let cell = if at < self.rows[r].len() {
                self.rows[r][at].clone()
            } else {
                CellValue::Null
            };
            cells.push(cell);
            r = r + 1;
        }
        assert(cells.deep_view() =~= column_of(self@.rows, at));
        cells
    }
}

} // verus!
