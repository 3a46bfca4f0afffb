use sheet_editor::editor_state::EditorState;
use sheet_editor::grid::{blank_row_of, copy_row, copy_rows};
use sheet_editor::operation::Operation;
use sheet_editor::types::{CellPosition, CellValue, FileData, SheetData, SheetIndex};

fn word(s: &str) -> CellValue {
    CellValue::String(s.to_string())
}

fn grid(rows: Vec<Vec<CellValue>>) -> SheetData {
    SheetData { name: "Grid".to_string(), rows, index: SheetIndex::new() }
}

fn letters() -> Vec<Vec<CellValue>> {
    vec![vec![word("a"), word("b"), word("c")], vec![word("d"), word("e"), word("f")]]
}

#[test]
fn a_blank_row_holds_empty_cells() {
    assert_eq!(blank_row_of(0), Vec::<CellValue>::new());
    assert_eq!(blank_row_of(3), vec![CellValue::Null, CellValue::Null, CellValue::Null]);
}

#[test]
fn copies_of_rows_hold_the_same_cells() {
    let row = vec![word("a"), CellValue::Null, CellValue::Boolean(true), CellValue::Number("4".to_string())];
    assert_eq!(copy_row(&row), row);
    assert_eq!(copy_row(&Vec::new()), Vec::<CellValue>::new());
    assert_eq!(copy_rows(&letters()), letters());
    assert_eq!(copy_rows(&vec![vec![], vec![word("x")]]), vec![vec![], vec![word("x")]]);
}

#[test]
fn the_default_sheet_is_empty() {
    let sheet = SheetData::default();
    assert_eq!(sheet.name, "");
    assert!(sheet.rows.is_empty());
    assert_eq!(sheet.index.inverted_index.len(), 0);
    assert_eq!(SheetIndex::default().inverted_index.len(), 0);
}

#[test]
fn the_width_is_that_of_the_first_row() {
    assert_eq!(grid(letters()).width(), 3);
    assert_eq!(grid(vec![]).width(), 0);
    assert_eq!(grid(vec![vec![]]).width(), 0);
    assert_eq!(grid(vec![vec![word("a")], vec![word("b"), word("c")]]).width(), 1);
}

#[test]
fn set_cell_on_a_sheet_writes_and_indexes() {
    let mut sheet = grid(letters());
    sheet.set_cell(1, 2, &word("Z"));
    assert_eq!(sheet.rows[1][2], word("Z"));
    assert_eq!(sheet.index.positions("z"), vec![CellPosition { row: 1, col: 2 }]);
    sheet.set_cell(1, 2, &CellValue::Null);
    assert_eq!(sheet.rows[1][2], CellValue::Null);
    assert!(sheet.index.positions("z").is_empty());
    sheet.set_cell(2, 0, &word("nowhere"));
    sheet.set_cell(0, 3, &word("nowhere"));
    assert!(sheet.index.positions("nowhere").is_empty());
    assert_eq!(sheet.rows.len(), 2);
    assert_eq!(sheet.rows[0].len(), 3);
}

#[test]
fn insert_row_on_a_sheet() {
    let mut sheet = grid(letters());
    sheet.insert_row(2, &None);
    assert_eq!(sheet.rows[2], blank_row_of(3));
    sheet.insert_row(0, &Some(vec![word("x")]));
    assert_eq!(sheet.rows[0], vec![word("x")]);
    assert_eq!(sheet.rows.len(), 4);
    sheet.insert_row(5, &None);
    assert_eq!(sheet.rows.len(), 4);
}

#[test]
fn remove_row_on_a_sheet() {
    let mut sheet = grid(letters());
    sheet.remove_row(0);
    assert_eq!(sheet.rows, vec![vec![word("d"), word("e"), word("f")]]);
    sheet.remove_row(1);
    assert_eq!(sheet.rows.len(), 1);
    sheet.remove_row(0);
    assert!(sheet.rows.is_empty());
    sheet.remove_row(0);
    assert!(sheet.rows.is_empty());
}

#[test]
fn insert_column_on_a_sheet() {
    let mut sheet = grid(letters());
    sheet.insert_column(None, &vec![word("not used")]);
    assert_eq!(sheet.rows[0], vec![word("a"), word("b"), word("c"), CellValue::Null]);
    assert_eq!(sheet.rows[1], vec![word("d"), word("e"), word("f"), CellValue::Null]);
    let mut sheet = grid(letters());
    sheet.insert_column(Some(0), &vec![word("x"), word("y"), word("extra")]);
    assert_eq!(sheet.rows[0], vec![word("x"), word("a"), word("b"), word("c")]);
    assert_eq!(sheet.rows[1], vec![word("y"), word("d"), word("e"), word("f")]);
    let mut sheet = grid(letters());
    sheet.insert_column(Some(3), &vec![]);
    assert_eq!(sheet.rows[0].len(), 4);
    assert_eq!(sheet.rows[0][3], CellValue::Null);
    sheet.insert_column(Some(9), &vec![]);
    assert_eq!(sheet.rows[0].len(), 4);
}

#[test]
fn insert_column_on_a_ragged_sheet_skips_the_rows_it_cannot_reach() {
    let mut sheet = grid(vec![vec![word("a"), word("b")], vec![]]);
    sheet.insert_column(Some(1), &vec![word("x"), word("y")]);
    assert_eq!(sheet.rows, vec![vec![word("a"), word("x"), word("b")], vec![]]);
}

#[test]
fn remove_column_on_a_sheet() {
    let mut sheet = grid(letters());
    sheet.remove_column(1);
    assert_eq!(sheet.rows, vec![vec![word("a"), word("c")], vec![word("d"), word("f")]]);
    sheet.remove_column(2);
    assert_eq!(sheet.rows[0].len(), 2);
    let mut ragged = grid(vec![vec![word("a"), word("b")], vec![word("c")]]);
    ragged.remove_column(1);
    assert_eq!(ragged.rows, vec![vec![word("a")], vec![word("c")]]);
}

#[test]
fn the_column_of_a_sheet() {
    let sheet = grid(letters());
    assert_eq!(sheet.column(0), vec![word("a"), word("d")]);
    assert_eq!(sheet.column(2), vec![word("c"), word("f")]);
    assert_eq!(sheet.column(3), vec![CellValue::Null, CellValue::Null]);
    assert_eq!(grid(vec![]).column(0), Vec::<CellValue>::new());
}

#[test]
fn a_row_deleted_just_past_the_end_is_redone_to_the_same_content() {
    let doc = FileData { file_name: String::new(), sheets: vec![grid(letters())] };
    let mut editor = EditorState::new(doc);
    let request = Operation::DeleteRow { sheet_index: 0, row_index: 2, row_data: vec![word("r")] };
    editor.execute(request).unwrap();
    assert_eq!(editor.file_data.sheets[0].rows, letters());
    editor.undo().unwrap();
    assert_eq!(editor.file_data.sheets[0].rows.len(), 3);
    assert_eq!(editor.file_data.sheets[0].rows[2], vec![word("r")]);
    editor.redo().unwrap();
    assert_eq!(editor.file_data.sheets[0].rows, letters());
}

#[test]
fn a_column_deleted_just_past_the_end_is_redone_to_the_same_content() {
    let doc = FileData { file_name: String::new(), sheets: vec![grid(letters())] };
    let mut editor = EditorState::new(doc);
    let request = Operation::DeleteColumn { sheet_index: 0, col_index: 3, col_data: vec![] };
    editor.execute(request).unwrap();
    assert_eq!(editor.file_data.sheets[0].rows, letters());
    editor.undo().unwrap();
    assert_eq!(editor.file_data.sheets[0].rows[0].len(), 4);
    editor.redo().unwrap();
    assert_eq!(editor.file_data.sheets[0].rows, letters());
}

#[test]
fn a_sheet_added_to_a_document_without_sheets_cannot_be_undone() {
    let mut editor = EditorState::new(FileData { file_name: String::new(), sheets: vec![] });
    editor.execute(Operation::AddSheet { name: String::new(), sheet_data: None }).unwrap();
    assert_eq!(editor.file_data.sheets.len(), 1);
    assert_eq!(editor.file_data.sheets[0].name, "Sheet1");
    assert!(editor.undo().is_none());
    assert!(editor.redo().is_none());
    assert_eq!(editor.file_data.sheets.len(), 1);
    assert!(editor.can_undo);
}

#[test]
fn the_flags_follow_the_stacks_through_every_call() {
    let doc = FileData { file_name: String::new(), sheets: vec![grid(letters())] };
    let mut editor = EditorState::new(doc);
    let check = |editor: &EditorState| {
        assert_eq!(editor.can_undo, !editor.history.is_empty());
        assert_eq!(editor.can_redo, !editor.redo_stack.is_empty());
    };
    check(&editor);
    editor.execute(Operation::AddRow { sheet_index: 0, row_index: 0, row_data: None }).unwrap();
    check(&editor);
    editor.undo();
    check(&editor);
    editor.undo();
    check(&editor);
    editor.redo();
    check(&editor);
    editor.redo();
    check(&editor);
    let refused = Operation::DeleteSheet { sheet_index: 0, sheet_data: SheetData::default() };
    assert!(editor.execute(refused).is_err());
    check(&editor);
}
