use sheet_editor::cell_ops::{
    dispatch, do_add_column, do_add_row, do_add_sheet, do_delete_column, do_delete_row,
    do_delete_sheet, do_set_cell,
};
use sheet_editor::editor_ops::{
    do_get_editor_state, do_redo, do_undo, extract_sheet_index, outcome_of, rebuild_all_sheets_index,
    rebuild_sheet_index_at, reindex, Reindex,
};
use sheet_editor::editor_state::EditorState;
use sheet_editor::error::AppError;
use sheet_editor::file_ops::{do_init_file, do_save_file};
use sheet_editor::operation::Operation;
use sheet_editor::search_ops::{do_search, find_token, search};
use sheet_editor::types::{
    CellChange, CellPosition, CellValue, ColumnChange, EditorStateInfo, FileData, OperationResult,
    RowChange, SearchScope, SheetData, SheetIndex,
};

fn s(text: &str) -> CellValue {
    CellValue::String(text.to_string())
}

fn n(text: &str) -> CellValue {
    CellValue::Number(text.to_string())
}

fn one_sheet(name: &str, rows: Vec<Vec<CellValue>>) -> SheetData {
    SheetData { name: name.to_string(), rows, index: SheetIndex::new() }
}

fn scenario_doc() -> FileData {
    FileData {
        file_name: "book.xlsx".to_string(),
        sheets: vec![one_sheet("Sheet1", vec![vec![s("foo"), n("1")], vec![s("bar"), n("2")]])],
    }
}

fn two_sheet_doc() -> FileData {
    FileData {
        file_name: "two.xlsx".to_string(),
        sheets: vec![
            one_sheet("First", vec![vec![s("apple"), s("pear")], vec![s("Pear"), s("fig")]]),
            one_sheet("Second", vec![vec![s("PEAR"), s("plum")]]),
        ],
    }
}

fn loaded(doc: FileData) -> Option<EditorState> {
    let mut state = None;
    let work = do_init_file(&mut state, doc).unwrap();
    reindex(&mut state, work);
    state
}

fn rows_of(state: &Option<EditorState>, sheet: usize) -> Vec<Vec<CellValue>> {
    state.as_ref().unwrap().file_data.sheets[sheet].rows.clone()
}

#[test]
fn every_call_reports_that_no_document_is_loaded() {
    let mut state: Option<EditorState> = None;
    assert!(matches!(
        do_set_cell(&mut state, 0, 0, 0, CellValue::Null, s("x")),
        Err(AppError::NoActiveDocument)
    ));
    assert!(matches!(do_add_row(&mut state, 0, 0), Err(AppError::NoActiveDocument)));
    assert!(matches!(do_delete_row(&mut state, 0, 0), Err(AppError::NoActiveDocument)));
    assert!(matches!(do_add_column(&mut state, 0), Err(AppError::NoActiveDocument)));
    assert!(matches!(do_delete_column(&mut state, 0, 0), Err(AppError::NoActiveDocument)));
    assert!(matches!(do_add_sheet(&mut state), Err(AppError::NoActiveDocument)));
    assert!(matches!(do_delete_sheet(&mut state, 0), Err(AppError::NoActiveDocument)));
    assert!(matches!(do_undo(&mut state), Err(AppError::NoActiveDocument)));
    assert!(matches!(do_redo(&mut state), Err(AppError::NoActiveDocument)));
    assert!(matches!(
        do_search(&state, "x".to_string(), SearchScope::AllSheets, None),
        Err(AppError::NoActiveDocument)
    ));
    assert!(state.is_none());
}

#[test]
fn the_editor_state_of_no_document_is_none() {
    let state: Option<EditorState> = None;
    assert_eq!(do_get_editor_state(&state).unwrap(), None);
}

#[test]
fn the_editor_state_follows_the_stacks() {
    let mut state = loaded(scenario_doc());
    assert_eq!(
        do_get_editor_state(&state).unwrap(),
        Some(EditorStateInfo { can_undo: false, can_redo: false })
    );
    do_set_cell(&mut state, 0, 0, 0, s("foo"), s("baz")).unwrap();
    assert_eq!(
        do_get_editor_state(&state).unwrap(),
        Some(EditorStateInfo { can_undo: true, can_redo: false })
    );
    do_undo(&mut state).unwrap();
    assert_eq!(
        do_get_editor_state(&state).unwrap(),
        Some(EditorStateInfo { can_undo: false, can_redo: true })
    );
    do_redo(&mut state).unwrap();
    assert_eq!(
        do_get_editor_state(&state).unwrap(),
        Some(EditorStateInfo { can_undo: true, can_redo: false })
    );
}

#[test]
fn init_takes_the_document_and_asks_for_all_indexes() {
    let mut state: Option<EditorState> = None;
    let work = do_init_file(&mut state, scenario_doc()).unwrap();
    assert_eq!(work, Reindex::AllSheets);
    let editor = state.as_ref().unwrap();
    assert_eq!(editor.file_data.file_name, "book.xlsx");
    assert!(editor.history.is_empty());
    assert!(editor.redo_stack.is_empty());
    assert_eq!(editor.file_data.sheets[0].index.inverted_index.len(), 0);
}

#[test]
fn init_replaces_the_document_and_clears_the_stacks() {
    let mut state = loaded(scenario_doc());
    do_set_cell(&mut state, 0, 0, 0, s("foo"), s("baz")).unwrap();
    do_set_cell(&mut state, 0, 0, 1, n("1"), n("3")).unwrap();
    do_undo(&mut state).unwrap();
    do_init_file(&mut state, two_sheet_doc()).unwrap();
    let editor = state.as_ref().unwrap();
    assert_eq!(editor.file_data.file_name, "two.xlsx");
    assert_eq!(editor.file_data.sheets.len(), 2);
    assert!(editor.history.is_empty());
    assert!(editor.redo_stack.is_empty());
    assert!(!editor.can_undo);
    assert!(!editor.can_redo);
}

#[test]
fn save_records_the_document_and_keeps_the_stacks() {
    let mut state = loaded(scenario_doc());
    do_set_cell(&mut state, 0, 0, 0, s("foo"), s("baz")).unwrap();
    do_save_file(&mut state, two_sheet_doc()).unwrap();
    let editor = state.as_ref().unwrap();
    assert_eq!(editor.file_data.file_name, "two.xlsx");
    assert_eq!(editor.history.len(), 1);
    assert!(editor.can_undo);
    let mut none: Option<EditorState> = None;
    assert!(do_save_file(&mut none, scenario_doc()).is_ok());
    assert!(none.is_none());
}

#[test]
fn reindex_rebuilds_what_it_is_asked_for() {
    let mut state: Option<EditorState> = None;
    do_init_file(&mut state, two_sheet_doc()).unwrap();
    reindex(&mut state, Reindex::Nothing);
    assert_eq!(state.as_ref().unwrap().file_data.sheets[0].index.inverted_index.len(), 0);
    reindex(&mut state, Reindex::Sheet(1));
    assert_eq!(state.as_ref().unwrap().file_data.sheets[0].index.inverted_index.len(), 0);
    assert_eq!(state.as_ref().unwrap().file_data.sheets[1].index.inverted_index.len(), 2);
    reindex(&mut state, Reindex::AllSheets);
    assert_eq!(state.as_ref().unwrap().file_data.sheets[0].index.inverted_index.len(), 3);
    assert_eq!(state.as_ref().unwrap().file_data.sheets[1].index.inverted_index.len(), 2);
}

#[test]
fn reindex_of_a_missing_sheet_or_document_does_nothing() {
    let mut state: Option<EditorState> = None;
    rebuild_sheet_index_at(&mut state, 0);
    rebuild_all_sheets_index(&mut state);
    reindex(&mut state, Reindex::AllSheets);
    assert!(state.is_none());
    do_init_file(&mut state, scenario_doc()).unwrap();
    rebuild_sheet_index_at(&mut state, 5);
    assert_eq!(state.as_ref().unwrap().file_data.sheets[0].index.inverted_index.len(), 0);
    rebuild_sheet_index_at(&mut state, 0);
    assert_eq!(state.as_ref().unwrap().file_data.sheets[0].index.inverted_index.len(), 4);
}

#[test]
fn set_cell_scenario_moves_the_token_and_the_search_follows() {
    let mut state = loaded(scenario_doc());
    let outcome = do_set_cell(&mut state, 0, 0, 0, s("foo"), s("baz")).unwrap();
    assert_eq!(outcome.reindex, Reindex::Nothing);
    match outcome.change {
        OperationResult::SetCell { sheet_index, cell } => {
            assert_eq!(sheet_index, 0);
            assert_eq!((cell.row, cell.col), (0, 0));
            assert_eq!(cell.value, s("baz"));
        }
        other => panic!("unexpected change {:?}", other),
    }
    let index = &state.as_ref().unwrap().file_data.sheets[0].index;
    assert!(!index.positions("foo").contains(&CellPosition { row: 0, col: 0 }));
    assert!(index.positions("foo").is_empty());
    assert_eq!(index.positions("baz"), vec![CellPosition { row: 0, col: 0 }]);
    let found = do_search(&state, "foo".to_string(), SearchScope::AllSheets, None).unwrap();
    assert!(found.is_empty());
    let found = do_search(&state, "baz".to_string(), SearchScope::AllSheets, None).unwrap();
    assert_eq!(found.len(), 1);
    assert_eq!(found[0].sheet_index, 0);
    assert_eq!(found[0].sheet_name, "Sheet1");
    assert_eq!(found[0].row, 0);
    assert_eq!(found[0].col, 0);
    assert_eq!(found[0].value, "baz");
    assert_eq!(found[0].cell_position, "A1");
}

#[test]
fn add_column_scenario_undo_restores_two_columns() {
    let mut state = loaded(scenario_doc());
    let outcome = do_add_column(&mut state, 0).unwrap();
    assert_eq!(outcome.reindex, Reindex::Sheet(0));
    match outcome.change {
        OperationResult::AddColumn { sheet_index, column } => {
            assert_eq!(sheet_index, 0);
            assert_eq!(column, ColumnChange { index: 2 });
        }
        other => panic!("unexpected change {:?}", other),
    }
    for row in rows_of(&state, 0) {
        assert_eq!(row.len(), 3);
        assert_eq!(row[2], CellValue::Null);
    }
    match &state.as_ref().unwrap().history[0] {
        Operation::AddColumn { col_index, .. } => assert_eq!(*col_index, Some(2)),
        _ => panic!("unexpected operation"),
    }
    let outcome = do_undo(&mut state).unwrap();
    assert_eq!(outcome.reindex, Reindex::Sheet(0));
    assert!(matches!(
        outcome.change,
        OperationResult::DeleteColumn { sheet_index: 0, column_index: 2 }
    ));
    assert_eq!(rows_of(&state, 0), vec![vec![s("foo"), n("1")], vec![s("bar"), n("2")]]);
}

#[test]
fn delete_row_scenario_undo_reinserts_the_row() {
    let mut state = loaded(scenario_doc());
    let outcome = do_delete_row(&mut state, 0, 1).unwrap();
    assert_eq!(outcome.reindex, Reindex::Sheet(0));
    assert!(matches!(outcome.change, OperationResult::DeleteRow { sheet_index: 0, row_index: 1 }));
    assert_eq!(rows_of(&state, 0), vec![vec![s("foo"), n("1")]]);
    let outcome = do_undo(&mut state).unwrap();
    match outcome.change {
        OperationResult::AddRow { sheet_index, row } => {
            assert_eq!(sheet_index, 0);
            assert_eq!(row.index, 1);
            assert_eq!(row.values, vec![s("bar"), n("2")]);
        }
        other => panic!("unexpected change {:?}", other),
    }
    assert_eq!(rows_of(&state, 0)[1], vec![s("bar"), n("2")]);
    assert_eq!(rows_of(&state, 0).len(), 2);
}

#[test]
fn add_row_call_inserts_a_blank_row() {
    let mut state = loaded(scenario_doc());
    let outcome = do_add_row(&mut state, 0, 0).unwrap();
    assert_eq!(outcome.reindex, Reindex::Sheet(0));
    assert_eq!(rows_of(&state, 0)[0], vec![CellValue::Null, CellValue::Null]);
    assert_eq!(rows_of(&state, 0).len(), 3);
}

#[test]
fn delete_column_call_removes_the_column() {
    let mut state = loaded(scenario_doc());
    let outcome = do_delete_column(&mut state, 0, 1).unwrap();
    assert_eq!(outcome.reindex, Reindex::Sheet(0));
    assert_eq!(rows_of(&state, 0), vec![vec![s("foo")], vec![s("bar")]]);
    do_undo(&mut state).unwrap();
    assert_eq!(rows_of(&state, 0), vec![vec![s("foo"), n("1")], vec![s("bar"), n("2")]]);
}

#[test]
fn add_sheet_call_appends_and_asks_for_its_index() {
    let mut state = loaded(scenario_doc());
    let outcome = do_add_sheet(&mut state).unwrap();
    assert_eq!(outcome.reindex, Reindex::Sheet(1));
    match outcome.change {
        OperationResult::AddSheet { sheet_index, name } => {
            assert_eq!(sheet_index, 1);
            assert_eq!(name, "Sheet2");
        }
        other => panic!("unexpected change {:?}", other),
    }
    assert_eq!(state.as_ref().unwrap().file_data.sheets.len(), 2);
}

#[test]
fn delete_sheet_call_refuses_the_only_sheet() {
    let mut state = loaded(scenario_doc());
    let result = do_delete_sheet(&mut state, 0);
    assert!(matches!(result, Err(AppError::InvalidTarget)));
    let editor = state.as_ref().unwrap();
    assert_eq!(editor.file_data.sheets.len(), 1);
    assert_eq!(editor.file_data.sheets[0].rows, scenario_doc().sheets[0].rows);
    assert!(editor.history.is_empty());
    assert!(!editor.can_undo);
}

#[test]
fn delete_sheet_call_removes_and_undo_restores() {
    let mut state = loaded(two_sheet_doc());
    let outcome = do_delete_sheet(&mut state, 1).unwrap();
    assert_eq!(outcome.reindex, Reindex::Sheet(0));
    assert!(matches!(outcome.change, OperationResult::DeleteSheet { sheet_index: 0 }));
    assert_eq!(state.as_ref().unwrap().file_data.sheets.len(), 1);
    let outcome = do_undo(&mut state).unwrap();
    assert_eq!(outcome.reindex, Reindex::Sheet(1));
    reindex(&mut state, outcome.reindex);
    let editor = state.as_ref().unwrap();
    assert_eq!(editor.file_data.sheets[1].name, "Second");
    assert_eq!(editor.file_data.sheets[1].rows, two_sheet_doc().sheets[1].rows);
    assert_eq!(
        editor.file_data.sheets[1].index.positions("pear"),
        vec![CellPosition { row: 0, col: 0 }]
    );
}

#[test]
fn undo_and_redo_report_empty_stacks() {
    let mut state = loaded(scenario_doc());
    assert!(matches!(do_undo(&mut state), Err(AppError::NothingToUndo)));
    assert!(matches!(do_redo(&mut state), Err(AppError::NothingToRedo)));
    do_set_cell(&mut state, 0, 0, 0, s("foo"), s("baz")).unwrap();
    assert!(matches!(do_redo(&mut state), Err(AppError::NothingToRedo)));
    do_undo(&mut state).unwrap();
    assert!(matches!(do_undo(&mut state), Err(AppError::NothingToUndo)));
}

#[test]
fn undo_that_the_document_refuses_is_an_invalid_target() {
    let mut state = loaded(scenario_doc());
    do_add_sheet(&mut state).unwrap();
    state.as_mut().unwrap().file_data.sheets.pop();
    assert!(matches!(do_undo(&mut state), Err(AppError::InvalidTarget)));
    assert_eq!(state.as_ref().unwrap().history.len(), 1);
}

#[test]
fn undo_of_a_cell_edit_leaves_no_index_work() {
    let mut state = loaded(scenario_doc());
    do_set_cell(&mut state, 0, 1, 0, s("bar"), s("BAZ")).unwrap();
    let outcome = do_undo(&mut state).unwrap();
    assert_eq!(outcome.reindex, Reindex::Nothing);
    let index = &state.as_ref().unwrap().file_data.sheets[0].index;
    assert_eq!(index.positions("bar"), vec![CellPosition { row: 1, col: 0 }]);
    assert!(index.positions("baz").is_empty());
    let outcome = do_redo(&mut state).unwrap();
    assert_eq!(outcome.reindex, Reindex::Nothing);
    let index = &state.as_ref().unwrap().file_data.sheets[0].index;
    assert_eq!(index.positions("baz"), vec![CellPosition { row: 1, col: 0 }]);
}

#[test]
fn dispatch_hands_any_operation_to_the_editor() {
    let mut state = loaded(scenario_doc());
    let request = Operation::AddRow { sheet_index: 0, row_index: 2, row_data: Some(vec![s("x"), s("y")]) };
    let outcome = dispatch(&mut state, request).unwrap();
    assert_eq!(outcome.reindex, Reindex::Sheet(0));
    assert_eq!(rows_of(&state, 0)[2], vec![s("x"), s("y")]);
}

#[test]
fn the_sheet_that_each_change_names() {
    let changes = vec![
        OperationResult::SetCell { sheet_index: 1, cell: CellChange { row: 0, col: 0, value: CellValue::Null } },
        OperationResult::AddRow { sheet_index: 2, row: RowChange { index: 0, values: vec![] } },
        OperationResult::DeleteRow { sheet_index: 3, row_index: 0 },
        OperationResult::AddColumn { sheet_index: 4, column: ColumnChange { index: 0 } },
        OperationResult::DeleteColumn { sheet_index: 5, column_index: 0 },
        OperationResult::AddSheet { sheet_index: 6, name: "n".to_string() },
        OperationResult::DeleteSheet { sheet_index: 7 },
    ];
    for (i, change) in changes.into_iter().enumerate() {
        assert_eq!(extract_sheet_index(&change), i + 1);
        let outcome = outcome_of(change);
        if i == 0 {
            assert_eq!(outcome.reindex, Reindex::Nothing);
        } else {
            assert_eq!(outcome.reindex, Reindex::Sheet(i + 1));
        }
    }
}

#[test]
fn search_with_an_empty_query_finds_nothing() {
    let state = loaded(two_sheet_doc());
    assert!(do_search(&state, String::new(), SearchScope::AllSheets, None).unwrap().is_empty());
    assert!(do_search(&state, String::new(), SearchScope::CurrentSheet, Some(1)).unwrap().is_empty());
    let none: Option<EditorState> = None;
    assert!(do_search(&none, String::new(), SearchScope::AllSheets, None).unwrap().is_empty());
}

#[test]
fn search_of_the_current_sheet_stays_in_that_sheet() {
    let state = loaded(two_sheet_doc());
    let found = do_search(&state, "pear".to_string(), SearchScope::CurrentSheet, Some(0)).unwrap();
    assert_eq!(found.len(), 2);
    assert!(found.iter().all(|hit| hit.sheet_index == 0 && hit.sheet_name == "First"));
    assert_eq!((found[0].row, found[0].col), (0, 1));
    assert_eq!((found[1].row, found[1].col), (1, 0));
    assert_eq!(found[0].cell_position, "B1");
    assert_eq!(found[1].cell_position, "A2");
    assert_eq!(found[0].value, "pear");
    assert_eq!(found[1].value, "Pear");
    let found = do_search(&state, "pear".to_string(), SearchScope::CurrentSheet, Some(1)).unwrap();
    assert_eq!(found.len(), 1);
    assert_eq!(found[0].sheet_index, 1);
    assert_eq!(found[0].sheet_name, "Second");
    assert_eq!(found[0].value, "PEAR");
    assert_eq!(found[0].cell_position, "A1");
}

#[test]
fn search_of_the_current_sheet_defaults_to_the_first() {
    let state = loaded(two_sheet_doc());
    let found = do_search(&state, "plum".to_string(), SearchScope::CurrentSheet, None).unwrap();
    assert!(found.is_empty());
    let found = do_search(&state, "apple".to_string(), SearchScope::CurrentSheet, None).unwrap();
    assert_eq!(found.len(), 1);
    assert_eq!(found[0].sheet_index, 0);
}

#[test]
fn search_of_a_sheet_that_is_not_there_finds_nothing() {
    let state = loaded(two_sheet_doc());
    let found = do_search(&state, "pear".to_string(), SearchScope::CurrentSheet, Some(2)).unwrap();
    assert!(found.is_empty());
}

#[test]
fn search_of_all_sheets_goes_sheet_after_sheet() {
    let state = loaded(two_sheet_doc());
    let found = do_search(&state, "PEAR".to_string(), SearchScope::AllSheets, Some(1)).unwrap();
    let places: Vec<(usize, usize, usize)> = found.iter().map(|h| (h.sheet_index, h.row, h.col)).collect();
    assert_eq!(places, vec![(0, 0, 1), (0, 1, 0), (1, 0, 0)]);
    let found = do_search(&state, "plum".to_string(), SearchScope::AllSheets, None).unwrap();
    assert_eq!(found.len(), 1);
    assert_eq!(found[0].sheet_index, 1);
    assert_eq!(found[0].cell_position, "B1");
}

#[test]
fn search_matches_whole_cells_only() {
    let state = loaded(two_sheet_doc());
    assert!(do_search(&state, "pea".to_string(), SearchScope::AllSheets, None).unwrap().is_empty());
    assert!(do_search(&state, "pears".to_string(), SearchScope::AllSheets, None).unwrap().is_empty());
    assert!(do_search(&state, " pear".to_string(), SearchScope::AllSheets, None).unwrap().is_empty());
}

#[test]
fn search_finds_numbers_and_booleans_by_their_text() {
    let doc = FileData {
        file_name: String::new(),
        sheets: vec![one_sheet("S", vec![vec![n("2.5"), CellValue::Boolean(true), CellValue::Null]])],
    };
    let found = search(&doc, "2.5", SearchScope::AllSheets, None);
    assert!(found.is_empty());
    let state = loaded(doc);
    let found = do_search(&state, "2.5".to_string(), SearchScope::AllSheets, None).unwrap();
    assert_eq!(found.len(), 1);
    assert_eq!(found[0].value, "2.5");
    let found = do_search(&state, "TRUE".to_string(), SearchScope::AllSheets, None).unwrap();
    assert_eq!(found.len(), 1);
    assert_eq!(found[0].value, "true");
    assert_eq!(found[0].cell_position, "B1");
}

#[test]
fn search_reads_a_stale_index_without_failing() {
    let mut state = loaded(scenario_doc());
    do_delete_row(&mut state, 0, 1).unwrap();
    let found = do_search(&state, "bar".to_string(), SearchScope::AllSheets, None).unwrap();
    assert_eq!(found.len(), 1);
    assert_eq!((found[0].row, found[0].col), (1, 0));
    assert_eq!(found[0].value, "");
    assert_eq!(found[0].cell_position, "A2");
    reindex(&mut state, Reindex::Sheet(0));
    let found = do_search(&state, "bar".to_string(), SearchScope::AllSheets, None).unwrap();
    assert!(found.is_empty());
}

#[test]
fn a_structural_change_leaves_the_index_until_it_is_rebuilt() {
    let mut state = loaded(scenario_doc());
    let outcome = do_add_row(&mut state, 0, 0).unwrap();
    let found = do_search(&state, "foo".to_string(), SearchScope::AllSheets, None).unwrap();
    assert_eq!((found[0].row, found[0].col), (0, 0));
    assert_eq!(found[0].value, "");
    reindex(&mut state, outcome.reindex);
    let found = do_search(&state, "foo".to_string(), SearchScope::AllSheets, None).unwrap();
    assert_eq!(found.len(), 1);
    assert_eq!((found[0].row, found[0].col), (1, 0));
    assert_eq!(found[0].value, "foo");
    assert_eq!(found[0].cell_position, "A2");
}

#[test]
fn find_token_reads_the_index_under_the_token_as_given() {
    let state = loaded(two_sheet_doc());
    let doc = &state.as_ref().unwrap().file_data;
    let found = find_token(doc, "pear", SearchScope::AllSheets, None);
    assert_eq!(found.len(), 3);
    let found = find_token(doc, "PEAR", SearchScope::AllSheets, None);
    assert!(found.is_empty());
    let found = find_token(doc, "pear", SearchScope::CurrentSheet, Some(1));
    assert_eq!(found.len(), 1);
    assert_eq!(found[0].sheet_index, 1);
}
