//! Search: the cells whose whole text folds to the query's token, read from
//! the index of one sheet or of every sheet.

use vstd::prelude::*;
use vstd::string::*;
use crate::editor_state::EditorState;
use crate::error::AppError;
use crate::index_ops::bucket;
use crate::text::{cell_label, cell_position_text, cell_to_string, lowercase, text_of, to_lowercase};
use crate::types::{CellPosition, Document, FileData, Hit, SearchResult, SearchScope, Sheet, SheetData};

verus! {

/// What a search reports of the cell at `position` of a sheet: the sheet, the
/// place, the cell's text (none where the sheet has no such cell) and its
/// coordinate.
pub open spec fn hit_at(sheet: Sheet, sheet_index: usize, position: CellPosition) -> Hit {
    Hit {
        sheet_index,
        sheet_name: sheet.name,
        row: position.row,
        col: position.col,
        value: if sheet.has_cell(position.row, position.col) {
            text_of(sheet.rows[position.row as int][position.col as int])
        } else {
            Seq::empty()
        },
        cell_position: cell_label(position.row as nat, position.col as nat),
    }
}

/// The hits of one sheet for a token: one for each position that the sheet's
/// index lists under it, in the index's order.
pub open spec fn sheet_hits(sheet: Sheet, sheet_index: usize, token: Seq<char>) -> Seq<Hit> {
    Seq::new(
        bucket(sheet.index, token).len(),
        |i: int| hit_at(sheet, sheet_index, bucket(sheet.index, token)[i]),
    )
}

/// The hits of all the sheets for a token, sheet after sheet.
pub open spec fn all_hits(sheets: Seq<Sheet>, token: Seq<char>) -> Seq<Hit>
    decreases sheets.len(),
{
    if sheets.len() == 0 {
        Seq::empty()
    } else {
        all_hits(sheets.drop_last(), token) + sheet_hits(
            sheets.last(),
            (sheets.len() - 1) as usize,
            token,
        )
    }
}

/// The sheet that a search of the current sheet reads: the given one, the
/// first where none is given.
pub open spec fn searched_sheet(current: Option<usize>) -> usize {
    match current {
        Some(i) => i,
        None => 0,
    }
}

/// What a search for a token returns: the hits of the current sheet, none
/// where the document has no such sheet, or those of all sheets.
pub open spec fn token_hits(
    doc: Document,
    token: Seq<char>,
    scope: SearchScope,
    current: Option<usize>,
) -> Seq<Hit> {
    match scope {
        SearchScope::CurrentSheet => {
            let at = searched_sheet(current);
            if doc.has_sheet(at) {
                sheet_hits(doc.sheets[at as int], at, token)
            } else {
                Seq::empty()
            }
        },
        SearchScope::AllSheets => all_hits(doc.sheets, token),
    }
}

/// What a search returns. An empty query finds nothing. Otherwise the query is
/// folded as the cells' texts are, and the hits are those of its token.
pub open spec fn search_hits(
    doc: Document,
    query: Seq<char>,
    scope: SearchScope,
    current: Option<usize>,
) -> Seq<Hit> {
    if query.len() == 0 {
        Seq::empty()
    } else {
        token_hits(doc, lowercase(query), scope, current)
    }
}

/// The hits of all sheets come sheet after sheet, each from a sheet of the
/// document, and no sheet with hits is passed over.
pub proof fn lemma_all_hits_in_sheet_order(sheets: Seq<Sheet>, token: Seq<char>)
    requires
        sheets.len() <= usize::MAX,
    ensures
        forall|i: int|
            0 <= i < all_hits(sheets, token).len() ==> (#[trigger] all_hits(
                sheets,
                token,
            )[i]).sheet_index < sheets.len(),
        forall|i: int, j: int|
            0 <= i <= j < all_hits(sheets, token).len() ==> (#[trigger] all_hits(
                sheets,
                token,
            )[i]).sheet_index <= (#[trigger] all_hits(sheets, token)[j]).sheet_index,
        forall|s: int|
            0 <= s < sheets.len() && bucket((#[trigger] sheets[s]).index, token).len() > 0
                ==> exists|i: int|
                0 <= i < all_hits(sheets, token).len() && (#[trigger] all_hits(
                    sheets,
                    token,
                )[i]).sheet_index == s,
    decreases sheets.len(),
{
    if sheets.len() > 0 {
        let head = sheets.drop_last();
        let before = all_hits(head, token);
        let last = sheet_hits(sheets.last(), (sheets.len() - 1) as usize, token);
        let whole = all_hits(sheets, token);
        lemma_all_hits_in_sheet_order(head, token);
        assert(whole == before + last);
        assert forall|i: int| 0 <= i < whole.len() implies (#[trigger] whole[i]).sheet_index
            < sheets.len() && (i < before.len() ==> whole[i] == before[i]) && (i >= before.len()
            ==> whole[i].sheet_index == sheets.len() - 1) by {
            if i < before.len() {
                assert(whole[i] == before[i]);
            } else {
                assert(whole[i] == last[i - before.len()]);
            }
        }
        assert forall|s: int|
            0 <= s < sheets.len() && bucket((#[trigger] sheets[s]).index, token).len()
                > 0 implies exists|i: int|
            0 <= i < whole.len() && (#[trigger] whole[i]).sheet_index == s by {
            if s == sheets.len() - 1 {
                assert(whole[before.len() as int].sheet_index == s);
            } else {
                assert(head[s] == sheets[s]);
                let i = choose|i: int|
                    0 <= i < before.len() && (#[trigger] before[i]).sheet_index == s;
                assert(whole[i].sheet_index == s);
            }
        }
    }
}

/// Adds the hits of one sheet for a token to those found so far.
fn push_sheet_hits(found: &mut Vec<SearchResult>, sheet: &SheetData, sheet_index: usize, token: &str)
    ensures
        final(found).deep_view() == old(found).deep_view() + sheet_hits(
            sheet@,
            sheet_index,
            token@,
        ),
{
    let positions = sheet.index.positions(token);
    let ghost hits = sheet_hits(sheet@, sheet_index, token@);
    let mut i: usize = 0;
    assert(found.deep_view() =~= old(found).deep_view() + hits.take(0));
    while i < positions.len()
        invariant
            i <= positions.len(),
            positions@ == bucket(sheet@.index, token@),
            hits == sheet_hits(sheet@, sheet_index, token@),
            found.deep_view() == old(found).deep_view() + hits.take(i as int),
        decreases positions.len() - i,
    {
        let position = positions[i];
        let value = if position.row < sheet.rows.len() && position.col
            < sheet.rows[position.row].len() {
            cell_to_string(&sheet.rows[position.row][position.col])
        } else {
            String::new()
        };
        let ghost before = found.deep_view();
        let hit = SearchResult {
            sheet_index,
            sheet_name: sheet.name.clone(),
            row: position.row,
            col: position.col,
            value,
            cell_position: cell_position_text(position.row, position.col),
        };
        assert(hit@ == hits[i as int]);
        found.push(hit);
        assert(found.deep_view() =~= before.push(hits[i as int]));
        assert(hits.take(i + 1) =~= hits.take(i as int).push(hits[i as int]));
        assert(found.deep_view() =~= old(found).deep_view() + hits.take(i + 1));
        i = i + 1;
    }
    assert(hits.take(i as int) =~= hits);
}

/// Finds the cells that a document's indexes list under a token.
///
/// A search of the current sheet returns hits of that sheet alone. A search
/// of all sheets returns the hits sheet after sheet, in the order of the
/// sheets, and leaves out no sheet whose index lists the token.
pub fn find_token(file_data: &FileData, token: &str, scope: SearchScope, current: Option<usize>) -> (found:
    Vec<SearchResult>)
    ensures
        found.deep_view() == token_hits(file_data@, token@, scope, current),
        scope is CurrentSheet ==> forall|i: int|
            0 <= i < found.len() ==> (#[trigger] found[i]).sheet_index == searched_sheet(current),
        scope is AllSheets ==> forall|i: int, j: int|
            0 <= i <= j < found.len() ==> (#[trigger] found[i]).sheet_index <= (
            #[trigger] found[j]).sheet_index,
        scope is AllSheets ==> forall|s: int|
            0 <= s < file_data@.sheets.len() && bucket(
                (#[trigger] file_data@.sheets[s]).index,
                token@,
            ).len() > 0 ==> exists|i: int|
                0 <= i < found.len() && (#[trigger] found[i]).sheet_index == s,
{
    let mut found: Vec<SearchResult> = Vec::new();
    assert(found.deep_view() =~= Seq::<Hit>::empty());
    match scope {
        SearchScope::CurrentSheet => {
            let at = match current {
                Some(i) => i,
                None => 0,
            };
            if at < file_data.sheets.len() {
                push_sheet_hits(&mut found, &file_data.sheets[at], at, token);
                assert(found.deep_view() =~= sheet_hits(file_data@.sheets[at as int], at, token@));
            }
            assert forall|i: int| 0 <= i < found.len() implies (#[trigger] found[i]).sheet_index
                == at by {
                assert(found.deep_view()[i] == found[i]@);
            }
        },
        SearchScope::AllSheets => {
            let ghost sheets = file_data@.sheets;
            let mut s: usize = 0;
            assert(sheets.take(0) =~= Seq::<Sheet>::empty());
            while s < file_data.sheets.len()
                invariant
                    s <= file_data.sheets.len(),
                    sheets == file_data@.sheets,
                    found.deep_view() == all_hits(sheets.take(s as int), token@),
                decreases file_data.sheets.len() - s,
            {
                push_sheet_hits(&mut found, &file_data.sheets[s], s, token);
                assert(sheets.take(s + 1).drop_last() =~= sheets.take(s as int));
                s = s + 1;
            }
            assert(sheets.take(s as int) =~= sheets);
            proof {
                lemma_all_hits_in_sheet_order(sheets, token@);
                let hits = all_hits(sheets, token@);
                assert forall|i: int| 0 <= i < found.len() implies (#[trigger] found[i]).sheet_index
                    == hits[i].sheet_index by {
                    assert(found.deep_view()[i] == found[i]@);
                }
                assert forall|t: int|
                    0 <= t < sheets.len() && bucket((#[trigger] sheets[t]).index, token@).len()
                        > 0 implies exists|i: int|
                    0 <= i < found.len() && (#[trigger] found[i]).sheet_index == t by {
                    let i = choose|i: int|
                        0 <= i < hits.len() && (#[trigger] hits[i]).sheet_index == t;
                    assert(found[i].sheet_index == t);
                }
            }
        },
    }
    found
}

/// Searches a document for the cells whose text folds to the same token as
/// the query. An empty query finds nothing.
///
/// A search of the current sheet returns hits of that sheet alone. A search
/// of all sheets returns the hits sheet after sheet, in the order of the
/// sheets, and leaves out no sheet whose index lists the query's token.
pub fn search(file_data: &FileData, query: &str, scope: SearchScope, current: Option<usize>) -> (found:
    Vec<SearchResult>)
    ensures
        found.deep_view() == search_hits(file_data@, query@, scope, current),
        scope is CurrentSheet ==> forall|i: int|
            0 <= i < found.len() ==> (#[trigger] found[i]).sheet_index == searched_sheet(current),
        scope is AllSheets ==> forall|i: int, j: int|
            0 <= i <= j < found.len() ==> (#[trigger] found[i]).sheet_index <= (
            #[trigger] found[j]).sheet_index,
        scope is AllSheets && query@.len() > 0 ==> forall|s: int|
            0 <= s < file_data@.sheets.len() && bucket(
                (#[trigger] file_data@.sheets[s]).index,
                lowercase(query@),
            ).len() > 0 ==> exists|i: int|
                0 <= i < found.len() && (#[trigger] found[i]).sheet_index == s,
{
    if query.is_empty() {
        let found: Vec<SearchResult> = Vec::new();
        assert(found.deep_view() =~= Seq::<Hit>::empty());
        return found;
    }
    let token = to_lowercase(query);
    find_token(file_data, token.as_str(), scope, current)
}

/// Searches the document under edit. An empty query finds nothing, whether or
/// not a document is loaded; any other query fails with
/// `AppError::NoActiveDocument` where none is.
pub fn do_search(
    state: &Option<EditorState>,
    query: String,
    scope: SearchScope,
    current_sheet_index: Option<usize>,
) -> (result: Result<Vec<SearchResult>, AppError>)
    ensures
        query@.len() > 0 && state is None ==> result matches Err(AppError::NoActiveDocument),
        query@.len() == 0 ==> (result matches Ok(found) && found.len() == 0),
        query@.len() > 0 ==> (state matches Some(editor) ==> (result matches Ok(found)
            && found.deep_view() == search_hits(
            editor@.document,
            query@,
            scope,
            current_sheet_index,
        ) && (scope is CurrentSheet ==> forall|i: int|
            0 <= i < found.len() ==> (#[trigger] found[i]).sheet_index == searched_sheet(
                current_sheet_index,
            )) && (scope is AllSheets ==> forall|i: int, j: int|
            0 <= i <= j < found.len() ==> (#[trigger] found[i]).sheet_index <= (
            #[trigger] found[j]).sheet_index) && (scope is AllSheets ==> forall|s: int|
            0 <= s < editor@.document.sheets.len() && bucket(
                (#[trigger] editor@.document.sheets[s]).index,
                lowercase(query@),
            ).len() > 0 ==> exists|i: int|
                0 <= i < found.len() && (#[trigger] found[i]).sheet_index == s))),
{
    if query.as_str().is_empty() {
        return Ok(Vec::new());
    }
    match state {
        None => Err(AppError::NoActiveDocument),
        Some(editor) => Ok(search(&editor.file_data, query.as_str(), scope, current_sheet_index)),
    }
}

} // verus!
