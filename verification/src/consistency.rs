//! How the indexes keep up with the document: a cell edit carries its index
//! along, and after any other change the index work that the change leaves
//! brings the indexes up to date again.

use vstd::prelude::*;
use crate::editor_ops::reindex_for;
use crate::index_laws::{faithful, fits, lemma_edit_keeps_faithful, lemma_rebuilt_is_faithful};
use crate::operation::{apply, change_of, rejects, resolved_sheet, Op};
use crate::round_trip::representable;
use crate::types::{Document, FileData};

verus! {

impl Document {
    /// The index of every sheet is faithful to the sheet's rows.
    pub open spec fn indexed(self) -> bool {
        forall|i: int|
            0 <= i < self.sheets.len() ==> faithful(
                (#[trigger] self.sheets[i]).index,
                self.sheets[i].rows,
            )
    }
}

/// The sizes of a document in memory fit the machine.
pub proof fn lemma_file_data_is_representable(file_data: FileData)
    ensures
        representable(file_data@),
{
    assert(file_data.sheets.len() == file_data.sheets@.len());
    assert forall|i: int| 0 <= i < file_data@.sheets.len() implies (
    #[trigger] file_data@.sheets[i]).rows.len() <= usize::MAX by {
        let rows = file_data.sheets@[i].rows;
        assert(rows.len() == rows@.len());
        assert(file_data@.sheets[i].rows.len() == rows@.len());
    }
    assert forall|i: int, r: int|
        0 <= i < file_data@.sheets.len() && 0 <= r < file_data@.sheets[i].rows.len() implies (
    #[trigger] file_data@.sheets[i].rows[r]).len() <= usize::MAX by {
        let row = file_data.sheets@[i].rows@[r];
        assert(row.len() == row@.len());
        assert(file_data@.sheets[i].rows[r].len() == row@.len());
    }
}

proof fn lemma_representable_fits(doc: Document, i: int)
    requires
        representable(doc),
        0 <= i < doc.sheets.len(),
    ensures
        fits(doc.sheets[i].rows),
{
    assert(doc.sheets[i].rows.len() <= usize::MAX);
    assert forall|r: int| 0 <= r < doc.sheets[i].rows.len() implies (
    #[trigger] doc.sheets[i].rows[r]).len() <= usize::MAX by {}
}

/// Rebuilding the index of a sheet brings it up to date, whatever it held
/// and whenever it is done; rebuilding it once more changes nothing.
pub proof fn lemma_reindexed_is_faithful(doc: Document, i: usize)
    requires
        representable(doc),
        doc.has_sheet(i),
    ensures
        faithful(doc.reindexed(i).sheets[i as int].index, doc.reindexed(i).sheets[i as int].rows),
        doc.reindexed(i).sheets[i as int].content() == doc.sheets[i as int].content(),
        doc.reindexed(i).reindexed(i) == doc.reindexed(i),
{
    lemma_representable_fits(doc, i as int);
    lemma_rebuilt_is_faithful(doc.sheets[i as int].rows);
    assert(doc.reindexed(i).reindexed(i).sheets =~= doc.reindexed(i).sheets);
}

/// Rebuilding the index of every sheet brings all indexes up to date.
pub proof fn lemma_reindexed_all_is_indexed(doc: Document)
    requires
        representable(doc),
    ensures
        doc.reindexed_all().indexed(),
{
    assert forall|i: int| 0 <= i < doc.reindexed_all().sheets.len() implies faithful(
        (#[trigger] doc.reindexed_all().sheets[i]).index,
        doc.reindexed_all().sheets[i].rows,
    ) by {
        lemma_representable_fits(doc, i);
        lemma_rebuilt_is_faithful(doc.sheets[i].rows);
    }
}

/// After an operation, the index work that its change leaves brings all
/// indexes up to date again, where they were up to date before: a cell edit
/// leaves none because its index followed it, and any other change leaves the
/// rebuilding of the one sheet whose cells moved.
pub proof fn lemma_reindex_restores_indexes(doc: Document, op: Op)
    requires
        representable(doc),
        representable(apply(op, doc)),
        doc.indexed(),
        !rejects(op, doc),
    ensures
        apply(op, doc).after_reindex(reindex_for(change_of(op, doc))).indexed(),
{
    let after = apply(op, doc);
    let settled = after.after_reindex(reindex_for(change_of(op, doc)));
    match op {
        Op::SetCell { sheet_index, row, col, old_value, new_value } => {
            assert forall|i: int| 0 <= i < settled.sheets.len() implies faithful(
                (#[trigger] settled.sheets[i]).index,
                settled.sheets[i].rows,
            ) by {
                if doc.has_sheet(sheet_index) && i == sheet_index {
                    lemma_representable_fits(doc, i);
                    lemma_edit_keeps_faithful(doc.sheets[i], row, col, new_value);
                } else {
                    assert(settled.sheets[i] == doc.sheets[i]);
                }
            }
        },
        Op::AddSheet { name, sheet_data } => {
            let added = doc.sheets.len() as usize;
            assert(after.sheets.len() == doc.sheets.len() + 1);
            assert(after.has_sheet(added));
            assert forall|i: int| 0 <= i < settled.sheets.len() implies faithful(
                (#[trigger] settled.sheets[i]).index,
                settled.sheets[i].rows,
            ) by {
                if i == added {
                    lemma_representable_fits(after, i);
                    lemma_rebuilt_is_faithful(after.sheets[i].rows);
                } else {
                    assert(settled.sheets[i] == doc.sheets[i]);
                }
            }
        },
        Op::DeleteSheet { sheet_index, sheet_data } => {
            let at = resolved_sheet(sheet_index, doc.sheets.len());
            lemma_rebuilt_or_kept(doc, after, settled, sheet_index, at);
        },
        Op::AddRow { sheet_index, row_index, row_data } => {
            lemma_rebuilt_in_place(doc, after, settled, sheet_index);
        },
        Op::DeleteRow { sheet_index, row_index, row_data } => {
            lemma_rebuilt_in_place(doc, after, settled, sheet_index);
        },
        Op::AddColumn { sheet_index, col_index, col_data } => {
            lemma_rebuilt_in_place(doc, after, settled, sheet_index);
        },
        Op::DeleteColumn { sheet_index, col_index, col_data } => {
            lemma_rebuilt_in_place(doc, after, settled, sheet_index);
        },
    }
}

proof fn lemma_rebuilt_in_place(doc: Document, after: Document, settled: Document, i: usize)
    requires
        representable(after),
        doc.indexed(),
        after == doc || (doc.has_sheet(i) && after == doc.with_sheet(i, after.sheets[i as int])),
        settled == after.reindexed(i),
    ensures
        settled.indexed(),
{
    assert forall|k: int| 0 <= k < settled.sheets.len() implies faithful(
        (#[trigger] settled.sheets[k]).index,
        settled.sheets[k].rows,
    ) by {
        if after.has_sheet(i) && k == i {
            lemma_representable_fits(after, k);
            lemma_rebuilt_is_faithful(after.sheets[k].rows);
        } else {
            assert(settled.sheets[k] == doc.sheets[k]);
        }
    }
}

proof fn lemma_rebuilt_or_kept(
    doc: Document,
    after: Document,
    settled: Document,
    sheet_index: usize,
    at: int,
)
    requires
        representable(after),
        doc.indexed(),
        after == doc || (0 <= at < doc.sheets.len() && after == (Document {
            sheets: doc.sheets.remove(at),
            ..doc
        })),
        exists|i: usize| settled == after.reindexed(i),
    ensures
        settled.indexed(),
{
    let i = choose|i: usize| settled == after.reindexed(i);
    assert forall|k: int| 0 <= k < after.sheets.len() implies faithful(
        (#[trigger] after.sheets[k]).index,
        after.sheets[k].rows,
    ) by {
        if after != doc {
            if k < at {
                assert(after.sheets[k] == doc.sheets[k]);
            } else {
                assert(after.sheets[k] == doc.sheets[k + 1]);
            }
        }
    }
    assert forall|k: int| 0 <= k < settled.sheets.len() implies faithful(
        (#[trigger] settled.sheets[k]).index,
        settled.sheets[k].rows,
    ) by {
        if after.has_sheet(i) && k == i {
            lemma_representable_fits(after, k);
            lemma_rebuilt_is_faithful(after.sheets[k].rows);
        } else {
            assert(settled.sheets[k] == after.sheets[k]);
        }
    }
}

} // verus!
